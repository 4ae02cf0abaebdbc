//! Character-level helpers shared by the SQL writers: Unicode white space,
//! trimming, and building `String`s one character at a time.
use vstd::prelude::*;

verus! {

broadcast use vstd::string::group_string_axioms;

} // verus!

verus! {

/// The characters with the Unicode `White_Space` property (the set that
/// `char::is_whitespace` and `str::trim` use).
pub open spec fn is_white_space(c: char) -> bool {
    let u = c as u32;
    ||| 0x09 <= u <= 0x0d
    ||| u == 0x20
    ||| u == 0x85
    ||| u == 0xa0
    ||| u == 0x1680
    ||| 0x2000 <= u <= 0x200a
    ||| u == 0x2028
    ||| u == 0x2029
    ||| u == 0x202f
    ||| u == 0x205f
    ||| u == 0x3000
}

/// `s` without its leading white space.
pub open spec fn trim_start(s: Seq<char>) -> Seq<char>
    decreases s.len(),
{
    if s.len() > 0 && is_white_space(s[0]) {
        trim_start(s.drop_first())
    } else {
        s
    }
}

/// `s` without its trailing white space.
pub open spec fn trim_end(s: Seq<char>) -> Seq<char>
    decreases s.len(),
{
    if s.len() > 0 && is_white_space(s.last()) {
        trim_end(s.drop_last())
    } else {
        s
    }
}

/// `s` without its leading and trailing white space.
pub open spec fn trim(s: Seq<char>) -> Seq<char> {
    trim_end(trim_start(s))
}

/// Decides `is_white_space`.
pub fn white_space(c: char) -> (r: bool)
    ensures
        r == is_white_space(c),
{
    let u = c as u32;
    (0x09 <= u && u <= 0x0d) || u == 0x20 || u == 0x85 || u == 0xa0 || u == 0x1680 || (0x2000
        <= u && u <= 0x200a) || u == 0x2028 || u == 0x2029 || u == 0x202f || u == 0x205f || u
        == 0x3000
}

/// `String::push`: appends one character.
#[verifier::external_body]
pub fn push_char(s: &mut String, c: char)
    ensures
        final(s)@ == old(s)@.push(c),
{
    s.push(c);
}

/// The characters of `s`, in order.
pub fn chars_of(s: &str) -> (r: Vec<char>)
    ensures
        r@ == s@,
{
    let mut v: Vec<char> = Vec::new();
    for c in it: s.chars()
        invariant
            it.seq() == s@,
            v@ == s@.take(it.index()),
    {
        v.push(c);
    }
    v
}

/// The first position in `v[lo..hi]` that does not hold white space, or `hi`:
/// `v[r..hi]` is `v[lo..hi]` with its leading white space removed.
pub fn skip_white_forward(v: &Vec<char>, lo: usize, hi: usize) -> (r: usize)
    requires
        lo <= hi <= v@.len(),
    ensures
        lo <= r <= hi,
        trim_start(v@.subrange(lo as int, hi as int)) == v@.subrange(r as int, hi as int),
{
    let mut i = lo;
    while i < hi && white_space(v[i])
        invariant
            lo <= i <= hi <= v@.len(),
            trim_start(v@.subrange(lo as int, hi as int)) == trim_start(
                v@.subrange(i as int, hi as int),
            ),
        decreases hi - i,
    {
        assert(v@.subrange(i as int, hi as int).drop_first() =~= v@.subrange(
            i + 1,
            hi as int,
        ));
        i = i + 1;
    }
    i
}

/// The position just after the last character in `v[lo..hi]` that is not white
/// space, or `lo`: `v[lo..r]` is `v[lo..hi]` with its trailing white space removed.
pub fn skip_white_backward(v: &Vec<char>, lo: usize, hi: usize) -> (r: usize)
    requires
        lo <= hi <= v@.len(),
    ensures
        lo <= r <= hi,
        trim_end(v@.subrange(lo as int, hi as int)) == v@.subrange(lo as int, r as int),
{
    let mut j = hi;
    while lo < j && white_space(v[j - 1])
        invariant
            lo <= j <= hi <= v@.len(),
            trim_end(v@.subrange(lo as int, hi as int)) == trim_end(
                v@.subrange(lo as int, j as int),
            ),
        decreases j - lo,
    {
        assert(v@.subrange(lo as int, j as int).drop_last() =~= v@.subrange(
            lo as int,
            j - 1,
        ));
        j = j - 1;
    }
    j
}

/// A `String` holding `v[lo..hi]`.
pub fn string_of_range(v: &Vec<char>, lo: usize, hi: usize) -> (r: String)
    requires
        lo <= hi <= v@.len(),
    ensures
        r@ == v@.subrange(lo as int, hi as int),
{
    let mut r = String::new();
    let mut i = lo;
    while i < hi
        invariant
            lo <= i <= hi <= v@.len(),
            r@ == v@.subrange(lo as int, i as int),
        decreases hi - i,
    {
        push_char(&mut r, v[i]);
        assert(r@ =~= v@.subrange(lo as int, i + 1));
        i = i + 1;
    }
    r
}

/// `trim_start(s)` is a suffix of `s` that starts with a character that is not
/// white space (when it is not empty).
pub proof fn lemma_trim_start(s: Seq<char>)
    ensures
        trim_start(s).len() <= s.len(),
        trim_start(s) == s.skip(s.len() - trim_start(s).len()),
        trim_start(s).len() > 0 ==> !is_white_space(trim_start(s)[0]),
        forall|j: int| 0 <= j < s.len() - trim_start(s).len() ==> is_white_space(#[trigger] s[j]),
    decreases s.len(),
{
    if s.len() > 0 && is_white_space(s[0]) {
        lemma_trim_start(s.drop_first());
        assert forall|j: int| 0 <= j < s.len() - trim_start(s).len() implies is_white_space(
            #[trigger] s[j],
        ) by {
            if j > 0 {
                assert(s[j] == s.drop_first()[j - 1]);
            }
        }
        assert(s.drop_first().skip(s.len() - 1 - trim_start(s).len()) =~= s.skip(
            s.len() - trim_start(s).len(),
        ));
    } else {
        assert(s.skip(0) =~= s);
    }
}

/// `trim_end(s)` is a prefix of `s` that ends with a character that is not
/// white space (when it is not empty).
pub proof fn lemma_trim_end(s: Seq<char>)
    ensures
        trim_end(s).len() <= s.len(),
        trim_end(s) == s.take(trim_end(s).len() as int),
        trim_end(s).len() > 0 ==> !is_white_space(trim_end(s).last()),
        forall|j: int| trim_end(s).len() <= j < s.len() ==> is_white_space(#[trigger] s[j]),
    decreases s.len(),
{
    if s.len() > 0 && is_white_space(s.last()) {
        lemma_trim_end(s.drop_last());
        assert forall|j: int| trim_end(s).len() <= j < s.len() implies is_white_space(
            #[trigger] s[j],
        ) by {
            if j < s.len() - 1 {
                assert(s[j] == s.drop_last()[j]);
            }
        }
        assert(s.drop_last().take(trim_end(s).len() as int) =~= s.take(
            trim_end(s).len() as int,
        ));
    } else {
        assert(s.take(s.len() as int) =~= s);
    }
}

/// `trim(s)` is a piece of `s` that neither starts nor ends with white space.
pub proof fn lemma_trim(s: Seq<char>)
    ensures
        forall|c: char| trim(s).contains(c) ==> s.contains(c),
        trim(s).len() > 0 ==> !is_white_space(trim(s)[0]) && !is_white_space(trim(s).last()),
{
    let t = trim_start(s);
    lemma_trim_start(s);
    lemma_trim_end(t);
    let r = trim(s);
    assert forall|c: char| r.contains(c) implies s.contains(c) by {
        let i = choose|i: int| 0 <= i < r.len() && r[i] == c;
        assert(t[i] == c);
        assert(s[i + s.len() - t.len()] == c);
    }
    if r.len() > 0 {
        assert(r[0] == t[0]);
    }
}

/// Every character of `w` is white space.
pub open spec fn all_white_space(w: Seq<char>) -> bool {
    forall|i: int| 0 <= i < w.len() ==> is_white_space(#[trigger] w[i])
}

/// The white space that trimming removes is exactly the Unicode `White_Space`
/// set, named character by character: tab, line feed, vertical tab, form
/// feed, carriage return, space, next line, no-break space, ogham space mark,
/// the eleven spaces from en quad to hair space, line separator, paragraph
/// separator, narrow no-break space, medium mathematical space and
/// ideographic space.
pub proof fn lemma_white_space_characters(c: char)
    ensures
        is_white_space(c) <==> (c == '\t' || c == '\n' || c == '\u{0B}' || c == '\u{0C}' || c
            == '\r' || c == ' ' || c == '\u{85}' || c == '\u{A0}' || c == '\u{1680}' || c
            == '\u{2000}' || c == '\u{2001}' || c == '\u{2002}' || c == '\u{2003}' || c
            == '\u{2004}' || c == '\u{2005}' || c == '\u{2006}' || c == '\u{2007}' || c
            == '\u{2008}' || c == '\u{2009}' || c == '\u{200A}' || c == '\u{2028}' || c
            == '\u{2029}' || c == '\u{202F}' || c == '\u{205F}' || c == '\u{3000}'),
{
}

/// Trimming ignores white space added at the end: `trim(x + w) == trim(x)`.
pub proof fn lemma_trim_ignores_trailing_white_space(x: Seq<char>, w: Seq<char>)
    requires
        all_white_space(w),
    ensures
        trim(x + w) == trim(x),
{
    lemma_trim_start(x);
    let t = trim_start(x);
    if t.len() > 0 {
        lemma_trim_start_append(x, w);
        lemma_trim_end_white_tail(t, w);
    } else {
        lemma_trim_start_append_blank(x, w);
        lemma_trim_start_blank(w);
        assert(trim_end(Seq::<char>::empty()) == Seq::<char>::empty());
    }
}

/// Trimming ignores white space added at the start: `trim(w + x) == trim(x)`.
pub proof fn lemma_trim_ignores_leading_white_space(w: Seq<char>, x: Seq<char>)
    requires
        all_white_space(w),
    ensures
        trim(w + x) == trim(x),
    decreases w.len(),
{
    if w.len() > 0 {
        assert((w + x).drop_first() =~= w.drop_first() + x);
        lemma_trim_ignores_leading_white_space(w.drop_first(), x);
    } else {
        assert(w + x =~= x);
    }
}

/// A text of white space alone trims to nothing.
pub proof fn lemma_trim_start_blank(w: Seq<char>)
    requires
        all_white_space(w),
    ensures
        trim_start(w) == Seq::<char>::empty(),
    decreases w.len(),
{
    if w.len() > 0 {
        lemma_trim_start_blank(w.drop_first());
    }
}

proof fn lemma_trim_start_append(x: Seq<char>, y: Seq<char>)
    requires
        trim_start(x).len() > 0,
    ensures
        trim_start(x + y) == trim_start(x) + y,
    decreases x.len(),
{
    if x.len() > 0 && is_white_space(x[0]) {
        assert((x + y).drop_first() =~= x.drop_first() + y);
        lemma_trim_start_append(x.drop_first(), y);
    } else {
        if x.len() == 0 {
            assert(trim_start(x).len() == 0);
        }
        assert((x + y)[0] == x[0]);
    }
}

proof fn lemma_trim_start_append_blank(x: Seq<char>, y: Seq<char>)
    requires
        trim_start(x).len() == 0,
    ensures
        trim_start(x + y) == trim_start(y),
    decreases x.len(),
{
    if x.len() > 0 {
        if !is_white_space(x[0]) {
            assert(trim_start(x) == x);
        }
        assert((x + y).drop_first() =~= x.drop_first() + y);
        lemma_trim_start_append_blank(x.drop_first(), y);
    } else {
        assert(x + y =~= y);
    }
}

proof fn lemma_trim_end_white_tail(t: Seq<char>, w: Seq<char>)
    requires
        all_white_space(w),
    ensures
        trim_end(t + w) == trim_end(t),
    decreases w.len(),
{
    if w.len() > 0 {
        assert((t + w).drop_last() =~= t + w.drop_last());
        assert((t + w).last() == w.last());
        lemma_trim_end_white_tail(t, w.drop_last());
    } else {
        assert(t + w =~= t);
    }
}

/// Trimming removes white space only: a character of `x` that is not white
/// space is still in `trim(x)`.
pub proof fn lemma_trim_keeps_text(x: Seq<char>, i: int)
    requires
        0 <= i < x.len(),
        !is_white_space(x[i]),
    ensures
        trim(x).contains(x[i]),
{
    let t = trim_start(x);
    lemma_trim_start(x);
    let off = x.len() - t.len();
    assert(i >= off);
    assert(t[i - off] == x[i]);
    lemma_trim_end(t);
    assert(i - off < trim_end(t).len());
    assert(trim(x)[i - off] == x[i]);
}

} // verus!
