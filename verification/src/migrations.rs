//! Hand-written migrations: SQL to run going up and coming down, each
//! split into the separate commands that a migration runner sends.
use crate::text::{
    all_white_space, chars_of, is_white_space, lemma_trim, lemma_trim_ignores_leading_white_space,
    lemma_trim_ignores_trailing_white_space, lemma_trim_keeps_text, skip_white_backward,
    skip_white_forward, string_of_range, trim,
};
use crate::Syntax;
use vstd::prelude::*;

verus! {

/// The length of the text before the first `;` of `s` (the length of `s` when
/// it holds none).
pub open spec fn semicolon_at(s: Seq<char>) -> nat
    decreases s.len(),
{
    if s.len() == 0 || s[0] == ';' {
        0
    } else {
        1 + semicolon_at(s.drop_first())
    }
}

/// `c` as a command list: none when `c` is empty, else `c` alone.
pub open spec fn keep_nonempty(c: Seq<char>) -> Seq<Seq<char>> {
    if c.len() == 0 {
        seq![]
    } else {
        seq![c]
    }
}

/// The commands of a SQL text: the pieces between `;`s, each with its
/// surrounding white space removed, leaving out the pieces that are then empty.
pub open spec fn sql_commands(s: Seq<char>) -> Seq<Seq<char>>
    decreases s.len(),
{
    let k = semicolon_at(s);
    if k < s.len() {
        keep_nonempty(trim(s.take(k as int))) + sql_commands(s.skip(k + 1int))
    } else {
        keep_nonempty(trim(s))
    }
}

/// The texts of a list of strings.
pub open spec fn views(v: Seq<String>) -> Seq<Seq<char>> {
    v.map_values(|c: String| c@)
}

/// `semicolon_at` is the first position holding `;`, or the length.
pub proof fn lemma_semicolon_at(s: Seq<char>, k: int)
    requires
        0 <= k <= s.len(),
        forall|j: int| 0 <= j < k ==> s[j] != ';',
        k < s.len() ==> s[k] == ';',
    ensures
        semicolon_at(s) == k,
    decreases k,
{
    if k > 0 {
        assert(s[0] != ';');
        lemma_semicolon_at(s.drop_first(), k - 1);
    }
}

/// Appends the trimmed text `v[lo..hi]` to `out` unless it is empty.
fn push_trimmed(out: &mut Vec<String>, v: &Vec<char>, lo: usize, hi: usize)
    requires
        lo <= hi <= v@.len(),
    ensures
        views(final(out)@) == views(old(out)@) + keep_nonempty(
            trim(v@.subrange(lo as int, hi as int)),
        ),
{
    let a = skip_white_forward(v, lo, hi);
    let b = skip_white_backward(v, a, hi);
    assert(trim(v@.subrange(lo as int, hi as int)) == v@.subrange(a as int, b as int));
    if a < b {
        let c = string_of_range(v, a, b);
        out.push(c);
        assert(views(out@) =~= views(old(out)@) + seq![c@]);
    } else {
        assert(views(out@) =~= views(old(out)@) + seq![]);
    }
}

/// Splits a SQL text into its commands (see `sql_commands`).
pub fn split_sql_commands(sql: &str) -> (r: Vec<String>)
    ensures
        views(r@) == sql_commands(sql@),
{
    let v = chars_of(sql);
    let n = v.len();
    let mut out: Vec<String> = Vec::new();
    let mut start: usize = 0;
    let mut i: usize = 0;
    assert(v@.skip(0) =~= v@);
    assert(views(out@) =~= seq![]);
    while i < n
        invariant
            start <= i <= n,
            n == v@.len(),
            v@ == sql@,
            forall|j: int| start <= j < i ==> v@[j] != ';',
            views(out@) + sql_commands(v@.skip(start as int)) == sql_commands(v@),
        decreases n - i,
    {
        if v[i] == ';' {
            let ghost rest = v@.skip(start as int);
            let ghost before = views(out@);
            proof {
                lemma_semicolon_at(rest, i - start);
                assert(rest.take(i - start) =~= v@.subrange(start as int, i as int));
                assert(rest.skip(i - start + 1) =~= v@.skip(i + 1));
            }
            push_trimmed(&mut out, &v, start, i);
            let ghost piece = keep_nonempty(trim(v@.subrange(start as int, i as int)));
            assert(before + (piece + sql_commands(v@.skip(i + 1))) =~= (before + piece)
                + sql_commands(v@.skip(i + 1)));
            start = i + 1;
        }
        i = i + 1;
    }
    let ghost rest = v@.skip(start as int);
    let ghost before = views(out@);
    proof {
        lemma_semicolon_at(rest, n - start);
        assert(rest =~= v@.subrange(start as int, n as int));
    }
    push_trimmed(&mut out, &v, start, n);
    out
}

/// A migration written by hand: the SQL that applies it and the SQL that
/// rolls it back.
pub struct Manual {
    up: String,
    down: String,
}

impl Manual {
    /// The SQL that applies the migration.
    pub closed spec fn up_text(&self) -> Seq<char> {
        self.up@
    }

    /// The SQL that rolls the migration back.
    pub closed spec fn down_text(&self) -> Seq<char> {
        self.down@
    }

    /// A migration that runs `sql` going up and nothing coming down.
    pub fn up(sql: String) -> (m: Manual)
        ensures
            m.up_text() == sql@,
            m.down_text() == Seq::<char>::empty(),
    {
        Manual { up: sql, down: String::new() }
    }

    /// The same migration with `sql` run coming down.
    pub fn down(self, sql: String) -> (m: Manual)
        ensures
            m.up_text() == self.up_text(),
            m.down_text() == sql@,
    {
        let mut s = self;
        s.down = sql;
        s
    }

    /// The commands that apply the migration; the same for every dialect.
    pub fn up_sql(&self, syntax: Syntax) -> (r: Vec<String>)
        ensures
            views(r@) == sql_commands(self.up_text()),
    {
        split_sql_commands(self.up.as_str())
    }

    /// The commands that roll the migration back; the same for every dialect.
    pub fn down_sql(&self, syntax: Syntax) -> (r: Vec<String>)
        ensures
            views(r@) == sql_commands(self.down_text()),
    {
        split_sql_commands(self.down.as_str())
    }
}

/// What every command of a SQL text is like: not empty, free of `;`, and
/// neither starting nor ending with white space.
pub open spec fn command_well_formed(c: Seq<char>) -> bool {
    &&& c.len() > 0
    &&& !c.contains(';')
    &&& !is_white_space(c[0])
    &&& !is_white_space(c.last())
}

/// `semicolon_at(s)` is at most the length of `s`, no `;` comes before it, and
/// a `;` stands there unless it is the length.
pub proof fn lemma_semicolon_at_bounds(s: Seq<char>)
    ensures
        semicolon_at(s) <= s.len(),
        forall|j: int| 0 <= j < semicolon_at(s) ==> s[j] != ';',
        semicolon_at(s) < s.len() ==> s[semicolon_at(s) as int] == ';',
    decreases s.len(),
{
    if !(s.len() == 0 || s[0] == ';') {
        lemma_semicolon_at_bounds(s.drop_first());
        assert forall|j: int| 0 <= j < semicolon_at(s) implies s[j] != ';' by {
            if j > 0 {
                assert(s[j] == s.drop_first()[j - 1]);
            }
        }
    }
}

/// Every command that a migration sends is well formed (`command_well_formed`):
/// splitting never yields an empty command, a command holding `;`, or one with
/// white space at either end.
pub proof fn lemma_commands_well_formed(s: Seq<char>)
    ensures
        forall|i: int|
            0 <= i < sql_commands(s).len() ==> command_well_formed(#[trigger] sql_commands(s)[i]),
    decreases s.len(),
{
    let k = semicolon_at(s);
    lemma_semicolon_at_bounds(s);
    if k < s.len() {
        let head = s.take(k as int);
        lemma_trim(head);
        lemma_commands_well_formed(s.skip(k + 1int));
        let first = keep_nonempty(trim(head));
        let rest = sql_commands(s.skip(k + 1int));
        assert forall|i: int| 0 <= i < sql_commands(s).len() implies command_well_formed(
            #[trigger] sql_commands(s)[i],
        ) by {
            if i < first.len() {
                assert(!head.contains(';'));
            } else {
                assert(sql_commands(s)[i] == rest[i - first.len()]);
            }
        }
    } else {
        lemma_trim(s);
        assert(!s.contains(';'));
    }
}

/// Joining two SQL texts with `;` joins their command lists: the commands of
/// `a;b` are those of `a` followed by those of `b`.
pub proof fn lemma_commands_of_joined(a: Seq<char>, b: Seq<char>)
    ensures
        sql_commands(a + seq![';'] + b) == sql_commands(a) + sql_commands(b),
    decreases a.len(),
{
    let j = a + seq![';'] + b;
    let k = semicolon_at(a);
    lemma_semicolon_at_bounds(a);
    if k < a.len() {
        lemma_semicolon_at(j, k as int);
        assert(j.take(k as int) =~= a.take(k as int));
        assert(j.skip(k + 1int) =~= a.skip(k + 1int) + seq![';'] + b);
        lemma_commands_of_joined(a.skip(k + 1int), b);
        let first = keep_nonempty(trim(a.take(k as int)));
        assert(first + (sql_commands(a.skip(k + 1int)) + sql_commands(b)) =~= (first
            + sql_commands(a.skip(k + 1int))) + sql_commands(b));
    } else {
        lemma_semicolon_at(j, a.len() as int);
        assert(j.take(a.len() as int) =~= a);
        assert(j.skip(a.len() + 1int) =~= b);
    }
}

/// A text with no `;` that is not all white space is one command: itself
/// with the white space at its ends removed. Nothing else is dropped.
pub proof fn lemma_one_command_without_semicolon(s: Seq<char>)
    requires
        !s.contains(';'),
        trim(s).len() > 0,
    ensures
        sql_commands(s) == seq![trim(s)],
{
    lemma_semicolon_at(s, s.len() as int);
}

/// No text is lost: every character of a SQL text that is neither white space
/// nor `;` stands in one of its commands.
pub proof fn lemma_commands_keep_text(s: Seq<char>, i: int)
    requires
        0 <= i < s.len(),
        !is_white_space(s[i]),
        s[i] != ';',
    ensures
        exists|j: int| 0 <= j < sql_commands(s).len() && (#[trigger] sql_commands(s)[j]).contains(s[i]),
    decreases s.len(),
{
    let k = semicolon_at(s);
    lemma_semicolon_at_bounds(s);
    if k < s.len() {
        let head = s.take(k as int);
        let first = keep_nonempty(trim(head));
        let rest = sql_commands(s.skip(k + 1int));
        if i < k {
            assert(head[i] == s[i]);
            lemma_trim_keeps_text(head, i);
            assert(sql_commands(s)[0] == trim(head));
        } else {
            assert(i != k);
            let t = s.skip(k + 1int);
            assert(t[i - k - 1] == s[i]);
            lemma_commands_keep_text(t, i - k - 1);
            let j = choose|j: int| 0 <= j < rest.len() && (#[trigger] rest[j]).contains(s[i]);
            assert(sql_commands(s)[first.len() + j] == rest[j]);
        }
    } else {
        lemma_trim_keeps_text(s, i);
        assert(sql_commands(s)[0] == trim(s));
    }
}

/// White space added before or after a SQL text changes none of its
/// commands; in particular line ends `\r\n` after the last `;` add nothing.
pub proof fn lemma_commands_ignore_surrounding_white_space(
    w1: Seq<char>,
    s: Seq<char>,
    w2: Seq<char>,
)
    requires
        all_white_space(w1),
        all_white_space(w2),
    ensures
        sql_commands(w1 + s + w2) == sql_commands(s),
{
    lemma_commands_ignore_trailing_white_space(s, w2);
    lemma_commands_ignore_leading_white_space(w1, s + w2);
    assert(w1 + s + w2 =~= w1 + (s + w2));
}

/// A text of white space alone holds no command.
pub proof fn lemma_blank_text_has_no_commands(w: Seq<char>)
    requires
        all_white_space(w),
    ensures
        sql_commands(w) == Seq::<Seq<char>>::empty(),
{
    let e = Seq::<char>::empty();
    lemma_commands_ignore_trailing_white_space(e, w);
    assert(e + w =~= w);
    lemma_semicolon_at(e, 0);
    assert(trim(e) == e);
}

proof fn lemma_no_semicolon_in_white_space(w: Seq<char>)
    requires
        all_white_space(w),
    ensures
        !w.contains(';'),
{
    assert forall|i: int| 0 <= i < w.len() implies w[i] != ';' by {
        assert(is_white_space(w[i]));
    }
}

proof fn lemma_commands_ignore_trailing_white_space(s: Seq<char>, w: Seq<char>)
    requires
        all_white_space(w),
    ensures
        sql_commands(s + w) == sql_commands(s),
    decreases s.len(),
{
    lemma_no_semicolon_in_white_space(w);
    let j = s + w;
    let k = semicolon_at(s);
    lemma_semicolon_at_bounds(s);
    if k < s.len() {
        lemma_semicolon_at(j, k as int);
        assert(j.take(k as int) =~= s.take(k as int));
        assert(j.skip(k + 1int) =~= s.skip(k + 1int) + w);
        lemma_commands_ignore_trailing_white_space(s.skip(k + 1int), w);
    } else {
        assert forall|i: int| 0 <= i < j.len() implies j[i] != ';' by {
            if i >= s.len() {
                assert(j[i] == w[i - s.len()]);
            }
        }
        lemma_semicolon_at(j, j.len() as int);
        lemma_trim_ignores_trailing_white_space(s, w);
    }
}

proof fn lemma_commands_ignore_leading_white_space(w: Seq<char>, s: Seq<char>)
    requires
        all_white_space(w),
    ensures
        sql_commands(w + s) == sql_commands(s),
{
    lemma_no_semicolon_in_white_space(w);
    let j = w + s;
    let k: int = semicolon_at(s) as int;
    lemma_semicolon_at_bounds(s);
    assert forall|i: int| 0 <= i < w.len() + k implies j[i] != ';' by {
        if i < w.len() {
            assert(j[i] == w[i]);
        } else {
            assert(j[i] == s[i - w.len()]);
        }
    }
    if k < s.len() {
        assert(j[w.len() + k] == s[k]);
        lemma_semicolon_at(j, w.len() + k);
        assert(j.take(w.len() + k) =~= w + s.take(k));
        assert(j.skip(w.len() + k + 1) =~= s.skip(k + 1));
        lemma_trim_ignores_leading_white_space(w, s.take(k));
    } else {
        lemma_semicolon_at(j, j.len() as int);
        lemma_trim_ignores_leading_white_space(w, s);
    }
}

} // verus!
