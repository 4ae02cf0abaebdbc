//! How each SQL dialect writes a column name.
use crate::text::push_char;
use crate::Syntax;
use vstd::prelude::*;
use vstd::string::StringExecFns;

verus! {

/// The characters that open and close a quoted name in `syntax`.
pub open spec fn quote_marks(syntax: Syntax) -> (char, char) {
    match syntax {
        Syntax::Mysql => ('`', '`'),
        Syntax::Mssql => ('[', ']'),
        Syntax::Postgres => ('"', '"'),
        Syntax::Sqlite => ('"', '"'),
    }
}

/// `name` as `syntax` writes it in a query: between the dialect's quote marks.
pub open spec fn escape_name(syntax: Syntax, name: Seq<char>) -> Seq<char> {
    seq![quote_marks(syntax).0] + name + seq![quote_marks(syntax).1]
}

/// Different names stay different once written: `escape_name` is one to one
/// for each dialect.
pub proof fn lemma_escape_name_injective(syntax: Syntax, a: Seq<char>, b: Seq<char>)
    ensures
        escape_name(syntax, a) == escape_name(syntax, b) <==> a == b,
{
    if escape_name(syntax, a) == escape_name(syntax, b) {
        assert(escape_name(syntax, a).len() == a.len() + 2);
        assert(escape_name(syntax, b).len() == b.len() + 2);
        assert(a =~= escape_name(syntax, a).subrange(1, a.len() + 1int));
        assert(b =~= escape_name(syntax, b).subrange(1, b.len() + 1int));
    }
}

/// Writes column names for one dialect.
pub struct ColumnWriter {
    syntax: Syntax,
}

impl ColumnWriter {
    /// The dialect this writer writes for.
    pub closed spec fn syntax_of(&self) -> Syntax {
        self.syntax
    }

    /// A writer for `syntax`.
    pub fn new(syntax: Syntax) -> (w: ColumnWriter)
        ensures
            w.syntax_of() == syntax,
    {
        ColumnWriter { syntax }
    }

    /// `name` written as a column name of this writer's dialect.
    pub fn excape(&self, name: &str) -> (r: String)
        ensures
            r@ == escape_name(self.syntax_of(), name@),
    {
        let (open, close) = match self.syntax {
            Syntax::Mysql => ('`', '`'),
            Syntax::Mssql => ('[', ']'),
            Syntax::Postgres => ('"', '"'),
            Syntax::Sqlite => ('"', '"'),
        };
        let mut r = String::new();
        push_char(&mut r, open);
        r.append(name);
        push_char(&mut r, close);
        assert(r@ =~= escape_name(self.syntax_of(), name@));
        r
    }
}

/// How each dialect writes any name `n`: Postgres and Sqlite as `"n"`, Mysql
/// as `` `n` ``, Mssql as `[n]`; the name itself is kept as it is.
pub proof fn lemma_escape_name_per_dialect(n: Seq<char>)
    ensures
        escape_name(Syntax::Postgres, n) == seq!['"'] + n + seq!['"'],
        escape_name(Syntax::Sqlite, n) == seq!['"'] + n + seq!['"'],
        escape_name(Syntax::Mysql, n) == seq!['`'] + n + seq!['`'],
        escape_name(Syntax::Mssql, n) == seq!['['] + n + seq![']'],
        forall|syntax: Syntax|
            (#[trigger] escape_name(syntax, n)).len() == n.len() + 2 && escape_name(
                syntax,
                n,
            ).subrange(1, n.len() + 1int) == n,
{
    assert forall|syntax: Syntax|
        (#[trigger] escape_name(syntax, n)).len() == n.len() + 2 && escape_name(
            syntax,
            n,
        ).subrange(1, n.len() + 1int) == n by {
        assert(escape_name(syntax, n).subrange(1, n.len() + 1int) =~= n);
    }
}

} // verus!
