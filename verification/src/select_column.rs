//! The columns that a select query reads, and how each one is written.
use crate::text::push_char;
use crate::writers::{escape_name, lemma_escape_name_injective, ColumnWriter};
use crate::Syntax;
use vstd::prelude::*;
use vstd::string::StringExecFns;

verus! {

/// Whether a select reads one column or all of them.
#[derive(Clone, Copy, Debug, PartialEq, Eq, Structural)]
pub enum SelectKind {
    Column,
    All,
}

/// One entry of a select list: the table column read and the model field it
/// fills.
pub struct SelectColumn {
    pub col_name: String,
    pub field_name: String,
    pub kind: SelectKind,
}

/// The text of a select entry for table alias `alias`:
/// `alias.*` for all columns; `alias.col` when the column and the field have
/// the same written name; `alias.col AS field` otherwise.
pub open spec fn select_text(
    syntax: Syntax,
    alias: Seq<char>,
    col_name: Seq<char>,
    field_name: Seq<char>,
    kind: SelectKind,
) -> Seq<char> {
    match kind {
        SelectKind::All => alias + seq!['.', '*'],
        SelectKind::Column => {
            let col = escape_name(syntax, col_name);
            let field = escape_name(syntax, field_name);
            if col == field {
                alias + seq!['.'] + col
            } else {
                alias + seq!['.'] + col + seq![' ', 'A', 'S', ' '] + field
            }
        },
    }
}

impl SelectColumn {
    /// This entry's text in a select list of `syntax` for the table aliased
    /// `alias` (see `select_text`).
    pub fn write(&self, syntax: Syntax, alias: &str) -> (r: String)
        ensures
            r@ == select_text(syntax, alias@, self.col_name@, self.field_name@, self.kind),
    {
        match self.kind {
            SelectKind::Column => {
                let writer = ColumnWriter::new(syntax);
                let colname = writer.excape(self.col_name.as_str());
                let fieldname = writer.excape(self.field_name.as_str());
                let same = colname == fieldname;
                let mut r = String::new();
                r.append(alias);
                push_char(&mut r, '.');
                r.append(colname.as_str());
                if same {
                    assert(r@ =~= alias@ + seq!['.'] + colname@);
                } else {
                    push_char(&mut r, ' ');
                    push_char(&mut r, 'A');
                    push_char(&mut r, 'S');
                    push_char(&mut r, ' ');
                    r.append(fieldname.as_str());
                    assert(r@ =~= alias@ + seq!['.'] + colname@ + seq![' ', 'A', 'S', ' ']
                        + fieldname@);
                }
                r
            },
            SelectKind::All => {
                let mut r = String::new();
                r.append(alias);
                push_char(&mut r, '.');
                push_char(&mut r, '*');
                assert(r@ =~= alias@ + seq!['.', '*']);
                r
            },
        }
    }
}

/// A column entry is written without an `AS` exactly when its column and
/// field have the same name: then the text is `alias.col`.
pub proof fn lemma_column_alias_only_when_names_differ(
    syntax: Syntax,
    alias: Seq<char>,
    col_name: Seq<char>,
    field_name: Seq<char>,
)
    ensures
        col_name == field_name ==> select_text(
            syntax,
            alias,
            col_name,
            field_name,
            SelectKind::Column,
        ) == alias + seq!['.'] + escape_name(syntax, col_name),
        col_name != field_name ==> select_text(
            syntax,
            alias,
            col_name,
            field_name,
            SelectKind::Column,
        ) == alias + seq!['.'] + escape_name(syntax, col_name) + seq![' ', 'A', 'S', ' ']
            + escape_name(syntax, field_name),
{
    lemma_escape_name_injective(syntax, col_name, field_name);
}

/// Selecting all columns always gives `alias.*`, in every dialect and
/// whatever column and field names the entry carries.
pub proof fn lemma_select_all_is_alias_star(
    syntax: Syntax,
    alias: Seq<char>,
    col_name: Seq<char>,
    field_name: Seq<char>,
)
    ensures
        select_text(syntax, alias, col_name, field_name, SelectKind::All) == alias + seq![
            '.',
            '*',
        ],
        select_text(syntax, alias, col_name, field_name, SelectKind::All).len() == alias.len()
            + 2,
        select_text(syntax, alias, col_name, field_name, SelectKind::All).subrange(
            0,
            alias.len() as int,
        ) == alias,
{
    assert((alias + seq!['.', '*']).subrange(0, alias.len() as int) =~= alias);
}

/// A column entry always starts with the table alias and a dot, followed by the
/// column name between the dialect's quote marks.
pub proof fn lemma_select_column_starts_with_alias(
    syntax: Syntax,
    alias: Seq<char>,
    col_name: Seq<char>,
    field_name: Seq<char>,
)
    ensures
        ({
            let t = select_text(syntax, alias, col_name, field_name, SelectKind::Column);
            &&& t.len() >= alias.len() + col_name.len() + 3
            &&& t.subrange(0, alias.len() as int) == alias
            &&& t[alias.len() as int] == '.'
            &&& t.subrange(alias.len() + 2int, alias.len() + 2int + col_name.len()) == col_name
        }),
{
    lemma_escape_name_injective(syntax, col_name, field_name);
    let t = select_text(syntax, alias, col_name, field_name, SelectKind::Column);
    let e = escape_name(syntax, col_name);
    let base = alias + seq!['.'] + e;
    assert(base.subrange(0, alias.len() as int) =~= alias);
    assert(base.subrange(alias.len() + 2int, alias.len() + 2int + col_name.len()) =~= col_name);
    if col_name != field_name {
        let f = escape_name(syntax, field_name);
        assert(t =~= base + (seq![' ', 'A', 'S', ' '] + f));
        assert(t.subrange(0, alias.len() as int) =~= base.subrange(0, alias.len() as int));
        assert(t.subrange(alias.len() + 2int, alias.len() + 2int + col_name.len()) =~= base.subrange(
            alias.len() + 2int,
            alias.len() + 2int + col_name.len(),
        ));
    }
}

} // verus!
