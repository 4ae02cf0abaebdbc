//! The `all` function that the model derive adds to each model: it starts a
//! select query over every row of the model's table.
use vstd::prelude::*;
use vstd::string::StringExecFns;

verus! {

/// `proc_macro2::TokenStream`, carried through unopened.
#[verifier::external_type_specification]
#[verifier::external_body]
pub struct ExTokenStream(proc_macro2::TokenStream);

/// Whether `r` is an outcome that lexing the text `src` with `proc_macro2`
/// may have: `Some` of tokens for the text, or `None` when the lexer refuses
/// it. A relation, not a function: which lexer runs (its own, or the
/// compiler's inside a procedural macro) can change within one process.
pub uninterp spec fn lexes_to(src: Seq<char>, r: Option<proc_macro2::TokenStream>) -> bool;

/// `<proc_macro2::TokenStream as FromStr>::from_str`, with the lexing error
/// dropped. Claimed: what comes back is an outcome of lexing the text handed
/// in (tokens for it, or `None` for a refusal). Which outcome is left open: it
/// depends on which lexer runs, and so not on the text alone. The crate's documentation keeps the right to panic
/// on some malformed texts without saying which, so no `requires` can rule
/// those out.
#[verifier::external_body]
fn parse_token_stream(src: &str) -> (r: Option<proc_macro2::TokenStream>)
    ensures
        lexes_to(src@, r),
{
    src.parse::<proc_macro2::TokenStream>().ok()
}

/// What the derive knows of a model.
pub struct Info {
    /// The name of the model's schema struct.
    pub schemastruct: String,
}

/// The text of `all` that comes before the schema struct's name.
pub const ALL_FN_HEAD: &'static str =
    "pub fn all<'args, DB>() -> welds::query::select::SelectBuilder<'args, Self, DB> where DB: sqlx::Database, ";

/// The text of `all` that comes after the schema struct's name.
pub const ALL_FN_TAIL: &'static str =
    ": welds::table::TableColumns<DB>, Self: Send + Unpin + for<'r> sqlx::FromRow<'r, DB::Row>, { welds::query::select::SelectBuilder::new() }";

/// The source of `all` for a model whose schema struct is named `schema`.
pub open spec fn all_fn_text(schema: Seq<char>) -> Seq<char> {
    ALL_FN_HEAD@ + schema + ALL_FN_TAIL@
}

/// The source of `all` for a model whose schema struct is named `schema`.
pub fn all_fn_source(schema: &str) -> (r: String)
    ensures
        r@ == all_fn_text(schema@),
{
    let mut r = String::from_str(ALL_FN_HEAD);
    r.append(schema);
    r.append(ALL_FN_TAIL);
    r
}

/// The tokens of `all` for the model described by `infos`: the outcome of
/// lexing `all_fn_text` of the schema struct's name, tokens for that text or
/// `None` when `proc_macro2` refuses it (as when the name holds an unclosed
/// quote); never `None` for any other reason.
pub fn write(infos: &Info) -> (r: Option<proc_macro2::TokenStream>)
    ensures
        lexes_to(all_fn_text(infos.schemastruct@), r),
{
    let src = all_fn_source(infos.schemastruct.as_str());
    parse_token_stream(src.as_str())
}

/// The text handed to the lexer for a schema named `n` is the fixed head of
/// `all`, then `n` unchanged, then the fixed tail; so two different schema
/// names never give the same text.
pub proof fn lemma_all_fn_text_names_schema(n: Seq<char>, m: Seq<char>)
    ensures
        all_fn_text(n).len() == ALL_FN_HEAD@.len() + n.len() + ALL_FN_TAIL@.len(),
        all_fn_text(n).subrange(0, ALL_FN_HEAD@.len() as int) == ALL_FN_HEAD@,
        all_fn_text(n).subrange(
            ALL_FN_HEAD@.len() as int,
            ALL_FN_HEAD@.len() + n.len() as int,
        ) == n,
        all_fn_text(n).subrange(
            ALL_FN_HEAD@.len() + n.len() as int,
            all_fn_text(n).len() as int,
        ) == ALL_FN_TAIL@,
        all_fn_text(n) == all_fn_text(m) <==> n == m,
{
    let h = ALL_FN_HEAD@;
    let t = ALL_FN_TAIL@;
    assert(all_fn_text(n).subrange(0, h.len() as int) =~= h);
    assert(all_fn_text(n).subrange(h.len() as int, (h.len() + n.len()) as int) =~= n);
    assert(all_fn_text(n).subrange((h.len() + n.len()) as int, all_fn_text(n).len() as int) =~= t);
    if all_fn_text(n) == all_fn_text(m) {
        assert(n.len() == m.len());
        assert(all_fn_text(m).subrange(h.len() as int, (h.len() + m.len()) as int) =~= m);
    }
}

} // verus!
