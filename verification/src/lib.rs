//! A verified core of an object-relational mapper: how a query writes the
//! columns it selects, how a "has many" relation links two models, how a
//! hand-written migration stores and splits its SQL, and the source of the
//! `all` function that the model derive emits.
use vstd::prelude::*;

pub mod fn_all;
pub mod migrations;
pub mod relations;
pub mod select_column;
pub mod text;
pub mod writers;

verus! {

/// The SQL dialects that the library writes for.
#[derive(Clone, Copy, Debug, PartialEq, Eq, Structural)]
pub enum Syntax {
    Mysql,
    Postgres,
    Sqlite,
    Mssql,
}

} // verus!
