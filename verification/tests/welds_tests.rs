use welds::fn_all::{all_fn_source, Info, ALL_FN_HEAD, ALL_FN_TAIL};
use welds::migrations::{split_sql_commands, Manual};
use welds::relations::{ForeignKeyPartialEq, HasMany, PrimaryKeyValue, UniqueIdentifier};
use welds::select_column::{SelectColumn, SelectKind};
use welds::writers::ColumnWriter;
use welds::Syntax;

const ALL_SYNTAXES: [Syntax; 4] = [Syntax::Mysql, Syntax::Postgres, Syntax::Sqlite, Syntax::Mssql];

// ---------- migrations ----------

#[test]
fn manual_up_has_no_down_commands() {
    let m = Manual::up("CREATE TABLE a (id int)".to_string());
    for s in ALL_SYNTAXES {
        assert_eq!(m.up_sql(s), vec!["CREATE TABLE a (id int)".to_string()]);
        assert!(m.down_sql(s).is_empty());
    }
}

#[test]
fn manual_down_keeps_up() {
    let m = Manual::up("CREATE TABLE a (id int);".to_string())
        .down("DROP TABLE a".to_string());
    assert_eq!(m.up_sql(Syntax::Postgres), vec!["CREATE TABLE a (id int)".to_string()]);
    assert_eq!(m.down_sql(Syntax::Sqlite), vec!["DROP TABLE a".to_string()]);
}

#[test]
fn manual_down_replaces_earlier_down() {
    let m = Manual::up("A".to_string())
        .down("B".to_string())
        .down("C; D".to_string());
    assert_eq!(m.down_sql(Syntax::Mysql), vec!["C".to_string(), "D".to_string()]);
    assert_eq!(m.up_sql(Syntax::Mysql), vec!["A".to_string()]);
}

#[test]
fn split_on_semicolons_and_trim() {
    assert_eq!(
        split_sql_commands("  CREATE TABLE a (x int);\n\tINSERT INTO a VALUES (1) ;;  DROP TABLE b  "),
        vec![
            "CREATE TABLE a (x int)".to_string(),
            "INSERT INTO a VALUES (1)".to_string(),
            "DROP TABLE b".to_string()
        ]
    );
}

#[test]
fn split_empty_and_blank_text() {
    assert!(split_sql_commands("").is_empty());
    assert!(split_sql_commands(" \n\t ").is_empty());
    assert!(split_sql_commands(";;; ; \n;").is_empty());
}

#[test]
fn split_trims_unicode_white_space() {
    assert_eq!(
        split_sql_commands("\u{3000}SELECT 1\u{a0};\u{2028}"),
        vec!["SELECT 1".to_string()]
    );
    assert_eq!(
        split_sql_commands("\u{3000}SELECT 1\u{a0};\u{2028}"),
        "\u{3000}SELECT 1\u{a0};\u{2028}"
            .split(';')
            .map(|s| s.trim().to_string())
            .filter(|s| !s.is_empty())
            .collect::<Vec<_>>()
    );
}

#[test]
fn split_keeps_inner_white_space() {
    assert_eq!(
        split_sql_commands("SELECT  a ,\n b FROM t"),
        vec!["SELECT  a ,\n b FROM t".to_string()]
    );
}

#[test]
fn split_of_joined_text_joins_command_lists() {
    let a = " x; y ";
    let b = "z ;";
    let mut expected = split_sql_commands(a);
    expected.extend(split_sql_commands(b));
    assert_eq!(split_sql_commands(&format!("{};{}", a, b)), expected);
}

#[test]
fn split_commands_are_well_formed() {
    for c in split_sql_commands(" a ;b;  ; c\u{85}d ;\n") {
        assert!(!c.is_empty());
        assert!(!c.contains(';'));
        assert_eq!(c.trim(), c);
    }
}

// ---------- column writing ----------

#[test]
fn excape_per_syntax() {
    assert_eq!(ColumnWriter::new(Syntax::Postgres).excape("name"), "\"name\"");
    assert_eq!(ColumnWriter::new(Syntax::Sqlite).excape("name"), "\"name\"");
    assert_eq!(ColumnWriter::new(Syntax::Mysql).excape("name"), "`name`");
    assert_eq!(ColumnWriter::new(Syntax::Mssql).excape("name"), "[name]");
    assert_eq!(ColumnWriter::new(Syntax::Mssql).excape(""), "[]");
}

fn column(col: &str, field: &str) -> SelectColumn {
    SelectColumn {
        col_name: col.to_string(),
        field_name: field.to_string(),
        kind: SelectKind::Column,
    }
}

#[test]
fn select_column_same_name_has_no_alias() {
    assert_eq!(column("id", "id").write(Syntax::Postgres, "t1"), "t1.\"id\"");
    assert_eq!(column("id", "id").write(Syntax::Mysql, "t1"), "t1.`id`");
    assert_eq!(column("id", "id").write(Syntax::Mssql, "t1"), "t1.[id]");
    assert_eq!(column("id", "id").write(Syntax::Sqlite, "t1"), "t1.\"id\"");
}

#[test]
fn select_column_renamed_has_alias() {
    assert_eq!(
        column("product_id", "id").write(Syntax::Postgres, "t2"),
        "t2.\"product_id\" AS \"id\""
    );
    assert_eq!(
        column("product_id", "id").write(Syntax::Mssql, "t2"),
        "t2.[product_id] AS [id]"
    );
    assert_eq!(
        column("product_id", "id").write(Syntax::Mysql, "t2"),
        "t2.`product_id` AS `id`"
    );
}

#[test]
fn select_all_columns() {
    let all = SelectColumn {
        col_name: "ignored".to_string(),
        field_name: "also_ignored".to_string(),
        kind: SelectKind::All,
    };
    for s in ALL_SYNTAXES {
        assert_eq!(all.write(s, "t3"), "t3.*");
    }
}

// ---------- relations ----------

struct ProductSchema;

// The `spec_` items below belong to the traits' verified contracts; they are
// never called when the program runs.
impl UniqueIdentifier for ProductSchema {
    fn spec_id_column_name() -> vstd::seq::Seq<char> {
        unreachable!()
    }
    fn id_column_name() -> String {
        "product_id".to_string()
    }
}

struct Product {
    product_id: i32,
}

impl PrimaryKeyValue for Product {
    type PrimaryKeyType = i32;
    fn spec_primary_key_value(&self) -> i32 {
        unreachable!()
    }
    fn primary_key_value(&self) -> i32 {
        self.product_id
    }
}

struct Order {
    id: i32,
    product_id: i32,
}

impl ForeignKeyPartialEq<i32> for Order {
    fn spec_foreign_key_eq(&self, _foreign_key: vstd::seq::Seq<char>, _other: i32) -> bool {
        unreachable!()
    }
    fn eq(&self, foreign_key: &str, other: &i32) -> bool {
        match foreign_key {
            "product_id" => self.product_id == *other,
            "id" => self.id == *other,
            _ => false,
        }
    }
}

#[test]
fn has_many_keys() {
    let rel: HasMany<Order> = HasMany::using("product_id");
    assert_eq!(rel.their_key::<Product, Order>(), "product_id");
    assert_eq!(rel.my_key::<Order, ProductSchema>(), "product_id");
    let rel2: HasMany<Order> = HasMany::using("fk_other");
    assert_eq!(rel2.their_key::<Product, Order>(), "fk_other");
    assert_eq!(rel2.my_key::<Order, ProductSchema>(), "product_id");
}

#[test]
fn has_many_is_related() {
    let rel: HasMany<Order> = HasMany::using("product_id");
    let p = Product { product_id: 7 };
    assert!(rel.is_related(&p, &Order { id: 1, product_id: 7 }));
    assert!(!rel.is_related(&p, &Order { id: 7, product_id: 2 }));
    let by_id: HasMany<Order> = HasMany::using("id");
    assert!(by_id.is_related(&p, &Order { id: 7, product_id: 2 }));
    let unknown: HasMany<Order> = HasMany::using("nothing");
    assert!(!unknown.is_related(&p, &Order { id: 7, product_id: 7 }));
}

#[test]
fn has_many_eq_and_clone() {
    let a: HasMany<Order> = HasMany::using("product_id");
    let b: HasMany<Order> = HasMany::using("product_id");
    let c: HasMany<Order> = HasMany::using("order_id");
    assert!(a == b);
    assert!(b == a);
    assert!(a == a);
    assert!(a != c);
    let d = c.clone();
    assert!(d == c);
    assert_eq!(d.their_key::<Product, Order>(), "order_id");
}

// ---------- the derive's `all` ----------

#[test]
fn all_fn_source_names_schema() {
    let src = all_fn_source("ProductSchema");
    assert_eq!(src, format!("{}ProductSchema{}", ALL_FN_HEAD, ALL_FN_TAIL));
    assert!(src.contains("ProductSchema: welds::table::TableColumns<DB>"));
    assert!(src.starts_with("pub fn all<'args, DB>()"));
}

#[test]
fn write_lexes_the_all_fn() {
    let info = Info { schemastruct: "ProductSchema".to_string() };
    let tokens = welds::fn_all::write(&info).expect("the source of all lexes");
    let text = tokens.to_string();
    assert!(text.contains("ProductSchema"));
    assert!(text.contains("SelectBuilder"));
    let expected: proc_macro2::TokenStream = all_fn_source("ProductSchema").parse().unwrap();
    assert_eq!(text, expected.to_string());
}

#[test]
fn write_refuses_a_name_that_does_not_lex() {
    let info = Info { schemastruct: "\"Unclosed".to_string() };
    assert!(welds::fn_all::write(&info).is_none());
}
