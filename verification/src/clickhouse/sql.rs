//! Statements for ClickHouse tables.
use vstd::prelude::*;

use crate::text::{cat2, cat3, cat4, cat6, double_char, doubled};

verus! {

/// Query that checks whether the server answers.
pub const CONNECTIVITY_SQL: &'static str = "SELECT 1";

/// Query for the server's version.
pub const VERSION_SQL: &'static str = "SELECT version()";

/// Query for the engine of a table; its parameter is the table's name.
pub const TABLE_ENGINE_SQL: &'static str =
    "SELECT engine FROM system.tables WHERE database = currentDatabase() AND name = ?";

/// Query for the columns of a table in order; its parameter is the table's name.
pub const TABLE_COLUMNS_SQL: &'static str =
    "SELECT name, type AS type_name FROM system.columns WHERE database = currentDatabase() AND table = ? ORDER BY position";

/// A name in double quotes, with those inside it doubled.
pub open spec fn quoted(name: Seq<char>) -> Seq<char> {
    "\""@ + doubled(name, '"') + "\""@
}

/// Quotes a name.
pub fn quote_identifier(name: &str) -> (r: String)
    ensures
        r@ == quoted(name@),
{
    let inner = double_char(name, '"');
    cat3("\"", inner.as_str(), "\"")
}

/// Different names stay different when quoted.
pub proof fn law_quoting_is_injective(a: Seq<char>, b: Seq<char>)
    requires
        quoted(a) == quoted(b),
    ensures
        a == b,
{
    reveal_strlit("\"");
    let (x, y) = (doubled(a, '"'), doubled(b, '"'));
    assert(quoted(a).len() == x.len() + 2);
    assert(quoted(b).len() == y.len() + 2);
    assert(quoted(a).subrange(1, x.len() as int + 1) =~= x);
    assert(quoted(b).subrange(1, y.len() as int + 1) =~= y);
    crate::table_name::law_doubling_is_injective(a, b, '"');
}

/// Where a new column goes: behind the given one, or first.
pub open spec fn placement(after_column: Option<Seq<char>>) -> Seq<char> {
    match after_column {
        Some(anchor) => "AFTER "@ + quoted(anchor),
        None => "FIRST"@,
    }
}

/// Writes where a new column goes. Without a column to put it behind it goes first, and so still
/// before the trailing change columns.
pub fn add_column_placement_clause(after_column: Option<&str>) -> (r: String)
    ensures
        r@ == placement(
            match after_column {
                Some(a) => Some(a@),
                None => None,
            },
        ),
{
    match after_column {
        Some(anchor) => {
            let name = quote_identifier(anchor);
            cat2("AFTER ", name.as_str())
        },
        None => "FIRST".to_owned(),
    }
}

/// Writes the statement that adds a column of a ClickHouse type.
pub fn build_add_column_sql(
    table_name: &str,
    column_name: &str,
    column_type: &str,
    after_column: Option<&str>,
) -> (r: String)
    ensures
        r@ == "ALTER TABLE "@ + quoted(table_name@) + " ADD COLUMN IF NOT EXISTS "@ + quoted(
            column_name@,
        ) + (" "@ + column_type@ + " "@ + placement(
            match after_column {
                Some(a) => Some(a@),
                None => None,
            },
        )),
{
    let table = quote_identifier(table_name);
    let column = quote_identifier(column_name);
    let place = add_column_placement_clause(after_column);
    let mut sql = cat4(
        "ALTER TABLE ",
        table.as_str(),
        " ADD COLUMN IF NOT EXISTS ",
        column.as_str(),
    );
    let tail = cat4(" ", column_type, " ", place.as_str());
    sql.append(tail.as_str());
    sql
}

/// Writes the statement that drops a column.
pub fn build_drop_column_sql(table_name: &str, column_name: &str) -> (r: String)
    ensures
        r@ == "ALTER TABLE "@ + quoted(table_name@) + " DROP COLUMN IF EXISTS "@ + quoted(
            column_name@,
        ),
{
    let table = quote_identifier(table_name);
    let column = quote_identifier(column_name);
    cat4("ALTER TABLE ", table.as_str(), " DROP COLUMN IF EXISTS ", column.as_str())
}

/// Writes the statement that renames a column.
pub fn build_rename_column_sql(table_name: &str, old_name: &str, new_name: &str) -> (r: String)
    ensures
        r@ == "ALTER TABLE "@ + quoted(table_name@) + " RENAME COLUMN IF EXISTS "@ + quoted(
            old_name@,
        ) + " TO "@ + quoted(new_name@),
{
    let table = quote_identifier(table_name);
    let before = quote_identifier(old_name);
    let after = quote_identifier(new_name);
    cat6(
        "ALTER TABLE ",
        table.as_str(),
        " RENAME COLUMN IF EXISTS ",
        before.as_str(),
        " TO ",
        after.as_str(),
    )
}

/// Writes the statement that empties a table.
pub fn build_truncate_table_sql(table_name: &str) -> (r: String)
    ensures
        r@ == "TRUNCATE TABLE IF EXISTS "@ + quoted(table_name@),
{
    let table = quote_identifier(table_name);
    cat2("TRUNCATE TABLE IF EXISTS ", table.as_str())
}

/// Writes the statement that drops a table.
pub fn build_drop_table_sql(table_name: &str) -> (r: String)
    ensures
        r@ == "DROP TABLE IF EXISTS "@ + quoted(table_name@),
{
    let table = quote_identifier(table_name);
    cat2("DROP TABLE IF EXISTS ", table.as_str())
}

/// Writes the statement that inserts encoded rows.
pub fn build_insert_rows_sql(table_name: &str) -> (r: String)
    ensures
        r@ == "INSERT INTO "@ + quoted(table_name@) + " FORMAT RowBinary"@,
{
    let table = quote_identifier(table_name);
    cat3("INSERT INTO ", table.as_str(), " FORMAT RowBinary")
}

/// Kinds of data definition statements, as metrics label them.
#[derive(Clone, Copy, Debug, PartialEq, Eq, Structural)]
pub enum DdlKind {
    CreateTable,
    CreateView,
    DropTable,
    DropView,
    AddColumn,
    DropColumn,
    RenameColumn,
}

impl DdlKind {
    /// Returns the label of the kind.
    pub fn as_label(self) -> (r: &'static str)
        ensures
            r@ == match self {
                DdlKind::CreateTable => "create_table"@,
                DdlKind::CreateView => "create_view"@,
                DdlKind::DropTable => "drop_table"@,
                DdlKind::DropView => "drop_view"@,
                DdlKind::AddColumn => "add_column"@,
                DdlKind::DropColumn => "drop_column"@,
                DdlKind::RenameColumn => "rename_column"@,
            },
    {
        match self {
            DdlKind::CreateTable => "create_table",
            DdlKind::CreateView => "create_view",
            DdlKind::DropTable => "drop_table",
            DdlKind::DropView => "drop_view",
            DdlKind::AddColumn => "add_column",
            DdlKind::DropColumn => "drop_column",
            DdlKind::RenameColumn => "rename_column",
        }
    }
}

/// A quoted name stands between quotation marks, and every quotation mark in it is doubled.
pub proof fn law_quoting_doubles_quotation_marks(name: Seq<char>, c: char)
    ensures
        quoted(Seq::empty()) == seq!['"', '"'],
        quoted(name).first() == '"',
        quoted(name).last() == '"',
        c != '"' ==> quoted(name.push(c)) == quoted(name).drop_last() + seq![c, '"'],
        quoted(name.push('"')) == quoted(name).drop_last() + seq!['"', '"', '"'],
{
    reveal_strlit("\"");
    assert(name.push(c).drop_last() =~= name);
    assert(name.push('"').drop_last() =~= name);
    assert(quoted(Seq::empty()) =~= seq!['"', '"']);
    assert(quoted(name).drop_last() =~= seq!['"'] + doubled(name, '"'));
    if c != '"' {
        assert(quoted(name.push(c)) =~= quoted(name).drop_last() + seq![c, '"']);
    }
    assert(quoted(name.push('"')) =~= quoted(name).drop_last() + seq!['"', '"', '"']);
}

/// A new column goes behind its anchor, or in front of all columns where there is none.
pub proof fn law_columns_are_placed(anchor: Seq<char>)
    ensures
        placement(Some(anchor)) == "AFTER "@ + quoted(anchor),
        placement(None) == "FIRST"@,
{
}

/// Whatever statement is written, it is about the table, by its quoted name, and does what it is for:
/// empty it, drop it, insert into it, or add, drop or rename the column.
pub proof fn law_statements_name_their_table(
    table: &str,
    column: &str,
    other: &str,
    truncate: String,
    drop_table: String,
    insert: String,
    drop_column: String,
    rename_column: String,
    add_column: String,
)
    requires
        call_ensures(build_truncate_table_sql, (table,), truncate),
        call_ensures(build_drop_table_sql, (table,), drop_table),
        call_ensures(build_insert_rows_sql, (table,), insert),
        call_ensures(build_drop_column_sql, (table, column), drop_column),
        call_ensures(build_rename_column_sql, (table, column, other), rename_column),
        call_ensures(build_add_column_sql, (table, column, other, None::<&str>), add_column),
    ensures
        truncate@ == "TRUNCATE TABLE IF EXISTS "@ + quoted(table@),
        drop_table@ == "DROP TABLE IF EXISTS "@ + quoted(table@),
        insert@ == "INSERT INTO "@ + quoted(table@) + " FORMAT RowBinary"@,
        drop_column@ == "ALTER TABLE "@ + quoted(table@) + " DROP COLUMN IF EXISTS "@ + quoted(
            column@,
        ),
        rename_column@ == "ALTER TABLE "@ + quoted(table@) + " RENAME COLUMN IF EXISTS "@ + quoted(
            column@,
        ) + " TO "@ + quoted(other@),
        add_column@ == "ALTER TABLE "@ + quoted(table@) + " ADD COLUMN IF NOT EXISTS "@ + quoted(
            column@,
        ) + (" "@ + other@ + " "@ + "FIRST"@),
{
}

/// Added columns name their anchor.
pub proof fn law_added_columns_name_their_anchor(
    table: &str,
    column: &str,
    column_type: &str,
    after: &str,
    add_column: String,
)
    requires
        call_ensures(build_add_column_sql, (table, column, column_type, Some(after)), add_column),
    ensures
        add_column@ == "ALTER TABLE "@ + quoted(table@) + " ADD COLUMN IF NOT EXISTS "@ + quoted(
            column@,
        ) + (" "@ + column_type@ + " "@ + ("AFTER "@ + quoted(after@))),
{
}

/// Metrics label each kind of statement by its own name.
pub proof fn law_statements_are_labelled(kind: DdlKind, label: &'static str)
    requires
        call_ensures(DdlKind::as_label, (kind,), label),
    ensures
        kind == DdlKind::CreateTable ==> label@ == "create_table"@,
        kind == DdlKind::CreateView ==> label@ == "create_view"@,
        kind == DdlKind::DropTable ==> label@ == "drop_table"@,
        kind == DdlKind::DropView ==> label@ == "drop_view"@,
        kind == DdlKind::AddColumn ==> label@ == "add_column"@,
        kind == DdlKind::DropColumn ==> label@ == "drop_column"@,
        kind == DdlKind::RenameColumn ==> label@ == "rename_column"@,
{
}

} // verus!
