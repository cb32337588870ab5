//! Statements that manage publications of the source, and what its catalog says of them.
use vstd::prelude::*;

use crate::table_name::law_doubling_is_injective;
use crate::text::{cat2, cat3, cat4, cat5, doubled, join, joined, views};

verus! {

/// A table of the source.
#[derive(Debug)]
pub struct Table {
    /// Schema of the table.
    pub schema: String,
    /// Name of the table.
    pub name: String,
}

/// A publication of the source.
#[derive(Debug)]
pub struct Publication {
    /// Name of the publication.
    pub name: String,
    /// Tables that it publishes.
    pub tables: Vec<Table>,
}

/// Whether an identifier has only lowercase letters, digits and underscores, and no digit first.
pub open spec fn simple(identifier: Seq<char>) -> bool {
    &&& forall|i: int|
        0 <= i < identifier.len() ==> {
            let c = #[trigger] identifier[i];
            ('a' <= c && c <= 'z') || c == '_' || (i > 0 && '0' <= c && c <= '9')
        }
}

/// Whether the tables of `pg_escape` list an identifier as a keyword.
pub uninterp spec fn pg_keyword(identifier: Seq<char>) -> bool;

/// An identifier as it stands in a statement.
pub open spec fn quoted(identifier: Seq<char>) -> Seq<char> {
    if simple(identifier) && !pg_keyword(identifier) {
        identifier
    } else {
        "\""@ + doubled(identifier, '"') + "\""@
    }
}

/// Quotes an identifier, by `pg_escape::quote_identifier`: simple identifiers that are no keywords
/// stay as they are, others are put in quotes with inner quotes doubled.
#[verifier::external_body]
fn quote_identifier(identifier: &str) -> (r: String)
    ensures
        r@ == (if simple(identifier@) && !pg_keyword(identifier@) {
            identifier@
        } else {
            "\""@ + doubled(identifier@, '"') + "\""@
        }),
{
    pg_escape::quote_identifier(identifier).into_owned()
}

/// Quoting keeps identifiers apart.
pub proof fn law_quoting_is_injective(a: Seq<char>, b: Seq<char>)
    requires
        quoted(a) == quoted(b),
    ensures
        a == b,
{
    reveal_strlit("\"");
    let kept_a = simple(a) && !pg_keyword(a);
    let kept_b = simple(b) && !pg_keyword(b);
    if !kept_a && !kept_b {
        let (x, y) = (doubled(a, '"'), doubled(b, '"'));
        assert(quoted(a).subrange(1, quoted(a).len() - 1) =~= x);
        assert(quoted(b).subrange(1, quoted(b).len() - 1) =~= y);
        law_doubling_is_injective(a, b, '"');
    } else if kept_a && !kept_b {
        assert(quoted(b)[0] == '"');
        assert(a[0] != '"');
    } else if !kept_a && kept_b {
        assert(quoted(a)[0] == '"');
        assert(b[0] != '"');
    }
}

/// A table as it stands in a statement.
pub open spec fn quoted_table(table: Table) -> Seq<char> {
    quoted(table.schema@) + "."@ + quoted(table.name@)
}

/// Tables as they stand in a statement.
pub open spec fn quoted_tables(tables: Seq<Table>) -> Seq<Seq<char>> {
    Seq::new(tables.len(), |i: int| quoted_table(tables[i]))
}

/// Returns tables as they stand in a statement.
fn quote_tables(tables: &[Table]) -> (r: Vec<String>)
    ensures
        views(r@) == quoted_tables(tables@),
{
    let mut out: Vec<String> = Vec::new();
    let n: usize = tables.len();
    let mut i: usize = 0;
    while i < n
        invariant
            i <= n,
            n == tables@.len(),
            out@.len() == i,
            forall|j: int| 0 <= j < i ==> (#[trigger] out@[j])@ == quoted_table(tables@[j]),
        decreases n - i,
    {
        let schema = quote_identifier(tables[i].schema.as_str());
        let name = quote_identifier(tables[i].name.as_str());
        out.push(cat3(schema.as_str(), ".", name.as_str()));
        i = i + 1;
    }
    proof {
        assert(views(out@) =~= quoted_tables(tables@));
    }
    out
}

/// Returns the list of tables, separated by commas.
pub fn format_table_list(tables: &[Table]) -> (r: String)
    ensures
        r@ == joined(quoted_tables(tables@), ", "@),
{
    let parts = quote_tables(tables);
    join(parts.as_slice(), ", ")
}

/// The statement that creates a publication, of quoted names.
pub open spec fn create_text(name: Seq<char>, tables: Seq<Seq<char>>) -> Seq<char> {
    "create publication "@ + name + (if tables.len() > 0 {
        " for table only "@
    } else {
        ""@
    }) + joined(tables, ","@) + " with (publish_via_partition_root = true)"@
}

/// Returns the statement that creates a publication, of quoted names.
pub fn create_statement(name: &str, tables: &[String]) -> (r: String)
    ensures
        r@ == create_text(name@, views(tables@)),
{
    let scope = if tables.len() > 0 {
        " for table only "
    } else {
        ""
    };
    let list = join(tables, ",");
    cat5(
        "create publication ",
        name,
        scope,
        list.as_str(),
        " with (publish_via_partition_root = true)",
    )
}

/// Returns the statement that creates a publication. Partitioned tables are published as their
/// root.
pub fn create_publication(publication: &Publication) -> (r: String)
    ensures
        r@ == create_text(quoted(publication.name@), quoted_tables(publication.tables@)),
{
    let name = quote_identifier(publication.name.as_str());
    let tables = quote_tables(publication.tables.as_slice());
    create_statement(name.as_str(), tables.as_slice())
}

/// The statement that sets the tables of a publication, of quoted names.
pub open spec fn update_text(name: Seq<char>, tables: Seq<Seq<char>>) -> Seq<char> {
    "alter publication "@ + name + " set table only "@ + joined(tables, ","@)
}

/// Returns the statement that sets the tables of a publication, of quoted names.
pub fn update_statement(name: &str, tables: &[String]) -> (r: String)
    ensures
        r@ == update_text(name@, views(tables@)),
{
    let list = join(tables, ",");
    cat4("alter publication ", name, " set table only ", list.as_str())
}

/// Returns the statement that sets the tables of a publication.
pub fn update_publication(publication: &Publication) -> (r: String)
    ensures
        r@ == update_text(quoted(publication.name@), quoted_tables(publication.tables@)),
{
    let name = quote_identifier(publication.name.as_str());
    let tables = quote_tables(publication.tables.as_slice());
    update_statement(name.as_str(), tables.as_slice())
}

/// The statement that drops a publication, if it is there, of its quoted name.
pub open spec fn drop_text(name: Seq<char>) -> Seq<char> {
    "drop publication if exists "@ + name
}

/// Returns the statement that drops a publication, if it is there, of its quoted name.
pub fn drop_statement(name: &str) -> (r: String)
    ensures
        r@ == drop_text(name@),
{
    cat2("drop publication if exists ", name)
}

/// Returns the statement that drops a publication, if it is there.
pub fn drop_publication(publication_name: &str) -> (r: String)
    ensures
        r@ == drop_text(quoted(publication_name@)),
{
    let name = quote_identifier(publication_name);
    drop_statement(name.as_str())
}

/// The statement that adds tables to a publication, of quoted names.
pub open spec fn add_tables_text(name: Seq<char>, tables: Seq<Seq<char>>) -> Seq<char> {
    "alter publication "@ + name + " add table only "@ + joined(tables, ", "@)
}

/// Returns the statement that adds tables to a publication, of its quoted name and the list of its
/// quoted tables.
pub fn add_tables_statement(name: &str, list: &str) -> (r: String)
    ensures
        r@ == "alter publication "@ + name@ + " add table only "@ + list@,
{
    cat4("alter publication ", name, " add table only ", list)
}

/// Returns the statement that adds tables to a publication.
pub fn add_tables_to_publication(publication: &Publication) -> (r: String)
    ensures
        r@ == add_tables_text(quoted(publication.name@), quoted_tables(publication.tables@)),
{
    let name = quote_identifier(publication.name.as_str());
    let list = format_table_list(publication.tables.as_slice());
    add_tables_statement(name.as_str(), list.as_str())
}

/// The statement that takes tables out of a publication, of quoted names.
pub open spec fn drop_tables_text(name: Seq<char>, tables: Seq<Seq<char>>) -> Seq<char> {
    "alter publication "@ + name + " drop table only "@ + joined(tables, ", "@)
}

/// Returns the statement that takes tables out of a publication, of its quoted name and the list of
/// its quoted tables.
pub fn drop_tables_statement(name: &str, list: &str) -> (r: String)
    ensures
        r@ == "alter publication "@ + name@ + " drop table only "@ + list@,
{
    cat4("alter publication ", name, " drop table only ", list)
}

/// Returns the statement that takes tables out of a publication.
pub fn drop_tables_from_publication(publication: &Publication) -> (r: String)
    ensures
        r@ == drop_tables_text(quoted(publication.name@), quoted_tables(publication.tables@)),
{
    let name = quote_identifier(publication.name.as_str());
    let list = format_table_list(publication.tables.as_slice());
    drop_tables_statement(name.as_str(), list.as_str())
}

/// A row of the catalog: a publication and, unless it has none, one of its tables.
#[derive(Debug)]
pub struct PublicationRow {
    /// Name of the publication.
    pub name: String,
    /// Schema of the table.
    pub schema: Option<String>,
    /// Name of the table.
    pub table: Option<String>,
}

/// The table of a row, if it has one.
pub open spec fn row_table(row: PublicationRow) -> Option<Table> {
    match (row.schema, row.table) {
        (Some(schema), Some(name)) => Some(Table { schema, name }),
        _ => None,
    }
}

/// The tables that rows list for a publication, in order.
pub open spec fn listed(rows: Seq<PublicationRow>, name: Seq<char>) -> Seq<Table>
    decreases rows.len(),
{
    if rows.len() == 0 {
        Seq::empty()
    } else {
        let before = listed(rows.drop_last(), name);
        match row_table(rows.last()) {
            Some(table) => if rows.last().name@ == name {
                before.push(table)
            } else {
                before
            },
            None => before,
        }
    }
}

/// Whether rows name a publication.
pub open spec fn named(rows: Seq<PublicationRow>, name: Seq<char>) -> bool {
    exists|i: int| 0 <= i < rows.len() && (#[trigger] rows[i]).name@ == name
}

/// Reads one publication out of its catalog rows, which all name it.
pub fn read_publication(rows: Vec<PublicationRow>) -> (r: Option<Publication>)
    requires
        forall|i: int, j: int|
            0 <= i < rows@.len() && 0 <= j < rows@.len() ==> (#[trigger] rows@[i]).name@ == (
            #[trigger] rows@[j]).name@,
    ensures
        rows@.len() == 0 ==> r is None,
        rows@.len() > 0 ==> {
            &&& r matches Some(p)
            &&& p.name@ == rows@[0].name@
            &&& p.tables@ == listed(rows@, rows@[0].name@)
        },
{
    let ghost all = rows@;
    let mut tables: Vec<Table> = Vec::new();
    let mut name: Option<String> = None;
    for row in it: rows
        invariant
            it.seq() == all,
            all == rows@,
            forall|i: int, j: int|
                0 <= i < all.len() && 0 <= j < all.len() ==> (#[trigger] all[i]).name@ == (
                #[trigger] all[j]).name@,
            it.index() == 0 ==> name is None,
            it.index() > 0 ==> (name matches Some(n) && n@ == all[0].name@),
            tables@ == listed(all.take(it.index() as int), all[0].name@),
    {
        proof {
            let k = it.index() as int;
            assert(row == all[k]);
            assert(all[0].name@ == all[k].name@);
            assert(all.take(k + 1).drop_last() =~= all.take(k));
            assert(all.take(k + 1).last() == all[k]);
        }
        if name.is_none() {
            name = Some(row.name);
        }
        if let (Some(schema), Some(table_name)) = (row.schema, row.table) {
            tables.push(Table { schema, name: table_name });
        }
    }
    proof {
        assert(all.take(all.len() as int) =~= all);
    }
    match name {
        Some(name) => Some(Publication { name, tables }),
        None => None,
    }
}

/// Whether the publications are those that rows name, each once and with the tables listed for it.
pub open spec fn gathered(publications: Seq<Publication>, rows: Seq<PublicationRow>) -> bool {
    &&& forall|i: int, j: int|
        0 <= i < j < publications.len() ==> (#[trigger] publications[i]).name@ != (
        #[trigger] publications[j]).name@
    &&& forall|i: int|
        0 <= i < publications.len() ==> {
            &&& named(rows, (#[trigger] publications[i]).name@)
            &&& publications[i].tables@ == listed(rows, publications[i].name@)
        }
    &&& forall|k: int|
        0 <= k < rows.len() ==> exists|i: int|
            0 <= i < publications.len() && (#[trigger] publications[i]).name@ == (
            #[trigger] rows[k]).name@
}

fn find_publication(publications: &Vec<Publication>, name: &String) -> (r: Option<usize>)
    ensures
        match r {
            Some(i) => i < publications@.len() && publications@[i as int].name@ == name@,
            None => forall|i: int|
                0 <= i < publications@.len() ==> (#[trigger] publications@[i]).name@ != name@,
        },
{
    let n: usize = publications.len();
    let mut i: usize = 0;
    while i < n
        invariant
            i <= n,
            n == publications@.len(),
            forall|j: int| 0 <= j < i ==> (#[trigger] publications@[j]).name@ != name@,
        decreases n - i,
    {
        if publications[i].name == *name {
            return Some(i);
        }
        i = i + 1;
    }
    None
}

proof fn lemma_unnamed(rows: Seq<PublicationRow>, name: Seq<char>)
    requires
        !named(rows, name),
    ensures
        listed(rows, name) == Seq::<Table>::empty(),
    decreases rows.len(),
{
    if rows.len() > 0 {
        assert(rows.last().name@ != name) by {
            assert(rows[rows.len() - 1].name@ != name);
        }
        assert(!named(rows.drop_last(), name)) by {
            assert forall|i: int| 0 <= i < rows.drop_last().len() implies (
            #[trigger] rows.drop_last()[i]).name@ != name by {
                assert(rows[i].name@ != name);
            }
        }
        lemma_unnamed(rows.drop_last(), name);
    }
}

/// Adds a catalog row to the publications gathered so far.
fn gather(publications: &mut Vec<Publication>, row: PublicationRow, seen: Ghost<Seq<PublicationRow>>)
    requires
        gathered(old(publications)@, seen@),
    ensures
        gathered(final(publications)@, seen@.push(row)),
{
    let ghost before = publications@;
    let ghost rows = seen@.push(row);
    let ghost name = row.name@;
    let ghost table = row_table(row);
    proof {
        assert(rows.drop_last() =~= seen@);
        assert forall|n: Seq<char>| #[trigger] named(rows, n) <==> named(seen@, n) || n == name by {
            if named(seen@, n) {
                let i = choose|i: int| 0 <= i < seen@.len() && (#[trigger] seen@[i]).name@ == n;
                assert(rows[i].name@ == n);
            }
            if n == name {
                assert(rows[seen@.len() as int].name@ == n);
            }
            if named(rows, n) {
                let i = choose|i: int| 0 <= i < rows.len() && (#[trigger] rows[i]).name@ == n;
                if i < seen@.len() {
                    assert(seen@[i].name@ == n);
                }
            }
        }
    }
    let at: usize = match find_publication(publications, &row.name) {
        Some(i) => i,
        None => {
            proof {
                if named(seen@, name) {
                    let k = choose|k: int|
                        0 <= k < seen@.len() && (#[trigger] seen@[k]).name@ == name;
                    let i = choose|i: int|
                        0 <= i < before.len() && (#[trigger] before[i]).name@ == seen@[k].name@;
                    assert(before[i].name@ != name);
                }
                lemma_unnamed(seen@, name);
            }
            publications.push(Publication { name: row.name, tables: Vec::new() });
            publications.len() - 1
        },
    };
    let ghost middle = publications@;
    if let (Some(schema), Some(table_name)) = (row.schema, row.table) {
        publications[at].tables.push(Table { schema, name: table_name });
    }
    proof {
        let now = publications@;
        assert(now.len() == middle.len());
        assert forall|i: int| 0 <= i < now.len() implies (#[trigger] now[i]).name@
            == middle[i].name@ by {}
        assert forall|i: int| 0 <= i < now.len() && i != at implies #[trigger] now[i]
            == middle[i] by {}
        assert forall|i: int| 0 <= i < now.len() implies ({
            &&& named(rows, (#[trigger] now[i]).name@)
            &&& now[i].tables@ == listed(rows, now[i].name@)
        }) by {
            if i == at {
                assert(now[i].name@ == name);
            } else {
                assert(now[i] == before[i]);
                assert(named(seen@, before[i].name@));
                assert(middle[i].name@ != middle[at as int].name@);
            }
        }
        assert forall|k: int| 0 <= k < rows.len() implies exists|i: int|
            0 <= i < now.len() && (#[trigger] now[i]).name@ == (#[trigger] rows[k]).name@ by {
            if k < seen@.len() {
                assert(rows[k] == seen@[k]);
                let i = choose|i: int|
                    0 <= i < before.len() && (#[trigger] before[i]).name@ == seen@[k].name@;
                assert(now[i].name@ == rows[k].name@);
            } else {
                assert(now[at as int].name@ == rows[k].name@);
            }
        }
    }
}

/// Reads all publications out of the catalog rows: each once, with its tables in the order of the
/// rows.
pub fn read_all_publications(rows: Vec<PublicationRow>) -> (r: Vec<Publication>)
    ensures
        gathered(r@, rows@),
{
    let ghost all = rows@;
    let mut publications: Vec<Publication> = Vec::new();
    for row in it: rows
        invariant
            it.seq() == all,
            all == rows@,
            gathered(publications@, all.take(it.index() as int)),
    {
        proof {
            let k = it.index() as int;
            assert(all.take(k).push(all[k]) =~= all.take(k + 1));
        }
        gather(&mut publications, row, Ghost(all.take(it.index() as int)));
    }
    proof {
        assert(all.take(all.len() as int) =~= all);
    }
    publications
}

/// A name stands as it is only if it is made of small letters, underscores and, behind the first
/// character, digits; any other name is quoted.
pub proof fn law_only_plain_names_stand_unquoted(name: Seq<char>)
    ensures
        (exists|i: int|
            0 <= i < name.len() && !('a' <= #[trigger] name[i] <= 'z') && name[i] != '_' && !('0'
                <= name[i] <= '9')) ==> quoted(name) == "\""@ + doubled(name, '"') + "\""@,
        name.len() > 0 && '0' <= name[0] <= '9' ==> quoted(name) == "\""@ + doubled(name, '"')
            + "\""@,
        quoted(name) == name || quoted(name) == "\""@ + doubled(name, '"') + "\""@,
        (forall|i: int| 0 <= i < name.len() ==> 'a' <= #[trigger] name[i] <= 'z') && !pg_keyword(
            name,
        ) ==> quoted(name) == name,
        pg_keyword(name) ==> quoted(name) == "\""@ + doubled(name, '"') + "\""@,
{
    if exists|i: int|
        0 <= i < name.len() && !('a' <= #[trigger] name[i] <= 'z') && name[i] != '_' && !('0'
            <= name[i] <= '9') {
        let i = choose|i: int|
            0 <= i < name.len() && !('a' <= #[trigger] name[i] <= 'z') && name[i] != '_' && !('0'
                <= name[i] <= '9');
        assert(!simple(name));
    }
    if name.len() > 0 && '0' <= name[0] <= '9' {
        assert(!simple(name));
    }
}

/// Statements name the publication and its tables in order; each table by its schema and its name.
pub proof fn law_statements_name_the_publication(name: Seq<char>, tables: Seq<Table>)
    ensures
        quoted_tables(tables).len() == tables.len(),
        forall|i: int|
            0 <= i < tables.len() ==> #[trigger] quoted_tables(tables)[i] == quoted(
                tables[i].schema@,
            ) + "."@ + quoted(tables[i].name@),
        tables.len() > 0 ==> create_text(name, quoted_tables(tables)) == "create publication "@
            + name + " for table only "@ + joined(quoted_tables(tables), ","@)
            + " with (publish_via_partition_root = true)"@,
        create_text(name, Seq::empty()) == "create publication "@ + name
            + " with (publish_via_partition_root = true)"@,
        update_text(name, quoted_tables(tables)) == "alter publication "@ + name
            + " set table only "@ + joined(quoted_tables(tables), ","@),
        add_tables_text(name, quoted_tables(tables)) == "alter publication "@ + name
            + " add table only "@ + joined(quoted_tables(tables), ", "@),
        drop_tables_text(name, quoted_tables(tables)) == "alter publication "@ + name
            + " drop table only "@ + joined(quoted_tables(tables), ", "@),
        drop_text(name) == "drop publication if exists "@ + name,
{
    reveal_strlit("");
    assert("create publication "@ + name + ""@ + joined(Seq::<Seq<char>>::empty(), ","@)
        + " with (publish_via_partition_root = true)"@ =~= "create publication "@ + name
        + " with (publish_via_partition_root = true)"@);
}

/// A publication has the tables of its rows, in order; rows without a table add none.
pub proof fn law_rows_list_the_tables(rows: Seq<PublicationRow>, row: PublicationRow, name: Seq<char>)
    ensures
        listed(Seq::empty(), name).len() == 0,
        row.name@ == name && row.schema is Some && row.table is Some ==> listed(rows.push(row), name)
            == listed(rows, name).push(
            Table { schema: row.schema->Some_0, name: row.table->Some_0 },
        ),
        row.name@ != name || row.schema is None || row.table is None ==> listed(
            rows.push(row),
            name,
        ) == listed(rows, name),
{
    assert(rows.push(row).drop_last() =~= rows);
}

/// Tables are added to and dropped from the named publication.
pub proof fn law_tables_are_added_and_dropped(
    name: &str,
    list: &str,
    added: String,
    dropped: String,
)
    requires
        call_ensures(add_tables_statement, (name, list), added),
        call_ensures(drop_tables_statement, (name, list), dropped),
    ensures
        added@ == "alter publication "@ + name@ + " add table only "@ + list@,
        dropped@ == "alter publication "@ + name@ + " drop table only "@ + list@,
{
}

/// Every publication that the catalog names is read once, with the tables that its rows list, and no
/// other is.
pub proof fn law_publications_are_read_once(
    rows: Vec<PublicationRow>,
    r: Vec<Publication>,
    name: Seq<char>,
)
    requires
        call_ensures(read_all_publications, (rows,), r),
    ensures
        forall|i: int, j: int|
            0 <= i < r@.len() && 0 <= j < r@.len() && (#[trigger] r@[i]).name@ == (
            #[trigger] r@[j]).name@ ==> i == j,
        (exists|k: int| 0 <= k < rows@.len() && (#[trigger] rows@[k]).name@ == name) <==> (exists|
            i: int,
        |
            0 <= i < r@.len() && (#[trigger] r@[i]).name@ == name),
        forall|i: int|
            0 <= i < r@.len() ==> (#[trigger] r@[i]).tables@ == listed(rows@, r@[i].name@),
{
    if exists|k: int| 0 <= k < rows@.len() && (#[trigger] rows@[k]).name@ == name {
        let k = choose|k: int| 0 <= k < rows@.len() && (#[trigger] rows@[k]).name@ == name;
        let i = choose|i: int|
            0 <= i < r@.len() && (#[trigger] r@[i]).name@ == (#[trigger] rows@[k]).name@;
        assert(r@[i].name@ == name);
    }
    if exists|i: int| 0 <= i < r@.len() && (#[trigger] r@[i]).name@ == name {
        let i = choose|i: int| 0 <= i < r@.len() && (#[trigger] r@[i]).name@ == name;
        assert(named(rows@, r@[i].name@));
        let k = choose|k: int| 0 <= k < rows@.len() && (#[trigger] rows@[k]).name@ == r@[i].name@;
        assert(rows@[k].name@ == name);
    }
}

/// A publication without rows is none; otherwise it has the name of its rows and the tables that they
/// list.
pub proof fn law_publications_are_read_from_their_rows(
    rows: Vec<PublicationRow>,
    r: Option<Publication>,
)
    requires
        call_ensures(read_publication, (rows,), r),
    ensures
        r is Some <==> rows@.len() > 0,
        r matches Some(p) ==> p.name@ == rows@[0].name@ && p.tables@ == listed(
            rows@,
            rows@[0].name@,
        ),
{
}

} // verus!
