//! Names of tables and namespaces.
use vstd::prelude::*;

use crate::error::EtlResult;
use crate::schema::TableName;
use crate::table_name::{stringified, try_stringify_table_name};
use crate::text::{
    ascii, cat2, cat3, chars_of, doubled, lower_ascii, lowercased, starts, starts_with, string_of,
    to_unicode_lowercase,
};

verus! {

/// Last part of the name of a changelog table.
pub const ICEBERG_CHANGELOG_TABLE_SUFFIX: &'static str = "changelog";

/// The changelog table of a source table.
pub open spec fn changelog_name(schema: Seq<char>, name: Seq<char>, single: bool) -> Seq<char> {
    (if single {
        stringified(schema, name)
    } else {
        name
    }) + "_"@ + ICEBERG_CHANGELOG_TABLE_SUFFIX@
}

/// Returns the changelog table of a source table. Where all tables share a namespace the source
/// schema is part of the name.
pub fn table_name_to_iceberg_table_name(
    table_name: &TableName,
    single_destination_namespace: bool,
) -> (r: EtlResult<String>)
    ensures
        r matches Ok(s) && s@ == changelog_name(
            table_name.schema@,
            table_name.name@,
            single_destination_namespace,
        ),
{
    if single_destination_namespace {
        return match try_stringify_table_name(table_name) {
            Ok(name) => Ok(cat3(name.as_str(), "_", ICEBERG_CHANGELOG_TABLE_SUFFIX)),
            Err(e) => Err(e),
        };
    }
    Ok(cat3(table_name.name.as_str(), "_", ICEBERG_CHANGELOG_TABLE_SUFFIX))
}

/// Namespace in the destination where the tables will be copied
#[derive(Debug)]
pub enum DestinationNamespace {
    /// A single namespace for all tables in the source
    Single(String),
    /// One namespace for each schema in the source
    OnePerSchema,
}

impl DestinationNamespace {
    /// The namespace of a table whose schema has the given one.
    pub open spec fn chosen(&self, table_namespace: Seq<char>) -> Seq<char> {
        match *self {
            DestinationNamespace::Single(ns) => ns@,
            DestinationNamespace::OnePerSchema => table_namespace,
        }
    }

    /// Returns the single namespace, or else the table's own.
    pub fn get_or<'a>(&'a self, table_namespace: &'a str) -> (r: &'a str)
        ensures
            r@ == self.chosen(table_namespace@),
    {
        match self {
            DestinationNamespace::Single(ns) => ns.as_str(),
            DestinationNamespace::OnePerSchema => table_namespace,
        }
    }

    /// Returns whether all tables share a namespace.
    pub fn is_single(&self) -> (r: bool)
        ensures
            r == (self is Single),
    {
        match self {
            DestinationNamespace::Single(_) => true,
            DestinationNamespace::OnePerSchema => false,
        }
    }
}

/// Whether a character is a lowercase letter or a digit.
pub open spec fn alphanumeric(c: char) -> bool {
    ('a' <= c && c <= 'z') || ('0' <= c && c <= '9')
}

/// Returns whether a character is a lowercase letter or a digit.
fn is_alphanumeric(c: char) -> (r: bool)
    ensures
        r == alphanumeric(c),
{
    ('a' <= c && c <= 'z') || ('0' <= c && c <= '9')
}

/// The character that stands for another in a namespace.
pub open spec fn namespace_char(c: char) -> char {
    if alphanumeric(c) {
        c
    } else {
        '_'
    }
}

/// A name with each unusable character replaced by an underscore.
pub open spec fn replaced(lowered: Seq<char>) -> Seq<char> {
    Seq::new(lowered.len(), |i: int| namespace_char(lowered[i]))
}

/// A name that does not start with the reserved letters.
pub open spec fn unreserved(name: Seq<char>) -> Seq<char> {
    if starts(name, "aws"@) {
        "s_"@ + name
    } else {
        name
    }
}

/// A name that starts with a letter or a digit.
pub open spec fn well_started(name: Seq<char>) -> Seq<char> {
    if name.len() > 0 && !alphanumeric(name[0]) {
        "s"@ + name
    } else {
        name
    }
}

/// A name that ends with a letter or a digit.
pub open spec fn well_ended(name: Seq<char>) -> Seq<char> {
    if name.len() > 0 && !alphanumeric(name.last()) {
        name + "e"@
    } else {
        name
    }
}

/// The namespace of a schema whose name is already in lowercase.
pub open spec fn namespace_of(lowered: Seq<char>) -> Seq<char> {
    well_ended(well_started(unreserved(replaced(lowered))))
}

/// What a namespace may hold: lowercase letters, digits and underscores, a letter or a digit at
/// both ends, and no reserved start.
pub open spec fn valid_namespace(name: Seq<char>) -> bool {
    &&& forall|i: int| 0 <= i < name.len() ==> alphanumeric(#[trigger] name[i]) || name[i] == '_'
    &&& name.len() > 0 ==> alphanumeric(name[0]) && alphanumeric(name.last())
    &&& !starts(name, "aws"@)
}

/// Returns the namespace of a schema whose name is already in lowercase.
pub fn lowercase_schema_to_namespace(lowered: &str) -> (r: String)
    ensures
        r@ == namespace_of(lowered@),
{
    let chars = chars_of(lowered);
    let mut kept: Vec<char> = Vec::new();
    let n: usize = chars.len();
    let mut i: usize = 0;
    while i < n
        invariant
            i <= n,
            n == chars@.len(),
            kept@.len() == i,
            forall|j: int| 0 <= j < i ==> #[trigger] kept@[j] == namespace_char(chars@[j]),
        decreases n - i,
    {
        let c = chars[i];
        kept.push(
            if is_alphanumeric(c) || c == '_' {
                c
            } else {
                '_'
            },
        );
        i = i + 1;
    }
    proof {
        assert(kept@ =~= replaced(lowered@));
    }
    let mut namespace = string_of(kept.as_slice(), 0, n);
    proof {
        assert(kept@.subrange(0, n as int) =~= kept@);
    }
    if starts_with(namespace.as_str(), "aws") {
        namespace = cat2("s_", namespace.as_str());
    }
    let chars = chars_of(namespace.as_str());
    if chars.len() > 0 && !is_alphanumeric(chars[0]) {
        namespace = cat2("s", namespace.as_str());
    }
    let chars = chars_of(namespace.as_str());
    if chars.len() > 0 && !is_alphanumeric(chars[chars.len() - 1]) {
        namespace = cat2(namespace.as_str(), "e");
    }
    namespace
}

/// Converts a Postgres schema name to a S3 tables namespace
/// such that the naming rules of the namespace are followed.
pub fn schema_to_namespace(schema: &str) -> (r: String)
    ensures
        r@ == namespace_of(lowercased(schema@)),
{
    let lowered = to_unicode_lowercase(schema);
    lowercase_schema_to_namespace(lowered.as_str())
}

/// Every namespace follows the naming rules, whatever the schema is called.
pub proof fn law_namespace_is_valid(lowered: Seq<char>)
    ensures
        valid_namespace(namespace_of(lowered)),
        lowered.len() > 0 ==> namespace_of(lowered).len() > 0,
{
    reveal_strlit("aws");
    reveal_strlit("s_");
    reveal_strlit("s");
    reveal_strlit("e");
    let a = replaced(lowered);
    let b = unreserved(a);
    let c = well_started(b);
    let d = well_ended(c);
    if starts(a, "aws"@) {
        assert(b[0] == 's');
    }
    if c.len() > 0 {
        assert(c[0] == d[0]);
    }
    if starts(d, "aws"@) {
        let p = d.take(3);
        assert(p[0] == 'a' && p[1] == 'w' && p[2] == 's');
        assert(d[0] == 'a' && d[1] == 'w' && d[2] == 's');
        assert(c == b);
        assert(b == a);
        if c.len() < 3 {
            assert(d[2] == 'e');
        }
        assert(a.take(3) =~= "aws"@);
    }
}

/// A name that already follows the naming rules is kept. So the namespace of a namespace is that
/// namespace.
pub proof fn law_valid_namespace_is_kept(name: Seq<char>)
    ensures
        valid_namespace(name) ==> namespace_of(name) == name && namespace_of(lowercased(name))
            == name,
        namespace_of(lowercased(namespace_of(lowercased(name)))) == namespace_of(lowercased(name)),
{
    lemma_kept(name);
    law_namespace_is_valid(lowercased(name));
    lemma_kept(namespace_of(lowercased(name)));
}

proof fn lemma_kept(name: Seq<char>)
    ensures
        valid_namespace(name) ==> namespace_of(name) == name && lowercased(name) == name,
{
    if valid_namespace(name) {
        assert(replaced(name) =~= name);
        assert(ascii(name));
        assert(lower_ascii(name) =~= name);
    }
}

/// A changelog table is called after its table; where all tables share a namespace, the name holds the
/// schema as well.
pub proof fn law_changelog_tables_have_these_names(schema: Seq<char>, name: Seq<char>)
    ensures
        changelog_name(schema, name, false) == name + "_"@ + "changelog"@,
        changelog_name(schema, name, true) == doubled(schema, '_') + "_"@ + doubled(name, '_')
            + "_"@ + "changelog"@,
{
}

/// A configured namespace takes all tables; otherwise each table goes to that of its schema.
pub proof fn law_namespaces_are_chosen(ns: String, table_namespace: Seq<char>)
    ensures
        DestinationNamespace::Single(ns).chosen(table_namespace) == ns@,
        DestinationNamespace::OnePerSchema.chosen(table_namespace) == table_namespace,
{
}

/// Letters and digits are kept and every other character becomes an underscore. A name that starts
/// with aws gets `s_` in front, one that starts with an underscore an `s`, and one that ends with an
/// underscore an `e` behind it.
pub proof fn law_namespaces_keep_letters_and_digits(lowered: Seq<char>)
    ensures
        replaced(lowered).len() == lowered.len(),
        forall|i: int|
            0 <= i < lowered.len() ==> ('a' <= #[trigger] lowered[i] <= 'z' || '0' <= lowered[i]
                <= '9' ==> replaced(lowered)[i] == lowered[i]),
        forall|i: int|
            0 <= i < lowered.len() ==> (!('a' <= #[trigger] lowered[i] <= 'z') && !('0'
                <= lowered[i] <= '9') ==> replaced(lowered)[i] == '_'),
        ({
            let kept = replaced(lowered);
            let n = kept.len() as int;
            &&& n > 0 && kept[0] != '_' && kept[n - 1] != '_' && !starts(kept, "aws"@)
                ==> namespace_of(lowered) == kept
            &&& n > 0 && kept[n - 1] != '_' && starts(kept, "aws"@) ==> namespace_of(lowered)
                == "s_"@ + kept
            &&& n > 0 && kept[n - 1] == '_' && starts(kept, "aws"@) ==> namespace_of(lowered)
                == "s_"@ + kept + "e"@
            &&& n > 0 && kept[0] == '_' && kept[n - 1] != '_' ==> namespace_of(lowered) == "s"@
                + kept
            &&& n > 0 && kept[0] == '_' && kept[n - 1] == '_' ==> namespace_of(lowered) == "s"@
                + kept + "e"@
            &&& n > 0 && kept[0] != '_' && kept[n - 1] == '_' && !starts(kept, "aws"@)
                ==> namespace_of(lowered) == kept + "e"@
            &&& n == 0 ==> namespace_of(lowered).len() == 0
        }),
{
    reveal_strlit("aws");
    reveal_strlit("s_");
    reveal_strlit("s");
    reveal_strlit("e");
    let kept = replaced(lowered);
    if kept.len() > 0 && kept[0] == '_' && starts(kept, "aws"@) {
        assert(kept.take(3)[0] == 'a');
    }
    if starts(kept, "aws"@) {
        let u = "s_"@ + kept;
        assert(u[0] == 's');
        assert(u.last() == kept.last());
    }
    if kept.len() > 0 && kept[0] == '_' {
        let u = "s"@ + kept;
        assert(u.last() == kept.last());
    }
}

} // verus!
