//! How source table names are written at destinations.
use vstd::prelude::*;

use crate::error::EtlResult;
use crate::schema::TableName;
use crate::text::{cat3, double_char, doubled, escaped};

verus! {

/// The destination's name of a table: schema and name with their underscores doubled, joined by
/// a single underscore.
pub open spec fn stringified(schema: Seq<char>, name: Seq<char>) -> Seq<char> {
    doubled(schema, '_') + "_"@ + doubled(name, '_')
}

/// Returns the destination's name of a table.
pub fn try_stringify_table_name(table_name: &TableName) -> (r: EtlResult<String>)
    ensures
        r matches Ok(s) && s@ == stringified(table_name.schema@, table_name.name@),
{
    let schema = double_char(table_name.schema.as_str(), '_');
    let name = double_char(table_name.name.as_str(), '_');
    Ok(cat3(schema.as_str(), "_", name.as_str()))
}

/// Escaping goes piece by piece.
pub proof fn lemma_escaped_concat(a: Seq<char>, b: Seq<char>, special: Set<char>, mark: char)
    ensures
        escaped(a + b, special, mark) == escaped(a, special, mark) + escaped(b, special, mark),
    decreases b.len(),
{
    if b.len() == 0 {
        assert(a + b =~= a);
        assert(escaped(a, special, mark) + escaped(b, special, mark) =~= escaped(
            a,
            special,
            mark,
        ));
    } else {
        lemma_escaped_concat(a, b.drop_last(), special, mark);
        assert((a + b).drop_last() =~= a + b.drop_last());
        assert((a + b).last() == b.last());
        assert(escaped(a + b, special, mark) =~= escaped(a, special, mark) + escaped(
            b,
            special,
            mark,
        ));
    }
}

/// The first character of an escaped text tells the first character of the text.
pub proof fn lemma_doubled_front(s: Seq<char>, c: char)
    requires
        s.len() > 0,
    ensures
        s[0] == c ==> doubled(s, c) == seq![c, c] + doubled(s.skip(1), c),
        s[0] != c ==> doubled(s, c) == seq![s[0]] + doubled(s.skip(1), c),
{
    assert(s =~= seq![s[0]] + s.skip(1));
    lemma_escaped_concat(seq![s[0]], s.skip(1), set![c], c);
    reveal_with_fuel(escaped, 2);
    let one = seq![s[0]];
    assert(one.drop_last() =~= Seq::<char>::empty());
    if s[0] == c {
        assert(doubled(one, c) =~= seq![c, c]);
    } else {
        assert(doubled(one, c) =~= seq![s[0]]);
    }
}

/// A text of `k` underscores.
pub open spec fn underscores(k: nat) -> Seq<char> {
    Seq::new(k, |i: int| '_')
}

/// Doubling loses nothing: it can be undone.
pub proof fn law_doubling_is_injective(a: Seq<char>, b: Seq<char>, c: char)
    requires
        doubled(a, c) == doubled(b, c),
    ensures
        a == b,
    decreases a.len(),
{
    if a.len() > 0 {
        lemma_doubled_front(a, c);
    }
    if b.len() > 0 {
        lemma_doubled_front(b, c);
    }
    if a.len() == 0 || b.len() == 0 {
        assert(a.len() == 0 ==> doubled(a, c).len() == 0);
        assert(b.len() == 0 ==> doubled(b, c).len() == 0);
        assert(a.len() > 0 ==> doubled(a, c).len() > 0);
        assert(b.len() > 0 ==> doubled(b, c).len() > 0);
        assert(a =~= b);
    } else {
        let x = doubled(a, c);
        assert(x[0] == a[0] && x[0] == b[0]);
        let n: int = if a[0] == c {
            2
        } else {
            1
        };
        assert(x.skip(n) =~= doubled(a.skip(1), c));
        assert(x.skip(n) =~= doubled(b.skip(1), c));
        law_doubling_is_injective(a.skip(1), b.skip(1), c);
        assert(a =~= seq![a[0]] + a.skip(1));
        assert(b =~= seq![b[0]] + b.skip(1));
    }
}

/// Whether the second name is the first with `k` underscores moved from the end of the schema to
/// the start of the table.
pub open spec fn moved(
    schema: Seq<char>,
    name: Seq<char>,
    other_schema: Seq<char>,
    other_name: Seq<char>,
    k: nat,
) -> bool {
    schema == other_schema + underscores(k) && other_name == underscores(k) + name
}

proof fn lemma_empty_schema(n1: Seq<char>, s2: Seq<char>, n2: Seq<char>) -> (k: nat)
    requires
        stringified(Seq::empty(), n1) == stringified(s2, n2),
    ensures
        moved(s2, n2, Seq::empty(), n1, k),
    decreases s2.len(),
{
    reveal_strlit("_");
    let e = Seq::<char>::empty();
    assert(doubled(e, '_') =~= e);
    assert("_"@ =~= seq!['_']);
    let left = stringified(e, n1);
    assert(left =~= seq!['_'] + doubled(n1, '_'));
    if s2.len() == 0 {
        assert(s2 =~= e);
        assert(left.skip(1) =~= doubled(n1, '_'));
        assert(left.skip(1) =~= doubled(n2, '_'));
        law_doubling_is_injective(n1, n2, '_');
        assert(s2 =~= e + underscores(0));
        assert(n1 =~= underscores(0) + n2);
        0
    } else {
        lemma_doubled_front(s2, '_');
        let right = stringified(s2, n2);
        assert(right[0] == s2[0]);
        assert(s2[0] == '_');
        assert(right[1] == '_');
        assert(left.len() > 1);
        if n1.len() == 0 {
            assert(doubled(n1, '_') =~= e);
            assert(false);
        }
        lemma_doubled_front(n1, '_');
        assert(left[1] == n1[0]);
        assert(n1[0] == '_');
        assert(left.skip(2) =~= stringified(e, n1.skip(1))) by {
            assert(stringified(e, n1.skip(1)) =~= seq!['_'] + doubled(n1.skip(1), '_'));
        }
        assert(right.skip(2) =~= stringified(s2.skip(1), n2));
        let k = lemma_empty_schema(n1.skip(1), s2.skip(1), n2);
        assert(s2 =~= seq!['_'] + s2.skip(1));
        assert(n1 =~= seq!['_'] + n1.skip(1));
        assert(s2 =~= e + underscores(k + 1));
        assert(n1 =~= underscores(k + 1) + n2);
        k + 1
    }
}

/// Two source tables get the same destination name only where underscores at the end of one
/// schema and at the start of the other table change sides.
pub proof fn law_names_collide_only_by_moved_underscores(
    s1: Seq<char>,
    n1: Seq<char>,
    s2: Seq<char>,
    n2: Seq<char>,
)
    requires
        stringified(s1, n1) == stringified(s2, n2),
    ensures
        exists|k: nat| moved(s1, n1, s2, n2, k) || moved(s2, n2, s1, n1, k),
    decreases s1.len(),
{
    if s1.len() == 0 {
        assert(s1 =~= Seq::<char>::empty());
        let k = lemma_empty_schema(n1, s2, n2);
        assert(moved(s2, n2, s1, n1, k));
    } else if s2.len() == 0 {
        assert(s2 =~= Seq::<char>::empty());
        let k = lemma_empty_schema(n2, s1, n1);
        assert(moved(s1, n1, s2, n2, k));
    } else {
        lemma_doubled_front(s1, '_');
        lemma_doubled_front(s2, '_');
        let x = stringified(s1, n1);
        assert(x[0] == s1[0]);
        assert(x[0] == s2[0]);
        let n: int = if s1[0] == '_' {
            2
        } else {
            1
        };
        assert(x.skip(n) =~= stringified(s1.skip(1), n1));
        assert(x.skip(n) =~= stringified(s2.skip(1), n2));
        law_names_collide_only_by_moved_underscores(s1.skip(1), n1, s2.skip(1), n2);
        let k = choose|k: nat|
            moved(s1.skip(1), n1, s2.skip(1), n2, k) || moved(s2.skip(1), n2, s1.skip(1), n1, k);
        assert(s1 =~= seq![s1[0]] + s1.skip(1));
        assert(s2 =~= seq![s2[0]] + s2.skip(1));
        if moved(s1.skip(1), n1, s2.skip(1), n2, k) {
            assert(s1 =~= s2 + underscores(k));
            assert(moved(s1, n1, s2, n2, k));
        } else {
            assert(s2 =~= s1 + underscores(k));
            assert(moved(s2, n2, s1, n1, k));
        }
    }
}

/// Different source tables get different destination names, as long as no table name starts
/// with an underscore.
pub proof fn law_names_do_not_collide(
    s1: Seq<char>,
    n1: Seq<char>,
    s2: Seq<char>,
    n2: Seq<char>,
)
    requires
        stringified(s1, n1) == stringified(s2, n2),
        n1.len() > 0 ==> n1[0] != '_',
        n2.len() > 0 ==> n2[0] != '_',
    ensures
        s1 == s2,
        n1 == n2,
{
    law_names_collide_only_by_moved_underscores(s1, n1, s2, n2);
    let k = choose|k: nat| moved(s1, n1, s2, n2, k) || moved(s2, n2, s1, n1, k);
    if k > 0 {
        assert(underscores(k)[0] == '_');
        if moved(s1, n1, s2, n2, k) {
            assert(n2[0] == '_');
        } else {
            assert(n1[0] == '_');
        }
    }
    assert(s1 =~= s2);
    assert(n1 =~= n2);
}

/// A table without underscores is called by its schema and its name with one underscore between them.
pub proof fn law_plain_names_are_joined(schema: Seq<char>, name: Seq<char>)
    requires
        !schema.contains('_'),
        !name.contains('_'),
    ensures
        stringified(schema, name) == schema + seq!['_'] + name,
{
    reveal_strlit("_");
    lemma_plain_text_is_kept(schema);
    lemma_plain_text_is_kept(name);
}

/// Doubling underscores keeps a text that has none.
proof fn lemma_plain_text_is_kept(s: Seq<char>)
    requires
        !s.contains('_'),
    ensures
        doubled(s, '_') == s,
    decreases s.len(),
{
    if s.len() > 0 {
        assert(s[0] != '_') by {
            assert(s.contains(s[0]));
        }
        assert(!s.skip(1).contains('_')) by {
            if s.skip(1).contains('_') {
                let i = choose|i: int| 0 <= i < s.skip(1).len() && s.skip(1)[i] == '_';
                assert(s[i + 1] == '_');
            }
        }
        lemma_plain_text_is_kept(s.skip(1));
        lemma_doubled_front(s, '_');
        assert(seq![s[0]] + s.skip(1) =~= s);
    } else {
        assert(doubled(s, '_') =~= s);
    }
}

} // verus!
