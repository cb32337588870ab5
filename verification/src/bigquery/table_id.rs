//! Names of BigQuery tables and the record of what has been created.
use vstd::prelude::*;

use crate::error::{error_of, ErrorKind, ErrorModel, EtlError, EtlResult};
use crate::schema::TableName;
use crate::table_name::{stringified, try_stringify_table_name};
use crate::text::{
    cat3, cat7, chars_of, decimal, decimal_of, find_last, last_place, law_decimal_reads_back,
    law_decimal_stands_for_its_number, law_last_place_is_the_last, law_numbers_are_read_by_place,
    parse_u64, parse_unsigned, positional, string_of,
};

verus! {

/// Identifier of a dataset.
pub type BigQueryDatasetId = String;

/// Identifier of a table within a dataset.
pub type BigQueryTableId = String;

/// Returns the BigQuery identifier of a source table.
pub fn table_name_to_bigquery_table_id(table_name: &TableName) -> (r: EtlResult<BigQueryTableId>)
    ensures
        r matches Ok(s) && s@ == stringified(table_name.schema@, table_name.name@),
{
    try_stringify_table_name(table_name)
}

/// Identifier of one version of a table: each truncate starts a new version.
#[derive(Debug, PartialEq, Eq)]
pub struct SequencedBigQueryTableId(pub BigQueryTableId, pub u64);

/// What an identifier's text reads as: `Ok` with the base and the version, or the error.
pub open spec fn parsed(table_id: Seq<char>) -> Result<(Seq<char>, int), ErrorModel> {
    let at = last_place(table_id, '_');
    let base = table_id.take(at);
    let digits = table_id.skip(at + 1);
    if at < 0 {
        Err(
            error_of(
                ErrorKind::DestinationTableNameInvalid,
                "Invalid sequenced BigQuery table ID format"@,
                "No underscore found in table ID '"@ + table_id
                    + "'. Expected format: 'table_name_sequence' where sequence is a non-negative integer"@,
            ),
        )
    } else if base.len() == 0 {
        Err(
            error_of(
                ErrorKind::DestinationTableNameInvalid,
                "Invalid sequenced BigQuery table ID format"@,
                "Table name cannot be empty in sequenced table ID '"@ + table_id
                    + "'. Expected format: 'table_name_sequence'"@,
            ),
        )
    } else if digits.len() == 0 {
        Err(
            error_of(
                ErrorKind::DestinationTableNameInvalid,
                "Invalid sequenced BigQuery table ID format"@,
                "Sequence number cannot be empty in sequenced table ID '"@ + table_id
                    + "'. Expected format: 'table_name_sequence'"@,
            ),
        )
    } else {
        match parse_unsigned(digits, 10, u64::MAX as int) {
            Ok(n) => Ok((base, n)),
            Err(e) => Err(
                error_of(
                    ErrorKind::DestinationTableNameInvalid,
                    "Invalid sequence number in BigQuery table ID"@,
                    "Failed to parse sequence number '"@ + digits + "' in table ID '"@ + table_id
                        + "': "@ + e.message()
                        + ". Expected a non-negative integer (0-18446744073709551615)"@,
                ),
            ),
        }
    }
}

impl View for SequencedBigQueryTableId {
    type V = (Seq<char>, int);

    open spec fn view(&self) -> (Seq<char>, int) {
        (self.0@, self.1 as int)
    }
}

/// Text of a version's identifier: the table, an underscore, the number.
pub open spec fn sequenced_text(id: (Seq<char>, int)) -> Seq<char> {
    id.0 + "_"@ + decimal(id.1 as nat)
}

impl SequencedBigQueryTableId {
    /// Creates the identifier of the first version.
    pub fn new(table_id: BigQueryTableId) -> (r: Self)
        ensures
            r@ == (table_id@, 0int),
    {
        SequencedBigQueryTableId(table_id, 0)
    }

    /// Returns the identifier of the next version.
    pub fn next(&self) -> (r: Self)
        requires
            self.1 < u64::MAX,
        ensures
            r@ == (self@.0, self@.1 + 1),
    {
        SequencedBigQueryTableId(self.0.clone(), self.1 + 1)
    }

    /// Returns the identifier of the table without the version.
    pub fn to_bigquery_table_id(&self) -> (r: BigQueryTableId)
        ensures
            r@ == self@.0,
    {
        self.0.clone()
    }

    /// Returns whether this is a version of `base_table_id`.
    pub fn belongs_to_base(&self, base_table_id: &BigQueryTableId) -> (r: bool)
        ensures
            r == (self@.0 == base_table_id@),
    {
        self.0 == *base_table_id
    }

    /// Returns whether both identify the same version of the same table.
    pub fn equals(&self, other: &Self) -> (r: bool)
        ensures
            r == (self@ == other@),
    {
        self.0 == other.0 && self.1 == other.1
    }

    /// Returns the identifier's text.
    pub fn to_text(&self) -> (r: String)
        ensures
            r@ == sequenced_text(self@),
    {
        let n = decimal_of(self.1 as u128);
        cat3(self.0.as_str(), "_", n.as_str())
    }

    /// Parses `table_name_sequence`; the last underscore separates the two.
    pub fn parse(table_id: &str) -> (r: EtlResult<Self>)
        ensures
            r matches Ok(id) ==> parsed(table_id@) == Ok::<(Seq<char>, int), ErrorModel>(id@),
            r matches Err(e) ==> parsed(table_id@) == Err::<(Seq<char>, int), ErrorModel>(e@),
    {
        let chars = chars_of(table_id);
        let at: usize = match find_last(&chars, '_') {
            Some(i) => i,
            None => {
                return Err(
                    EtlError::new(
                        ErrorKind::DestinationTableNameInvalid,
                        "Invalid sequenced BigQuery table ID format",
                        cat3(
                            "No underscore found in table ID '",
                            table_id,
                            "'. Expected format: 'table_name_sequence' where sequence is a non-negative integer",
                        ),
                    ),
                );
            },
        };
        let base = string_of(chars.as_slice(), 0, at);
        let digits = string_of(chars.as_slice(), at + 1, chars.len());
        proof {
            assert(base@ =~= table_id@.take(at as int));
            assert(digits@ =~= table_id@.skip(at + 1));
        }
        if at == 0 {
            return Err(
                EtlError::new(
                    ErrorKind::DestinationTableNameInvalid,
                    "Invalid sequenced BigQuery table ID format",
                    cat3(
                        "Table name cannot be empty in sequenced table ID '",
                        table_id,
                        "'. Expected format: 'table_name_sequence'",
                    ),
                ),
            );
        }
        if at + 1 == chars.len() {
            return Err(
                EtlError::new(
                    ErrorKind::DestinationTableNameInvalid,
                    "Invalid sequenced BigQuery table ID format",
                    cat3(
                        "Sequence number cannot be empty in sequenced table ID '",
                        table_id,
                        "'. Expected format: 'table_name_sequence'",
                    ),
                ),
            );
        }
        match parse_u64(digits.as_str(), 10) {
            Ok(n) => Ok(SequencedBigQueryTableId(base, n)),
            Err(e) => Err(
                EtlError::new(
                    ErrorKind::DestinationTableNameInvalid,
                    "Invalid sequence number in BigQuery table ID",
                    cat7(
                        "Failed to parse sequence number '",
                        digits.as_str(),
                        "' in table ID '",
                        table_id,
                        "': ",
                        e.as_str(),
                        ". Expected a non-negative integer (0-18446744073709551615)",
                    ),
                ),
            ),
        }
    }

    /// Parses a version of `base_table_id`; anything else is passed over.
    pub fn parse_for_base(table_id: &str, base_table_id: &BigQueryTableId) -> (r: Option<Self>)
        ensures
            r is Some <==> (parsed(table_id@) matches Ok(id) && id.0 == base_table_id@),
            r matches Some(id) ==> parsed(table_id@) == Ok::<(Seq<char>, int), ErrorModel>(id@),
    {
        match Self::parse(table_id) {
            Ok(id) => if id.belongs_to_base(base_table_id) {
                Some(id)
            } else {
                None
            },
            Err(_) => None,
        }
    }
}

impl Clone for SequencedBigQueryTableId {
    fn clone(&self) -> (r: Self)
        ensures
            r == *self,
    {
        SequencedBigQueryTableId(self.0.clone(), self.1)
    }
}

impl std::str::FromStr for SequencedBigQueryTableId {
    type Err = EtlError;

    fn from_str(table_id: &str) -> (r: Result<Self, EtlError>)
        ensures
            r matches Ok(id) ==> parsed(table_id@) == Ok::<(Seq<char>, int), ErrorModel>(id@),
            r matches Err(e) ==> parsed(table_id@) == Err::<(Seq<char>, int), ErrorModel>(e@),
    {
        SequencedBigQueryTableId::parse(table_id)
    }
}

proof fn lemma_last_place_before(s: Seq<char>, tail: Seq<char>, c: char)
    requires
        forall|i: int| 0 <= i < tail.len() ==> #[trigger] tail[i] != c,
    ensures
        last_place(s.push(c) + tail, c) == s.len(),
    decreases tail.len(),
{
    let all = s.push(c) + tail;
    if tail.len() == 0 {
        assert(all =~= s.push(c));
    } else {
        assert(all.drop_last() =~= s.push(c) + tail.drop_last());
        assert(all.last() == tail.last());
        lemma_last_place_before(s, tail.drop_last(), c);
    }
}

/// An identifier's text parses back to the identifier, for every table with a name.
pub proof fn law_sequenced_id_round_trip(base: Seq<char>, n: u64)
    requires
        base.len() > 0,
    ensures
        parsed(sequenced_text((base, n as int))) == Ok::<(Seq<char>, int), ErrorModel>(
            (base, n as int),
        ),
{
    reveal_strlit("_");
    let digits = decimal(n as nat);
    let text = sequenced_text((base, n as int));
    law_decimal_reads_back(n as nat, u64::MAX as int);
    assert(text =~= base.push('_') + digits);
    assert forall|i: int| 0 <= i < digits.len() implies #[trigger] digits[i] != '_' by {
        assert('0' <= digits[i] <= '9');
    }
    lemma_last_place_before(base, digits, '_');
    assert(text.take(base.len() as int) =~= base);
    assert(text.skip((base.len() + 1) as int) =~= digits);
}

/// Versions of different tables never share an identifier, nor do different versions of one.
pub proof fn law_sequenced_ids_are_distinct(a: (Seq<char>, int), b: (Seq<char>, int))
    requires
        a.0.len() > 0,
        b.0.len() > 0,
        0 <= a.1 <= u64::MAX,
        0 <= b.1 <= u64::MAX,
        sequenced_text(a) == sequenced_text(b),
    ensures
        a == b,
{
    law_sequenced_id_round_trip(a.0, a.1 as u64);
    law_sequenced_id_round_trip(b.0, b.1 as u64);
}

/// What has been created at the destination: tables, and views with the version they show.
#[derive(Debug)]
pub struct Inner {
    created_tables: Vec<SequencedBigQueryTableId>,
    created_views: Vec<(BigQueryTableId, SequencedBigQueryTableId)>,
}

impl Inner {
    /// Nothing is recorded twice.
    #[verifier::type_invariant]
    spec fn wf(self) -> bool {
        &&& forall|i: int, j: int|
            0 <= i < j < self.created_tables@.len() ==> (#[trigger] self.created_tables@[i])@ != (
            #[trigger] self.created_tables@[j])@
        &&& forall|i: int, j: int|
            0 <= i < j < self.created_views@.len() ==> (#[trigger] self.created_views@[i]).0@ != (
            #[trigger] self.created_views@[j]).0@
    }

    /// Whether a version is recorded as created.
    pub closed spec fn has_table(&self, id: (Seq<char>, int)) -> bool {
        exists|i: int|
            0 <= i < self.created_tables@.len() && (#[trigger] self.created_tables@[i])@ == id
    }

    /// Whether a view is recorded as showing a version.
    pub closed spec fn has_view(&self, name: Seq<char>, id: (Seq<char>, int)) -> bool {
        exists|i: int|
            0 <= i < self.created_views@.len() && (#[trigger] self.created_views@[i]).0@ == name
                && self.created_views@[i].1@ == id
    }

    /// Creates an empty record.
    pub fn new() -> (r: Self)
        ensures
            forall|id: (Seq<char>, int)| !r.has_table(id),
            forall|name: Seq<char>, id: (Seq<char>, int)| !r.has_view(name, id),
    {
        Inner { created_tables: Vec::new(), created_views: Vec::new() }
    }

    /// Returns whether a version is recorded as created.
    pub fn contains_table(&self, id: &SequencedBigQueryTableId) -> (r: bool)
        ensures
            r == self.has_table(id@),
    {
        let mut i: usize = 0;
        while i < self.created_tables.len()
            invariant
                i <= self.created_tables@.len(),
                forall|j: int| 0 <= j < i ==> (#[trigger] self.created_tables@[j])@ != id@,
            decreases self.created_tables@.len() - i,
        {
            if self.created_tables[i].equals(id) {
                return true;
            }
            i = i + 1;
        }
        false
    }

    /// Returns whether a view is recorded as showing a version.
    pub fn view_shows(&self, name: &BigQueryTableId, id: &SequencedBigQueryTableId) -> (r: bool)
        ensures
            r == self.has_view(name@, id@),
    {
        let mut i: usize = 0;
        while i < self.created_views.len()
            invariant
                i <= self.created_views@.len(),
                forall|j: int|
                    0 <= j < i ==> (#[trigger] self.created_views@[j]).0@ != name@
                        || self.created_views@[j].1@ != id@,
            decreases self.created_views@.len() - i,
        {
            if self.created_views[i].0 == *name && self.created_views[i].1.equals(id) {
                return true;
            }
            i = i + 1;
        }
        false
    }

    /// Records a version as created.
    pub fn add_table(&mut self, id: SequencedBigQueryTableId)
        ensures
            final(self).has_table(id@),
            forall|t: (Seq<char>, int)|
                final(self).has_table(t) <==> old(self).has_table(t) || t == id@,
            forall|name: Seq<char>, t: (Seq<char>, int)|
                final(self).has_view(name, t) == old(self).has_view(name, t),
    {
        if self.contains_table(&id) {
            return ;
        }
        let mut tables: Vec<SequencedBigQueryTableId> = Vec::new();
        proof {
            use_type_invariant(&*self);
        }
        let ghost before = self.created_tables@;
        std::mem::swap(&mut tables, &mut self.created_tables);
        tables.push(id);
        proof {
            assert forall|j: int| 0 <= j < before.len() implies (#[trigger] before[j])@ != id@ by {}
            assert forall|i: int, j: int| 0 <= i < j < tables@.len() implies (
            #[trigger] tables@[i])@ != (#[trigger] tables@[j])@ by {
                assert(tables@[i] == before[i]);
                if j < before.len() {
                    assert(tables@[j] == before[j]);
                }
            }
        }
        self.created_tables = tables;
        proof {
            let now = self.created_tables@;
            assert forall|t: (Seq<char>, int)|
                self.has_table(t) <==> old(self).has_table(t) || t == id@ by {
                if old(self).has_table(t) {
                    let i = choose|i: int|
                        0 <= i < before.len() && (#[trigger] before[i])@ == t;
                    assert(now[i]@ == t);
                }
                if t == id@ {
                    assert(now[before.len() as int]@ == t);
                }
                if self.has_table(t) {
                    let i = choose|i: int| 0 <= i < now.len() && (#[trigger] now[i])@ == t;
                    if i < before.len() {
                        assert(before[i]@ == t);
                    }
                }
            }
        }
    }

    /// Removes the record of a version.
    pub fn remove_table(&mut self, id: &SequencedBigQueryTableId)
        ensures
            !final(self).has_table(id@),
            forall|t: (Seq<char>, int)|
                final(self).has_table(t) <==> old(self).has_table(t) && t != id@,
            forall|name: Seq<char>, t: (Seq<char>, int)|
                final(self).has_view(name, t) == old(self).has_view(name, t),
    {
        proof {
            use_type_invariant(&*self);
        }
        let ghost before = self.created_tables@;
        let ghost keep = |t: (Seq<char>, int)| t != id@;
        let mut tables: Vec<SequencedBigQueryTableId> = Vec::new();
        std::mem::swap(&mut tables, &mut self.created_tables);
        let mut kept: Vec<SequencedBigQueryTableId> = Vec::new();
        for t in it: tables
            invariant
                it.seq() == before,
                keep == (|t: (Seq<char>, int)| t != id@),
                sifted(kept@, before, it.index(), keep),
        {
            let ghost had = kept@;
            if !t.equals(id) {
                kept.push(t);
            }
            proof {
                lemma_sift_step(had, before, it.index(), keep);
                assert(t == before[it.index()]);
            }
        }
        proof {
            lemma_sifted_distinct(kept@, before, keep);
        }
        self.created_tables = kept;
        proof {
            lemma_sifted_members(kept@, before, keep);
            assert forall|t: (Seq<char>, int)|
                self.has_table(t) <==> old(self).has_table(t) && t != id@ by {
                assert(self.has_table(t) <==> recorded(kept@, t));
                assert(old(self).has_table(t) <==> recorded(before, t));
            }
        }
    }

    /// Records that a view shows a version, in place of what it showed before.
    pub fn set_view(&mut self, name: BigQueryTableId, id: SequencedBigQueryTableId)
        ensures
            final(self).has_view(name@, id@),
            forall|n: Seq<char>, t: (Seq<char>, int)|
                final(self).has_view(n, t) <==> if n == name@ {
                    t == id@
                } else {
                    old(self).has_view(n, t)
                },
            forall|t: (Seq<char>, int)| final(self).has_table(t) == old(self).has_table(t),
    {
        self.drop_view(&name);
        proof {
            use_type_invariant(&*self);
        }
        let ghost middle = *self;
        let ghost before = self.created_views@;
        let mut views: Vec<(BigQueryTableId, SequencedBigQueryTableId)> = Vec::new();
        std::mem::swap(&mut views, &mut self.created_views);
        views.push((name, id));
        proof {
            assert forall|i: int| 0 <= i < before.len() implies (#[trigger] before[i]).0@
                != name@ by {
                assert(!middle.has_view(name@, before[i].1@));
            }
            assert forall|i: int, j: int| 0 <= i < j < views@.len() implies (
            #[trigger] views@[i]).0@ != (#[trigger] views@[j]).0@ by {
                assert(views@[i] == before[i]);
                if j < before.len() {
                    assert(views@[j] == before[j]);
                }
            }
        }
        self.created_views = views;
        proof {
            let now = self.created_views@;
            let last = before.len() as int;
            assert forall|n: Seq<char>, t: (Seq<char>, int)|
                self.has_view(n, t) <==> if n == name@ {
                    t == id@
                } else {
                    middle.has_view(n, t)
                } by {
                if n == name@ {
                    assert(now[last].0@ == n && now[last].1@ == id@);
                    if self.has_view(n, t) {
                        let i = choose|i: int|
                            0 <= i < now.len() && (#[trigger] now[i]).0@ == n && now[i].1@ == t;
                        if i < last {
                            assert(now[i] == before[i]);
                        }
                    }
                } else {
                    if middle.has_view(n, t) {
                        let i = choose|i: int|
                            0 <= i < before.len() && (#[trigger] before[i]).0@ == n
                                && before[i].1@ == t;
                        assert(now[i] == before[i]);
                    }
                    if self.has_view(n, t) {
                        let i = choose|i: int|
                            0 <= i < now.len() && (#[trigger] now[i]).0@ == n && now[i].1@ == t;
                        assert(now[i] == before[i]);
                    }
                }
            }
        }
    }

    /// Removes the record of a view.
    fn drop_view(&mut self, name: &BigQueryTableId)
        ensures
            forall|n: Seq<char>, t: (Seq<char>, int)|
                final(self).has_view(n, t) <==> old(self).has_view(n, t) && n != name@,
            forall|t: (Seq<char>, int)| final(self).has_table(t) == old(self).has_table(t),
    {
        proof {
            use_type_invariant(&*self);
        }
        let ghost before = self.created_views@;
        let mut i: usize = 0;
        while i < self.created_views.len() && self.created_views[i].0 != *name
            invariant
                i <= self.created_views@.len(),
                self.created_views@ == before,
                forall|j: int| 0 <= j < i ==> (#[trigger] before[j]).0@ != name@,
            decreases self.created_views@.len() - i,
        {
            i = i + 1;
        }
        if i == self.created_views.len() {
            return ;
        }
        let mut views: Vec<(BigQueryTableId, SequencedBigQueryTableId)> = Vec::new();
        std::mem::swap(&mut views, &mut self.created_views);
        views.remove(i);
        let ghost at = i as int;
        proof {
            assert forall|p: int, q: int| 0 <= p < q < views@.len() implies (
            #[trigger] views@[p]).0@ != (#[trigger] views@[q]).0@ by {
                let p2 = if p < at {
                    p
                } else {
                    p + 1
                };
                let q2 = if q < at {
                    q
                } else {
                    q + 1
                };
                assert(before[p2].0@ != before[q2].0@);
            }
        }
        self.created_views = views;
        proof {
            let now = self.created_views@;
            assert forall|n: Seq<char>, t: (Seq<char>, int)|
                self.has_view(n, t) <==> old(self).has_view(n, t) && n != name@ by {
                if old(self).has_view(n, t) && n != name@ {
                    let j = choose|j: int|
                        0 <= j < before.len() && (#[trigger] before[j]).0@ == n && before[j].1@
                            == t;
                    let k = if j < at {
                        j
                    } else {
                        j - 1
                    };
                    assert(now[k] == before[j]);
                }
                if self.has_view(n, t) {
                    let k = choose|k: int|
                        0 <= k < now.len() && (#[trigger] now[k]).0@ == n && now[k].1@ == t;
                    let j = if k < at {
                        k
                    } else {
                        k + 1
                    };
                    assert(now[k] == before[j]);
                    if j < at {
                        assert(before[j].0@ != before[at].0@);
                    } else {
                        assert(before[at].0@ != before[j].0@);
                    }
                }
            }
        }
    }

    /// Forgets everything about a table: its view and all its versions.
    pub fn clear_table_cache(&mut self, base_table_id: &BigQueryTableId)
        ensures
            forall|t: (Seq<char>, int)|
                final(self).has_table(t) <==> old(self).has_table(t) && t.0 != base_table_id@,
            forall|n: Seq<char>, t: (Seq<char>, int)|
                final(self).has_view(n, t) <==> old(self).has_view(n, t) && n != base_table_id@,
    {
        self.drop_view(base_table_id);
        proof {
            use_type_invariant(&*self);
        }
        let ghost middle = *self;
        let ghost before = self.created_tables@;
        let ghost keep = |t: (Seq<char>, int)| t.0 != base_table_id@;
        let mut tables: Vec<SequencedBigQueryTableId> = Vec::new();
        std::mem::swap(&mut tables, &mut self.created_tables);
        let mut kept: Vec<SequencedBigQueryTableId> = Vec::new();
        for t in it: tables
            invariant
                it.seq() == before,
                keep == (|t: (Seq<char>, int)| t.0 != base_table_id@),
                sifted(kept@, before, it.index(), keep),
        {
            let ghost had = kept@;
            if !t.belongs_to_base(base_table_id) {
                kept.push(t);
            }
            proof {
                lemma_sift_step(had, before, it.index(), keep);
                assert(t == before[it.index()]);
            }
        }
        proof {
            lemma_sifted_distinct(kept@, before, keep);
        }
        self.created_tables = kept;
        proof {
            lemma_sifted_members(kept@, before, keep);
            assert forall|t: (Seq<char>, int)|
                self.has_table(t) <==> middle.has_table(t) && t.0 != base_table_id@ by {
                assert(self.has_table(t) <==> recorded(kept@, t));
                assert(middle.has_table(t) <==> recorded(before, t));
            }
        }
    }
}

/// Whether a version is among `tables`.
spec fn recorded(tables: Seq<SequencedBigQueryTableId>, t: (Seq<char>, int)) -> bool {
    exists|i: int| 0 <= i < tables.len() && (#[trigger] tables[i])@ == t
}

/// `out` holds, in order, those of the first `n` of `all` that are kept.
spec fn sifted(
    out: Seq<SequencedBigQueryTableId>,
    all: Seq<SequencedBigQueryTableId>,
    n: int,
    keep: spec_fn((Seq<char>, int)) -> bool,
) -> bool {
    out == sift(all.take(n), keep)
}

spec fn sift(
    all: Seq<SequencedBigQueryTableId>,
    keep: spec_fn((Seq<char>, int)) -> bool,
) -> Seq<SequencedBigQueryTableId>
    decreases all.len(),
{
    if all.len() == 0 {
        Seq::empty()
    } else if keep(all.last()@) {
        sift(all.drop_last(), keep).push(all.last())
    } else {
        sift(all.drop_last(), keep)
    }
}

proof fn lemma_sift_step(
    out: Seq<SequencedBigQueryTableId>,
    all: Seq<SequencedBigQueryTableId>,
    n: int,
    keep: spec_fn((Seq<char>, int)) -> bool,
)
    requires
        0 <= n < all.len(),
        sifted(out, all, n, keep),
    ensures
        sifted(
            if keep(all[n]@) {
                out.push(all[n])
            } else {
                out
            },
            all,
            n + 1,
            keep,
        ),
{
    assert(all.take(n + 1).drop_last() =~= all.take(n));
}

proof fn lemma_sift_members(
    all: Seq<SequencedBigQueryTableId>,
    keep: spec_fn((Seq<char>, int)) -> bool,
    t: (Seq<char>, int),
)
    ensures
        recorded(sift(all, keep), t) <==> recorded(all, t) && keep(t),
    decreases all.len(),
{
    if all.len() > 0 {
        let rest = all.drop_last();
        let out = sift(rest, keep);
        lemma_sift_members(rest, keep, t);
        if recorded(rest, t) {
            let i = choose|i: int| 0 <= i < rest.len() && (#[trigger] rest[i])@ == t;
            assert(all[i]@ == t);
        }
        if recorded(all, t) {
            let i = choose|i: int| 0 <= i < all.len() && (#[trigger] all[i])@ == t;
            if i < rest.len() {
                assert(rest[i]@ == t);
            }
        }
        if keep(all.last()@) {
            let now = out.push(all.last());
            if recorded(out, t) {
                let i = choose|i: int| 0 <= i < out.len() && (#[trigger] out[i])@ == t;
                assert(now[i]@ == t);
            }
            if all.last()@ == t {
                assert(now[out.len() as int]@ == t);
                assert(all[all.len() - 1]@ == t);
            }
            if recorded(now, t) {
                let i = choose|i: int| 0 <= i < now.len() && (#[trigger] now[i])@ == t;
                if i < out.len() {
                    assert(out[i]@ == t);
                }
            }
        }
    }
}

proof fn lemma_sift_distinct(
    all: Seq<SequencedBigQueryTableId>,
    keep: spec_fn((Seq<char>, int)) -> bool,
)
    requires
        forall|i: int, j: int|
            0 <= i < j < all.len() ==> (#[trigger] all[i])@ != (#[trigger] all[j])@,
    ensures
        forall|i: int, j: int|
            0 <= i < j < sift(all, keep).len() ==> (#[trigger] sift(all, keep)[i])@ != (
            #[trigger] sift(all, keep)[j])@,
    decreases all.len(),
{
    if all.len() > 0 {
        let rest = all.drop_last();
        let out = sift(rest, keep);
        assert forall|i: int, j: int| 0 <= i < j < rest.len() implies (#[trigger] rest[i])@ != (
        #[trigger] rest[j])@ by {
            assert(all[i]@ != all[j]@);
        }
        lemma_sift_distinct(rest, keep);
        if keep(all.last()@) {
            let now = out.push(all.last());
            assert forall|i: int, j: int| 0 <= i < j < now.len() implies (#[trigger] now[i])@ != (
            #[trigger] now[j])@ by {
                assert(now[i] == out[i]);
                if j < out.len() {
                    assert(now[j] == out[j]);
                } else {
                    lemma_sift_members(rest, keep, out[i]@);
                    assert(recorded(out, out[i]@));
                    let p = choose|p: int| 0 <= p < rest.len() && (#[trigger] rest[p])@ == out[i]@;
                    assert(all[p]@ != all[all.len() - 1]@);
                }
            }
        }
    }
}

proof fn lemma_sifted_distinct(
    out: Seq<SequencedBigQueryTableId>,
    all: Seq<SequencedBigQueryTableId>,
    keep: spec_fn((Seq<char>, int)) -> bool,
)
    requires
        sifted(out, all, all.len() as int, keep),
        forall|i: int, j: int|
            0 <= i < j < all.len() ==> (#[trigger] all[i])@ != (#[trigger] all[j])@,
    ensures
        forall|i: int, j: int|
            0 <= i < j < out.len() ==> (#[trigger] out[i])@ != (#[trigger] out[j])@,
{
    assert(all.take(all.len() as int) =~= all);
    lemma_sift_distinct(all, keep);
}

proof fn lemma_sifted_members(
    out: Seq<SequencedBigQueryTableId>,
    all: Seq<SequencedBigQueryTableId>,
    keep: spec_fn((Seq<char>, int)) -> bool,
)
    requires
        sifted(out, all, all.len() as int, keep),
    ensures
        forall|t: (Seq<char>, int)|
            #[trigger] recorded(out, t) <==> recorded(all, t) && keep(t),
{
    assert(all.take(all.len() as int) =~= all);
    assert forall|t: (Seq<char>, int)|
        #[trigger] recorded(out, t) <==> recorded(all, t) && keep(t) by {
        lemma_sift_members(all, keep, t);
    }
}

/// The name of a table's version is the table's name, an underscore and the number in decimal digits.
pub proof fn law_versions_have_these_names(base: Seq<char>, n: u64)
    ensures
        sequenced_text((base, n as int)) == base + "_"@ + decimal(n as nat),
        positional(sequenced_text((base, n as int)).skip(base.len() as int + 1), 10) == n,
{
    reveal_strlit("_");
    law_decimal_stands_for_its_number(n as nat);
    assert(sequenced_text((base, n as int)).skip(base.len() as int + 1) =~= decimal(n as nat));
}

/// A name is read as the version of a table if and only if it has an underscore, with something before
/// the last one and a number behind it; the number is the one that the digits stand for.
pub proof fn law_versions_are_read(name: Seq<char>)
    ensures
        (forall|i: int| 0 <= i < name.len() ==> #[trigger] name[i] != '_') ==> parsed(name) is Err,
        parsed(name) matches Ok(id) ==> {
            let at = last_place(name, '_');
            &&& 0 < at < name.len() - 1
            &&& name[at] == '_'
            &&& id.0 == name.take(at)
            &&& 0 <= id.1 <= 0xffff_ffff_ffff_ffff
            &&& id.1 == positional(
                if name[at + 1] == '+' {
                    name.skip(at + 2)
                } else {
                    name.skip(at + 1)
                },
                10,
            )
        },
        parsed(name) matches Err(e) ==> e.kind == ErrorKind::DestinationTableNameInvalid,
{
    law_last_place_is_the_last(name, '_');
    let at = last_place(name, '_');
    if at > 0 {
        let digits = name.skip(at + 1);
        law_numbers_are_read_by_place(digits, u64::MAX as int);
        if digits.len() > 0 {
            assert(digits.skip(1) =~= name.skip(at + 2));
        }
    }
}

/// The next version has the same table and the next number, and so differs; both belong to their table
/// and to no other.
pub proof fn law_versions_follow_each_other(
    id: &SequencedBigQueryTableId,
    next: SequencedBigQueryTableId,
    table: BigQueryTableId,
    other: &BigQueryTableId,
    belongs: bool,
    same: bool,
)
    requires
        call_ensures(SequencedBigQueryTableId::next, (id,), next),
        call_ensures(SequencedBigQueryTableId::to_bigquery_table_id, (id,), table),
        call_ensures(SequencedBigQueryTableId::belongs_to_base, (id, other), belongs),
        call_ensures(SequencedBigQueryTableId::equals, (id, &next), same),
    ensures
        next.0@ == id.0@,
        next.1 == id.1 + 1,
        table@ == id.0@,
        belongs <==> id.0@ == other@,
        !same,
{
}

/// A remembered version is found, a forgotten one is not, and every other is as before.
pub proof fn law_remembered_versions_are_found(
    inner: &mut Inner,
    id: SequencedBigQueryTableId,
    t: (Seq<char>, int),
)
    requires
        call_ensures(Inner::add_table, (inner, id), ()),
    ensures
        final(inner).has_table(id@),
        t != id@ ==> final(inner).has_table(t) == old(inner).has_table(t),
{
}

/// A view shows the version that it was last set to and no other; all other views stay.
pub proof fn law_views_show_one_version(
    inner: &mut Inner,
    name: BigQueryTableId,
    id: SequencedBigQueryTableId,
    n: Seq<char>,
    t: (Seq<char>, int),
)
    requires
        call_ensures(Inner::set_view, (inner, name, id), ()),
    ensures
        n == name@ ==> (final(inner).has_view(n, t) <==> t == id@),
        n != name@ ==> final(inner).has_view(n, t) == old(inner).has_view(n, t),
        final(inner).has_table(t) == old(inner).has_table(t),
{
}

} // verus!
