//! The open channels, by table.
use vstd::prelude::*;

use crate::schema::TableId;
use crate::snowflake::error::{Error, SnowflakeResult};
use crate::snowflake::streaming::channel::ChannelHandle;
use crate::text::{cat2, decimal, decimal_of};

verus! {

/// The open channels, one for each table.
#[derive(Debug)]
pub struct ChannelMap {
    entries: Vec<(TableId, ChannelHandle)>,
}

/// The channel of a table.
spec fn found(entries: Seq<(TableId, ChannelHandle)>, id: TableId) -> Option<ChannelHandle>
    decreases entries.len(),
{
    if entries.len() == 0 {
        None
    } else if entries.last().0 == id {
        Some(entries.last().1)
    } else {
        found(entries.drop_last(), id)
    }
}

proof fn lemma_found_at(entries: Seq<(TableId, ChannelHandle)>, id: TableId, i: int)
    requires
        0 <= i < entries.len(),
        entries[i].0 == id,
        forall|j: int| i < j < entries.len() ==> (#[trigger] entries[j]).0 != id,
    ensures
        found(entries, id) == Some(entries[i].1),
    decreases entries.len(),
{
    if i < entries.len() - 1 {
        let last = entries.len() - 1;
        assert(entries[last].0 != id);
        lemma_found_at(entries.drop_last(), id, i);
    }
}

proof fn lemma_found_nowhere(entries: Seq<(TableId, ChannelHandle)>, id: TableId)
    requires
        forall|j: int| 0 <= j < entries.len() ==> (#[trigger] entries[j]).0 != id,
    ensures
        found(entries, id) is None,
    decreases entries.len(),
{
    if entries.len() > 0 {
        let last = entries.len() - 1;
        assert(entries[last].0 != id);
        lemma_found_nowhere(entries.drop_last(), id);
    }
}

/// A change of one entry is not seen by other tables.
proof fn lemma_found_elsewhere(
    before: Seq<(TableId, ChannelHandle)>,
    now: Seq<(TableId, ChannelHandle)>,
    i: int,
    id: TableId,
)
    requires
        0 <= i < before.len(),
        now == before.update(i, now[i]),
        now.len() == before.len(),
        now[i].0 == before[i].0,
        before[i].0 != id,
    ensures
        found(now, id) == found(before, id),
    decreases before.len(),
{
    let last = before.len() - 1;
    if i < last {
        assert(now[last] == before[last]);
        assert(now.drop_last() =~= before.drop_last().update(i, now[i]));
        lemma_found_elsewhere(before.drop_last(), now.drop_last(), i, id);
    } else {
        assert(now.drop_last() =~= before.drop_last());
    }
}

/// Whether an error says that a table has no open channel.
pub open spec fn no_channel(e: Error, table_id: TableId) -> bool {
    e matches Error::Channel(text) && text@ == "no open channel for table "@ + decimal(
        table_id.0 as nat,
    )
}

/// Makes the error for a table that has no open channel.
pub fn missing_channel(table_id: TableId) -> (r: Error)
    ensures
        no_channel(r, table_id),
{
    let id = decimal_of(table_id.0 as u128);
    Error::Channel(cat2("no open channel for table ", id.as_str()))
}

impl ChannelMap {
    /// The channel of a table.
    pub closed spec fn channel(&self, id: TableId) -> Option<ChannelHandle> {
        found(self.entries@, id)
    }

    /// Creates a map without channels.
    pub fn new() -> (r: Self)
        ensures
            forall|id: TableId| r.channel(id) is None,
    {
        ChannelMap { entries: Vec::new() }
    }

    fn place(&self, id: TableId) -> (r: Option<usize>)
        ensures
            match r {
                Some(i) => {
                    &&& i < self.entries@.len()
                    &&& self.entries@[i as int].0 == id
                    &&& forall|j: int|
                        i < j < self.entries@.len() ==> (#[trigger] self.entries@[j]).0 != id
                    &&& self.channel(id) == Some(self.entries@[i as int].1)
                },
                None => self.channel(id) is None,
            },
    {
        let mut i: usize = self.entries.len();
        while i > 0
            invariant
                i <= self.entries@.len(),
                forall|j: int| i <= j < self.entries@.len() ==> (#[trigger] self.entries@[j]).0 != id,
            decreases i,
        {
            i = i - 1;
            if self.entries[i].0 == id {
                proof {
                    lemma_found_at(self.entries@, id, i as int);
                }
                return Some(i);
            }
        }
        proof {
            lemma_found_nowhere(self.entries@, id);
        }
        None
    }

    /// Returns whether a table has a channel.
    pub fn contains(&self, id: TableId) -> (r: bool)
        ensures
            r == (self.channel(id) is Some),
    {
        self.place(id).is_some()
    }

    /// Returns the channel of a table, which must be open.
    pub fn get_channel(&self, id: TableId) -> (r: SnowflakeResult<&ChannelHandle>)
        ensures
            match self.channel(id) {
                Some(handle) => r matches Ok(h) && *h == handle,
                None => r matches Err(e) && no_channel(e, id),
            },
    {
        match self.place(id) {
            Some(i) => Ok(&self.entries[i].1),
            None => Err(missing_channel(id)),
        }
    }

    /// Returns the channel of a table, which must be open, to be changed.
    pub fn get_channel_mut(&mut self, id: TableId) -> (r: SnowflakeResult<&mut ChannelHandle>)
        ensures
            match old(self).channel(id) {
                Some(handle) => r matches Ok(h) && *h == handle && forall|n: TableId| #[trigger]
                    final(self).channel(n) == if n == id {
                        Some(*final(h))
                    } else {
                        old(self).channel(n)
                    },
                None => r matches Err(e) && no_channel(e, id) && *final(self) == *old(self),
            },
    {
        match self.place(id) {
            Some(i) => {
                let ghost before = self.entries@;
                let entry = &mut self.entries[i];
                let handle = &mut entry.1;
                proof {
                    let now = before.update(i as int, (id, *final(handle)));
                    lemma_found_at(now, id, i as int);
                    assert forall|n: TableId| n != id implies #[trigger] found(now, n) == found(
                        before,
                        n,
                    ) by {
                        lemma_found_elsewhere(before, now, i as int, n);
                    }
                }
                Ok(handle)
            },
            None => Err(missing_channel(id)),
        }
    }

    /// Gives a table a channel, in place of the one that it has.
    pub fn insert(&mut self, id: TableId, handle: ChannelHandle)
        ensures
            final(self).channel(id) == Some(handle),
            forall|n: TableId| #[trigger]
                final(self).channel(n) == if n == id {
                    Some(handle)
                } else {
                    old(self).channel(n)
                },
    {
        let ghost before = self.entries@;
        match self.place(id) {
            Some(i) => {
                self.entries.set(i, (id, handle));
                proof {
                    let now = self.entries@;
                    assert forall|j: int| i < j < now.len() implies (#[trigger] now[j]).0 != id by {
                        assert(now[j] == before[j]);
                    }
                    lemma_found_at(now, id, i as int);
                    assert forall|n: TableId| n != id implies #[trigger] found(now, n) == found(
                        before,
                        n,
                    ) by {
                        lemma_found_elsewhere(before, now, i as int, n);
                    }
                    assert forall|n: TableId| #[trigger]
                        self.channel(n) == if n == id {
                            Some(handle)
                        } else {
                            old(self).channel(n)
                        } by {
                        assert(found(now, n) == self.channel(n));
                    }
                }
            },
            None => {
                self.entries.push((id, handle));
                proof {
                    assert(self.entries@.drop_last() =~= before);
                }
            },
        }
    }

    /// Takes the channel of a table out.
    pub fn remove(&mut self, id: TableId) -> (r: Option<ChannelHandle>)
        ensures
            r == old(self).channel(id),
            forall|n: TableId| #[trigger]
                final(self).channel(n) == if n == id {
                    None
                } else {
                    old(self).channel(n)
                },
    {
        let mut entries: Vec<(TableId, ChannelHandle)> = Vec::new();
        std::mem::swap(&mut entries, &mut self.entries);
        let ghost all = entries@;
        let mut kept: Vec<(TableId, ChannelHandle)> = Vec::new();
        let mut taken: Option<ChannelHandle> = None;
        for entry in it: entries
            invariant
                it.seq() == all,
                taken == found(all.take(it.index()), id),
                forall|n: TableId| #[trigger]
                    found(kept@, n) == if n == id {
                        None
                    } else {
                        found(all.take(it.index()), n)
                    },
        {
            let ghost had = kept@;
            proof {
                let k = it.index();
                assert(all.take(k + 1).drop_last() =~= all.take(k));
                assert(all.take(k + 1).last() == entry);
            }
            if entry.0 == id {
                taken = Some(entry.1);
            } else {
                kept.push(entry);
                proof {
                    assert(kept@.drop_last() =~= had);
                }
            }
            proof {
                let k = it.index();
                assert forall|n: TableId| #[trigger]
                    found(kept@, n) == if n == id {
                        None
                    } else {
                        found(all.take(k + 1), n)
                    } by {
                    assert(found(had, n) == if n == id {
                        None
                    } else {
                        found(all.take(k), n)
                    });
                }
            }
        }
        proof {
            assert(all.take(all.len() as int) =~= all);
        }
        self.entries = kept;
        taken
    }
}

/// A table without a channel is named in the error.
pub proof fn law_missing_channels_are_named(table: TableId, e: Error)
    requires
        call_ensures(missing_channel, (table,), e),
    ensures
        e matches Error::Channel(text) && text@ == "no open channel for table "@ + decimal(
            table.0 as nat,
        ),
{
}

/// The channel that was put in for a table is found, and every other table has the channel it had.
pub proof fn law_inserted_channels_are_found(
    map: &mut ChannelMap,
    id: TableId,
    handle: ChannelHandle,
)
    requires
        call_ensures(ChannelMap::insert, (map, id, handle), ()),
    ensures
        forall|r: SnowflakeResult<&ChannelHandle>| #[trigger]
            call_ensures(ChannelMap::get_channel, (&*final(map), id), r) ==> (r is Ok && *r->Ok_0
                == handle),
        forall|found: bool| #[trigger]
            call_ensures(ChannelMap::contains, (&*final(map), id), found) ==> found,
        forall|n: TableId, a: bool, b: bool|
            #[trigger] call_ensures(ChannelMap::contains, (&*old(map), n), a)
                && #[trigger] call_ensures(ChannelMap::contains, (&*final(map), n), b) && n != id
                ==> a == b,
{
}

/// A removed channel is handed out and not found again, and every other table has the channel it had.
pub proof fn law_removed_channels_are_gone(
    map: &mut ChannelMap,
    id: TableId,
    r: Option<ChannelHandle>,
)
    requires
        call_ensures(ChannelMap::remove, (map, id), r),
    ensures
        forall|found: bool| #[trigger]
            call_ensures(ChannelMap::contains, (&*old(map), id), found) ==> found == r is Some,
        forall|found: bool| #[trigger]
            call_ensures(ChannelMap::contains, (&*final(map), id), found) ==> !found,
        forall|n: TableId, a: bool, b: bool|
            #[trigger] call_ensures(ChannelMap::contains, (&*old(map), n), a)
                && #[trigger] call_ensures(ChannelMap::contains, (&*final(map), n), b) && n != id
                ==> a == b,
{
}

} // verus!
