//! Null markers of the tables that have been written to.
use vstd::prelude::*;

verus! {

/// For each table, in column order, which values need a null marker.
#[derive(Debug)]
pub struct TableCache {
    entries: Vec<(String, Vec<bool>)>,
}

/// What is remembered of a table.
spec fn found(entries: Seq<(String, Vec<bool>)>, name: Seq<char>) -> Option<Seq<bool>>
    decreases entries.len(),
{
    if entries.len() == 0 {
        None
    } else if entries.last().0@ == name {
        Some(entries.last().1@)
    } else {
        found(entries.drop_last(), name)
    }
}

fn copied(flags: &Vec<bool>) -> (r: Vec<bool>)
    ensures
        r@ == flags@,
{
    let mut out: Vec<bool> = Vec::new();
    let mut i: usize = 0;
    while i < flags.len()
        invariant
            i <= flags@.len(),
            out@ == flags@.take(i as int),
        decreases flags@.len() - i,
    {
        out.push(flags[i]);
        i = i + 1;
        proof {
            assert(out@ =~= flags@.take(i as int));
        }
    }
    proof {
        assert(out@ =~= flags@);
    }
    out
}

impl TableCache {
    /// The markers that are remembered for a table.
    pub closed spec fn flags(&self, name: Seq<char>) -> Option<Seq<bool>> {
        found(self.entries@, name)
    }

    /// Creates an empty cache.
    pub fn new() -> (r: Self)
        ensures
            forall|name: Seq<char>| r.flags(name) is None,
    {
        TableCache { entries: Vec::new() }
    }

    /// Returns the markers that are remembered for a table.
    pub fn get(&self, name: &str) -> (r: Option<Vec<bool>>)
        ensures
            match self.flags(name@) {
                Some(flags) => r matches Some(f) && f@ == flags,
                None => r is None,
            },
    {
        let mut i: usize = self.entries.len();
        proof {
            assert(self.entries@.take(i as int) =~= self.entries@);
        }
        while i > 0
            invariant
                i <= self.entries@.len(),
                found(self.entries@, name@) == found(self.entries@.take(i as int), name@),
            decreases i,
        {
            i = i - 1;
            proof {
                assert(self.entries@.take(i + 1).drop_last() =~= self.entries@.take(i as int));
                assert(self.entries@.take(i + 1).last() == self.entries@[i as int]);
            }
            if crate::text::str_eq(self.entries[i].0.as_str(), name) {
                return Some(copied(&self.entries[i].1));
            }
        }
        None
    }

    /// Remembers markers for a table, unless there are some, and returns what is remembered.
    pub fn get_or_insert(&mut self, name: &str, flags: Vec<bool>) -> (r: Vec<bool>)
        ensures
            match old(self).flags(name@) {
                Some(had) => r@ == had && *final(self) == *old(self),
                None => r@ == flags@ && forall|n: Seq<char>| #[trigger]
                    final(self).flags(n) == if n == name@ {
                        Some(flags@)
                    } else {
                        old(self).flags(n)
                    },
            },
    {
        if let Some(had) = self.get(name) {
            return had;
        }
        let ghost before = self.entries@;
        let copy = copied(&flags);
        self.entries.push((name.to_owned(), flags));
        proof {
            assert(self.entries@.drop_last() =~= before);
        }
        copy
    }

    /// Forgets a table.
    pub fn remove(&mut self, name: &str)
        ensures
            final(self).flags(name@) is None,
            forall|n: Seq<char>| #[trigger]
                final(self).flags(n) == if n == name@ {
                    None
                } else {
                    old(self).flags(n)
                },
    {
        let mut entries: Vec<(String, Vec<bool>)> = Vec::new();
        std::mem::swap(&mut entries, &mut self.entries);
        let ghost all = entries@;
        let mut kept: Vec<(String, Vec<bool>)> = Vec::new();
        for entry in it: entries
            invariant
                it.seq() == all,
                forall|n: Seq<char>| #[trigger]
                    found(kept@, n) == if n == name@ {
                        None
                    } else {
                        found(all.take(it.index()), n)
                    },
        {
            let ghost had = kept@;
            proof {
                let k = it.index();
                assert(all.take(k + 1).drop_last() =~= all.take(k));
                assert(all.take(k + 1).last() == entry);
            }
            if !crate::text::str_eq(entry.0.as_str(), name) {
                kept.push(entry);
                proof {
                    assert(kept@.drop_last() =~= had);
                }
            }
            proof {
                let k = it.index();
                assert forall|n: Seq<char>| #[trigger]
                    found(kept@, n) == if n == name@ {
                        None
                    } else {
                        found(all.take(k + 1), n)
                    } by {
                    assert(found(had, n) == if n == name@ {
                        None
                    } else {
                        found(all.take(k), n)
                    });
                }
            }
        }
        proof {
            assert(all.take(all.len() as int) =~= all);
        }
        self.entries = kept;
    }
}

/// What is put into the cache is read back, and removed flags are not; other tables keep their flags.
pub proof fn law_cached_flags_are_read_back(
    cache: &mut TableCache,
    name: &str,
    flags: Vec<bool>,
    r: Vec<bool>,
)
    requires
        call_ensures(TableCache::get_or_insert, (cache, name, flags), r),
        old(cache).flags(name@) is None,
    ensures
        r@ == flags@,
        forall|n: &str, s: Option<Vec<bool>>| #[trigger]
            call_ensures(TableCache::get, (&*final(cache), n), s) ==> (n@ == name@ ==> s is Some
                && s->Some_0@ == flags@),
        forall|n: &str, a: Option<Vec<bool>>, b: Option<Vec<bool>>|
            #[trigger] call_ensures(TableCache::get, (&*old(cache), n), a)
                && #[trigger] call_ensures(TableCache::get, (&*final(cache), n), b) && n@ != name@
                ==> (a is Some <==> b is Some) && (a is Some ==> a->Some_0@ == b->Some_0@),
{
}

/// Removed flags are not found again.
pub proof fn law_removed_flags_are_gone(cache: &mut TableCache, name: &str)
    requires
        call_ensures(TableCache::remove, (cache, name), ()),
    ensures
        forall|n: &str, s: Option<Vec<bool>>| #[trigger]
            call_ensures(TableCache::get, (&*final(cache), n), s) ==> (n@ == name@ ==> s is None),
        forall|n: &str, a: Option<Vec<bool>>, b: Option<Vec<bool>>|
            #[trigger] call_ensures(TableCache::get, (&*old(cache), n), a)
                && #[trigger] call_ensures(TableCache::get, (&*final(cache), n), b) && n@ != name@
                ==> (a is Some <==> b is Some) && (a is Some ==> a->Some_0@ == b->Some_0@),
{
}

} // verus!
