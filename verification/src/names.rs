//! A set of names.
use vstd::prelude::*;

verus! {

/// Names, each recorded once.
#[derive(Debug)]
pub struct NameSet {
    names: Vec<String>,
}

impl NameSet {
    /// No name is recorded twice.
    #[verifier::type_invariant]
    spec fn wf(self) -> bool {
        forall|i: int, j: int|
            0 <= i < j < self.names@.len() ==> (#[trigger] self.names@[i])@ != (
            #[trigger] self.names@[j])@
    }

    /// Whether a name is recorded.
    pub closed spec fn has(&self, name: Seq<char>) -> bool {
        exists|i: int| 0 <= i < self.names@.len() && (#[trigger] self.names@[i])@ == name
    }

    /// Creates an empty set.
    pub fn new() -> (r: Self)
        ensures
            forall|name: Seq<char>| !r.has(name),
    {
        NameSet { names: Vec::new() }
    }

    /// Returns whether a name is recorded.
    pub fn contains(&self, name: &String) -> (r: bool)
        ensures
            r == self.has(name@),
    {
        let mut i: usize = 0;
        while i < self.names.len()
            invariant
                i <= self.names@.len(),
                forall|j: int| 0 <= j < i ==> (#[trigger] self.names@[j])@ != name@,
            decreases self.names@.len() - i,
        {
            if self.names[i] == *name {
                return true;
            }
            i = i + 1;
        }
        false
    }

    /// Records a name.
    pub fn insert(&mut self, name: String)
        ensures
            final(self).has(name@),
            forall|n: Seq<char>| final(self).has(n) <==> old(self).has(n) || n == name@,
    {
        if self.contains(&name) {
            return ;
        }
        proof {
            use_type_invariant(&*self);
        }
        let ghost before = self.names@;
        let mut names: Vec<String> = Vec::new();
        std::mem::swap(&mut names, &mut self.names);
        names.push(name);
        proof {
            assert forall|i: int, j: int| 0 <= i < j < names@.len() implies (
            #[trigger] names@[i])@ != (#[trigger] names@[j])@ by {
                assert(names@[i] == before[i]);
                if j < before.len() {
                    assert(names@[j] == before[j]);
                } else {
                    assert(before[i]@ != name@);
                }
            }
        }
        self.names = names;
        proof {
            let now = self.names@;
            assert forall|n: Seq<char>| self.has(n) <==> old(self).has(n) || n == name@ by {
                if old(self).has(n) {
                    let i = choose|i: int| 0 <= i < before.len() && (#[trigger] before[i])@ == n;
                    assert(now[i]@ == n);
                }
                if n == name@ {
                    assert(now[before.len() as int]@ == n);
                }
                if self.has(n) {
                    let i = choose|i: int| 0 <= i < now.len() && (#[trigger] now[i])@ == n;
                    if i < before.len() {
                        assert(before[i]@ == n);
                    }
                }
            }
        }
    }

    /// Removes a name.
    pub fn remove(&mut self, name: &String)
        ensures
            !final(self).has(name@),
            forall|n: Seq<char>| final(self).has(n) <==> old(self).has(n) && n != name@,
    {
        proof {
            use_type_invariant(&*self);
        }
        let ghost before = self.names@;
        let mut i: usize = 0;
        while i < self.names.len() && self.names[i] != *name
            invariant
                i <= self.names@.len(),
                self.names@ == before,
                forall|j: int| 0 <= j < i ==> (#[trigger] before[j])@ != name@,
            decreases self.names@.len() - i,
        {
            i = i + 1;
        }
        if i == self.names.len() {
            return ;
        }
        let mut names: Vec<String> = Vec::new();
        std::mem::swap(&mut names, &mut self.names);
        names.remove(i);
        let ghost at = i as int;
        proof {
            assert forall|p: int, q: int| 0 <= p < q < names@.len() implies (
            #[trigger] names@[p])@ != (#[trigger] names@[q])@ by {
                let p2 = if p < at {
                    p
                } else {
                    p + 1
                };
                let q2 = if q < at {
                    q
                } else {
                    q + 1
                };
                assert(before[p2]@ != before[q2]@);
            }
        }
        self.names = names;
        proof {
            let now = self.names@;
            assert forall|n: Seq<char>| self.has(n) <==> old(self).has(n) && n != name@ by {
                if old(self).has(n) && n != name@ {
                    let j = choose|j: int| 0 <= j < before.len() && (#[trigger] before[j])@ == n;
                    let k = if j < at {
                        j
                    } else {
                        j - 1
                    };
                    assert(now[k] == before[j]);
                }
                if self.has(n) {
                    let k = choose|k: int| 0 <= k < now.len() && (#[trigger] now[k])@ == n;
                    let j = if k < at {
                        k
                    } else {
                        k + 1
                    };
                    assert(now[k] == before[j]);
                    if j < at {
                        assert(before[j]@ != before[at]@);
                    } else {
                        assert(before[at]@ != before[j]@);
                    }
                }
            }
        }
    }
}

/// An inserted name is in the set, and all others are as before.
pub proof fn law_inserted_names_are_found(set: &mut NameSet, name: String)
    requires
        call_ensures(NameSet::insert, (set, name), ()),
    ensures
        forall|n: &String, found: bool| #[trigger]
            call_ensures(NameSet::contains, (&*final(set), n), found) ==> (n@ == name@ ==> found),
        forall|n: &String, a: bool, b: bool|
            #[trigger] call_ensures(NameSet::contains, (&*old(set), n), a)
                && #[trigger] call_ensures(NameSet::contains, (&*final(set), n), b) && n@ != name@
                ==> a == b,
{
}

/// A removed name is not in the set, and all others are as before.
pub proof fn law_removed_names_are_gone(set: &mut NameSet, name: &String)
    requires
        call_ensures(NameSet::remove, (set, name), ()),
    ensures
        forall|n: &String, found: bool| #[trigger]
            call_ensures(NameSet::contains, (&*final(set), n), found) ==> (n@ == name@ ==> !found),
        forall|n: &String, a: bool, b: bool|
            #[trigger] call_ensures(NameSet::contains, (&*old(set), n), a)
                && #[trigger] call_ensures(NameSet::contains, (&*final(set), n), b) && n@ != name@
                ==> a == b,
{
}

} // verus!
