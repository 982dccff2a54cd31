//! Ordered sets of attempts.

use vstd::prelude::*;

use crate::contracts::AttemptIdentity;

verus! {

/// A set of attempts, listed in rising order of their identities.
#[derive(Debug, PartialEq, Eq)]
pub struct AttemptSet {
    ids: Vec<AttemptIdentity>,
}

/// Whether the attempts stand in rising order without repetition.
pub open spec fn rising(ids: Seq<AttemptIdentity>) -> bool {
    forall|i: int, j: int| 0 <= i < j < ids.len() ==> ids[i]@ < ids[j]@
}

/// The attempts of a list as a set.
pub open spec fn members(ids: Seq<AttemptIdentity>) -> Set<u128> {
    Set::new(|id: u128| exists|i: int| 0 <= i < ids.len() && (#[trigger] ids[i])@ == id)
}

impl View for AttemptSet {
    type V = Set<u128>;

    closed spec fn view(&self) -> Set<u128> {
        members(self.ids@)
    }
}

impl AttemptSet {
    #[verifier::type_invariant]
    spec fn inv(self) -> bool {
        rising(self.ids@)
    }

    /// The attempts in rising order.
    pub closed spec fn listing(self) -> Seq<AttemptIdentity> {
        self.ids@
    }

    /// The empty set.
    pub fn new() -> (r: AttemptSet)
        ensures
            r@ == Set::<u128>::empty(),
            r.listing().len() == 0,
    {
        let r = AttemptSet { ids: Vec::new() };
        assert(r@ =~= Set::empty());
        r
    }

    /// The attempts in rising order.
    pub fn ids(&self) -> (r: &Vec<AttemptIdentity>)
        ensures
            r@ == self.listing(),
            rising(r@),
            self@ == members(r@),
    {
        proof {
            use_type_invariant(self);
        }
        &self.ids
    }

    /// Whether the set has no member.
    pub fn is_empty(&self) -> (r: bool)
        ensures
            r == (self@ == Set::<u128>::empty()),
            r == (self.listing().len() == 0),
    {
        proof {
            if self.ids@.len() == 0 {
                assert(self@ =~= Set::empty());
            } else {
                assert(self.ids@[0]@ == self.ids@[0]@);
                assert(self@.contains(self.ids@[0]@));
            }
        }
        self.ids.len() == 0
    }

    /// Adds an attempt.
    pub fn insert(&mut self, attempt: AttemptIdentity)
        ensures
            final(self)@ == old(self)@.insert(attempt@),
    {
        proof {
            use_type_invariant(&*self);
        }
        let ghost before = self.ids@;
        let id: u128 = attempt.uuid();
        let mut at: usize = 0;
        while at < self.ids.len() && self.ids[at].uuid() < id
            invariant
                self.ids@ == before,
                at <= before.len(),
                id == attempt@,
                forall|k: int| 0 <= k < at ==> before[k]@ < id,
            decreases before.len() - at,
        {
            at = at + 1;
        }
        if at < self.ids.len() && self.ids[at].uuid() == id {
            proof {
                assert(before[at as int]@ == id);
                assert(self@ =~= members(before).insert(id));
            }
            return;
        }
        let mut ids: Vec<AttemptIdentity> = Vec::new();
        std::mem::swap(&mut ids, &mut self.ids);
        ids.insert(at, attempt);
        proof {
            let after = ids@;
            assert(after[at as int] == attempt);
            assert forall|i: int, j: int| 0 <= i < j < after.len() implies after[i]@ < after[j]@ by {
                let a = if i < at { i } else { i - 1 };
                let b = if j < at { j } else { j - 1 };
                if i == at {
                    assert(after[j] == before[j - 1]);
                    if j - 1 > at {
                        assert(before[at as int]@ < before[j - 1]@);
                    }
                } else if j == at {
                    assert(after[i] == before[i]);
                } else {
                    assert(after[i] == before[a] && after[j] == before[b]);
                }
            }
            assert forall|p: u128| members(after).contains(p) <==> members(before).insert(
                id,
            ).contains(p) by {
                if members(after).contains(p) {
                    let i = choose|i: int| 0 <= i < after.len() && (#[trigger] after[i])@ == p;
                    if i < at {
                        assert(before[i]@ == p);
                    } else if i > at {
                        assert(before[i - 1]@ == p);
                    }
                }
                if members(before).contains(p) {
                    let i = choose|i: int| 0 <= i < before.len() && (#[trigger] before[i])@ == p;
                    if i < at {
                        assert(after[i]@ == p);
                    } else {
                        assert(after[i + 1]@ == p);
                    }
                }
                if p == id {
                    assert(after[at as int]@ == p);
                }
            }
            assert(members(after) =~= members(before).insert(id));
        }
        self.ids = ids;
    }
}

impl Clone for AttemptSet {
    fn clone(&self) -> (r: AttemptSet)
        ensures
            r@ == self@,
            r.listing() == self.listing(),
    {
        proof {
            use_type_invariant(self);
        }
        AttemptSet { ids: vstd::slice::slice_to_vec(self.ids.as_slice()) }
    }
}

impl Default for AttemptSet {
    fn default() -> (r: AttemptSet)
        ensures
            r@ == Set::<u128>::empty(),
            r.listing().len() == 0,
    {
        AttemptSet::new()
    }
}

/// Attempts that were put in are listed once each, by rising number, and nothing else is.
pub proof fn law_attempts_are_listed_once(
    set: &mut AttemptSet,
    attempt: AttemptIdentity,
    done: (),
    listed: &Vec<AttemptIdentity>,
)
    requires
        call_ensures(AttemptSet::insert, (set, attempt), done),
        call_ensures(AttemptSet::ids, (&*final(set),), listed),
    ensures
        exists|i: int| 0 <= i < listed@.len() && (#[trigger] listed@[i])@ == attempt@,
        forall|i: int|
            0 <= i < listed@.len() ==> (#[trigger] listed@[i])@ == attempt@ || old(set)@.contains(
                listed@[i]@,
            ),
        forall|id: u128| #[trigger]
            old(set)@.contains(id) ==> exists|i: int|
                0 <= i < listed@.len() && (#[trigger] listed@[i])@ == id,
        forall|i: int, j: int| 0 <= i < j < listed@.len() ==> listed@[i]@ < listed@[j]@,
{
    assert(final(set)@.contains(attempt@));
    assert forall|i: int| 0 <= i < listed@.len() implies (#[trigger] listed@[i])@ == attempt@
        || old(set)@.contains(listed@[i]@) by {
        assert(final(set)@.contains(listed@[i]@));
    }
    assert forall|id: u128| #[trigger] old(set)@.contains(id) implies exists|i: int|
        0 <= i < listed@.len() && (#[trigger] listed@[i])@ == id by {
        assert(final(set)@.contains(id));
    }
}

/// A set is empty exactly while nothing was put in.
pub proof fn law_new_sets_are_empty(
    new: AttemptSet,
    set: &mut AttemptSet,
    attempt: AttemptIdentity,
    done: (),
    fresh: bool,
    filled: bool,
)
    requires
        call_ensures(AttemptSet::new, (), new),
        call_ensures(AttemptSet::is_empty, (&new,), fresh),
        call_ensures(AttemptSet::insert, (set, attempt), done),
        call_ensures(AttemptSet::is_empty, (&*final(set),), filled),
    ensures
        fresh,
        !filled,
        forall|id: u128| !(#[trigger] new@.contains(id)),
{
    assert(final(set)@.contains(attempt@));
}

} // verus!
