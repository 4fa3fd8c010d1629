//! A map keyed by source role, iterated in canonical role order.
use crate::source::{role_rank, SourceRole};
use vstd::prelude::*;

verus! {

/// The role with a given rank.
pub open spec fn rank_role(k: int) -> SourceRole {
    if k == 0 {
        SourceRole::Source
    } else if k == 1 {
        SourceRole::Before
    } else if k == 2 {
        SourceRole::After
    } else if k == 3 {
        SourceRole::Incoming
    } else if k == 4 {
        SourceRole::Current
    } else if k == 5 {
        SourceRole::Base
    } else if k == 6 {
        SourceRole::Ours
    } else if k == 7 {
        SourceRole::Theirs
    } else {
        SourceRole::Output
    }
}

pub proof fn lemma_rank_role(role: SourceRole)
    ensures
        0 <= role_rank(role) < 9,
        rank_role(role_rank(role)) == role,
{
}

pub fn role_of_rank(k: usize) -> (r: SourceRole)
    requires
        k < 9,
    ensures
        r == rank_role(k as int),
        role_rank(r) == k,
{
    if k == 0 {
        SourceRole::Source
    } else if k == 1 {
        SourceRole::Before
    } else if k == 2 {
        SourceRole::After
    } else if k == 3 {
        SourceRole::Incoming
    } else if k == 4 {
        SourceRole::Current
    } else if k == 5 {
        SourceRole::Base
    } else if k == 6 {
        SourceRole::Ours
    } else if k == 7 {
        SourceRole::Theirs
    } else {
        SourceRole::Output
    }
}

/// Number of occupied slots.
pub open spec fn count_some<V>(s: Seq<Option<V>>) -> nat
    decreases s.len(),
{
    if s.len() == 0 {
        0
    } else {
        count_some(s.drop_last()) + if s.last() is Some {
            1nat
        } else {
            0nat
        }
    }
}

/// The slot of `role` in a rank-indexed slot sequence.
pub open spec fn slot_get<V>(slots: Seq<Option<V>>, role: SourceRole) -> Option<V> {
    if role_rank(role) < slots.len() {
        slots[role_rank(role)]
    } else {
        None
    }
}

/// At most one value per role.
#[derive(Clone, Debug, PartialEq, Eq)]
pub struct RoleMap<V> {
    slots: Vec<Option<V>>,
}

impl<V> RoleMap<V> {
    /// The value of each role, indexed by role rank.
    pub closed spec fn slots_spec(self) -> Seq<Option<V>> {
        self.slots@
    }

    /// The value stored for `role`.
    pub open spec fn spec_get(self, role: SourceRole) -> Option<V> {
        slot_get(self.slots_spec(), role)
    }

    /// The number of roles with a value.
    pub open spec fn spec_len(self) -> nat {
        count_some(self.slots_spec())
    }

    /// No values.
    pub fn new() -> (m: RoleMap<V>)
        ensures
            forall|role: SourceRole| #[trigger] m.spec_get(role) is None,
            m.spec_len() == 0,
    {
        RoleMap { slots: Vec::new() }
    }

    /// The value stored for `role`.
    pub fn get(&self, role: SourceRole) -> (r: Option<&V>)
        ensures
            match (r, self.spec_get(role)) {
                (Some(a), Some(b)) => *a == b,
                (None, None) => true,
                _ => false,
            },
    {
        let k = role.rank() as usize;
        if k < self.slots.len() {
            match &self.slots[k] {
                Some(v) => Some(v),
                None => None,
            }
        } else {
            None
        }
    }

    /// The value stored for a role that has one.
    pub fn get_present(&self, role: SourceRole) -> (r: &V)
        requires
            self.spec_get(role) is Some,
        ensures
            Some(*r) == self.spec_get(role),
    {
        match self.get(role) {
            Some(v) => v,
            None => vstd::pervasive::unreached(),
        }
    }

    pub fn contains_key(&self, role: SourceRole) -> (r: bool)
        ensures
            r == self.spec_get(role) is Some,
    {
        self.get(role).is_some()
    }

    fn pad(&mut self, k: usize)
        ensures
            final(self).slots_spec().len() > k,
            final(self).slots_spec().len() >= old(self).slots_spec().len(),
            forall|role: SourceRole|
                #[trigger] slot_get(final(self).slots@, role) == slot_get(old(self).slots@, role),
            final(self).spec_len() == old(self).spec_len(),
    {
        while self.slots.len() <= k
            invariant
                forall|role: SourceRole|
                    #[trigger] slot_get(self.slots@, role) == slot_get(old(self).slots@, role),
                self.slots@.len() >= old(self).slots@.len(),
                count_some(self.slots@) == count_some(old(self).slots@),
            decreases k + 1 - self.slots@.len(),
        {
            let ghost before = self.slots@;
            self.slots.push(None);
            assert(self.slots@.drop_last() =~= before);
            assert forall|role: SourceRole| #[trigger] slot_get(self.slots@, role) == slot_get(
                old(self).slots@,
                role,
            ) by {
                lemma_rank_role(role);
                assert(slot_get(before, role) == slot_get(old(self).slots@, role));
            }
        }
    }

    /// Store `value` for `role`, returning the value it replaces.
    pub fn insert(&mut self, role: SourceRole, value: V) -> (r: Option<V>)
        ensures
            r == old(self).spec_get(role),
            final(self).spec_get(role) == Some(value),
            forall|other: SourceRole|
                other != role ==> #[trigger] final(self).spec_get(other) == old(self).spec_get(other),
    {
        proof {
            lemma_rank_role(role);
        }
        let k = role.rank() as usize;
        self.pad(k);
        let ghost padded = self.slots@;
        assert(slot_get(padded, role) == slot_get(old(self).slots@, role));
        let previous = self.slots.remove(k);
        self.slots.insert(k, Some(value));
        assert forall|other: SourceRole|
            other != role implies #[trigger] self.spec_get(other) == old(self).spec_get(other) by {
            lemma_rank_role(other);
            assert(slot_get(padded, other) == slot_get(old(self).slots@, other));
        }
        previous
    }

    /// Remove the value for `role`, returning it.
    pub fn remove(&mut self, role: SourceRole) -> (r: Option<V>)
        ensures
            r == old(self).spec_get(role),
            final(self).spec_get(role) is None,
            forall|other: SourceRole|
                other != role ==> #[trigger] final(self).spec_get(other) == old(self).spec_get(other),
    {
        proof {
            lemma_rank_role(role);
        }
        let k = role.rank() as usize;
        self.pad(k);
        let ghost padded = self.slots@;
        assert(slot_get(padded, role) == slot_get(old(self).slots@, role));
        let previous = self.slots.remove(k);
        self.slots.insert(k, None);
        assert forall|other: SourceRole|
            other != role implies #[trigger] self.spec_get(other) == old(self).spec_get(other) by {
            lemma_rank_role(other);
            assert(slot_get(padded, other) == slot_get(old(self).slots@, other));
        }
        previous
    }

    /// The number of roles with a value.
    pub fn len(&self) -> (n: usize)
        ensures
            n == self.spec_len(),
    {
        let mut n: usize = 0;
        let mut i: usize = 0;
        while i < self.slots.len()
            invariant
                i <= self.slots@.len(),
                n == count_some(self.slots@.take(i as int)),
                n <= i,
            decreases self.slots@.len() - i,
        {
            proof {
                assert(self.slots@.take(i + 1).drop_last() =~= self.slots@.take(i as int));
            }
            if self.slots[i].is_some() {
                n = n + 1;
            }
            i = i + 1;
        }
        proof {
            assert(self.slots@.take(self.slots@.len() as int) =~= self.slots@);
        }
        n
    }
}

} // verus!
