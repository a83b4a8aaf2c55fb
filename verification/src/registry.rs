//! The nullifier registry: the set of spent nullifier fingerprints, with
//! insert-once semantics. A fingerprint, once recorded, is never removed.
use vstd::prelude::*;
use crate::field::Fe;

verus! {

#[derive(Clone, Copy, PartialEq, Eq, Structural, Debug)]
pub enum RegistryError {
    AlreadySpent,
}

pub struct NullifierRegistry {
    pub spent: Vec<Fe>,
}

impl NullifierRegistry {
    pub fn new() -> (r: NullifierRegistry)
        ensures
            r.spent@.len() == 0,
    {
        NullifierRegistry { spent: Vec::new() }
    }

    /// Whether a fingerprint has been spent.
    pub fn contains(&self, f: &Fe) -> (r: bool)
        ensures
            r == self.spent@.contains(*f),
    {
        let mut i: usize = 0;
        while i < self.spent.len()
            invariant
                i <= self.spent@.len(),
                forall|j: int| 0 <= j < i ==> self.spent@[j] != *f,
            decreases self.spent@.len() - i,
        {
            if self.spent[i] == *f {
                return true;
            }
            i = i + 1;
        }
        false
    }

    /// Record a fingerprint as spent. A fingerprint already present is
    /// rejected, never silently ignored, and nothing is ever removed.
    pub fn insert(&mut self, f: Fe) -> (r: Result<(), RegistryError>)
        ensures
            match r {
                Ok(()) => !old(self).spent@.contains(f)
                    && final(self).spent@ == old(self).spent@.push(f),
                Err(e) => e == RegistryError::AlreadySpent
                    && old(self).spent@.contains(f)
                    && final(self).spent@ == old(self).spent@,
            },
            final(self).spent@.contains(f),
            forall|g: Fe| old(self).spent@.contains(g) ==> final(self).spent@.contains(g),
    {
        if self.contains(&f) {
            Err(RegistryError::AlreadySpent)
        } else {
            self.spent.push(f);
            proof {
                assert(self.spent@.last() == f);
                assert(self.spent@.contains(f));
                assert forall|g: Fe| old(self).spent@.contains(g)
                    implies self.spent@.contains(g) by {
                    let j = choose|j: int| 0 <= j < old(self).spent@.len()
                        && old(self).spent@[j] == g;
                    assert(self.spent@[j] == g);
                }
            }
            Ok(())
        }
    }

    pub fn count(&self) -> (r: usize)
        ensures
            r == self.spent@.len(),
    {
        self.spent.len()
    }
}

/// Once recorded, a fingerprint stays recorded through any further insert.
pub proof fn lemma_spent_persists(pre: Seq<Fe>, post: Seq<Fe>, g: Fe, f: Fe)
    requires
        post == pre.push(g),
        pre.contains(f),
    ensures
        post.contains(f),
{
    let j = choose|j: int| 0 <= j < pre.len() && pre[j] == f;
    assert(post[j] == f);
}

} // verus!
