//! An append-only binary Merkle accumulator over field elements. The root is
//! a pure function of the leaf sequence; absent leaves are zero. A bounded
//! window of recently published roots is kept so a proof generated against a
//! slightly stale root stays valid.
use vstd::prelude::*;
use vstd::arithmetic::power2::{pow2, lemma_pow2_adds, lemma2_to64, lemma_pow2_strictly_increases};
use crate::field::{Fe, fe_val, modulus_ok};
use crate::hash::{sponge2_spec, hash_two};

verus! {

#[derive(Clone, Copy, PartialEq, Eq, Structural, Debug)]
pub enum MerkleError {
    TreeFull,
}

/// The root of the subtree of the given height whose leftmost leaf slot is
/// idx * 2^level; missing leaves are zero.
pub open spec fn node_spec(level: nat, leaves: Seq<int>, idx: int, q: int) -> int
    recommends 0 < q,
    decreases level,
{
    if level == 0 {
        if 0 <= idx < leaves.len() {
            leaves[idx]
        } else {
            0
        }
    } else {
        sponge2_spec(
            node_spec((level - 1) as nat, leaves, 2 * idx, q),
            node_spec((level - 1) as nat, leaves, 2 * idx + 1, q),
            q,
        )
    }
}

pub struct MerkleAccumulator {
    pub depth: usize,
    pub window: usize,
    pub q: Fe,
    pub leaves: Vec<Fe>,
    pub roots: Vec<Fe>,
}

impl MerkleAccumulator {
    /// The leaf values as integers.
    pub open spec fn leaf_vals(self) -> Seq<int> {
        self.leaves@.map(|i: int, f: Fe| fe_val(f))
    }

    /// The root denoted by the current leaf sequence.
    pub open spec fn root_spec(self) -> int {
        node_spec(self.depth as nat, self.leaf_vals(), 0, fe_val(self.q))
    }

    pub open spec fn well_formed(self) -> bool {
        &&& modulus_ok(self.q)
        &&& 1 <= self.depth <= 30
        &&& 1 <= self.window
        &&& self.leaves@.len() <= pow2(self.depth as nat)
        &&& 1 <= self.roots@.len() <= self.window
        &&& (forall|i: int| 0 <= i < self.leaves@.len()
            ==> 0 <= fe_val(#[trigger] self.leaves@[i]) < fe_val(self.q))
        &&& (forall|i: int| 0 <= i < self.roots@.len()
            ==> 0 <= fe_val(#[trigger] self.roots@[i]) < fe_val(self.q))
    }

    /// The root of one subtree, recomputed from the leaves.
    fn compute_node(&self, level: usize, idx: usize) -> (r: Fe)
        requires
            modulus_ok(self.q),
            self.depth <= 30,
            level <= self.depth,
            idx < pow2((self.depth - level) as nat),
            forall|i: int| 0 <= i < self.leaves@.len()
                ==> 0 <= fe_val(#[trigger] self.leaves@[i]) < fe_val(self.q),
        ensures
            fe_val(r) == node_spec(level as nat, self.leaf_vals(), idx as int, fe_val(self.q)),
            0 <= fe_val(r) < fe_val(self.q),
        decreases level,
    {
        proof {
            lemma_pow2_bounds((self.depth - level) as nat);
            crate::field::lemma_modulus_bounds(self.q);
        }
        if level == 0 {
            if idx < self.leaves.len() {
                self.leaves[idx]
            } else {
                crate::field::fe_zero()
            }
        } else {
            proof {
                lemma_pow2_adds(1, (self.depth - level) as nat);
                assert(pow2(1) == 2) by {
                    lemma2_to64();
                }
                lemma_pow2_bounds((self.depth - level + 1) as nat);
            }
            let left = self.compute_node(level - 1, 2 * idx);
            let right = self.compute_node(level - 1, 2 * idx + 1);
            hash_two(&left, &right, &self.q)
        }
    }

    /// A fresh accumulator; its single published root is the root of the
    /// empty leaf sequence.
    pub fn new(depth: usize, window: usize, q: Fe) -> (r: MerkleAccumulator)
        requires
            modulus_ok(q),
            1 <= depth <= 30,
            1 <= window,
        ensures
            r.well_formed(),
            r.depth == depth,
            r.window == window,
            r.q == q,
            r.leaves@.len() == 0,
            r.roots@.len() == 1,
            fe_val(r.roots@[0]) == r.root_spec(),
    {
        let mut acc = MerkleAccumulator { depth, window, q, leaves: Vec::new(), roots: Vec::new() };
        proof {
            lemma_pow2_bounds(depth as nat);
            lemma_pow2_bounds(0);
        }
        let root = acc.compute_node(depth, 0);
        acc.roots.push(root);
        acc
    }

    /// Leaf slots of the tree.
    fn capacity(&self) -> (r: u64)
        requires
            self.depth <= 30,
        ensures
            r == pow2(self.depth as nat),
    {
        let mut c: u64 = 1;
        let mut i: usize = 0;
        proof {
            assert(pow2(0) == 1) by {
                lemma2_to64();
            }
        }
        while i < self.depth
            invariant
                i <= self.depth <= 30,
                c == pow2(i as nat),
            decreases self.depth - i,
        {
            proof {
                lemma_pow2_bounds(i as nat);
                lemma_pow2_adds(1, i as nat);
                assert(pow2(1) == 2) by {
                    lemma2_to64();
                }
            }
            c = c * 2;
            i = i + 1;
        }
        c
    }

    /// Append a leaf; the new root is published into the bounded window of
    /// recent roots, evicting the oldest entry if the window is full. Fails
    /// exactly when the tree already holds 2^depth leaves; the accumulator
    /// is then unchanged.
    pub fn insert(&mut self, leaf: Fe) -> (r: Result<Fe, MerkleError>)
        requires
            old(self).well_formed(),
            0 <= fe_val(leaf) < fe_val(old(self).q),
        ensures
            final(self).well_formed(),
            final(self).depth == old(self).depth,
            final(self).window == old(self).window,
            final(self).q == old(self).q,
            match r {
                Ok(root) => {
                    &&& old(self).leaves@.len() < pow2(old(self).depth as nat)
                    &&& final(self).leaves@ == old(self).leaves@.push(leaf)
                    &&& final(self).leaves@.len() == old(self).leaves@.len() + 1
                    &&& fe_val(root) == final(self).root_spec()
                    &&& final(self).roots@ == (if old(self).roots@.len() == old(self).window {
                        old(self).roots@.push(root).skip(1)
                    } else {
                        old(self).roots@.push(root)
                    })
                },
                Err(e) => {
                    &&& e == MerkleError::TreeFull
                    &&& old(self).leaves@.len() == pow2(old(self).depth as nat)
                    &&& final(self).leaves@ == old(self).leaves@
                    &&& final(self).roots@ == old(self).roots@
                },
            },
    {
        let cap = self.capacity();
        if self.leaves.len() as u64 >= cap {
            proof {
                lemma_pow2_bounds(self.depth as nat);
            }
            return Err(MerkleError::TreeFull);
        }
        self.leaves.push(leaf);
        proof {
            lemma_pow2_bounds(0);
        }
        let root = self.compute_node(self.depth, 0);
        proof {
            lemma_pow2_bounds(self.depth as nat);
        }
        self.roots.push(root);
        if self.roots.len() > self.window {
            self.roots.remove(0);
        }
        Ok(root)
    }

    /// The most recently published root.
    pub fn current_root(&self) -> (r: Fe)
        requires
            self.well_formed(),
        ensures
            r == self.roots@.last(),
    {
        self.roots[self.roots.len() - 1]
    }

    /// Whether a candidate root is among the recently published roots.
    pub fn contains_root(&self, c: &Fe) -> (r: bool)
        ensures
            r == self.roots@.contains(*c),
    {
        let mut i: usize = 0;
        while i < self.roots.len()
            invariant
                i <= self.roots@.len(),
                forall|j: int| 0 <= j < i ==> self.roots@[j] != *c,
            decreases self.roots@.len() - i,
        {
            if self.roots[i] == *c {
                return true;
            }
            i = i + 1;
        }
        false
    }

    /// Whether a value is one of the inserted leaves.
    pub fn contains_leaf(&self, x: &Fe) -> (r: bool)
        ensures
            r == self.leaves@.contains(*x),
    {
        let mut i: usize = 0;
        while i < self.leaves.len()
            invariant
                i <= self.leaves@.len(),
                forall|j: int| 0 <= j < i ==> self.leaves@[j] != *x,
            decreases self.leaves@.len() - i,
        {
            if self.leaves[i] == *x {
                return true;
            }
            i = i + 1;
        }
        false
    }

    pub fn leaf_count(&self) -> (r: usize)
        ensures
            r == self.leaves@.len(),
    {
        self.leaves.len()
    }
}

/// Small powers of two stay within one limb.
proof fn lemma_pow2_bounds(e: nat)
    requires
        e <= 31,
    ensures
        0 < pow2(e) <= 0x80000000,
{
    lemma2_to64();
    if e < 31 {
        lemma_pow2_strictly_increases(e, 31);
    }
}

/// Appending keeps every recently published root except, when the window
/// was full, the oldest one: a prior root within the retention window is
/// still recognised after an insertion.
pub proof fn lemma_roots_retained(
    pre: Seq<Fe>,
    post: Seq<Fe>,
    newroot: Fe,
    window: int,
    i: int,
)
    requires
        1 <= window,
        pre.len() <= window,
        post == (if pre.len() == window { pre.push(newroot).skip(1) } else { pre.push(newroot) }),
        0 <= i < pre.len(),
        pre.len() < window || i >= 1,
    ensures
        post.contains(pre[i]),
{
    if pre.len() == window {
        assert(post[i - 1] == pre.push(newroot)[i]);
        assert(post[i - 1] == pre[i]);
    } else {
        assert(post[i] == pre[i]);
    }
}

} // verus!
