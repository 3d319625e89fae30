use crate::bytes::{Address, B256};
use vstd::prelude::*;

verus! {

/// An output proposal: a claimed output root at a block number, the
/// intermediate outputs since its parent, and its place in the tournament of
/// its parent.
#[derive(Debug)]
pub struct Proposal {
    /// Local monotonic identifier.
    pub index: u64,
    /// Address of the dispute game that holds this proposal on chain.
    pub game_address: Address,
    /// Local index of the parent proposal.
    pub parent: u64,
    /// Local indices of the children, in insertion order.
    pub children: Vec<u64>,
    /// The earlier sibling that this proposal disputes, if any.
    pub contender: Option<u64>,
    /// The final claimed output root.
    pub output_root: B256,
    /// The block number of `output_root`.
    pub output_block_number: u64,
    /// One field element per intermediate output since the parent.
    pub io_field_elements: Vec<B256>,
    /// The L1 head that the proposal was made against.
    pub l1_head: B256,
    /// Versioned hash of the blob that carries the intermediate outputs.
    pub io_blob_hash: B256,
    /// Index of that blob within its block.
    pub io_blob_index: u64,
}

impl Proposal {
    /// Number of intermediate outputs.
    pub open spec fn io_len(&self) -> nat {
        self.io_field_elements@.len()
    }

    /// The committed output at position `k`: an intermediate output before the
    /// last position, the output root at it.
    pub open spec fn spec_output_at(&self, k: int) -> Seq<u8> {
        if k < self.io_len() {
            self.io_field_elements@[k]@
        } else {
            self.output_root@
        }
    }

    /// Both proposals commit to position `k` and disagree there.
    pub open spec fn differs_at(&self, other: &Proposal, k: int) -> bool {
        &&& 0 <= k
        &&& k <= self.io_len()
        &&& k <= other.io_len()
        &&& self.spec_output_at(k) != other.spec_output_at(k)
    }

    /// The first position at or after `k` where the two proposals disagree.
    pub open spec fn divergence_from(&self, other: &Proposal, k: nat) -> Option<nat>
        decreases self.io_len() + 1 - k,
    {
        if k > self.io_len() || k > other.io_len() {
            None
        } else if self.spec_output_at(k as int) != other.spec_output_at(k as int) {
            Some(k)
        } else {
            self.divergence_from(other, k + 1)
        }
    }

    /// The first position where the two proposals disagree.
    pub open spec fn divergence(&self, other: &Proposal) -> Option<nat> {
        self.divergence_from(other, 0)
    }

    /// The committed output at position `pos`.
    pub fn output_at(&self, pos: usize) -> (r: B256)
        requires
            pos <= self.io_len(),
        ensures
            r@ == self.spec_output_at(pos as int),
            pos < self.io_len() ==> r@ == self.io_field_elements@[pos as int]@,
            pos == self.io_len() ==> r@ == self.output_root@,
    {
        if pos < self.io_field_elements.len() {
            self.io_field_elements[pos]
        } else {
            self.output_root
        }
    }

    /// The first position where this proposal and `other` commit to different
    /// outputs, or `None` where one's outputs are a prefix of the other's.
    pub fn divergence_point(&self, other: &Proposal) -> (r: Option<usize>)
        ensures
            match r {
                Some(k) => self.divergence(other) == Some(k as nat),
                None => self.divergence(other) is None,
            },
    {
        let n = if self.io_field_elements.len() < other.io_field_elements.len() {
            self.io_field_elements.len()
        } else {
            other.io_field_elements.len()
        };
        let mut i: usize = 0;
        loop
            invariant
                0 <= i <= n,
                n <= self.io_len(),
                n <= other.io_len(),
                n == self.io_len() || n == other.io_len(),
                self.divergence(other) == self.divergence_from(other, i as nat),
            decreases n - i,
        {
            let a = self.output_at(i);
            let b = other.output_at(i);
            if !a.same(&b) {
                return Some(i);
            }
            if i == n {
                assert(self.divergence_from(other, (i + 1) as nat) is None);
                return None;
            }
            i = i + 1;
        }
    }

    /// The blob that carries the output at `pos`: every position of a
    /// proposal is carried by its one intermediate-output blob, named by its
    /// versioned hash and its index in the block.
    pub fn io_blob_for(&self, pos: u64) -> (r: (B256, u64))
        ensures
            r.0 == self.io_blob_hash,
            r.1 == self.io_blob_index,
    {
        (self.io_blob_hash, self.io_blob_index)
    }

    /// Whether proving position `pos` opens intermediate outputs on both sides:
    /// the one before it and the one at it.
    pub fn has_precondition_for(&self, pos: u64) -> (r: bool)
        ensures
            r == (pos > 0 && pos < self.io_len()),
    {
        pos > 0 && pos < self.io_field_elements.len() as u64
    }

    /// The insertion rank of `child` among the children of this proposal.
    pub fn child_index(&self, child: u64) -> (r: Option<u64>)
        ensures
            match r {
                Some(i) => first_occurrence(self.children@, child, i as int),
                None => !self.children@.contains(child),
            },
    {
        let mut i: usize = 0;
        while i < self.children.len()
            invariant
                0 <= i <= self.children@.len(),
                forall|j: int| 0 <= j < i ==> self.children@[j] != child,
            decreases self.children@.len() - i,
        {
            if self.children[i] == child {
                return Some(i as u64);
            }
            i = i + 1;
        }
        None
    }
}

/// The proposal's intermediate outputs fill exactly the blocks strictly
/// between its parent's output block and its own.
pub open spec fn spans_from_parent(p: &Proposal, q: &Proposal) -> bool {
    &&& q.output_block_number < p.output_block_number
    &&& p.io_len() == p.output_block_number - q.output_block_number - 1
}

proof fn lemma_divergence_from_is_first(p: &Proposal, q: &Proposal, k: nat)
    ensures
        match p.divergence_from(q, k) {
            Some(m) => {
                &&& k <= m
                &&& p.differs_at(q, m as int)
                &&& forall|j: int| k <= j < m ==> !p.differs_at(q, j)
            },
            None => forall|j: int| k <= j ==> !p.differs_at(q, j),
        },
    decreases p.io_len() + 1 - k,
{
    if k > p.io_len() || k > q.io_len() {
    } else if p.spec_output_at(k as int) != q.spec_output_at(k as int) {
    } else {
        lemma_divergence_from_is_first(p, q, k + 1);
    }
}

/// The divergence point of two proposals is the least position at which both
/// commit to an output and the outputs differ; there is none exactly when the
/// outputs of one are a prefix of the other's.
pub proof fn lemma_divergence_is_least_difference(p: &Proposal, q: &Proposal)
    ensures
        match p.divergence(q) {
            Some(k) => {
                &&& p.differs_at(q, k as int)
                &&& forall|j: int| 0 <= j < k ==> !p.differs_at(q, j)
            },
            None => forall|j: int| !p.differs_at(q, j),
        },
{
    lemma_divergence_from_is_first(p, q, 0);
}

/// A proposal that directly follows its parent's block has no intermediate
/// outputs, so wherever it disagrees with a sibling it does so at position 0.
pub proof fn lemma_adjacent_proposal_diverges_at_zero(p: &Proposal, q: &Proposal)
    requires
        p.io_len() == 0,
    ensures
        p.divergence(q) == (if p.output_root@ != q.spec_output_at(0) {
            Some(0nat)
        } else {
            None
        }),
        (exists|j: int| p.differs_at(q, j)) ==> p.divergence(q) == Some(0nat),
{
    assert(p.spec_output_at(0) == p.output_root@);
    if p.output_root@ == q.spec_output_at(0) {
        assert(p.divergence_from(q, 1) is None);
    }
    lemma_divergence_is_least_difference(p, q);
}

/// Among distinct children, the rank that `child_index` reports is the
/// position of insertion, so it grows with the order of insertion.
pub proof fn lemma_child_rank_follows_insertion(children: Seq<u64>, i: int, j: int)
    requires
        children.no_duplicates(),
        0 <= i < j < children.len(),
    ensures
        first_occurrence(children, children[i], i),
        first_occurrence(children, children[j], j),
        forall|a: int, b: int|
            first_occurrence(children, children[i], a) && first_occurrence(
                children,
                children[j],
                b,
            ) ==> a < b,
{
    assert forall|a: int, b: int|
        first_occurrence(children, children[i], a) && first_occurrence(
            children,
            children[j],
            b,
        ) implies a < b by {
        assert(a == i);
        assert(b == j);
    }
}

/// `c` first occurs in `s` at position `i`.
pub open spec fn first_occurrence(s: Seq<u64>, c: u64, i: int) -> bool {
    &&& 0 <= i < s.len()
    &&& s[i] == c
    &&& forall|j: int| 0 <= j < i ==> s[j] != c
}

} // verus!
