use crate::bytes::{Address, B256};
use crate::proposal::{
    first_occurrence, lemma_child_rank_follows_insertion, spans_from_parent, Proposal,
};
use vstd::prelude::*;

verus! {

/// Why a factory slot could not be added as a proposal.
#[derive(Debug, PartialEq, Eq, Structural, Clone, Copy)]
pub enum InsertError {
    /// The parent is not known yet: the slot is deferred.
    MissingParent,
    /// The number of intermediate outputs does not match the block span.
    InvalidSpan,
    /// No more local indices are available.
    Exhausted,
}

/// The fields of a proposal as read from its dispute game.
pub struct ProposalData {
    pub game_address: Address,
    pub output_root: B256,
    pub output_block_number: u64,
    pub io_field_elements: Vec<B256>,
    pub l1_head: B256,
    pub io_blob_hash: B256,
    pub io_blob_index: u64,
}

/// `data` fills exactly the blocks after a parent output at `parent_block`.
pub open spec fn valid_span(parent_block: u64, data: &ProposalData) -> bool {
    &&& parent_block < data.output_block_number
    &&& data.io_field_elements@.len() == data.output_block_number - parent_block - 1
}

/// `j` is the first proposal held by the game at `game`.
pub open spec fn first_with_game(db: &ProposalDb, game: Seq<u8>, j: int) -> bool {
    &&& 0 <= j < db.len()
    &&& db.proposals@[j].game_address@ == game
    &&& forall|k: int| 0 <= k < j ==> db.proposals@[k].game_address@ != game
}

/// The tournament tree of proposals rooted at the anchor (local index 0).
pub struct ProposalDb {
    /// All proposals, each at the position of its local index.
    pub proposals: Vec<Proposal>,
    /// Exclusive bound of the factory slots already classified.
    pub next_factory_index: u64,
}

/// The first child in `children`, from position `k` on, that disagrees with
/// `p` somewhere.
pub open spec fn first_disagreeing_from(
    proposals: Seq<Proposal>,
    children: Seq<u64>,
    p: Proposal,
    k: int,
) -> Option<u64>
    decreases children.len() - k,
{
    if k < 0 || k >= children.len() {
        None
    } else if proposals[children[k] as int].divergence(&p) is Some {
        Some(children[k])
    } else {
        first_disagreeing_from(proposals, children, p, k + 1)
    }
}

impl ProposalDb {
    pub open spec fn len(&self) -> nat {
        self.proposals@.len()
    }

    /// The tree is rooted at the anchor, children are listed in increasing
    /// index order and point back at their parent, every non-anchor proposal
    /// spans the blocks since its parent, and a contender is an earlier
    /// sibling.
    pub open spec fn wf(&self) -> bool {
        &&& self.len() > 0
        &&& self.len() <= u64::MAX
        &&& forall|i: int| 0 <= i < self.len() ==> #[trigger] self.proposals@[i].index == i
        &&& self.proposals@[0].parent == 0
        &&& self.proposals@[0].contender is None
        &&& forall|i: int|
            0 < i < self.len() ==> {
                &&& #[trigger] self.proposals@[i].parent < i
                &&& spans_from_parent(&self.proposals@[i], &self.proposals@[self.proposals@[i].parent as int])
            }
        &&& forall|i: int, k: int|
            0 <= i < self.len() && 0 <= k < self.proposals@[i].children@.len() ==> {
                let c = #[trigger] self.proposals@[i].children@[k];
                &&& 0 < c < self.len()
                &&& self.proposals@[c as int].parent == i
            }
        &&& forall|i: int, k: int, l: int|
            0 <= i < self.len() && 0 <= k < l < self.proposals@[i].children@.len() ==> (
            #[trigger] self.proposals@[i].children@[k]) < #[trigger] self.proposals@[i].children@[l]
        &&& forall|i: int|
            0 <= i < self.len() ==> match #[trigger] self.proposals@[i].contender {
                Some(c) => {
                    &&& c < i
                    &&& self.proposals@[c as int].parent == self.proposals@[i].parent
                },
                None => true,
            }
    }

    /// A database holding only the anchor proposal.
    pub fn new(anchor: ProposalData, next_factory_index: u64) -> (r: ProposalDb)
        ensures
            r.wf(),
            r.len() == 1,
            r.proposals@[0].index == 0,
            r.proposals@[0].parent == 0,
            r.proposals@[0].contender is None,
            r.proposals@[0].game_address == anchor.game_address,
            r.proposals@[0].output_root == anchor.output_root,
            r.proposals@[0].output_block_number == anchor.output_block_number,
            r.proposals@[0].io_field_elements@ == anchor.io_field_elements@,
            r.proposals@[0].l1_head == anchor.l1_head,
            r.proposals@[0].io_blob_hash == anchor.io_blob_hash,
            r.proposals@[0].io_blob_index == anchor.io_blob_index,
            r.proposals@[0].children@.len() == 0,
            r.next_factory_index == next_factory_index,
    {
        let p = Proposal {
            index: 0,
            game_address: anchor.game_address,
            parent: 0,
            children: Vec::new(),
            contender: None,
            output_root: anchor.output_root,
            output_block_number: anchor.output_block_number,
            io_field_elements: anchor.io_field_elements,
            l1_head: anchor.l1_head,
            io_blob_hash: anchor.io_blob_hash,
            io_blob_index: anchor.io_blob_index,
        };
        let mut proposals = Vec::new();
        proposals.push(p);
        ProposalDb { proposals, next_factory_index }
    }

    /// The proposal at a local index, if there is one.
    pub fn get_local_proposal(&self, index: u64) -> (r: Option<&Proposal>)
        ensures
            match r {
                Some(p) => index < self.len() && *p == self.proposals@[index as int],
                None => index >= self.len(),
            },
    {
        if (index as usize) < self.proposals.len() && index <= usize::MAX as u64 {
            Some(&self.proposals[index as usize])
        } else {
            None
        }
    }

    /// The earliest child of `parent` whose outputs disagree with `p`.
    pub fn elect_contender(&self, parent: u64, p: &Proposal) -> (r: Option<u64>)
        requires
            self.wf(),
            parent < self.len(),
        ensures
            r == first_disagreeing_from(
                self.proposals@,
                self.proposals@[parent as int].children@,
                *p,
                0,
            ),
    {
        let n = self.proposals.len();
        assert(parent < n);
        let pi = parent as usize;
        let mut k: usize = 0;
        while k < self.proposals[pi].children.len()
            invariant
                self.wf(),
                pi == parent,
                n == self.len(),
                parent < self.len(),
                0 <= k <= self.proposals@[pi as int].children@.len(),
                first_disagreeing_from(self.proposals@, self.proposals@[pi as int].children@, *p, 0)
                    == first_disagreeing_from(
                    self.proposals@,
                    self.proposals@[pi as int].children@,
                    *p,
                    k as int,
                ),
            decreases self.proposals@[pi as int].children@.len() - k,
        {
            let c = self.proposals[pi].children[k];
            assert(0 < c < n);
            if self.proposals[c as usize].divergence_point(p).is_some() {
                return Some(c);
            }
            k = k + 1;
        }
        None
    }

    /// Adds a proposal under `parent`, elects its contender among the
    /// parent's existing children, and links it as the parent's last child.
    pub fn insert_child(&mut self, parent: u64, data: ProposalData) -> (r: Result<u64, InsertError>)
        requires
            old(self).wf(),
        ensures
            final(self).wf(),
            final(self).next_factory_index == old(self).next_factory_index,
            r == Err::<u64, InsertError>(InsertError::MissingParent) <==> parent >= old(self).len(),
            r == Err::<u64, InsertError>(InsertError::InvalidSpan) <==> (parent < old(self).len()
                && !valid_span(old(self).proposals@[parent as int].output_block_number, &data)),
            r == Err::<u64, InsertError>(InsertError::Exhausted) <==> (parent < old(self).len()
                && valid_span(old(self).proposals@[parent as int].output_block_number, &data)
                && old(self).len() == u64::MAX),
            r is Err ==> *final(self) == *old(self),
            r is Ok ==> {
                let i = r->Ok_0;
                let q = final(self).proposals@[i as int];
                &&& i == old(self).len()
                &&& final(self).len() == old(self).len() + 1
                &&& q.index == i
                &&& q.parent == parent
                &&& q.game_address == data.game_address
                &&& q.output_root == data.output_root
                &&& q.output_block_number == data.output_block_number
                &&& q.io_field_elements@ == data.io_field_elements@
                &&& q.l1_head == data.l1_head
                &&& q.io_blob_hash == data.io_blob_hash
                &&& q.io_blob_index == data.io_blob_index
                &&& q.children@.len() == 0
                &&& q.contender == first_disagreeing_from(
                    old(self).proposals@,
                    old(self).proposals@[parent as int].children@,
                    q,
                    0,
                )
                &&& final(self).proposals@[parent as int].children@ == old(self).proposals@[parent as int].children@.push(i)
                &&& final(self).proposals@[parent as int] == (Proposal {
                    children: final(self).proposals@[parent as int].children,
                    ..old(self).proposals@[parent as int]
                })
                &&& forall|j: int|
                    0 <= j < old(self).len() && j != parent ==> final(self).proposals@[j]
                        == old(self).proposals@[j]
            },
    {
        if parent >= self.proposals.len() as u64 {
            return Err(InsertError::MissingParent);
        }
        let parent_block = self.proposals[parent as usize].output_block_number;
        if !(parent_block < data.output_block_number && data.io_field_elements.len() as u64
            == data.output_block_number - parent_block - 1) {
            return Err(InsertError::InvalidSpan);
        }
        if self.proposals.len() as u64 == u64::MAX {
            return Err(InsertError::Exhausted);
        }
        let index = self.proposals.len() as u64;
        let mut p = Proposal {
            index,
            game_address: data.game_address,
            parent,
            children: Vec::new(),
            contender: None,
            output_root: data.output_root,
            output_block_number: data.output_block_number,
            io_field_elements: data.io_field_elements,
            l1_head: data.l1_head,
            io_blob_hash: data.io_blob_hash,
            io_blob_index: data.io_blob_index,
        };
        let ghost unelected = p;
        let contender = self.elect_contender(parent, &p);
        p.contender = contender;
        proof {
            lemma_elected_is_child(
                self.proposals@,
                self.proposals@[parent as int].children@,
                unelected,
                0,
            );
            lemma_election_ignores_contender(
                self.proposals@,
                self.proposals@[parent as int].children@,
                unelected,
                p,
                0,
            );
        }
        let ghost old_db = *self;
        let ghost gp = p;
        self.proposals.push(p);
        assert(self.proposals@ == old_db.proposals@.push(gp));
        self.proposals[parent as usize].children.push(index);
        proof {
            let new_db = *self;
            assert(new_db.proposals@[index as int] == gp);
            assert(new_db.proposals@[parent as int].children@ == old_db.proposals@[parent as int].children@.push(
                index,
            ));
            assert forall|j: int| 0 <= j < old_db.len() && j != parent implies new_db.proposals@[j]
                == old_db.proposals@[j] by {}
            assert forall|i: int, k: int|
                0 <= i < new_db.len() && 0 <= k < new_db.proposals@[i].children@.len() implies {
                let c = #[trigger] new_db.proposals@[i].children@[k];
                &&& 0 < c < new_db.len()
                &&& new_db.proposals@[c as int].parent == i
            } by {
                if i == parent && k == old_db.proposals@[i].children@.len() {
                } else {
                    assert(new_db.proposals@[i].children@[k] == old_db.proposals@[i].children@[k]);
                }
            }
            assert forall|i: int, k: int, l: int|
                0 <= i < new_db.len() && 0 <= k < l < new_db.proposals@[i].children@.len() implies (
            #[trigger] new_db.proposals@[i].children@[k]) < #[trigger] new_db.proposals@[i].children@[l] by {
                assert(new_db.proposals@[i].children@[k] == old_db.proposals@[i].children@[k]);
                if i == parent && l == old_db.proposals@[i].children@.len() {
                } else {
                    assert(new_db.proposals@[i].children@[l] == old_db.proposals@[i].children@[l]);
                }
            }
            assert forall|i: int| 0 < i < new_db.len() implies {
                &&& #[trigger] new_db.proposals@[i].parent < i
                &&& spans_from_parent(&new_db.proposals@[i], &new_db.proposals@[new_db.proposals@[i].parent as int])
            } by {
                if i < old_db.len() {
                    assert(new_db.proposals@[new_db.proposals@[i].parent as int].output_block_number == old_db.proposals@[old_db.proposals@[i].parent as int].output_block_number);
                }
            }
        }
        Ok(index)
    }

    /// The local index of the proposal held by the game at `game`, if any.
    pub fn find_by_address(&self, game: &Address) -> (r: Option<u64>)
        requires
            self.wf(),
        ensures
            match r {
                Some(i) => {
                    &&& i < self.len()
                    &&& self.proposals@[i as int].game_address@ == game@
                    &&& forall|j: int| 0 <= j < i ==> self.proposals@[j].game_address@ != game@
                },
                None => forall|j: int|
                    0 <= j < self.len() ==> self.proposals@[j].game_address@ != game@,
            },
    {
        let mut i: usize = 0;
        while i < self.proposals.len()
            invariant
                0 <= i <= self.len(),
                self.len() <= u64::MAX,
                forall|j: int| 0 <= j < i ==> self.proposals@[j].game_address@ != game@,
            decreases self.len() - i,
        {
            if self.proposals[i].game_address.same(game) {
                return Some(i as u64);
            }
            i = i + 1;
        }
        None
    }

    /// Adds the proposal of a new game under the proposal held by the game
    /// at `parent_game`; a parent not known yet defers the game.
    pub fn insert_under_game(&mut self, parent_game: &Address, data: ProposalData) -> (r: Result<
        u64,
        InsertError,
    >)
        requires
            old(self).wf(),
        ensures
            final(self).wf(),
            final(self).next_factory_index == old(self).next_factory_index,
            (forall|j: int|
                0 <= j < old(self).len() ==> old(self).proposals@[j].game_address@
                    != parent_game@) ==> r == Err::<u64, InsertError>(InsertError::MissingParent)
                && *final(self) == *old(self),
            forall|j: int|
                first_with_game(old(self), parent_game@, j) ==> {
                    &&& r is Ok <==> (valid_span(old(self).proposals@[j].output_block_number, &data)
                        && old(self).len() < u64::MAX)
                    &&& r is Ok ==> final(self).proposals@[r->Ok_0 as int].parent == j
                },
            r is Err ==> *final(self) == *old(self),
            r is Ok ==> ({
                let i = r->Ok_0;
                let parent = final(self).proposals@[i as int].parent;
                &&& i == old(self).len()
                &&& final(self).len() == old(self).len() + 1
                &&& old(self).proposals@[parent as int].game_address@ == parent_game@
                &&& forall|j: int|
                    0 <= j < parent ==> old(self).proposals@[j].game_address@ != parent_game@
                &&& final(self).proposals@[i as int].output_root == data.output_root
                &&& final(self).proposals@[i as int].output_block_number
                    == data.output_block_number
                &&& final(self).proposals@[i as int].io_field_elements@
                    == data.io_field_elements@
            }),
    {
        let ghost before = *self;
        match self.find_by_address(parent_game) {
            Some(parent) => {
                assert forall|j: int| first_with_game(&before, parent_game@, j) implies j
                    == parent by {
                    if j < parent {
                    } else if j > parent {
                        assert(before.proposals@[parent as int].game_address@ == parent_game@);
                    }
                }
                let r = self.insert_child(parent, data);
                proof {
                    if r is Err {
                        let e = r->Err_0;
                        assert(e == InsertError::MissingParent || e == InsertError::InvalidSpan || e
                            == InsertError::Exhausted);
                    }
                }
                r
            },
            None => {
                assert forall|j: int| !first_with_game(&before, parent_game@, j) by {
                    if 0 <= j < before.len() {
                        assert(before.proposals@[j].game_address@ != parent_game@);
                    }
                }
                Err(InsertError::MissingParent)
            },
        }
    }

    /// Rebuilds a database from its anchor and its stored records, in the
    /// order they were first inserted; children and contenders are
    /// recomputed. Fails at the first record whose parent is unknown or whose
    /// outputs do not span the blocks since its parent.
    #[verifier::loop_isolation(false)]
    pub fn replay(anchor: ProposalData, next_factory_index: u64, mut records: Vec<(u64, ProposalData)>) -> (r:
        Result<ProposalDb, usize>)
        ensures
            ({
                let ok = forall|i: int| 0 <= i < records@.len() ==> record_fits(&anchor, records@, i);
                &&& r is Ok <==> ok && records@.len() < u64::MAX
                &&& r is Err && records@.len() < u64::MAX ==> {
                    let i = r->Err_0 as int;
                    &&& 0 <= i < records@.len()
                    &&& !record_fits(&anchor, records@, i)
                    &&& forall|j: int| 0 <= j < i ==> record_fits(&anchor, records@, j)
                }
            }),
            r is Ok ==> ({
                let db = r->Ok_0;
                &&& db.wf()
                &&& db.next_factory_index == next_factory_index
                &&& db.len() == records@.len() + 1
                &&& db.proposals@[0].output_root == anchor.output_root
                &&& db.proposals@[0].output_block_number == anchor.output_block_number
                &&& forall|i: int|
                    0 <= i < records@.len() ==> {
                        let p = #[trigger] db.proposals@[i + 1];
                        &&& p.parent == records@[i].0
                        &&& p.output_root == records@[i].1.output_root
                        &&& p.output_block_number == records@[i].1.output_block_number
                        &&& p.io_field_elements@ == records@[i].1.io_field_elements@
                    }
            }),
    {
        let ghost anchor_view = anchor;
        let ghost recs = records@;
        if records.len() as u64 == u64::MAX {
            return Err(0);
        }
        let n = records.len();
        let mut db = ProposalDb::new(anchor, next_factory_index);
        let mut i: usize = 0;
        while i < n
            invariant
                0 <= i <= n,
                n == recs.len(),
                n < u64::MAX,
                records@ == recs.subrange(i as int, n as int),
                db.wf(),
                db.len() == i + 1,
                db.next_factory_index == next_factory_index,
                db.proposals@[0].output_root == anchor_view.output_root,
                forall|j: int|
                    0 <= j <= i ==> #[trigger] db.proposals@[j].output_block_number
                        == replayed_block(&anchor_view, recs, j),
                forall|j: int| 0 <= j < i ==> record_fits(&anchor_view, recs, j),
                forall|j: int|
                    0 <= j < i ==> {
                        let p = #[trigger] db.proposals@[j + 1];
                        &&& p.parent == recs[j].0
                        &&& p.output_root == recs[j].1.output_root
                        &&& p.output_block_number == recs[j].1.output_block_number
                        &&& p.io_field_elements@ == recs[j].1.io_field_elements@
                    },
            decreases n - i,
        {
            let (parent, data) = records.remove(0);
            assert(recs[i as int] == (parent, data));
            let ghost old_db = db;
            let ghost gdata = data;
            let inserted = db.insert_child(parent, data);
            proof {
                if inserted is Err {
                    let e = inserted->Err_0;
                    assert(e == InsertError::MissingParent || e == InsertError::InvalidSpan || e
                        == InsertError::Exhausted);
                    if e == InsertError::InvalidSpan {
                        assert(!valid_span(old_db.proposals@[parent as int].output_block_number, &gdata));
                    }
                }
            }
            match inserted {
                Ok(_) => {
                    assert forall|j: int| 0 <= j <= i + 1 implies #[trigger] db.proposals@[j].output_block_number
                        == replayed_block(&anchor_view, recs, j) by {
                        if j <= i {
                            assert(db.proposals@[j].output_block_number == old_db.proposals@[j].output_block_number);
                        }
                    }
                    assert forall|j: int| 0 <= j < i + 1 implies {
                        let p = #[trigger] db.proposals@[j + 1];
                        &&& p.parent == recs[j].0
                        &&& p.output_root == recs[j].1.output_root
                        &&& p.output_block_number == recs[j].1.output_block_number
                        &&& p.io_field_elements@ == recs[j].1.io_field_elements@
                    } by {
                        if j < i {
                            assert(db.proposals@[j + 1].output_root == old_db.proposals@[j + 1].output_root);
                        }
                    }
                },
                Err(_) => {
                    proof {
                        if parent <= i as u64 {
                            assert(old_db.proposals@[parent as int].output_block_number
                                == replayed_block(&anchor_view, recs, parent as int));
                        }
                    }
                    assert(!record_fits(&anchor_view, recs, i as int));
                    assert(!(forall|k: int| 0 <= k < recs.len() ==> record_fits(&anchor_view, recs, k)));
                    return Err(i);
                },
            }
            i = i + 1;
        }
        Ok(db)
    }

    /// The fields of the proposal at `i` as they were read from its game.
    fn data_of(&self, i: usize) -> (r: ProposalData)
        requires
            i < self.len(),
        ensures
            ({
                let p = self.proposals@[i as int];
                &&& r.game_address == p.game_address
                &&& r.output_root == p.output_root
                &&& r.output_block_number == p.output_block_number
                &&& r.io_field_elements@ == p.io_field_elements@
                &&& r.l1_head == p.l1_head
                &&& r.io_blob_hash == p.io_blob_hash
                &&& r.io_blob_index == p.io_blob_index
            }),
    {
        let p = &self.proposals[i];
        let mut io: Vec<B256> = Vec::new();
        let mut k: usize = 0;
        while k < p.io_field_elements.len()
            invariant
                0 <= k <= p.io_field_elements@.len(),
                io@ == p.io_field_elements@.subrange(0, k as int),
            decreases p.io_field_elements@.len() - k,
        {
            io.push(p.io_field_elements[k]);
            assert(p.io_field_elements@.subrange(0, k + 1) =~= p.io_field_elements@.subrange(
                0,
                k as int,
            ).push(p.io_field_elements@[k as int]));
            k = k + 1;
        }
        assert(p.io_field_elements@.subrange(0, p.io_field_elements@.len() as int)
            =~= p.io_field_elements@);
        ProposalData {
            game_address: p.game_address,
            output_root: p.output_root,
            output_block_number: p.output_block_number,
            io_field_elements: io,
            l1_head: p.l1_head,
            io_blob_hash: p.io_blob_hash,
            io_blob_index: p.io_blob_index,
        }
    }

    /// What is stored of the database: the anchor, and for every other
    /// proposal in insertion order its parent and the fields read from its
    /// game. Every record fits after the ones before it, so `replay` accepts
    /// them and rebuilds the same parents and outputs.
    pub fn records(&self) -> (r: (ProposalData, Vec<(u64, ProposalData)>))
        requires
            self.wf(),
        ensures
            r.0.output_root == self.proposals@[0].output_root,
            r.0.output_block_number == self.proposals@[0].output_block_number,
            r.0.io_field_elements@ == self.proposals@[0].io_field_elements@,
            r.1@.len() + 1 == self.len(),
            forall|i: int|
                0 <= i < r.1@.len() ==> {
                    let p = self.proposals@[i + 1];
                    let (parent, d) = #[trigger] r.1@[i];
                    &&& parent == p.parent
                    &&& d.game_address == p.game_address
                    &&& d.output_root == p.output_root
                    &&& d.output_block_number == p.output_block_number
                    &&& d.io_field_elements@ == p.io_field_elements@
                    &&& d.l1_head == p.l1_head
                    &&& d.io_blob_hash == p.io_blob_hash
                    &&& d.io_blob_index == p.io_blob_index
                },
            forall|i: int| 0 <= i < r.1@.len() ==> record_fits(&r.0, r.1@, i),
    {
        let anchor = self.data_of(0);
        let mut out: Vec<(u64, ProposalData)> = Vec::new();
        let n = self.proposals.len();
        let mut i: usize = 1;
        while i < n
            invariant
                self.wf(),
                n == self.len(),
                1 <= i <= n,
                out@.len() + 1 == i,
                anchor.output_block_number == self.proposals@[0].output_block_number,
                forall|k: int|
                    0 <= k < out@.len() ==> {
                        let p = self.proposals@[k + 1];
                        let (parent, d) = #[trigger] out@[k];
                        &&& parent == p.parent
                        &&& d.game_address == p.game_address
                        &&& d.output_root == p.output_root
                        &&& d.output_block_number == p.output_block_number
                        &&& d.io_field_elements@ == p.io_field_elements@
                        &&& d.l1_head == p.l1_head
                        &&& d.io_blob_hash == p.io_blob_hash
                        &&& d.io_blob_index == p.io_blob_index
                    },
            decreases n - i,
        {
            let parent = self.proposals[i].parent;
            out.push((parent, self.data_of(i)));
            i = i + 1;
        }
        proof {
            assert forall|k: int| 0 <= k < out@.len() implies record_fits(&anchor, out@, k) by {
                let p = self.proposals@[k + 1];
                assert(p.parent < k + 1);
                let j = p.parent as int;
                if j > 0 {
                    assert(out@[j - 1].1.output_block_number == self.proposals@[j].output_block_number);
                }
                assert(replayed_block(&anchor, out@, j) == self.proposals@[j].output_block_number);
                assert(spans_from_parent(&p, &self.proposals@[j]));
            }
        }
        (anchor, out)
    }

    /// Marks one more factory slot as classified.
    pub fn advance_factory_index(&mut self) -> (r: bool)
        requires
            old(self).wf(),
        ensures
            final(self).wf(),
            final(self).proposals == old(self).proposals,
            r == (old(self).next_factory_index < u64::MAX),
            r ==> final(self).next_factory_index == old(self).next_factory_index + 1,
            !r ==> final(self).next_factory_index == old(self).next_factory_index,
    {
        if self.next_factory_index < u64::MAX {
            self.next_factory_index = self.next_factory_index + 1;
            true
        } else {
            false
        }
    }
}

/// The output block number of the proposal at local index `j` once the
/// anchor and the first `j` records are in place.
pub open spec fn replayed_block(anchor: &ProposalData, records: Seq<(u64, ProposalData)>, j: int) -> u64 {
    if j == 0 {
        anchor.output_block_number
    } else {
        records[j - 1].1.output_block_number
    }
}

/// Record `i` can be inserted after the anchor and the records before it.
pub open spec fn record_fits(anchor: &ProposalData, records: Seq<(u64, ProposalData)>, i: int) -> bool {
    let (parent, d) = records[i];
    &&& parent <= i
    &&& valid_span(replayed_block(anchor, records, parent as int), &d)
}

proof fn lemma_divergence_ignores_contender(a: Proposal, p: Proposal, q: Proposal, k: nat)
    requires
        p.io_field_elements == q.io_field_elements,
        p.output_root == q.output_root,
    ensures
        a.divergence_from(&p, k) == a.divergence_from(&q, k),
    decreases a.io_len() + 1 - k,
{
    if k > a.io_len() || k > p.io_len() {
    } else if a.spec_output_at(k as int) != p.spec_output_at(k as int) {
    } else {
        lemma_divergence_ignores_contender(a, p, q, k + 1);
    }
}

proof fn lemma_election_ignores_contender(
    proposals: Seq<Proposal>,
    children: Seq<u64>,
    p: Proposal,
    q: Proposal,
    k: int,
)
    requires
        p.io_field_elements == q.io_field_elements,
        p.output_root == q.output_root,
    ensures
        first_disagreeing_from(proposals, children, p, k) == first_disagreeing_from(
            proposals,
            children,
            q,
            k,
        ),
    decreases children.len() - k,
{
    if k < 0 || k >= children.len() {
    } else {
        lemma_divergence_ignores_contender(proposals[children[k] as int], p, q, 0);
        lemma_election_ignores_contender(proposals, children, p, q, k + 1);
    }
}

proof fn lemma_elected_is_child(proposals: Seq<Proposal>, children: Seq<u64>, p: Proposal, k: int)
    ensures
        match first_disagreeing_from(proposals, children, p, k) {
            Some(c) => exists|m: int| k <= m < children.len() && children[m] == c,
            None => true,
        },
    decreases children.len() - k,
{
    if k < 0 || k >= children.len() {
    } else if proposals[children[k] as int].divergence(&p) is Some {
    } else {
        lemma_elected_is_child(proposals, children, p, k + 1);
    }
}

/// Every proposal but the anchor carries exactly one intermediate output
/// per block strictly between its parent's output block and its own.
pub proof fn lemma_outputs_span_parent(db: &ProposalDb, i: int)
    requires
        db.wf(),
        0 < i < db.len(),
    ensures
        ({
            let p = db.proposals@[i];
            let q = db.proposals@[p.parent as int];
            p.io_len() == p.output_block_number - q.output_block_number - 1
        }),
{
    assert(db.proposals@[i].parent < i);
}

/// Within each tournament the rank that `child_index` reports follows the
/// order in which the children were inserted.
pub proof fn lemma_child_ranks_follow_insertion(db: &ProposalDb, parent: int, k: int, l: int)
    requires
        db.wf(),
        0 <= parent < db.len(),
        0 <= k < l < db.proposals@[parent].children@.len(),
    ensures
        ({
            let children = db.proposals@[parent].children@;
            &&& first_occurrence(children, children[k], k)
            &&& first_occurrence(children, children[l], l)
        }),
{
    let children = db.proposals@[parent].children@;
    assert(children.no_duplicates()) by {
        assert forall|a: int, b: int|
            0 <= a < children.len() && 0 <= b < children.len() && a != b implies children[a]
            != children[b] by {
            if a < b {
                assert(children[a] < children[b]);
            } else {
                assert(children[b] < children[a]);
            }
        }
    }
    lemma_child_rank_follows_insertion(children, k, l);
}

} // verus!
