use crate::bytes::Address;
use vstd::prelude::*;

verus! {

/// A 256-bit amount, as 32 big-endian bytes.
#[derive(Clone, Copy, Debug)]
pub struct U256 {
    pub be_bytes: [u8; 32],
}

/// A map from addresses to values, kept as a list of entries with distinct
/// addresses.
#[derive(Debug)]
pub struct AddressMap<V> {
    entries: Vec<(Address, V)>,
}

/// The map that a list of entries stands for.
pub open spec fn entries_map<V>(s: Seq<(Address, V)>) -> Map<Seq<u8>, V>
    decreases s.len(),
{
    if s.len() == 0 {
        Map::empty()
    } else {
        entries_map(s.drop_last()).insert(s.last().0@, s.last().1)
    }
}

proof fn lemma_entries_map_lookup<V>(s: Seq<(Address, V)>, i: int)
    requires
        0 <= i < s.len(),
        forall|j: int, k: int| 0 <= j < k < s.len() ==> s[j].0@ != s[k].0@,
    ensures
        entries_map(s).contains_key(s[i].0@),
        entries_map(s)[s[i].0@] == s[i].1,
    decreases s.len(),
{
    if i < s.len() - 1 {
        lemma_entries_map_lookup(s.drop_last(), i);
    }
}

proof fn lemma_entries_map_absent<V>(s: Seq<(Address, V)>, a: Seq<u8>)
    requires
        forall|j: int| 0 <= j < s.len() ==> s[j].0@ != a,
    ensures
        !entries_map(s).contains_key(a),
    decreases s.len(),
{
    if s.len() > 0 {
        lemma_entries_map_absent(s.drop_last(), a);
    }
}

proof fn lemma_entries_map_update<V>(s: Seq<(Address, V)>, i: int, e: (Address, V))
    requires
        0 <= i < s.len(),
        e.0@ == s[i].0@,
        forall|j: int, k: int| 0 <= j < k < s.len() ==> s[j].0@ != s[k].0@,
    ensures
        entries_map(s.update(i, e)) == entries_map(s).insert(e.0@, e.1),
    decreases s.len(),
{
    let t = s.update(i, e);
    if i == s.len() - 1 {
        assert(t.drop_last() =~= s.drop_last());
        lemma_entries_map_absent(s.drop_last(), e.0@);
        assert(entries_map(t) =~= entries_map(s).insert(e.0@, e.1));
    } else {
        assert(t.drop_last() =~= s.drop_last().update(i, e));
        lemma_entries_map_update(s.drop_last(), i, e);
        assert(entries_map(t) =~= entries_map(s).insert(e.0@, e.1));
    }
}

impl<V: Copy> AddressMap<V> {
    /// Addresses are distinct.
    pub closed spec fn wf(&self) -> bool {
        forall|j: int, k: int|
            0 <= j < k < self.entries@.len() ==> self.entries@[j].0@ != self.entries@[k].0@
    }

    /// The map, by address bytes.
    pub closed spec fn view(&self) -> Map<Seq<u8>, V> {
        entries_map(self.entries@)
    }

    /// The empty map.
    pub fn new() -> (r: AddressMap<V>)
        ensures
            r.wf(),
            r.view() =~= Map::empty(),
    {
        AddressMap { entries: Vec::new() }
    }

    /// Where `a` stands among the entries, if it does.
    fn position(&self, a: &Address) -> (r: Option<usize>)
        requires
            self.wf(),
        ensures
            match r {
                Some(i) => i < self.entries@.len() && self.entries@[i as int].0@ == a@,
                None => forall|j: int| 0 <= j < self.entries@.len() ==> self.entries@[j].0@ != a@,
            },
    {
        let mut i: usize = 0;
        while i < self.entries.len()
            invariant
                0 <= i <= self.entries@.len(),
                forall|j: int| 0 <= j < i ==> self.entries@[j].0@ != a@,
            decreases self.entries@.len() - i,
        {
            if self.entries[i].0.same(a) {
                return Some(i);
            }
            i = i + 1;
        }
        None
    }

    /// The value stored for `a`, if any.
    pub fn get(&self, a: &Address) -> (r: Option<V>)
        requires
            self.wf(),
        ensures
            r is Some <==> self.view().contains_key(a@),
            r is Some ==> r->Some_0 == self.view()[a@],
    {
        match self.position(a) {
            Some(i) => {
                proof {
                    lemma_entries_map_lookup(self.entries@, i as int);
                }
                Some(self.entries[i].1)
            },
            None => {
                proof {
                    lemma_entries_map_absent(self.entries@, a@);
                }
                None
            },
        }
    }

    /// Stores `v` for `a`, replacing any earlier value.
    pub fn insert(&mut self, a: Address, v: V)
        requires
            old(self).wf(),
        ensures
            final(self).wf(),
            final(self).view() == old(self).view().insert(a@, v),
    {
        match self.position(&a) {
            Some(i) => {
                proof {
                    lemma_entries_map_update(self.entries@, i as int, (a, v));
                }
                self.entries.set(i, (a, v));
            },
            None => {
                let ghost before = self.entries@;
                self.entries.push((a, v));
                proof {
                    assert(self.entries@.drop_last() =~= before);
                }
            },
        }
    }
}

/// The treasury's state as last read from chain: its bond, and per address
/// the bond paid, the proposer of a claim and the round of elimination.
#[derive(Debug)]
pub struct Treasury {
    pub index: u64,
    pub address: Address,
    pub participation_bond: U256,
    pub paid_bond: AddressMap<U256>,
    pub claim_proposer: AddressMap<Address>,
    pub elimination_round: AddressMap<u64>,
}

impl Treasury {
    pub open spec fn wf(&self) -> bool {
        &&& self.paid_bond.wf()
        &&& self.claim_proposer.wf()
        &&& self.elimination_round.wf()
    }

    /// A treasury view with the chain's bond and game index, and no address
    /// read yet.
    pub fn new(index: u64, address: Address, participation_bond: U256) -> (r: Treasury)
        ensures
            r.wf(),
            r.index == index,
            r.address == address,
            r.participation_bond == participation_bond,
            r.paid_bond.view() =~= Map::empty(),
            r.claim_proposer.view() =~= Map::empty(),
            r.elimination_round.view() =~= Map::empty(),
    {
        Treasury {
            index,
            address,
            participation_bond,
            paid_bond: AddressMap::new(),
            claim_proposer: AddressMap::new(),
            elimination_round: AddressMap::new(),
        }
    }

    /// Records the participation bond just read from chain.
    pub fn record_bond(&mut self, bond: U256) -> (r: U256)
        requires
            old(self).wf(),
        ensures
            final(self).wf(),
            r == bond,
            final(self).index == old(self).index,
            final(self).address == old(self).address,
            final(self).participation_bond == bond,
            final(self).paid_bond.view() == old(self).paid_bond.view(),
            final(self).claim_proposer.view() == old(self).claim_proposer.view(),
            final(self).elimination_round.view() == old(self).elimination_round.view(),
    {
        self.participation_bond = bond;
        bond
    }

    /// Records the bond paid by `address`, just read from chain.
    pub fn record_balance(&mut self, address: Address, paid: U256) -> (r: U256)
        requires
            old(self).wf(),
        ensures
            final(self).wf(),
            r == paid,
            final(self).index == old(self).index,
            final(self).address == old(self).address,
            final(self).participation_bond == old(self).participation_bond,
            final(self).paid_bond.view() == old(self).paid_bond.view().insert(address@, paid),
            final(self).claim_proposer.view() == old(self).claim_proposer.view(),
            final(self).elimination_round.view() == old(self).elimination_round.view(),
    {
        self.paid_bond.insert(address, paid);
        paid
    }

    /// The proposer of the claim at `address`, if already read.
    pub fn cached_proposer(&self, address: &Address) -> (r: Option<Address>)
        requires
            self.wf(),
        ensures
            r is Some <==> self.claim_proposer.view().contains_key(address@),
            r is Some ==> r->Some_0 == self.claim_proposer.view()[address@],
    {
        self.claim_proposer.get(address)
    }

    /// Records the proposer read from chain for `address` unless one is
    /// already known, and returns the known one.
    pub fn record_proposer(&mut self, address: Address, proposer: Address) -> (r: Address)
        requires
            old(self).wf(),
        ensures
            final(self).wf(),
            old(self).claim_proposer.view().contains_key(address@) ==> r == old(self).claim_proposer.view()[address@] && final(self).claim_proposer.view() == old(self).claim_proposer.view(),
            !old(self).claim_proposer.view().contains_key(address@) ==> r == proposer && final(self).claim_proposer.view() == old(self).claim_proposer.view().insert(address@, proposer),
            final(self).index == old(self).index,
            final(self).address == old(self).address,
            final(self).participation_bond == old(self).participation_bond,
            final(self).paid_bond.view() == old(self).paid_bond.view(),
            final(self).elimination_round.view() == old(self).elimination_round.view(),
    {
        match self.claim_proposer.get(&address) {
            Some(known) => known,
            None => {
                self.claim_proposer.insert(address, proposer);
                proposer
            },
        }
    }

    /// The round in which the proposer at `address` was eliminated, if
    /// already read.
    pub fn cached_elimination_round(&self, address: &Address) -> (r: Option<u64>)
        requires
            self.wf(),
        ensures
            r is Some <==> self.elimination_round.view().contains_key(address@),
            r is Some ==> r->Some_0 == self.elimination_round.view()[address@],
    {
        self.elimination_round.get(address)
    }

    /// Records the elimination round read from chain for `address` unless
    /// one is already known, and returns the known one.
    pub fn record_elimination_round(&mut self, address: Address, round: u64) -> (r: u64)
        requires
            old(self).wf(),
        ensures
            final(self).wf(),
            old(self).elimination_round.view().contains_key(address@) ==> r == old(self).elimination_round.view()[address@] && final(self).elimination_round.view() == old(self).elimination_round.view(),
            !old(self).elimination_round.view().contains_key(address@) ==> r == round && final(self).elimination_round.view() == old(self).elimination_round.view().insert(
                address@,
                round,
            ),
            final(self).index == old(self).index,
            final(self).address == old(self).address,
            final(self).participation_bond == old(self).participation_bond,
            final(self).paid_bond.view() == old(self).paid_bond.view(),
            final(self).claim_proposer.view() == old(self).claim_proposer.view(),
    {
        match self.elimination_round.get(&address) {
            Some(known) => known,
            None => {
                self.elimination_round.insert(address, round);
                round
            },
        }
    }
}

} // verus!
