use crate::bytes::{
    be64, from_be64, lemma_be64_round_trip, lemma_from_be64_round_trip, push_be64, read_be64,
    B256,
};
use vstd::prelude::*;

verus! {

/// Length of a packed journal: five 32-byte words and one 8-byte number.
pub const JOURNAL_LEN: usize = 168;

/// The public output of a proof.
#[derive(Clone, Copy, Debug, PartialEq, Eq)]
pub struct ProofJournal {
    pub precondition_output: B256,
    pub l1_head: B256,
    pub agreed_l2_output_root: B256,
    pub claimed_l2_output_root: B256,
    pub claimed_l2_block_number: u64,
    pub config_hash: B256,
}

/// The mathematical content of a journal.
pub struct JournalView {
    pub precondition_output: Seq<u8>,
    pub l1_head: Seq<u8>,
    pub agreed_l2_output_root: Seq<u8>,
    pub claimed_l2_output_root: Seq<u8>,
    pub claimed_l2_block_number: u64,
    pub config_hash: Seq<u8>,
}

impl View for ProofJournal {
    type V = JournalView;

    open spec fn view(&self) -> JournalView {
        JournalView {
            precondition_output: self.precondition_output@,
            l1_head: self.l1_head@,
            agreed_l2_output_root: self.agreed_l2_output_root@,
            claimed_l2_output_root: self.claimed_l2_output_root@,
            claimed_l2_block_number: self.claimed_l2_block_number,
            config_hash: self.config_hash@,
        }
    }
}

/// The packed encoding: the fields in order, each at fixed width, the block
/// number big-endian.
pub open spec fn encode_journal(j: JournalView) -> Seq<u8> {
    j.precondition_output + j.l1_head + j.agreed_l2_output_root + j.claimed_l2_output_root + be64(
        j.claimed_l2_block_number,
    ) + j.config_hash
}

/// The journal that 168 packed bytes hold.
pub open spec fn decode_journal(b: Seq<u8>) -> JournalView {
    JournalView {
        precondition_output: b.subrange(0, 32),
        l1_head: b.subrange(32, 64),
        agreed_l2_output_root: b.subrange(64, 96),
        claimed_l2_output_root: b.subrange(96, 128),
        claimed_l2_block_number: from_be64(b.subrange(128, 136)),
        config_hash: b.subrange(136, 168),
    }
}

/// Why bytes could not be read as a journal.
#[derive(Debug, PartialEq, Eq, Structural, Clone, Copy)]
pub enum JournalError {
    /// The input is not exactly 168 bytes long.
    BadLength,
}

impl ProofJournal {
    /// The 168-byte packed encoding.
    pub fn encode_packed(&self) -> (r: Vec<u8>)
        ensures
            r@ == encode_journal(self@),
            r@.len() == JOURNAL_LEN,
    {
        let mut out: Vec<u8> = Vec::new();
        self.precondition_output.push_to(&mut out);
        self.l1_head.push_to(&mut out);
        self.agreed_l2_output_root.push_to(&mut out);
        self.claimed_l2_output_root.push_to(&mut out);
        push_be64(&mut out, self.claimed_l2_block_number);
        self.config_hash.push_to(&mut out);
        assert(out@ =~= encode_journal(self@));
        out
    }

    /// Reads a packed journal; fails exactly when the input is not 168 bytes.
    pub fn decode_packed(encoded: &[u8]) -> (r: Result<ProofJournal, JournalError>)
        ensures
            r is Ok <==> encoded@.len() == JOURNAL_LEN,
            r is Ok ==> r->Ok_0@ == decode_journal(encoded@),
            r is Err ==> r->Err_0 == JournalError::BadLength,
    {
        if encoded.len() != JOURNAL_LEN {
            return Err(JournalError::BadLength);
        }
        Ok(
            ProofJournal {
                precondition_output: B256::read_at(encoded, 0),
                l1_head: B256::read_at(encoded, 32),
                agreed_l2_output_root: B256::read_at(encoded, 64),
                claimed_l2_output_root: B256::read_at(encoded, 96),
                claimed_l2_block_number: read_be64(encoded, 128),
                config_hash: B256::read_at(encoded, 136),
            },
        )
    }
}

/// Decoding the packed encoding of a journal gives the journal back, and the
/// encoding is always 168 bytes long.
pub proof fn lemma_journal_encode_decode(j: ProofJournal)
    ensures
        encode_journal(j@).len() == JOURNAL_LEN,
        decode_journal(encode_journal(j@)) == j@,
{
    let e = encode_journal(j@);
    lemma_be64_round_trip(j.claimed_l2_block_number);
    assert(e.subrange(0, 32) =~= j.precondition_output@);
    assert(e.subrange(32, 64) =~= j.l1_head@);
    assert(e.subrange(64, 96) =~= j.agreed_l2_output_root@);
    assert(e.subrange(96, 128) =~= j.claimed_l2_output_root@);
    assert(e.subrange(128, 136) =~= be64(j.claimed_l2_block_number));
    assert(e.subrange(136, 168) =~= j.config_hash@);
}

/// Encoding the journal read from 168 bytes gives those bytes back.
pub proof fn lemma_journal_decode_encode(b: Seq<u8>)
    requires
        b.len() == JOURNAL_LEN,
    ensures
        encode_journal(decode_journal(b)) == b,
{
    lemma_from_be64_round_trip(b.subrange(128, 136));
    assert(encode_journal(decode_journal(b)) =~= b);
}

} // verus!
