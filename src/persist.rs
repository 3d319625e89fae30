use crate::bytes::{be64, from_be64, lemma_be64_round_trip, push_be64, read_be64, Address, B256};
use crate::db::ProposalData;
use vstd::prelude::*;

verus! {

/// Length of a record before its intermediate outputs.
pub const RECORD_HEADER_LEN: usize = 148;

/// The content of a stored proposal: its parent and what was read from its
/// game.
pub struct RecordView {
    pub parent: u64,
    pub game_address: Seq<u8>,
    pub output_root: Seq<u8>,
    pub output_block_number: u64,
    pub l1_head: Seq<u8>,
    pub io_blob_hash: Seq<u8>,
    pub io_blob_index: u64,
    pub io_field_elements: Seq<Seq<u8>>,
}

/// The content of a parent index and proposal data.
pub open spec fn record_view(parent: u64, d: &ProposalData) -> RecordView {
    RecordView {
        parent,
        game_address: d.game_address@,
        output_root: d.output_root@,
        output_block_number: d.output_block_number,
        l1_head: d.l1_head@,
        io_blob_hash: d.io_blob_hash@,
        io_blob_index: d.io_blob_index,
        io_field_elements: d.io_field_elements@.map_values(|e: B256| e@),
    }
}

/// The words one after the other.
pub open spec fn concat_words(s: Seq<Seq<u8>>) -> Seq<u8>
    decreases s.len(),
{
    if s.len() == 0 {
        Seq::empty()
    } else {
        concat_words(s.drop_last()) + s.last()
    }
}

/// The stored form of a record: fixed-width fields in order, numbers
/// big-endian, then the count of intermediate outputs and the outputs.
pub open spec fn encode_record(r: RecordView) -> Seq<u8> {
    be64(r.parent) + r.game_address + r.output_root + be64(r.output_block_number) + r.l1_head
        + r.io_blob_hash + be64(r.io_blob_index) + be64(r.io_field_elements.len() as u64)
        + concat_words(r.io_field_elements)
}

/// All words are 32 bytes long.
pub open spec fn all_words(s: Seq<Seq<u8>>) -> bool {
    forall|i: int| 0 <= i < s.len() ==> #[trigger] s[i].len() == 32
}

/// The fields of a record have their fixed widths.
pub open spec fn well_sized(r: RecordView) -> bool {
    &&& r.game_address.len() == 20
    &&& r.output_root.len() == 32
    &&& r.l1_head.len() == 32
    &&& r.io_blob_hash.len() == 32
    &&& r.io_field_elements.len() <= u64::MAX
    &&& all_words(r.io_field_elements)
}

proof fn lemma_concat_words_len(s: Seq<Seq<u8>>)
    requires
        all_words(s),
    ensures
        concat_words(s).len() == 32 * s.len(),
    decreases s.len(),
{
    if s.len() > 0 {
        lemma_concat_words_len(s.drop_last());
    }
}

proof fn lemma_concat_words_at(s: Seq<Seq<u8>>, i: int)
    requires
        all_words(s),
        0 <= i < s.len(),
    ensures
        concat_words(s).subrange(32 * i, 32 * i + 32) == s[i],
    decreases s.len(),
{
    lemma_concat_words_len(s.drop_last());
    if i < s.len() - 1 {
        lemma_concat_words_at(s.drop_last(), i);
        assert(concat_words(s).subrange(32 * i, 32 * i + 32) =~= concat_words(
            s.drop_last(),
        ).subrange(32 * i, 32 * i + 32));
    } else {
        assert(concat_words(s).subrange(32 * i, 32 * i + 32) =~= s.last());
    }
}

/// Appends an address.
fn push_address(out: &mut Vec<u8>, a: &Address)
    ensures
        final(out)@ == old(out)@ + a@,
{
    let mut i: usize = 0;
    while i < 20
        invariant
            0 <= i <= 20,
            a@.len() == 20,
            out@ == old(out)@ + a@.subrange(0, i as int),
        decreases 20 - i,
    {
        out.push(a.bytes[i]);
        assert(a@.subrange(0, i + 1) =~= a@.subrange(0, i as int).push(a@[i as int]));
        i = i + 1;
    }
    assert(a@.subrange(0, 20) =~= a@);
}

/// Reads the address in the 20 bytes at `at`.
fn read_address(b: &[u8], at: usize) -> (r: Address)
    requires
        at + 20 <= b@.len(),
    ensures
        r@ == b@.subrange(at as int, at + 20),
{
    let mut bytes = [0u8; 20];
    let n = b.len();
    let mut i: usize = 0;
    while i < 20
        invariant
            0 <= i <= 20,
            n == b@.len(),
            at + 20 <= b@.len(),
            bytes@.len() == 20,
            forall|j: int| 0 <= j < i ==> bytes@[j] == b@[at + j],
        decreases 20 - i,
    {
        bytes[i] = b[at + i];
        i = i + 1;
    }
    let r = Address { bytes };
    assert(r@ =~= b@.subrange(at as int, at + 20));
    r
}

/// The stored form of a proposal under its parent.
pub fn encode_proposal_record(parent: u64, data: &ProposalData) -> (r: Vec<u8>)
    ensures
        r@ == encode_record(record_view(parent, data)),
        well_sized(record_view(parent, data)),
{
    let mut out: Vec<u8> = Vec::new();
    push_be64(&mut out, parent);
    push_address(&mut out, &data.game_address);
    data.output_root.push_to(&mut out);
    push_be64(&mut out, data.output_block_number);
    data.l1_head.push_to(&mut out);
    data.io_blob_hash.push_to(&mut out);
    push_be64(&mut out, data.io_blob_index);
    push_be64(&mut out, data.io_field_elements.len() as u64);
    let ghost head = out@;
    let ghost words = data.io_field_elements@.map_values(|e: B256| e@);
    let mut i: usize = 0;
    while i < data.io_field_elements.len()
        invariant
            0 <= i <= data.io_field_elements@.len(),
            words == data.io_field_elements@.map_values(|e: B256| e@),
            out@ == head + concat_words(words.subrange(0, i as int)),
        decreases data.io_field_elements@.len() - i,
    {
        data.io_field_elements[i].push_to(&mut out);
        assert(words.subrange(0, i + 1).drop_last() =~= words.subrange(0, i as int));
        i = i + 1;
    }
    assert(words.subrange(0, words.len() as int) =~= words);
    assert(out@ =~= encode_record(record_view(parent, data)));
    out
}

/// Reads a stored proposal; fails exactly when the bytes are not one whole
/// record.
pub fn decode_proposal_record(b: &[u8]) -> (r: Option<(u64, ProposalData)>)
    ensures
        r is Some ==> ({
            let (parent, d) = r->Some_0;
            &&& well_sized(record_view(parent, &d))
            &&& encode_record(record_view(parent, &d)) == b@
        }),
        r is None ==> forall|v: RecordView| well_sized(v) ==> encode_record(v) != b@,
{
    let len = b.len();
    if len < RECORD_HEADER_LEN {
        proof {
            lemma_record_len_at_least_header();
        }
        return None;
    }
    let n = read_be64(b, 140);
    let body = len - RECORD_HEADER_LEN;
    if body % 32 != 0 || (body / 32) as u64 != n {
        proof {
            lemma_record_count_matches(b@);
        }
        return None;
    }
    let parent = read_be64(b, 0);
    let game_address = read_address(b, 8);
    let output_root = B256::read_at(b, 28);
    let output_block_number = read_be64(b, 60);
    let l1_head = B256::read_at(b, 68);
    let io_blob_hash = B256::read_at(b, 100);
    let io_blob_index = read_be64(b, 132);
    let mut io: Vec<B256> = Vec::new();
    let mut i: usize = 0;
    let count = body / 32;
    while i < count
        invariant
            0 <= i <= count,
            count * 32 == body,
            body == len - RECORD_HEADER_LEN,
            len == b@.len(),
            io@.len() == i,
            forall|j: int|
                0 <= j < i ==> (#[trigger] io@[j])@ == b@.subrange(
                    RECORD_HEADER_LEN + 32 * j,
                    RECORD_HEADER_LEN + 32 * j + 32,
                ),
        decreases count - i,
    {
        io.push(B256::read_at(b, RECORD_HEADER_LEN + 32 * i));
        i = i + 1;
    }
    let d = ProposalData {
        game_address,
        output_root,
        output_block_number,
        io_field_elements: io,
        l1_head,
        io_blob_hash,
        io_blob_index,
    };
    proof {
        let v = record_view(parent, &d);
        let words = v.io_field_elements;
        assert(all_words(words));
        lemma_concat_words_len(words);
        let tail = b@.subrange(RECORD_HEADER_LEN as int, len as int);
        assert forall|k: int| 0 <= k < tail.len() implies concat_words(words)[k] == tail[k] by {
            let j = k / 32;
            lemma_concat_words_at(words, j);
            assert(concat_words(words).subrange(32 * j, 32 * j + 32)[k - 32 * j] == concat_words(
                words,
            )[k]);
            assert(b@.subrange(
                RECORD_HEADER_LEN + 32 * j,
                RECORD_HEADER_LEN + 32 * j + 32,
            )[k - 32 * j] == tail[k]);
        }
        assert(concat_words(words) =~= tail);
        lemma_from_be64_header(b@, n);
        crate::bytes::lemma_from_be64_round_trip(b@.subrange(0, 8));
        crate::bytes::lemma_from_be64_round_trip(b@.subrange(60, 68));
        crate::bytes::lemma_from_be64_round_trip(b@.subrange(132, 140));
        assert(words.len() == count);
        assert(b@ =~= b@.subrange(0, 8) + b@.subrange(8, 28) + b@.subrange(28, 60) + b@.subrange(
            60,
            68,
        ) + b@.subrange(68, 100) + b@.subrange(100, 132) + b@.subrange(132, 140) + b@.subrange(
            140,
            148,
        ) + tail);
        assert(encode_record(v) =~= b@);
    }
    Some((parent, d))
}

proof fn lemma_from_be64_header(b: Seq<u8>, n: u64)
    requires
        b.len() >= 148,
        n == from_be64(b.subrange(140, 148)),
    ensures
        be64(n) == b.subrange(140, 148),
{
    crate::bytes::lemma_from_be64_round_trip(b.subrange(140, 148));
}

proof fn lemma_record_len_at_least_header()
    ensures
        forall|v: RecordView| well_sized(v) ==> encode_record(v).len() >= 148,
{
    assert forall|v: RecordView| well_sized(v) implies encode_record(v).len() >= 148 by {
        lemma_concat_words_len(v.io_field_elements);
    }
}

proof fn lemma_record_count_matches(b: Seq<u8>)
    requires
        b.len() >= 148,
    ensures
        forall|v: RecordView|
            well_sized(v) && encode_record(v) == b ==> (b.len() - 148) % 32 == 0 && (b.len()
                - 148) / 32 == from_be64(b.subrange(140, 148)),
{
    assert forall|v: RecordView| well_sized(v) && encode_record(v) == b implies (b.len() - 148)
        % 32 == 0 && (b.len() - 148) / 32 == from_be64(b.subrange(140, 148)) by {
        lemma_concat_words_len(v.io_field_elements);
        assert(b.subrange(140, 148) =~= be64(v.io_field_elements.len() as u64));
        lemma_be64_round_trip(v.io_field_elements.len() as u64);
    }
}

/// Distinct well-sized records are stored differently, so reading back a
/// stored record gives the record that was stored.
pub proof fn lemma_record_round_trip(v: RecordView, w: RecordView)
    requires
        well_sized(v),
        well_sized(w),
        encode_record(v) == encode_record(w),
    ensures
        v == w,
{
    let b = encode_record(v);
    lemma_concat_words_len(v.io_field_elements);
    lemma_concat_words_len(w.io_field_elements);
    assert(b.subrange(0, 8) =~= be64(v.parent));
    assert(b.subrange(0, 8) =~= be64(w.parent));
    lemma_be64_round_trip(v.parent);
    lemma_be64_round_trip(w.parent);
    assert(b.subrange(8, 28) =~= v.game_address);
    assert(b.subrange(8, 28) =~= w.game_address);
    assert(b.subrange(28, 60) =~= v.output_root);
    assert(b.subrange(28, 60) =~= w.output_root);
    assert(b.subrange(60, 68) =~= be64(v.output_block_number));
    assert(b.subrange(60, 68) =~= be64(w.output_block_number));
    lemma_be64_round_trip(v.output_block_number);
    lemma_be64_round_trip(w.output_block_number);
    assert(b.subrange(68, 100) =~= v.l1_head);
    assert(b.subrange(68, 100) =~= w.l1_head);
    assert(b.subrange(100, 132) =~= v.io_blob_hash);
    assert(b.subrange(100, 132) =~= w.io_blob_hash);
    assert(b.subrange(132, 140) =~= be64(v.io_blob_index));
    assert(b.subrange(132, 140) =~= be64(w.io_blob_index));
    lemma_be64_round_trip(v.io_blob_index);
    lemma_be64_round_trip(w.io_blob_index);
    let tv = b.subrange(148, b.len() as int);
    assert(tv =~= concat_words(v.io_field_elements));
    assert(tv =~= concat_words(w.io_field_elements));
    assert(v.io_field_elements.len() == w.io_field_elements.len());
    assert forall|i: int| 0 <= i < v.io_field_elements.len() implies v.io_field_elements[i]
        == w.io_field_elements[i] by {
        lemma_concat_words_at(v.io_field_elements, i);
        lemma_concat_words_at(w.io_field_elements, i);
    }
    assert(v.io_field_elements =~= w.io_field_elements);
}

} // verus!
