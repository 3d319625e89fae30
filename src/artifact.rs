use crate::bytes::{be64, lemma_be64_round_trip, push_be64, B256};
use crate::preimage::{keccak256, keccak_of};
use crate::text::{b256_to_string, hex_prefixed, lemma_hex_prefixed_injective};
use vstd::prelude::*;
use vstd::string::StringExecFns;

verus! {

/// The bytes whose digest names a proof artifact: the image id of the proof
/// program, then the five public inputs, the block number big-endian.
pub open spec fn artifact_preimage(
    image_id: Seq<u8>,
    precondition_output: Seq<u8>,
    l1_head: Seq<u8>,
    claimed_l2_output_root: Seq<u8>,
    claimed_l2_block_number: u64,
    agreed_l2_output_root: Seq<u8>,
) -> Seq<u8> {
    image_id + precondition_output + l1_head + claimed_l2_output_root + be64(
        claimed_l2_block_number,
    ) + agreed_l2_output_root
}

/// The file suffix: `fake` for development receipts, `zkp` for real ones.
pub open spec fn artifact_suffix(dev_mode: bool) -> Seq<char> {
    if dev_mode {
        seq!['f', 'a', 'k', 'e']
    } else {
        seq!['z', 'k', 'p']
    }
}

/// `risc0-{version}-{0x digest}.{suffix}`.
pub open spec fn artifact_name(version: Seq<char>, digest: Seq<u8>, dev_mode: bool) -> Seq<char> {
    seq!['r', 'i', 's', 'c', '0', '-'] + version + seq!['-'] + hex_prefixed(digest) + seq!['.']
        + artifact_suffix(dev_mode)
}

/// The bytes that are hashed to name the proof artifact of these inputs.
pub fn proof_file_preimage(
    image_id: &B256,
    precondition_output: &B256,
    l1_head: &B256,
    claimed_l2_output_root: &B256,
    claimed_l2_block_number: u64,
    agreed_l2_output_root: &B256,
) -> (r: Vec<u8>)
    ensures
        r@ == artifact_preimage(
            image_id@,
            precondition_output@,
            l1_head@,
            claimed_l2_output_root@,
            claimed_l2_block_number,
            agreed_l2_output_root@,
        ),
{
    let mut data: Vec<u8> = Vec::new();
    image_id.push_to(&mut data);
    precondition_output.push_to(&mut data);
    l1_head.push_to(&mut data);
    claimed_l2_output_root.push_to(&mut data);
    push_be64(&mut data, claimed_l2_block_number);
    agreed_l2_output_root.push_to(&mut data);
    assert(data@ =~= artifact_preimage(
        image_id@,
        precondition_output@,
        l1_head@,
        claimed_l2_output_root@,
        claimed_l2_block_number,
        agreed_l2_output_root@,
    ));
    data
}

/// The artifact file name for a digest of its inputs.
pub fn proof_file_name_for_digest(version: &str, digest: &B256, dev_mode: bool) -> (r: String)
    ensures
        r@ == artifact_name(version@, digest@, dev_mode),
{
    let mut name = String::from_str("risc0-");
    name.append(version);
    name.append("-");
    let hex = b256_to_string(digest);
    name.append(hex.as_str());
    name.append(".");
    if dev_mode {
        name.append("fake");
    } else {
        name.append("zkp");
    }
    proof {
        reveal_strlit("risc0-");
        reveal_strlit("-");
        reveal_strlit(".");
        reveal_strlit("fake");
        reveal_strlit("zkp");
    }
    assert(name@ =~= artifact_name(version@, digest@, dev_mode));
    name
}

/// The content-addressed file name under which the prover stores the receipt
/// for these public inputs.
pub fn fpvm_proof_file_name(
    image_id: &B256,
    precondition_output: &B256,
    l1_head: &B256,
    claimed_l2_output_root: &B256,
    claimed_l2_block_number: u64,
    agreed_l2_output_root: &B256,
    version: &str,
    dev_mode: bool,
) -> (r: String)
    ensures
        r@ == artifact_name(
            version@,
            keccak_of(
                artifact_preimage(
                    image_id@,
                    precondition_output@,
                    l1_head@,
                    claimed_l2_output_root@,
                    claimed_l2_block_number,
                    agreed_l2_output_root@,
                ),
            ),
            dev_mode,
        ),
{
    let data = proof_file_preimage(
        image_id,
        precondition_output,
        l1_head,
        claimed_l2_output_root,
        claimed_l2_block_number,
        agreed_l2_output_root,
    );
    let digest = keccak256(data.as_slice());
    proof_file_name_for_digest(version, &digest, dev_mode)
}

/// Artifact names are injective in the five public inputs, unless the
/// digests of the two preimages collide: equal names (for one image id,
/// version and mode) and no collision mean equal inputs.
pub proof fn lemma_artifact_name_injective(
    image_id: Seq<u8>,
    version: Seq<char>,
    dev_mode: bool,
    a_precondition: Seq<u8>,
    a_l1_head: Seq<u8>,
    a_claimed_root: Seq<u8>,
    a_claimed_block: u64,
    a_agreed_root: Seq<u8>,
    b_precondition: Seq<u8>,
    b_l1_head: Seq<u8>,
    b_claimed_root: Seq<u8>,
    b_claimed_block: u64,
    b_agreed_root: Seq<u8>,
)
    requires
        a_precondition.len() == 32 && a_l1_head.len() == 32 && a_claimed_root.len() == 32
            && a_agreed_root.len() == 32,
        b_precondition.len() == 32 && b_l1_head.len() == 32 && b_claimed_root.len() == 32
            && b_agreed_root.len() == 32,
        keccak_of(
            artifact_preimage(
                image_id,
                a_precondition,
                a_l1_head,
                a_claimed_root,
                a_claimed_block,
                a_agreed_root,
            ),
        ).len() == keccak_of(
            artifact_preimage(
                image_id,
                b_precondition,
                b_l1_head,
                b_claimed_root,
                b_claimed_block,
                b_agreed_root,
            ),
        ).len(),
        keccak_of(
            artifact_preimage(
                image_id,
                a_precondition,
                a_l1_head,
                a_claimed_root,
                a_claimed_block,
                a_agreed_root,
            ),
        ) == keccak_of(
            artifact_preimage(
                image_id,
                b_precondition,
                b_l1_head,
                b_claimed_root,
                b_claimed_block,
                b_agreed_root,
            ),
        ) ==> artifact_preimage(
            image_id,
            a_precondition,
            a_l1_head,
            a_claimed_root,
            a_claimed_block,
            a_agreed_root,
        ) == artifact_preimage(
            image_id,
            b_precondition,
            b_l1_head,
            b_claimed_root,
            b_claimed_block,
            b_agreed_root,
        ),
        artifact_name(
            version,
            keccak_of(
                artifact_preimage(
                    image_id,
                    a_precondition,
                    a_l1_head,
                    a_claimed_root,
                    a_claimed_block,
                    a_agreed_root,
                ),
            ),
            dev_mode,
        ) == artifact_name(
            version,
            keccak_of(
                artifact_preimage(
                    image_id,
                    b_precondition,
                    b_l1_head,
                    b_claimed_root,
                    b_claimed_block,
                    b_agreed_root,
                ),
            ),
            dev_mode,
        ),
    ensures
        a_precondition == b_precondition,
        a_l1_head == b_l1_head,
        a_claimed_root == b_claimed_root,
        a_claimed_block == b_claimed_block,
        a_agreed_root == b_agreed_root,
{
    let pa = artifact_preimage(
        image_id,
        a_precondition,
        a_l1_head,
        a_claimed_root,
        a_claimed_block,
        a_agreed_root,
    );
    let pb = artifact_preimage(
        image_id,
        b_precondition,
        b_l1_head,
        b_claimed_root,
        b_claimed_block,
        b_agreed_root,
    );
    let da = keccak_of(pa);
    let db = keccak_of(pb);
    let na = artifact_name(version, da, dev_mode);
    let nb = artifact_name(version, db, dev_mode);
    let start: int = 7 + version.len() as int;
    let ha = hex_prefixed(da);
    let hb = hex_prefixed(db);
    assert(na.subrange(start, start + ha.len()) =~= ha);
    assert(nb.subrange(start, start + hb.len()) =~= hb);
    lemma_hex_prefixed_injective(da, db);
    let n: int = image_id.len() as int;
    assert(pa.subrange(n, n + 32) =~= a_precondition);
    assert(pb.subrange(n, n + 32) =~= b_precondition);
    assert(pa.subrange(n + 32, n + 64) =~= a_l1_head);
    assert(pb.subrange(n + 32, n + 64) =~= b_l1_head);
    assert(pa.subrange(n + 64, n + 96) =~= a_claimed_root);
    assert(pb.subrange(n + 64, n + 96) =~= b_claimed_root);
    assert(pa.subrange(n + 96, n + 104) =~= be64(a_claimed_block));
    assert(pb.subrange(n + 96, n + 104) =~= be64(b_claimed_block));
    assert(pa.subrange(n + 104, n + 136) =~= a_agreed_root);
    assert(pb.subrange(n + 104, n + 136) =~= b_agreed_root);
    lemma_be64_round_trip(a_claimed_block);
    lemma_be64_round_trip(b_claimed_block);
}

} // verus!
