use crate::artifact::{artifact_name, artifact_preimage, fpvm_proof_file_name};
use crate::bytes::B256;
use crate::preimage::keccak_of;
use crate::proposal::Proposal;
use crate::text::{b256_to_string, decimal, hex_prefixed, u64_to_string};
use vstd::prelude::*;
use vstd::string::StringExecFns;

verus! {

#[verifier::external_type_specification]
#[verifier::external_body]
pub struct ExReceipt(risc0_zkvm::Receipt);

/// The bytes are the bincode encoding of a receipt.
pub uninterp spec fn receipt_decodes(bytes: Seq<u8>) -> bool;

/// Relies on bincode::deserialize of a risc0_zkvm::Receipt: whether it
/// succeeds depends on the bytes alone.
#[verifier::external_body]
fn deserialize_receipt(bytes: &[u8]) -> (r: Option<risc0_zkvm::Receipt>)
    ensures
        r is Some <==> receipt_decodes(bytes@),
{
    bincode::deserialize::<risc0_zkvm::Receipt>(bytes).ok()
}

/// An L1 block, as the blob fetcher needs it.
#[derive(Clone, Copy, Debug)]
pub struct BlockRef {
    pub hash: B256,
    pub number: u64,
    pub parent_hash: B256,
    pub timestamp: u64,
}

/// A blob's versioned hash with its index in the block.
#[derive(Clone, Copy, Debug)]
pub struct IndexedBlobHash {
    pub index: u64,
    pub hash: B256,
}

/// One blob, named by the block that carries it and its indexed hash.
#[derive(Clone, Copy, Debug)]
pub struct BlobFetchRequest {
    pub block_ref: BlockRef,
    pub blob_hash: IndexedBlobHash,
}

/// The two intermediate-output blobs a proof must bind: the contender's,
/// then the proposal's.
#[derive(Clone, Copy, Debug)]
pub struct PreconditionValidationData {
    pub contender_blob: BlobFetchRequest,
    pub proposal_blob: BlobFetchRequest,
}

/// The blob fetch requests for the intermediate-output blobs of both sides,
/// each in the block that carries it.
pub fn precondition_data(
    contender: &Proposal,
    contender_block: BlockRef,
    proposal: &Proposal,
    proposal_block: BlockRef,
) -> (r: PreconditionValidationData)
    ensures
        r.contender_blob.block_ref == contender_block,
        r.contender_blob.blob_hash.index == contender.io_blob_index,
        r.contender_blob.blob_hash.hash == contender.io_blob_hash,
        r.proposal_blob.block_ref == proposal_block,
        r.proposal_blob.blob_hash.index == proposal.io_blob_index,
        r.proposal_blob.blob_hash.hash == proposal.io_blob_hash,
{
    PreconditionValidationData {
        contender_blob: BlobFetchRequest {
            block_ref: contender_block,
            blob_hash: IndexedBlobHash { index: contender.io_blob_index, hash: contender.io_blob_hash },
        },
        proposal_blob: BlobFetchRequest {
            block_ref: proposal_block,
            blob_hash: IndexedBlobHash { index: proposal.io_blob_index, hash: proposal.io_blob_hash },
        },
    }
}

/// A work item exchanged between the chain watcher and the prover driver.
#[derive(Debug)]
pub enum Message {
    /// A request to prove the output at `claimed_l2_block_number`.
    Proposal {
        index: u64,
        precondition_validation_data: Option<PreconditionValidationData>,
        l1_head: B256,
        agreed_l2_head_hash: B256,
        agreed_l2_output_root: B256,
        claimed_l2_block_number: u64,
        claimed_l2_output_root: B256,
    },
    /// A finished proof for the proposal at a local index.
    Proof(u64, risc0_zkvm::Receipt),
}

/// The nodes and settings the prover is pointed at.
pub struct ProverSettings {
    pub l2_chain_id: String,
    pub l1_node_address: String,
    pub l1_beacon_address: String,
    pub l2_node_address: String,
    pub op_node_address: String,
    pub data_dir: String,
    pub verbosity: u8,
}

/// `-` followed by one `v` per level.
pub open spec fn verbosity_spec(n: u8) -> Seq<char> {
    seq!['-'] + Seq::new(n as nat, |i: int| 'v')
}

/// The verbosity flag for `n` levels.
pub fn verbosity_flag(n: u8) -> (r: String)
    ensures
        r@ == verbosity_spec(n),
{
    let mut s = String::from_str("-");
    let mut i: u8 = 0;
    proof {
        reveal_strlit("-");
    }
    assert(s@ =~= verbosity_spec(0));
    while i < n
        invariant
            0 <= i <= n,
            s@ == verbosity_spec(i),
        decreases n - i,
    {
        s.append("v");
        proof {
            reveal_strlit("v");
        }
        assert(verbosity_spec((i + 1) as u8) =~= verbosity_spec(i) + "v"@);
        i = i + 1;
    }
    s
}

/// The views of a list of strings.
pub open spec fn views(v: Seq<String>) -> Seq<Seq<char>> {
    v.map_values(|s: String| s@)
}

/// The command-line arguments of the prover for a proof request.
pub open spec fn prover_args_spec(
    l1_head: Seq<u8>,
    agreed_l2_head_hash: Seq<u8>,
    agreed_l2_output_root: Seq<u8>,
    claimed_l2_output_root: Seq<u8>,
    claimed_l2_block_number: u64,
    blobs: Option<PreconditionValidationData>,
    settings: &ProverSettings,
) -> Seq<Seq<char>> {
    let base = seq![
        "--l1-head"@,
        hex_prefixed(l1_head),
        "--agreed-l2-head-hash"@,
        hex_prefixed(agreed_l2_head_hash),
        "--agreed-l2-output-root"@,
        hex_prefixed(agreed_l2_output_root),
        "--claimed-l2-output-root"@,
        hex_prefixed(claimed_l2_output_root),
        "--claimed-l2-block-number"@,
        decimal(claimed_l2_block_number),
        "--l2-chain-id"@,
        settings.l2_chain_id@,
        "--l1-node-address"@,
        settings.l1_node_address@,
        "--l1-beacon-address"@,
        settings.l1_beacon_address@,
        "--l2-node-address"@,
        settings.l2_node_address@,
        "--op-node-address"@,
        settings.op_node_address@,
        "--data-dir"@,
        settings.data_dir@,
        "--native"@,
    ];
    let with_blobs = match blobs {
        Some(d) => base + seq![
            "--u-block-hash"@,
            hex_prefixed(d.contender_blob.block_ref.hash@),
            "--u-blob-kzg-hash"@,
            hex_prefixed(d.contender_blob.blob_hash.hash@),
            "--v-block-hash"@,
            hex_prefixed(d.proposal_blob.block_ref.hash@),
            "--v-blob-kzg-hash"@,
            hex_prefixed(d.proposal_blob.blob_hash.hash@),
        ],
        None => base,
    };
    if settings.verbosity > 0 {
        with_blobs.push(verbosity_spec(settings.verbosity))
    } else {
        with_blobs
    }
}

/// Appends a copy of `s`.
fn push_str(args: &mut Vec<String>, s: &str)
    ensures
        views(final(args)@) == views(old(args)@).push(s@),
{
    args.push(String::from_str(s));
    assert(views(final(args)@) =~= views(old(args)@).push(s@));
}

/// Appends `s`.
fn push_string(args: &mut Vec<String>, s: String)
    ensures
        views(final(args)@) == views(old(args)@).push(s@),
{
    let ghost v = s@;
    args.push(s);
    assert(views(final(args)@) =~= views(old(args)@).push(v));
}

/// The prover's command-line arguments for a proof request.
pub fn prover_args(
    l1_head: &B256,
    agreed_l2_head_hash: &B256,
    agreed_l2_output_root: &B256,
    claimed_l2_output_root: &B256,
    claimed_l2_block_number: u64,
    blobs: &Option<PreconditionValidationData>,
    settings: &ProverSettings,
) -> (r: Vec<String>)
    ensures
        views(r@) == prover_args_spec(
            l1_head@,
            agreed_l2_head_hash@,
            agreed_l2_output_root@,
            claimed_l2_output_root@,
            claimed_l2_block_number,
            *blobs,
            settings,
        ),
{
    let mut args: Vec<String> = Vec::new();
    push_str(&mut args, "--l1-head");
    push_string(&mut args, b256_to_string(l1_head));
    push_str(&mut args, "--agreed-l2-head-hash");
    push_string(&mut args, b256_to_string(agreed_l2_head_hash));
    push_str(&mut args, "--agreed-l2-output-root");
    push_string(&mut args, b256_to_string(agreed_l2_output_root));
    push_str(&mut args, "--claimed-l2-output-root");
    push_string(&mut args, b256_to_string(claimed_l2_output_root));
    push_str(&mut args, "--claimed-l2-block-number");
    push_string(&mut args, u64_to_string(claimed_l2_block_number));
    push_str(&mut args, "--l2-chain-id");
    push_str(&mut args, settings.l2_chain_id.as_str());
    push_str(&mut args, "--l1-node-address");
    push_str(&mut args, settings.l1_node_address.as_str());
    push_str(&mut args, "--l1-beacon-address");
    push_str(&mut args, settings.l1_beacon_address.as_str());
    push_str(&mut args, "--l2-node-address");
    push_str(&mut args, settings.l2_node_address.as_str());
    push_str(&mut args, "--op-node-address");
    push_str(&mut args, settings.op_node_address.as_str());
    push_str(&mut args, "--data-dir");
    push_str(&mut args, settings.data_dir.as_str());
    push_str(&mut args, "--native");
    match blobs {
        Some(d) => {
            push_str(&mut args, "--u-block-hash");
            push_string(&mut args, b256_to_string(&d.contender_blob.block_ref.hash));
            push_str(&mut args, "--u-blob-kzg-hash");
            push_string(&mut args, b256_to_string(&d.contender_blob.blob_hash.hash));
            push_str(&mut args, "--v-block-hash");
            push_string(&mut args, b256_to_string(&d.proposal_blob.block_ref.hash));
            push_str(&mut args, "--v-blob-kzg-hash");
            push_string(&mut args, b256_to_string(&d.proposal_blob.blob_hash.hash));
        },
        None => {},
    }
    if settings.verbosity > 0 {
        push_string(&mut args, verbosity_flag(settings.verbosity));
    }
    assert(views(args@) =~= prover_args_spec(
        l1_head@,
        agreed_l2_head_hash@,
        agreed_l2_output_root@,
        claimed_l2_output_root@,
        claimed_l2_block_number,
        *blobs,
        settings,
    ));
    args
}

/// The artifact file name for a proof request; a request without
/// precondition data uses the zero word as its precondition output.
pub fn request_file_name(
    image_id: &B256,
    precondition_hash: &Option<B256>,
    l1_head: &B256,
    claimed_l2_output_root: &B256,
    claimed_l2_block_number: u64,
    agreed_l2_output_root: &B256,
    version: &str,
    dev_mode: bool,
) -> (r: String)
    ensures
        r@ == artifact_name(
            version@,
            keccak_of(
                artifact_preimage(
                    image_id@,
                    match precondition_hash {
                        Some(h) => h@,
                        None => Seq::new(32, |i: int| 0u8),
                    },
                    l1_head@,
                    claimed_l2_output_root@,
                    claimed_l2_block_number,
                    agreed_l2_output_root@,
                ),
            ),
            dev_mode,
        ),
{
    let precondition_output = match precondition_hash {
        Some(h) => *h,
        None => B256::zero(),
    };
    fpvm_proof_file_name(
        image_id,
        &precondition_output,
        l1_head,
        claimed_l2_output_root,
        claimed_l2_block_number,
        agreed_l2_output_root,
        version,
        dev_mode,
    )
}

/// The message to send back once the prover has run: a proof when the
/// artifact was found and holds a receipt, nothing otherwise.
pub fn receipt_message(index: u64, artifact: Option<Vec<u8>>) -> (r: Option<Message>)
    ensures
        artifact is None ==> r is None,
        artifact is Some ==> (r is Some <==> receipt_decodes(artifact->Some_0@)),
        r is Some ==> (r->Some_0 is Proof && r->Some_0->Proof_0 == index),
{
    match artifact {
        None => None,
        Some(bytes) => match deserialize_receipt(bytes.as_slice()) {
            Some(receipt) => Some(Message::Proof(index, receipt)),
            None => None,
        },
    }
}

/// Checks the native run's result against the claim: with enough data the
/// claimed output root must be the computed one, without it the claim must be
/// the zero word.
pub fn client_output_consistent(claimed: &B256, computed: &Option<B256>) -> (r: bool)
    ensures
        r == match computed {
            Some(c) => claimed@ == c@,
            None => claimed@ == Seq::new(32, |i: int| 0u8),
        },
{
    match computed {
        Some(c) => claimed.same(c),
        None => claimed.same(&B256::zero()),
    }
}

} // verus!
