use kailua_validator::artifact::{
    fpvm_proof_file_name, proof_file_name_for_digest, proof_file_preimage,
};
use kailua_validator::bytes::{Address, B256};
use kailua_validator::journal::ProofJournal;
use kailua_validator::proposal::Proposal;
use kailua_validator::prover::{
    client_output_consistent, precondition_data, prover_args, receipt_message, request_file_name,
    verbosity_flag, BlockRef, Message, ProverSettings,
};

fn w(b: u8) -> B256 {
    B256 { bytes: [b; 32] }
}

fn hex(bytes: &[u8]) -> String {
    let mut s = String::from("0x");
    for b in bytes {
        s.push_str(&format!("{:02x}", b));
    }
    s
}

#[test]
fn preimage_concatenates_inputs() {
    let data = proof_file_preimage(&w(9), &w(1), &w(2), &w(3), 0x0a0b, &w(4));
    assert_eq!(data.len(), 32 * 5 + 8);
    assert_eq!(&data[0..32], &[9u8; 32]);
    assert_eq!(&data[128..136], &[0, 0, 0, 0, 0, 0, 0x0a, 0x0b]);
    assert_eq!(&data[136..168], &[4u8; 32]);
}

#[test]
fn file_name_for_digest_is_exact() {
    let mut digest = [0u8; 32];
    digest[0] = 0xab;
    digest[31] = 0x01;
    let name = proof_file_name_for_digest("1.2.6", &B256 { bytes: digest }, false);
    assert_eq!(name, format!("risc0-1.2.6-{}.zkp", hex(&digest)));
    assert!(name.starts_with("risc0-1.2.6-0xab0000"));
    let fake = proof_file_name_for_digest("1.2.6", &B256 { bytes: digest }, true);
    assert!(fake.ends_with("01.fake"));
}

#[test]
fn file_name_hashes_inputs_with_keccak() {
    let name = fpvm_proof_file_name(&w(9), &w(1), &w(2), &w(3), 77, &w(4), "1.2.6", false);
    let data = [&[9u8; 32][..], &[1u8; 32], &[2u8; 32], &[3u8; 32], &77u64.to_be_bytes(), &[4u8; 32]]
        .concat();
    let digest = alloy_primitives::keccak256(&data).0;
    assert_eq!(name, format!("risc0-1.2.6-{}.zkp", hex(&digest)));
}

#[test]
fn file_names_differ_with_each_input() {
    let base = fpvm_proof_file_name(&w(9), &w(1), &w(2), &w(3), 77, &w(4), "1.2.6", false);
    let variants = [
        fpvm_proof_file_name(&w(9), &w(5), &w(2), &w(3), 77, &w(4), "1.2.6", false),
        fpvm_proof_file_name(&w(9), &w(1), &w(5), &w(3), 77, &w(4), "1.2.6", false),
        fpvm_proof_file_name(&w(9), &w(1), &w(2), &w(5), 77, &w(4), "1.2.6", false),
        fpvm_proof_file_name(&w(9), &w(1), &w(2), &w(3), 78, &w(4), "1.2.6", false),
        fpvm_proof_file_name(&w(9), &w(1), &w(2), &w(3), 77, &w(5), "1.2.6", false),
    ];
    for v in variants.iter() {
        assert_ne!(&base, v);
    }
}

#[test]
fn request_without_precondition_uses_zero_word() {
    let with_zero = fpvm_proof_file_name(&w(9), &w(0), &w(2), &w(3), 77, &w(4), "1.2.6", true);
    let none = request_file_name(&w(9), &None, &w(2), &w(3), 77, &w(4), "1.2.6", true);
    assert_eq!(none, with_zero);
    let some = request_file_name(&w(9), &Some(w(1)), &w(2), &w(3), 77, &w(4), "1.2.6", true);
    assert_eq!(some, fpvm_proof_file_name(&w(9), &w(1), &w(2), &w(3), 77, &w(4), "1.2.6", true));
}

fn settings(verbosity: u8) -> ProverSettings {
    ProverSettings {
        l2_chain_id: String::from("10"),
        l1_node_address: String::from("http://l1"),
        l1_beacon_address: String::from("http://beacon"),
        l2_node_address: String::from("http://l2"),
        op_node_address: String::from("http://op"),
        data_dir: String::from("/data"),
        verbosity,
    }
}

#[test]
fn prover_arguments_without_precondition() {
    let args = prover_args(&w(1), &w(2), &w(3), &w(4), 1234, &None, &settings(0));
    let expected: Vec<String> = vec![
        "--l1-head".to_string(),
        hex(&[1u8; 32]),
        "--agreed-l2-head-hash".to_string(),
        hex(&[2u8; 32]),
        "--agreed-l2-output-root".to_string(),
        hex(&[3u8; 32]),
        "--claimed-l2-output-root".to_string(),
        hex(&[4u8; 32]),
        "--claimed-l2-block-number".to_string(),
        "1234".to_string(),
        "--l2-chain-id".to_string(),
        "10".to_string(),
        "--l1-node-address".to_string(),
        "http://l1".to_string(),
        "--l1-beacon-address".to_string(),
        "http://beacon".to_string(),
        "--l2-node-address".to_string(),
        "http://l2".to_string(),
        "--op-node-address".to_string(),
        "http://op".to_string(),
        "--data-dir".to_string(),
        "/data".to_string(),
        "--native".to_string(),
    ];
    assert_eq!(args, expected);
}

#[test]
fn prover_arguments_with_precondition_and_verbosity() {
    let mut contender = Proposal {
        index: 1,
        game_address: Address { bytes: [1; 20] },
        parent: 0,
        children: Vec::new(),
        contender: None,
        output_root: w(3),
        output_block_number: 13,
        io_field_elements: vec![w(1), w(2)],
        l1_head: w(0xaa),
        io_blob_hash: w(0xc1),
        io_blob_index: 2,
    };
    let block = |h: u8| BlockRef { hash: w(h), number: 100, parent_hash: w(h - 1), timestamp: 5 };
    let mut proposal = Proposal { index: 2, io_blob_hash: w(0xc2), io_blob_index: 4, ..contender_clone(&contender) };
    proposal.contender = Some(1);
    contender.children = Vec::new();
    let data = precondition_data(&contender, block(0xd1), &proposal, block(0xd2));
    assert_eq!(data.contender_blob.blob_hash.index, 2);
    assert_eq!(data.proposal_blob.blob_hash.index, 4);
    assert_eq!(data.proposal_blob.block_ref.number, 100);
    let args = prover_args(&w(1), &w(2), &w(3), &w(4), 12, &Some(data), &settings(3));
    assert_eq!(args.len(), 23 + 8 + 1);
    assert_eq!(args[23], "--u-block-hash");
    assert_eq!(args[24], hex(&[0xd1u8; 32]));
    assert_eq!(args[25], "--u-blob-kzg-hash");
    assert_eq!(args[26], hex(&[0xc1u8; 32]));
    assert_eq!(args[27], "--v-block-hash");
    assert_eq!(args[28], hex(&[0xd2u8; 32]));
    assert_eq!(args[29], "--v-blob-kzg-hash");
    assert_eq!(args[30], hex(&[0xc2u8; 32]));
    assert_eq!(args[31], "-vvv");
}

fn contender_clone(p: &Proposal) -> Proposal {
    Proposal {
        index: p.index,
        game_address: p.game_address,
        parent: p.parent,
        children: p.children.clone(),
        contender: p.contender,
        output_root: p.output_root,
        output_block_number: p.output_block_number,
        io_field_elements: p.io_field_elements.clone(),
        l1_head: p.l1_head,
        io_blob_hash: p.io_blob_hash,
        io_blob_index: p.io_blob_index,
    }
}

#[test]
fn verbosity_flag_repeats_v() {
    assert_eq!(verbosity_flag(0), "-");
    assert_eq!(verbosity_flag(2), "-vv");
}

#[test]
fn missing_artifact_sends_nothing() {
    assert!(receipt_message(3, None).is_none());
    assert!(receipt_message(3, Some(vec![1, 2, 3])).is_none());
}

fn fake_receipt(journal: Vec<u8>) -> risc0_zkvm::Receipt {
    let claim = risc0_zkvm::ReceiptClaim::ok(risc0_zkvm::sha::Digest::ZERO, journal.clone());
    risc0_zkvm::Receipt::new(
        risc0_zkvm::InnerReceipt::Fake(risc0_zkvm::FakeReceipt::new(claim)),
        journal,
    )
}

#[test]
fn serialized_receipt_becomes_proof_message() {
    let j = ProofJournal {
        precondition_output: w(1),
        l1_head: w(2),
        agreed_l2_output_root: w(3),
        claimed_l2_output_root: w(4),
        claimed_l2_block_number: 12,
        config_hash: w(6),
    };
    let receipt = fake_receipt(j.encode_packed());
    let bytes = bincode::serialize(&receipt).unwrap();
    match receipt_message(7, Some(bytes.clone())) {
        Some(Message::Proof(index, back)) => {
            assert_eq!(index, 7);
            assert_eq!(bincode::serialize(&back).unwrap(), bytes);
            assert_eq!(ProofJournal::decode_packed(&back.journal.bytes), Ok(j));
        }
        _ => panic!("expected a proof message"),
    }
}

#[test]
fn client_output_must_match_or_be_zero() {
    assert!(client_output_consistent(&w(3), &Some(w(3))));
    assert!(!client_output_consistent(&w(3), &Some(w(4))));
    assert!(client_output_consistent(&w(0), &None));
    assert!(!client_output_consistent(&w(3), &None));
}
