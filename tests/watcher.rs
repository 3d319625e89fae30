use kailua_validator::bytes::{Address, B256};
use kailua_validator::journal::ProofJournal;
use kailua_validator::proposal::Proposal;
use kailua_validator::submission::{plan_submission, ChainFacts, ProofWarning};
use kailua_validator::watcher::{
    blob_block_number, classify_match, match_indices, needs_proof, plan_proof_request,
    MatchState, PlanError,
};

fn w(b: u8) -> B256 {
    B256 { bytes: [b; 32] }
}

fn proposal(index: u64, parent: u64, io: Vec<B256>, root: B256, block: u64) -> Proposal {
    Proposal {
        index,
        game_address: Address { bytes: [index as u8; 20] },
        parent,
        children: Vec::new(),
        contender: None,
        output_root: root,
        output_block_number: block,
        io_field_elements: io,
        l1_head: w(0xaa),
        io_blob_hash: w(0xbb),
        io_blob_index: 0,
    }
}

/// Parent at block 10 with children 1 (contender) and 2 (proposal), each
/// committing to blocks 11, 12 and 13.
fn tournament(a: Vec<B256>, a_root: B256, b: Vec<B256>, b_root: B256) -> (Proposal, Proposal, Proposal) {
    let mut parent = proposal(0, 0, vec![], w(0x10), 10);
    parent.children = vec![1, 2];
    let contender = proposal(1, 0, a, a_root, 13);
    let mut prop = proposal(2, 0, b, b_root, 13);
    prop.contender = Some(1);
    (parent, contender, prop)
}

fn journal(agreed: B256, claimed: B256, block: u64) -> ProofJournal {
    ProofJournal {
        precondition_output: w(0x50),
        l1_head: w(0xaa),
        agreed_l2_output_root: agreed,
        claimed_l2_output_root: claimed,
        claimed_l2_block_number: block,
        config_hash: w(0x60),
    }
}

fn facts(claimed_fe: B256, live: B256) -> ChainFacts {
    ChainFacts {
        receipt_verified: true,
        live_output: live,
        proof_status: 0,
        config_hash: w(0x60),
        claimed_fe,
        precondition_hash: w(0x50),
    }
}

#[test]
fn match_states() {
    assert_eq!(classify_match(None, 0), MatchState::Uncontended);
    assert_eq!(classify_match(Some(1), 0), MatchState::ContestedUnproven);
    assert_eq!(classify_match(Some(1), 2), MatchState::ContestedProven);
    assert!(needs_proof(Some(1), 0));
    assert!(!needs_proof(Some(1), 1));
    assert!(!needs_proof(None, 0));
}

#[test]
fn match_indices_are_ranks() {
    let (parent, _, _) = tournament(vec![], w(1), vec![], w(2));
    assert_eq!(match_indices(&parent, 1, 2), Some((0, 1)));
    assert_eq!(match_indices(&parent, 2, 1), Some((1, 0)));
    assert_eq!(match_indices(&parent, 1, 3), None);
}

#[test]
fn request_starts_before_divergence() {
    let (_, a, b) = tournament(vec![w(1), w(2)], w(3), vec![w(1), w(0x22)], w(0x33));
    let plan = plan_proof_request(&a, &b).unwrap();
    assert_eq!(plan.challenge_point, 1);
    assert_eq!(plan.agreed_l2_head_number, 11);
    assert_eq!(plan.claimed_l2_block_number, 12);
    assert!(plan.needs_precondition);
}

#[test]
fn request_at_first_position_needs_no_precondition() {
    let (_, a, b) = tournament(vec![w(1), w(2)], w(3), vec![w(9), w(2)], w(3));
    let plan = plan_proof_request(&a, &b).unwrap();
    assert_eq!(plan.challenge_point, 0);
    assert_eq!(plan.agreed_l2_head_number, 10);
    assert_eq!(plan.claimed_l2_block_number, 11);
    assert!(!plan.needs_precondition);
}

#[test]
fn request_at_final_output_needs_no_precondition() {
    let (_, a, b) = tournament(vec![w(1), w(2)], w(3), vec![w(1), w(2)], w(4));
    let plan = plan_proof_request(&a, &b).unwrap();
    assert_eq!(plan.challenge_point, 2);
    assert_eq!(plan.claimed_l2_block_number, 13);
    assert!(!plan.needs_precondition);
}

#[test]
fn agreeing_siblings_get_no_request() {
    let (_, a, b) = tournament(vec![w(1), w(2)], w(3), vec![w(1), w(2)], w(3));
    assert_eq!(plan_proof_request(&a, &b), Err(PlanError::NoDivergence));
}

#[test]
fn blob_block_follows_head() {
    assert_eq!(blob_block_number(41), Some(42));
    assert_eq!(blob_block_number(u64::MAX), None);
}

#[test]
fn submission_for_intermediate_divergence_opens_both_sides() {
    // contender [H1, H2, H3], proposal [H1, H2', H3']: first difference at 1
    let (parent, a, b) = tournament(vec![w(1), w(2)], w(3), vec![w(1), w(0x22)], w(0x33));
    let j = journal(w(1), w(0x22), 12);
    let plan = plan_submission(&parent, &a, &b, &j, &facts(w(0x22), w(0x22))).unwrap().unwrap();
    assert_eq!((plan.u_index, plan.v_index), (0, 1));
    assert_eq!(plan.challenge_position, 1);
    assert_eq!(plan.lower_opening, Some(0));
    assert_eq!(plan.upper_opening, Some(1));
    assert!(!plan.endpoint);
    assert_eq!(plan.contender_output, w(2));
    assert_eq!(plan.proposal_output, w(0x22));
    assert_eq!(plan.agreed_output, w(1));
    assert_eq!(plan.claimed_output, w(0x22));
    assert_eq!(plan.warnings, vec![ProofWarning::ContenderOutputMismatch]);
}

#[test]
fn submission_at_final_output_takes_endpoint_branch() {
    let (parent, a, b) = tournament(vec![w(1), w(2)], w(3), vec![w(1), w(2)], w(4));
    let j = journal(w(2), w(4), 13);
    let plan = plan_submission(&parent, &a, &b, &j, &facts(w(4), w(4))).unwrap().unwrap();
    assert_eq!(plan.challenge_position, 2);
    assert!(plan.endpoint);
    assert_eq!(plan.upper_opening, None);
    assert_eq!(plan.lower_opening, Some(1));
    assert_eq!(plan.contender_output, w(3));
    assert_eq!(plan.proposal_output, w(4));
    assert_eq!(plan.warnings, vec![ProofWarning::ContenderOutputMismatch]);
}

#[test]
fn submission_at_first_position_has_no_lower_opening() {
    let (parent, a, b) = tournament(vec![w(1), w(2)], w(3), vec![w(9), w(2)], w(3));
    let j = journal(w(0x10), w(9), 11);
    let plan = plan_submission(&parent, &a, &b, &j, &facts(w(9), w(9))).unwrap().unwrap();
    assert_eq!(plan.challenge_position, 0);
    assert_eq!(plan.lower_opening, None);
    assert_eq!(plan.upper_opening, Some(0));
    assert_eq!(plan.warnings, vec![ProofWarning::ContenderOutputMismatch]);
    let wrong_agreed = journal(w(0x11), w(9), 11);
    let plan = plan_submission(&parent, &a, &b, &wrong_agreed, &facts(w(9), w(9))).unwrap().unwrap();
    assert_eq!(
        plan.warnings,
        vec![ProofWarning::ContenderOutputMismatch, ProofWarning::ParentOutputMismatch]
    );
}

#[test]
fn config_mismatch_still_submits_with_warning() {
    let (parent, a, b) = tournament(vec![w(1), w(2)], w(3), vec![w(1), w(0x22)], w(0x33));
    let mut j = journal(w(1), w(0x22), 12);
    j.config_hash = w(0x61);
    let plan = plan_submission(&parent, &a, &b, &j, &facts(w(0x22), w(0x22))).unwrap().unwrap();
    assert_eq!(
        plan.warnings,
        vec![ProofWarning::ContenderOutputMismatch, ProofWarning::ConfigHashMismatch]
    );
}

#[test]
fn every_check_can_warn() {
    let (parent, a, b) = tournament(vec![w(1), w(2)], w(3), vec![w(1), w(0x22)], w(0x33));
    let mut j = journal(w(1), w(0x23), 12);
    j.l1_head = w(0xab);
    j.precondition_output = w(0x51);
    let mut f = facts(w(0x24), w(0x25));
    f.receipt_verified = false;
    let plan = plan_submission(&parent, &a, &b, &j, &f).unwrap().unwrap();
    assert_eq!(
        plan.warnings,
        vec![
            ProofWarning::ReceiptNotVerified,
            ProofWarning::ContenderOutputMismatch,
            ProofWarning::ProposalOutputMismatch,
            ProofWarning::LiveOutputMismatch,
            ProofWarning::PreconditionMismatch,
            ProofWarning::L1HeadMismatch,
        ]
    );
}

#[test]
fn proven_match_is_not_submitted_again() {
    let (parent, a, b) = tournament(vec![w(1), w(2)], w(3), vec![w(1), w(0x22)], w(0x33));
    let j = journal(w(1), w(0x22), 12);
    let mut f = facts(w(0x22), w(0x22));
    f.proof_status = 1;
    assert!(plan_submission(&parent, &a, &b, &j, &f).unwrap().is_none());
}

#[test]
fn submission_errors() {
    let (parent, a, mut b) = tournament(vec![w(1), w(2)], w(3), vec![w(1), w(0x22)], w(0x33));
    let f = facts(w(0x22), w(0x22));
    assert_eq!(
        plan_submission(&parent, &a, &b, &journal(w(1), w(2), 10), &f).err(),
        Some(PlanError::BlockOutOfRange)
    );
    assert_eq!(
        plan_submission(&parent, &a, &b, &journal(w(1), w(2), 14), &f).err(),
        Some(PlanError::BlockOutOfRange)
    );
    let mut orphan_parent = proposal(0, 0, vec![], w(0x10), 10);
    orphan_parent.children = vec![1];
    assert_eq!(
        plan_submission(&orphan_parent, &a, &b, &journal(w(1), w(2), 12), &f).err(),
        Some(PlanError::NotAChild)
    );
    b.contender = None;
    assert_eq!(
        plan_submission(&parent, &a, &b, &journal(w(1), w(2), 12), &f).err(),
        Some(PlanError::NoContender)
    );
}
