use kailua_validator::bytes::{Address, B256};
use kailua_validator::db::{InsertError, ProposalData, ProposalDb};
use kailua_validator::proposal::Proposal;

fn w(b: u8) -> B256 {
    B256 { bytes: [b; 32] }
}

fn proposal(index: u64, parent: u64, io: Vec<B256>, root: B256, block: u64) -> Proposal {
    Proposal {
        index,
        game_address: Address { bytes: [index as u8; 20] },
        parent,
        children: Vec::new(),
        contender: None,
        output_root: root,
        output_block_number: block,
        io_field_elements: io,
        l1_head: w(0xaa),
        io_blob_hash: w(0xbb),
        io_blob_index: 0,
    }
}

fn data(io: Vec<B256>, root: B256, block: u64) -> ProposalData {
    ProposalData {
        game_address: Address { bytes: [7; 20] },
        output_root: root,
        output_block_number: block,
        io_field_elements: io,
        l1_head: w(0xaa),
        io_blob_hash: w(0xbb),
        io_blob_index: 3,
    }
}

#[test]
fn output_at_reads_intermediate_then_root() {
    let p = proposal(1, 0, vec![w(1), w(2)], w(9), 13);
    assert_eq!(p.output_at(0), w(1));
    assert_eq!(p.output_at(1), w(2));
    assert_eq!(p.output_at(2), w(9));
}

#[test]
fn divergence_at_second_output() {
    let a = proposal(1, 0, vec![w(1), w(2)], w(3), 13);
    let b = proposal(2, 0, vec![w(1), w(0x22)], w(0x33), 13);
    assert_eq!(a.divergence_point(&b), Some(1));
    assert_eq!(b.divergence_point(&a), Some(1));
}

#[test]
fn divergence_only_at_final_output() {
    let a = proposal(1, 0, vec![w(1), w(2)], w(3), 13);
    let b = proposal(2, 0, vec![w(1), w(2)], w(4), 13);
    assert_eq!(a.divergence_point(&b), Some(2));
}

#[test]
fn agreeing_siblings_do_not_diverge() {
    let a = proposal(1, 0, vec![w(1), w(2)], w(3), 13);
    let b = proposal(2, 0, vec![w(1), w(2)], w(3), 13);
    assert_eq!(a.divergence_point(&b), None);
}

#[test]
fn prefix_does_not_diverge() {
    let a = proposal(1, 0, vec![w(1)], w(2), 12);
    let b = proposal(2, 0, vec![w(1), w(2)], w(3), 13);
    assert_eq!(a.divergence_point(&b), None);
}

#[test]
fn adjacent_proposals_diverge_at_zero() {
    let a = proposal(1, 0, vec![], w(3), 11);
    let b = proposal(2, 0, vec![], w(4), 11);
    assert_eq!(a.divergence_point(&b), Some(0));
    let c = proposal(3, 0, vec![], w(3), 11);
    assert_eq!(a.divergence_point(&c), None);
}

#[test]
fn precondition_needs_two_intermediate_openings() {
    let p = proposal(1, 0, vec![w(1), w(2), w(3)], w(4), 14);
    assert!(!p.has_precondition_for(0));
    assert!(p.has_precondition_for(1));
    assert!(p.has_precondition_for(2));
    assert!(!p.has_precondition_for(3));
}

#[test]
fn child_index_is_insertion_rank() {
    let mut p = proposal(0, 0, vec![], w(0), 10);
    p.children = vec![5, 9, 12];
    assert_eq!(p.child_index(5), Some(0));
    assert_eq!(p.child_index(9), Some(1));
    assert_eq!(p.child_index(12), Some(2));
    assert_eq!(p.child_index(6), None);
}

#[test]
fn database_links_children_in_order() {
    let mut db = ProposalDb::new(data(vec![], w(0), 10), 0);
    let a = db.insert_child(0, data(vec![w(1), w(2)], w(3), 13)).unwrap();
    let b = db.insert_child(0, data(vec![w(1), w(2)], w(3), 13)).unwrap();
    assert_eq!((a, b), (1, 2));
    let parent = db.get_local_proposal(0).unwrap();
    assert_eq!(parent.children, vec![1, 2]);
    assert!(parent.child_index(a).unwrap() < parent.child_index(b).unwrap());
    assert_eq!(db.get_local_proposal(2).unwrap().parent, 0);
    assert!(db.get_local_proposal(3).is_none());
}

#[test]
fn agreeing_sibling_has_no_contender() {
    let mut db = ProposalDb::new(data(vec![], w(0), 10), 0);
    db.insert_child(0, data(vec![w(1), w(2)], w(3), 13)).unwrap();
    let b = db.insert_child(0, data(vec![w(1), w(2)], w(3), 13)).unwrap();
    assert_eq!(db.get_local_proposal(b).unwrap().contender, None);
}

#[test]
fn disagreeing_sibling_contends_with_first_earlier_one() {
    let mut db = ProposalDb::new(data(vec![], w(0), 10), 0);
    let a = db.insert_child(0, data(vec![w(1), w(2)], w(3), 13)).unwrap();
    let b = db.insert_child(0, data(vec![w(1), w(0x22)], w(0x33), 13)).unwrap();
    let c = db.insert_child(0, data(vec![w(1), w(0x22)], w(0x33), 13)).unwrap();
    assert_eq!(db.get_local_proposal(a).unwrap().contender, None);
    assert_eq!(db.get_local_proposal(b).unwrap().contender, Some(a));
    assert_eq!(db.get_local_proposal(c).unwrap().contender, Some(a));
}

#[test]
fn insert_defers_unknown_parent() {
    let mut db = ProposalDb::new(data(vec![], w(0), 10), 0);
    assert_eq!(db.insert_child(4, data(vec![], w(1), 11)), Err(InsertError::MissingParent));
}

#[test]
fn insert_rejects_wrong_span() {
    let mut db = ProposalDb::new(data(vec![], w(0), 10), 0);
    assert_eq!(db.insert_child(0, data(vec![w(1)], w(2), 11)), Err(InsertError::InvalidSpan));
    assert_eq!(db.insert_child(0, data(vec![], w(2), 10)), Err(InsertError::InvalidSpan));
    assert_eq!(db.insert_child(0, data(vec![w(1)], w(2), 12)), Ok(1));
}

#[test]
fn factory_index_advances() {
    let mut db = ProposalDb::new(data(vec![], w(0), 10), 5);
    assert!(db.advance_factory_index());
    assert_eq!(db.next_factory_index, 6);
    let mut full = ProposalDb::new(data(vec![], w(0), 10), u64::MAX);
    assert!(!full.advance_factory_index());
    assert_eq!(full.next_factory_index, u64::MAX);
}

#[test]
fn every_position_uses_the_one_blob() {
    let mut p = proposal(1, 0, vec![w(1), w(2)], w(3), 13);
    p.io_blob_index = 4;
    assert_eq!(p.io_blob_for(0), (w(0xbb), 4));
    assert_eq!(p.io_blob_for(2), (w(0xbb), 4));
}

#[test]
fn games_are_linked_by_parent_address() {
    let mut db = ProposalDb::new(data(vec![], w(0), 10), 0);
    let anchor_game = Address { bytes: [7; 20] };
    assert_eq!(db.find_by_address(&anchor_game), Some(0));
    let mut child = data(vec![w(1)], w(2), 12);
    child.game_address = Address { bytes: [8; 20] };
    assert_eq!(db.insert_under_game(&anchor_game, child), Ok(1));
    assert_eq!(db.find_by_address(&Address { bytes: [8; 20] }), Some(1));
    let unknown = Address { bytes: [9; 20] };
    assert_eq!(db.find_by_address(&unknown), None);
    assert_eq!(
        db.insert_under_game(&unknown, data(vec![], w(3), 13)),
        Err(InsertError::MissingParent)
    );
    assert_eq!(db.insert_under_game(&Address { bytes: [8; 20] }, data(vec![], w(3), 13)), Ok(2));
    assert_eq!(db.get_local_proposal(2).unwrap().parent, 1);
}
