use kailua_validator::bytes::{Address, B256};
use kailua_validator::db::{ProposalData, ProposalDb};
use kailua_validator::persist::{decode_proposal_record, encode_proposal_record};

fn w(b: u8) -> B256 {
    B256 { bytes: [b; 32] }
}

fn data(io: Vec<B256>, root: B256, block: u64) -> ProposalData {
    ProposalData {
        game_address: Address { bytes: [7; 20] },
        output_root: root,
        output_block_number: block,
        io_field_elements: io,
        l1_head: w(0xaa),
        io_blob_hash: w(0xbb),
        io_blob_index: 3,
    }
}

#[test]
fn record_layout_and_round_trip() {
    let d = data(vec![w(1), w(2)], w(3), 13);
    let bytes = encode_proposal_record(5, &d);
    assert_eq!(bytes.len(), 148 + 64);
    assert_eq!(&bytes[0..8], &5u64.to_be_bytes());
    assert_eq!(&bytes[8..28], &[7u8; 20]);
    assert_eq!(&bytes[60..68], &13u64.to_be_bytes());
    assert_eq!(&bytes[132..140], &3u64.to_be_bytes());
    assert_eq!(&bytes[140..148], &2u64.to_be_bytes());
    let (parent, back) = decode_proposal_record(&bytes).unwrap();
    assert_eq!(parent, 5);
    assert_eq!(back.io_field_elements, d.io_field_elements);
    assert_eq!(back.output_root, d.output_root);
    assert_eq!(back.output_block_number, 13);
    assert_eq!(back.l1_head, d.l1_head);
    assert_eq!(back.io_blob_hash, d.io_blob_hash);
    assert_eq!(back.io_blob_index, 3);
    assert_eq!(back.game_address.bytes, [7u8; 20]);
    assert_eq!(encode_proposal_record(parent, &back), bytes);
}

#[test]
fn malformed_records_are_refused() {
    let bytes = encode_proposal_record(1, &data(vec![w(1)], w(2), 12));
    assert!(decode_proposal_record(&bytes[..bytes.len() - 1]).is_none());
    assert!(decode_proposal_record(&bytes[..100]).is_none());
    let mut wrong_count = bytes.clone();
    wrong_count[147] = 2;
    assert!(decode_proposal_record(&wrong_count).is_none());
    let empty = encode_proposal_record(0, &data(vec![], w(2), 11));
    assert_eq!(empty.len(), 148);
    assert!(decode_proposal_record(&empty).is_some());
}

#[test]
fn database_replays_from_its_records() {
    let mut db = ProposalDb::new(data(vec![], w(0), 10), 9);
    db.insert_child(0, data(vec![w(1), w(2)], w(3), 13)).unwrap();
    db.insert_child(0, data(vec![w(1), w(0x22)], w(0x33), 13)).unwrap();
    db.insert_child(2, data(vec![], w(4), 14)).unwrap();
    let (anchor, records) = db.records();
    assert_eq!(records.len(), 3);
    let stored: Vec<Vec<u8>> = records.iter().map(|(p, d)| encode_proposal_record(*p, d)).collect();
    let loaded: Vec<(u64, ProposalData)> =
        stored.iter().map(|b| decode_proposal_record(b).unwrap()).collect();
    let again = match ProposalDb::replay(anchor, 9, loaded) {
        Ok(db) => db,
        Err(i) => panic!("record {i} refused"),
    };
    for i in 0..4u64 {
        let a = db.get_local_proposal(i).unwrap();
        let b = again.get_local_proposal(i).unwrap();
        assert_eq!(a.parent, b.parent);
        assert_eq!(a.children, b.children);
        assert_eq!(a.contender, b.contender);
        assert_eq!(a.output_root, b.output_root);
        assert_eq!(a.io_field_elements, b.io_field_elements);
    }
    assert_eq!(again.next_factory_index, 9);
}

#[test]
fn replay_stops_at_first_misfit() {
    let records = vec![
        (0, data(vec![w(1)], w(2), 12)),
        (5, data(vec![], w(3), 13)),
        (0, data(vec![], w(3), 11)),
    ];
    assert_eq!(ProposalDb::replay(data(vec![], w(0), 10), 0, records).err(), Some(1));
    let bad_span = vec![(0, data(vec![w(1)], w(2), 11))];
    assert_eq!(ProposalDb::replay(data(vec![], w(0), 10), 0, bad_span).err(), Some(0));
}
