use nomad_db::{
    destination_and_nonce, DbError, LeafPoll, NomadDB, NomadMessage, Proof, RawCommittedMessage,
    SignedUpdate, SignedUpdateWithMeta, Update, UpdateMeta, H256, LEAF_POLL_INTERVAL_MS,
};

fn message(nonce: u32, leaf_index: u32) -> RawCommittedMessage {
    let m = NomadMessage {
        origin: 10,
        sender: H256::from_low_u64_be(4),
        nonce,
        destination: 12,
        recipient: H256::from_low_u64_be(5),
        body: vec![1, 2, 3],
    };
    RawCommittedMessage {
        leaf_index,
        committed_root: H256::from_low_u64_be(3),
        message: m.to_vec(),
    }
}

fn update(previous: u64, new: u64) -> SignedUpdate {
    SignedUpdate {
        update: Update {
            home_domain: 1000,
            previous_root: H256::from_low_u64_be(previous),
            new_root: H256::from_low_u64_be(new),
        },
        signature: [7u8; 65],
    }
}

#[test]
fn db_stores_and_retrieves_messages() {
    let home_name = "home_1".to_owned();
    let mut db = NomadDB::new(&home_name);

    let m = NomadMessage {
        origin: 10,
        sender: H256::from_low_u64_be(4),
        nonce: 11,
        destination: 12,
        recipient: H256::from_low_u64_be(5),
        body: vec![1, 2, 3],
    };

    let message = RawCommittedMessage {
        leaf_index: 100,
        committed_root: H256::from_low_u64_be(3),
        message: m.to_vec(),
    };
    assert_eq!(m.to_leaf(), message.leaf());

    db.store_raw_committed_message(&message).unwrap();

    let by_nonce = db.message_by_nonce(m.destination, m.nonce).unwrap();
    assert_eq!(by_nonce, message);

    let by_leaf = db.message_by_leaf(message.leaf()).unwrap();
    assert_eq!(by_leaf, message);

    let by_index = db.message_by_leaf_index(message.leaf_index).unwrap();
    assert_eq!(by_index, message);
}

#[test]
fn db_stores_and_retrieves_proofs() {
    let home_name = "home_1".to_owned();
    let mut db = NomadDB::new(&home_name);

    let proof = Proof {
        leaf: H256::from_low_u64_be(15),
        index: 32,
        path: Default::default(),
    };
    db.store_proof(13, &proof);

    let by_index = db.proof_by_leaf_index(13).unwrap();
    assert_eq!(by_index, proof);
}

#[test]
fn proof_stored_without_any_message_or_update() {
    let mut db = NomadDB::new("home_1");
    let proof = Proof { leaf: H256::from_low_u64_be(9), index: 13, path: [H256::from_low_u64_be(1); 32] };
    db.store_proof(13, &proof);
    assert_eq!(db.proof_by_leaf_index(13), Some(proof));
    assert_eq!(db.proof_by_leaf_index(12), None);
    assert_eq!(db.message_by_leaf_index(13), None);
    assert!(db.is_empty());
}

#[test]
fn from_low_u64_be_places_bytes_last() {
    let h = H256::from_low_u64_be(0x0102_0304_0506_0708);
    let mut expected = [0u8; 32];
    expected[24..].copy_from_slice(&[1, 2, 3, 4, 5, 6, 7, 8]);
    assert_eq!(h, H256(expected));
    assert_eq!(H256::zero(), H256([0u8; 32]));
}

#[test]
fn keccak_of_empty_message_is_known_digest() {
    let m = RawCommittedMessage { leaf_index: 0, committed_root: H256::zero(), message: vec![] };
    let expected = [
        0xc5, 0xd2, 0x46, 0x01, 0x86, 0xf7, 0x23, 0x3c, 0x92, 0x7e, 0x7d, 0xb2, 0xdc, 0xc7, 0x03,
        0xc0, 0xe5, 0x00, 0xb6, 0x53, 0xca, 0x82, 0x27, 0x3b, 0x7b, 0xfa, 0xd8, 0x04, 0x5d, 0x85,
        0xa4, 0x70,
    ];
    assert_eq!(m.leaf(), H256(expected));
}

#[test]
fn message_encoding_and_decoding() {
    let raw = message(11, 0);
    assert_eq!(raw.message.len(), 79);
    assert_eq!(&raw.message[0..4], &[0, 0, 0, 10]);
    assert_eq!(&raw.message[36..40], &[0, 0, 0, 11]);
    assert_eq!(&raw.message[40..44], &[0, 0, 0, 12]);
    assert_eq!(&raw.message[76..], &[1, 2, 3]);
    let parsed = NomadMessage::read_from(&raw.message).unwrap();
    assert_eq!(parsed.origin, 10);
    assert_eq!(parsed.nonce, 11);
    assert_eq!(parsed.destination, 12);
    assert_eq!(parsed.sender, H256::from_low_u64_be(4));
    assert_eq!(parsed.recipient, H256::from_low_u64_be(5));
    assert_eq!(parsed.body, vec![1, 2, 3]);
    assert_eq!(parsed.destination_and_nonce(), (12u64 << 32) | 11);
    assert_eq!(destination_and_nonce(1, 2), 0x0000_0001_0000_0002);
    assert_eq!(NomadMessage::read_from(&[0u8; 75]), Err(DbError::MessageDecode));
}

#[test]
fn undecodable_message_is_refused_and_not_stored() {
    let mut db = NomadDB::new("home_1");
    let bad = RawCommittedMessage { leaf_index: 0, committed_root: H256::zero(), message: vec![1; 10] };
    assert_eq!(db.store_raw_committed_message(&bad), Err(DbError::MessageDecode));
    assert_eq!(db.leaf_by_leaf_index(0), None);
    assert!(db.is_empty());
}

#[test]
fn latest_leaf_index_advances_on_contiguous_messages() {
    let mut db = NomadDB::new("home_1");
    assert_eq!(db.retrieve_latest_leaf_index(), None);
    for (nonce, idx) in [(1u32, 100u32), (2, 101), (3, 102)] {
        db.store_latest_message(&message(nonce, idx)).unwrap();
        assert_eq!(db.retrieve_latest_leaf_index(), Some(idx));
    }
}

#[test]
fn latest_leaf_index_stays_on_gap() {
    let mut db = NomadDB::new("home_1");
    db.store_latest_message(&message(1, 100)).unwrap();
    let skipped = message(3, 102);
    db.store_latest_message(&skipped).unwrap();
    assert_eq!(db.retrieve_latest_leaf_index(), Some(100));
    assert_eq!(db.message_by_leaf_index(102), Some(skipped));
}

#[test]
fn latest_update_chain_advances_and_keeps_forks() {
    let mut db = NomadDB::new("home_1");
    let first = update(0, 1);
    db.store_latest_update(&first);
    assert_eq!(db.retrieve_latest_root(), Some(H256::from_low_u64_be(1)));
    let fork = update(2, 3);
    db.store_latest_update(&fork);
    assert_eq!(db.retrieve_latest_root(), Some(H256::from_low_u64_be(1)));
    assert_eq!(db.update_by_previous_root(H256::from_low_u64_be(2)), Some(fork));
    assert_eq!(db.update_by_new_root(H256::from_low_u64_be(3)), Some(fork));
    let next = update(1, 4);
    db.store_latest_update(&next);
    assert_eq!(db.retrieve_latest_root(), Some(H256::from_low_u64_be(4)));
    assert_eq!(db.update_by_new_root(H256::from_low_u64_be(9)), None);
}

#[test]
fn emptiness_check() {
    let db = NomadDB::new("home_1");
    assert!(db.is_empty());

    let mut with_message = NomadDB::new("home_1");
    with_message.store_latest_message(&message(1, 0)).unwrap();
    assert!(!with_message.is_empty());

    let mut with_update = NomadDB::new("home_1");
    with_update.store_latest_update(&update(0, 1));
    assert!(!with_update.is_empty());
}

#[test]
fn waiter_is_handed_the_leaf_once_stored() {
    let mut db = NomadDB::new("home_1");
    assert!(matches!(db.wait_for_leaf(5), LeafPoll::Wait));
    let m = message(1, 5);
    db.store_latest_message(&m).unwrap();
    match db.wait_for_leaf(5) {
        LeafPoll::Ready(leaf) => assert_eq!(leaf, m.leaf()),
        LeafPoll::Wait => panic!("leaf 5 is stored"),
    }
    assert_eq!(LEAF_POLL_INTERVAL_MS, 100);
}

#[test]
fn storing_same_message_twice_changes_nothing() {
    let mut db = NomadDB::new("home_1");
    let m = message(1, 7);
    db.store_latest_message(&m).unwrap();
    db.store_latest_message(&m).unwrap();
    assert_eq!(db.retrieve_latest_leaf_index(), Some(7));
    assert_eq!(db.message_by_leaf_index(7), Some(m));
}

#[test]
fn store_messages_stops_at_first_undecodable() {
    let mut db = NomadDB::new("home_1");
    let bad = RawCommittedMessage { leaf_index: 1, committed_root: H256::zero(), message: vec![0; 3] };
    let batch = vec![message(1, 0), bad, message(3, 2)];
    assert_eq!(db.store_messages(&batch), Err(DbError::MessageDecode));
    assert_eq!(db.retrieve_latest_leaf_index(), Some(1));
    assert_eq!(db.message_by_leaf_index(0), Some(message(1, 0)));
    assert_eq!(db.message_by_leaf_index(2), None);

    let mut ok = NomadDB::new("home_1");
    ok.store_messages(&[message(1, 0), message(2, 1)]).unwrap();
    assert_eq!(ok.retrieve_latest_leaf_index(), Some(1));
}

#[test]
fn updates_with_metadata_are_stored() {
    let mut db = NomadDB::new("home_1");
    let meta = UpdateMeta { block_number: 42, timestamp: Some(1_700_000_000) };
    let batch = [
        SignedUpdateWithMeta { signed_update: update(0, 1), metadata: meta },
        SignedUpdateWithMeta { signed_update: update(1, 2), metadata: UpdateMeta { block_number: 43, timestamp: None } },
    ];
    db.store_updates_and_meta(&batch);
    assert_eq!(db.retrieve_latest_root(), Some(H256::from_low_u64_be(2)));
    assert_eq!(db.retrieve_update_metadata(H256::from_low_u64_be(1)), Some(meta));
    assert_eq!(db.retrieve_update_metadata(H256::from_low_u64_be(2)).unwrap().block_number, 43);
    assert_eq!(db.retrieve_update_metadata(H256::from_low_u64_be(0)), None);
}

#[test]
fn leaves_come_in_index_order() {
    let mut db = NomadDB::new("home_1");
    let ms = [message(1, 5), message(2, 1), message(3, 3)];
    for m in ms.iter() {
        db.store_raw_committed_message(m).unwrap();
    }
    let leaves = db.leaf_iterator();
    assert_eq!(leaves, vec![ms[1].leaf(), ms[2].leaf(), ms[0].leaf()]);
    assert_eq!(db.leaf_by_nonce(12, 2), Some(ms[1].leaf()));
}

#[test]
fn produced_update_is_replaced_and_prover_root_kept() {
    let mut db = NomadDB::new("home_1");
    let root = H256::from_low_u64_be(8);
    db.store_produced_update(root, &update(8, 9));
    db.store_produced_update(root, &update(8, 10));
    assert_eq!(db.retrieve_produced_update(root), Some(update(8, 10)));
    assert_eq!(db.retrieve_produced_update(H256::zero()), None);
    assert_eq!(db.retrieve_prover_latest_committed(), None);
    db.store_prover_latest_committed(root);
    assert_eq!(db.retrieve_prover_latest_committed(), Some(root));
    assert_eq!(db.entity(), "home_1");
}
