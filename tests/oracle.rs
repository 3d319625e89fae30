use kailua_validator::bytes::B256;
use kailua_validator::cache::CachingOracle;
use kailua_validator::host::{
    bytes_from_words, check_hint_ack, frame_hint, words_for_bytes, RISCZeroOracle,
    RISCZeroPOSIXOracle,
};
use kailua_validator::preimage::{validate_preimage, OracleError, PreimageKey, PreimageKeyType};
use risc0_zkvm::sha::Sha256;

fn keccak_key(value: &[u8]) -> PreimageKey {
    let digest = alloy_primitives::keccak256(value).0;
    PreimageKey::new(&B256 { bytes: digest }, PreimageKeyType::Keccak256)
}

fn sha_key(value: &[u8]) -> PreimageKey {
    let digest = risc0_zkvm::sha::Impl::hash_bytes(value);
    let mut bytes = [0u8; 32];
    bytes.copy_from_slice(digest.as_bytes());
    PreimageKey::new(&B256 { bytes }, PreimageKeyType::Sha256)
}

#[test]
fn key_renders_type_then_content() {
    let mut raw = [0u8; 32];
    for (i, b) in raw.iter_mut().enumerate() {
        *b = i as u8 + 100;
    }
    let key = PreimageKey::new(&B256 { bytes: raw }, PreimageKeyType::Keccak256);
    let rendered = key.to_bytes();
    assert_eq!(rendered.bytes[0], 2);
    assert_eq!(&rendered.bytes[1..], &raw[1..]);
    let back = PreimageKey::from_bytes(&rendered).unwrap();
    assert_eq!(back.to_bytes(), rendered);
    assert_eq!(back.key_type(), PreimageKeyType::Keccak256);
}

#[test]
fn key_with_unknown_type_is_refused() {
    let mut raw = [0u8; 32];
    raw[0] = 9;
    assert_eq!(PreimageKey::from_bytes(&B256 { bytes: raw }).err(), Some(OracleError::InvalidKeyType));
    raw[0] = 0;
    assert_eq!(PreimageKey::from_bytes(&B256 { bytes: raw }).err(), Some(OracleError::InvalidKeyType));
}

#[test]
fn keccak_of_empty_value_matches_key() {
    let digest: [u8; 32] = [
        0xc5, 0xd2, 0x46, 0x01, 0x86, 0xf7, 0x23, 0x3c, 0x92, 0x7e, 0x7d, 0xb2, 0xdc, 0xc7, 0x03,
        0xc0, 0xe5, 0x00, 0xb6, 0x53, 0xca, 0x82, 0x27, 0x3b, 0x7b, 0xfa, 0xd8, 0x04, 0x5d, 0x85,
        0xa4, 0x70,
    ];
    let key = PreimageKey::new(&B256 { bytes: digest }, PreimageKeyType::Keccak256);
    assert_eq!(validate_preimage(&key, &[]), Ok(()));
    assert_eq!(validate_preimage(&key, &[0]), Err(OracleError::InvalidPreimage));
}

#[test]
fn sha256_of_abc_matches_key() {
    let digest: [u8; 32] = [
        0xba, 0x78, 0x16, 0xbf, 0x8f, 0x01, 0xcf, 0xea, 0x41, 0x41, 0x40, 0xde, 0x5d, 0xae, 0x22,
        0x23, 0xb0, 0x03, 0x61, 0xa3, 0x96, 0x17, 0x7a, 0x9c, 0xb4, 0x10, 0xff, 0x61, 0xf2, 0x00,
        0x15, 0xad,
    ];
    let key = PreimageKey::new(&B256 { bytes: digest }, PreimageKeyType::Sha256);
    assert_eq!(validate_preimage(&key, b"abc"), Ok(()));
    assert_eq!(validate_preimage(&key, b"abd"), Err(OracleError::InvalidPreimage));
    assert_eq!(validate_preimage(&sha_key(b"hello"), b"hello"), Ok(()));
}

#[test]
fn keccak_key_binds_content() {
    let key = keccak_key(b"preimage");
    assert_eq!(validate_preimage(&key, b"preimage"), Ok(()));
    assert_eq!(validate_preimage(&key, b"tampered"), Err(OracleError::InvalidPreimage));
}

#[test]
fn blob_and_local_keys_accept_any_value() {
    let blob = PreimageKey::new(&B256 { bytes: [5; 32] }, PreimageKeyType::Blob);
    assert_eq!(validate_preimage(&blob, b"anything"), Ok(()));
    let local = PreimageKey::new(&B256 { bytes: [1; 32] }, PreimageKeyType::Local);
    assert_eq!(validate_preimage(&local, b"anything"), Ok(()));
}

#[test]
fn cache_refuses_tampered_value_and_keeps_correct_one() {
    let mut oracle = CachingOracle::new(1024);
    let key = keccak_key(b"correct");
    assert_eq!(oracle.accept(&key, b"tampered".to_vec()), Err(OracleError::InvalidPreimage));
    assert_eq!(oracle.get_cached(&key), None);
    assert_eq!(oracle.accept(&key, b"correct".to_vec()), Ok(b"correct".to_vec()));
    assert_eq!(oracle.get_cached(&key), Some(b"correct".to_vec()));
    assert_eq!(oracle.accept(&key, b"tampered".to_vec()), Err(OracleError::InvalidPreimage));
    assert_eq!(oracle.get_cached(&key), Some(b"correct".to_vec()));
}

#[test]
fn cache_evicts_least_recently_used() {
    let mut oracle = CachingOracle::new(2);
    let (a, b, c) = (keccak_key(b"a"), keccak_key(b"b"), keccak_key(b"c"));
    oracle.accept(&a, b"a".to_vec()).unwrap();
    oracle.accept(&b, b"b".to_vec()).unwrap();
    assert!(oracle.get_cached(&a).is_some());
    oracle.accept(&c, b"c".to_vec()).unwrap();
    assert_eq!(oracle.get_cached(&b), None);
    assert_eq!(oracle.get_cached(&a), Some(b"a".to_vec()));
    assert_eq!(oracle.get_cached(&c), Some(b"c".to_vec()));
}

#[test]
fn exact_reads_check_length() {
    let mut oracle = CachingOracle::new(4);
    let key = keccak_key(b"four");
    assert_eq!(oracle.get_exact_cached(&key, 4), Ok(None));
    assert_eq!(oracle.accept_exact(&key, b"four".to_vec(), 5), Err(OracleError::LengthMismatch));
    assert_eq!(oracle.accept_exact(&key, b"four".to_vec(), 4), Ok(b"four".to_vec()));
    assert_eq!(oracle.get_exact_cached(&key, 4), Ok(Some(b"four".to_vec())));
    assert_eq!(oracle.get_exact_cached(&key, 3), Err(OracleError::LengthMismatch));
}

#[test]
fn words_hold_rounded_up_bytes() {
    assert_eq!(words_for_bytes(0), 0);
    assert_eq!(words_for_bytes(1), 1);
    assert_eq!(words_for_bytes(4), 1);
    assert_eq!(words_for_bytes(5), 2);
    assert_eq!(words_for_bytes(u32::MAX), 1 << 30);
}

#[test]
fn response_bytes_are_little_endian_and_truncated() {
    let words = vec![0x04030201u32, 0x08070605];
    assert_eq!(bytes_from_words(&words, 6), vec![1, 2, 3, 4, 5, 6]);
    assert_eq!(bytes_from_words(&words, 8), vec![1, 2, 3, 4, 5, 6, 7, 8]);
    assert_eq!(bytes_from_words(&words, 20), vec![1, 2, 3, 4, 5, 6, 7, 8]);
    assert_eq!(bytes_from_words(&words, 0), Vec::<u8>::new());
}

#[test]
fn syscall_oracle_validates_response() {
    let key = keccak_key(&[1, 2, 3, 4, 5]);
    let words = vec![0x04030201u32, 0x00000005];
    assert_eq!(RISCZeroOracle.receive_preimage(&key, &words, 5), Ok(vec![1, 2, 3, 4, 5]));
    assert_eq!(RISCZeroOracle.receive_preimage(&key, &words, 4), Err(OracleError::InvalidPreimage));
    assert_eq!(RISCZeroOracle.receive_exact(&key, &words, 5, 5), Ok(vec![1, 2, 3, 4, 5]));
    assert_eq!(RISCZeroOracle.receive_exact(&key, &words, 5, 6), Err(OracleError::LengthMismatch));
}

#[test]
fn posix_oracle_validates_response() {
    let key = keccak_key(b"xyz");
    assert_eq!(RISCZeroPOSIXOracle.receive_preimage(&key, b"xyz".to_vec()), Ok(b"xyz".to_vec()));
    assert_eq!(
        RISCZeroPOSIXOracle.receive_preimage(&key, b"xy".to_vec()),
        Err(OracleError::InvalidPreimage)
    );
}

#[test]
fn hint_is_length_prefixed() {
    assert_eq!(frame_hint("l1-block 0x01"), Ok([&[0, 0, 0, 13][..], b"l1-block 0x01"].concat()));
    assert_eq!(frame_hint(""), Ok(vec![0, 0, 0, 0]));
}

#[test]
fn hint_needs_acknowledgement() {
    assert_eq!(check_hint_ack(&vec![1]), Ok(()));
    assert_eq!(check_hint_ack(&vec![]), Err(OracleError::MissingHintAck));
}

#[test]
fn cache_never_exceeds_capacity() {
    let mut oracle = CachingOracle::new(1);
    let (a, b) = (keccak_key(b"a"), keccak_key(b"b"));
    oracle.accept(&a, b"a".to_vec()).unwrap();
    oracle.accept(&b, b"b".to_vec()).unwrap();
    assert_eq!(oracle.get_cached(&a), None);
    assert_eq!(oracle.get_cached(&b), Some(b"b".to_vec()));
    oracle.accept(&b, b"b".to_vec()).unwrap();
    assert_eq!(oracle.get_cached(&b), Some(b"b".to_vec()));
}
