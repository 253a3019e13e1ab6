//! The ABI fragments against known values, and the digest wrapper against the
//! chain client's own keccak.

use timeboost_contract::abi::{
    decode_initialize_manager, decode_word_u64, encode_word_address, encode_word_u64,
    initialize_calldata, initialize_selector, proxy_constructor_args,
};
use timeboost_contract::events::committee_created_topic;
use timeboost_contract::provider::PubSubProviderConfig;
use timeboost_contract::types::Address;

fn word_address(fill: u8) -> Address {
    Address { bytes: vec![fill; 20] }
}

#[test]
fn initialize_selector_is_the_known_constant() {
    // the first 4 bytes of keccak256("initialize(address)")
    assert_eq!(initialize_selector(), vec![0xc4, 0xd6, 0x6d, 0xe8]);
}

#[test]
fn committee_created_topic_matches_keccak() {
    let expected = alloy::primitives::keccak256(b"CommitteeCreated(uint64)").to_vec();
    assert_eq!(committee_created_topic(), expected);
}

#[test]
fn initialize_calldata_layout() {
    let manager = word_address(0x77);
    let data = initialize_calldata(&manager);
    let mut expected = vec![0xc4, 0xd6, 0x6d, 0xe8];
    expected.extend(std::iter::repeat(0u8).take(12));
    expected.extend(std::iter::repeat(0x77u8).take(20));
    assert_eq!(data, expected);

    let decoded = decode_initialize_manager(&data).unwrap();
    assert_eq!(decoded, manager);
}

#[test]
fn initialize_calldata_of_wrong_shape_is_rejected() {
    assert!(decode_initialize_manager(&vec![0u8; 35]).is_none());
    let mut dirty = initialize_calldata(&word_address(0x01));
    dirty[5] = 1;
    assert!(decode_initialize_manager(&dirty).is_none());
}

#[test]
fn proxy_constructor_args_layout() {
    let implementation = word_address(0x21);
    let init = initialize_calldata(&word_address(0x42));
    let args = proxy_constructor_args(&implementation, &init);
    let mut expected = vec![0u8; 12];
    expected.extend(std::iter::repeat(0x21u8).take(20));
    // the offset of the dynamic part: one word past the two-word head
    expected.extend(vec![0u8; 31]);
    expected.push(64);
    // the initializer's length, then its bytes, padded to a word boundary
    expected.extend(vec![0u8; 31]);
    expected.push(36);
    expected.extend(init.iter().copied());
    expected.extend(vec![0u8; 28]);
    assert_eq!(args, expected);
    assert_eq!(args.len() % 32, 0);
}

#[test]
fn word_encoding_of_u64() {
    let word = encode_word_u64(0x0123_4567_89ab_cdef);
    let mut expected = vec![0u8; 24];
    expected.extend([0x01, 0x23, 0x45, 0x67, 0x89, 0xab, 0xcd, 0xef]);
    assert_eq!(word, expected);
    assert_eq!(decode_word_u64(&word), Some(0x0123_4567_89ab_cdef));
}

#[test]
fn word_decoding_rejects_bad_words() {
    assert_eq!(decode_word_u64(&vec![0u8; 31]), None);
    let mut dirty = encode_word_u64(5);
    dirty[3] = 1;
    assert_eq!(decode_word_u64(&dirty), None);
}

#[test]
fn address_word_is_zero_padded() {
    let word = encode_word_address(&word_address(0x09));
    let mut expected = vec![0u8; 12];
    expected.extend(std::iter::repeat(0x09u8).take(20));
    assert_eq!(word, expected);
}

#[test]
fn address_length_is_checked() {
    assert!(Address::from_bytes(vec![1u8; 19]).is_none());
    assert!(Address::from_bytes(vec![1u8; 21]).is_none());
    let a = Address::from_bytes(vec![1u8; 20]).unwrap();
    assert_eq!(a.bytes, vec![1u8; 20]);
}

#[test]
fn pubsub_config_defaults() {
    let cfg = PubSubProviderConfig::new(String::from("ws://localhost:8546"));
    assert_eq!(cfg.url, "ws://localhost:8546");
    assert_eq!(cfg.max_retries, 12);
    assert_eq!(cfg.retry_interval_secs, 5);
}
