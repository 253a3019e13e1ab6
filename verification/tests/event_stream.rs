//! Event subscription and decoding against the model chain, and the
//! drop-invalid-entries behaviour on hand-made raw entries.

use timeboost_contract::abi::encode_word_u64;
use timeboost_contract::error::ContractError;
use timeboost_contract::events::{
    committee_created_filter, committee_created_topic, decode_committee_created,
    decode_committee_created_batch, BlockRef, RawLog,
};
use timeboost_contract::sim::{deploy_key_manager, SimChain};
use timeboost_contract::types::{Address, CommitteeMember};

fn stream_address(fill: u8) -> Address {
    Address { bytes: vec![fill; 20] }
}

fn stream_member(seed: u8) -> CommitteeMember {
    CommitteeMember {
        sig_key: vec![seed; 48],
        dh_key: vec![seed; 32],
        dkg_key: vec![seed; 33],
        network_address: format!("10.0.0.{seed}:8000"),
        batch_poster_address: format!("10.0.0.{seed}:8001"),
        sig_key_address: stream_address(seed),
    }
}

fn stream_members(n: u8) -> Vec<CommitteeMember> {
    (0..n).map(stream_member).collect()
}

fn valid_log(addr: &Address, id: u64, block: u64) -> RawLog {
    RawLog {
        address: addr.clone(),
        topics: vec![committee_created_topic()],
        data: encode_word_u64(id),
        block_number: block,
    }
}

#[test]
fn test_event_stream() {
    let mut chain = SimChain::new();
    let manager = stream_address(0x11);
    let km_addr = deploy_key_manager(&mut chain, &manager).unwrap();

    // subscribe from "latest": remember where the log stream stands now
    let start = chain.log_count();

    // register some committees on the contract, which emit events
    let c0_timestamp: u64 = 424242;
    for i in 0..5u64 {
        let ms = stream_members(5);
        let timestamp = c0_timestamp + 1000 * i;
        let receipt = chain.set_next_committee(0, timestamp, ms);
        assert!(receipt.status);
    }

    // read the corresponding events, in submission order
    let events = chain.events_since(start, &km_addr);
    assert_eq!(events.len(), 5);
    for (i, ev) in events.iter().enumerate() {
        assert_eq!(ev.id, i as u64);
    }
}

#[test]
fn subscription_is_scoped_to_one_contract() {
    let mut chain = SimChain::new();
    let manager = stream_address(0x12);
    let first = deploy_key_manager(&mut chain, &manager).unwrap();
    let second = deploy_key_manager(&mut chain, &manager).unwrap();
    let start = chain.log_count();
    chain.set_next_committee(0, 10, stream_members(1));
    chain.set_next_committee(1, 20, stream_members(1));
    chain.set_next_committee(0, 30, stream_members(1));
    let first_events = chain.events_since(start, &first);
    let second_events = chain.events_since(start, &second);
    assert_eq!(first_events.len(), 2);
    assert_eq!(first_events[0].id, 0);
    assert_eq!(first_events[1].id, 1);
    assert_eq!(second_events.len(), 1);
    assert_eq!(second_events[0].id, 0);
}

#[test]
fn invalid_entry_is_dropped_without_terminating_the_stream() {
    let addr = stream_address(0x13);
    let mut wrong_topic = valid_log(&addr, 1, 4);
    wrong_topic.topics[0][0] ^= 0xff;
    let mut short_data = valid_log(&addr, 2, 5);
    short_data.data.truncate(8);
    let mut dirty_padding = valid_log(&addr, 3, 6);
    dirty_padding.data[0] = 1;
    let logs = vec![
        valid_log(&addr, 0, 3),
        wrong_topic,
        short_data,
        dirty_padding,
        valid_log(&addr, 4, 7),
    ];
    let events = decode_committee_created_batch(&logs);
    assert_eq!(events.len(), 2);
    assert_eq!(events[0].id, 0);
    assert_eq!(events[1].id, 4);
}

#[test]
fn decode_validates_the_schema() {
    let addr = stream_address(0x14);
    let ok = decode_committee_created(&valid_log(&addr, 9, 1)).unwrap();
    assert_eq!(ok.id, 9);

    let mut extra_topic = valid_log(&addr, 9, 1);
    extra_topic.topics.push(committee_created_topic());
    assert_eq!(
        decode_committee_created(&extra_topic),
        Err(ContractError::DecodeValidationFailed)
    );
}

#[test]
fn filter_is_scoped_to_address_topic_and_block() {
    let addr = stream_address(0x15);
    let filter = committee_created_filter(addr.clone(), BlockRef::Latest);
    assert_eq!(filter.address, addr);
    assert_eq!(filter.topic, committee_created_topic());
    assert_eq!(filter.from_block, BlockRef::Latest);
    let numbered = committee_created_filter(addr, BlockRef::Number(17));
    assert_eq!(numbered.from_block, BlockRef::Number(17));
}
