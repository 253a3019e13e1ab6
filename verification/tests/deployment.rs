//! Deployment sequencing against the model chain.

use timeboost_contract::deployer::{
    complete_deployment, DeployFlow, DeployPhase, Receipt, TxOutcome,
};
use timeboost_contract::error::ContractError;
use timeboost_contract::sim::{deploy_key_manager, SimChain};
use timeboost_contract::types::{Address, Committee, CommitteeMember};

fn test_address(fill: u8) -> Address {
    Address { bytes: vec![fill; 20] }
}

fn member(seed: u8) -> CommitteeMember {
    CommitteeMember::new(
        vec![seed; 32],
        vec![seed.wrapping_add(1); 32],
        vec![seed.wrapping_add(2); 32],
        format!("127.0.0.1:{}", 9000 + seed as u16),
        format!("127.0.0.1:{}", 9100 + seed as u16),
        test_address(seed),
    )
}

fn members(n: u8) -> Vec<CommitteeMember> {
    (0..n).map(member).collect()
}

#[test]
fn test_key_manager_deployment() {
    let mut chain = SimChain::new();
    let manager = test_address(0xab);
    let km_addr = deploy_key_manager(&mut chain, &manager).unwrap();
    assert_eq!(km_addr.bytes.len(), 20);

    // read from the contract storage
    assert_eq!(chain.manager(0), &manager);

    // write to the contract storage
    let ms = members(5);
    let timestamp: u64 = 0x1122_3344_5566_7788;
    let receipt = chain.set_next_committee(0, timestamp, ms.clone());
    assert!(receipt.status);

    // the next committee is correctly registered; deployment takes the first
    // 2 blocks, so the registration lands in block 3
    let got: &Committee = chain.get_committee_by_id(0, 0).unwrap();
    assert_eq!(got.id, 0);
    assert_eq!(got.registered_block_number, 3);
    assert_eq!(got.effective_timestamp, timestamp);
    assert_eq!(got.members, ms);
}

#[test]
fn deploy_twice_gives_distinct_addresses() {
    let mut chain = SimChain::new();
    let manager = test_address(0x01);
    let first = deploy_key_manager(&mut chain, &manager).unwrap();
    let second = deploy_key_manager(&mut chain, &manager).unwrap();
    assert_ne!(first.bytes, second.bytes);
    assert_eq!(chain.manager(0), &manager);
    assert_eq!(chain.manager(1), &manager);
}

#[test]
fn committee_ids_are_dense_in_submission_order() {
    let mut chain = SimChain::new();
    let manager = test_address(0x02);
    deploy_key_manager(&mut chain, &manager).unwrap();
    let lists = [members(0), members(2), members(3)];
    for (i, ms) in lists.iter().enumerate() {
        chain.set_next_committee(0, 1000 * i as u64, ms.clone());
    }
    for (i, ms) in lists.iter().enumerate() {
        let got = chain.get_committee_by_id(0, i as u64).unwrap();
        assert_eq!(got.id, i as u64);
        assert_eq!(got.effective_timestamp, 1000 * i as u64);
        assert_eq!(&got.members, ms);
    }
    assert!(chain.get_committee_by_id(0, 3).is_none());
}

#[test]
fn deployment_fails_with_no_contract_address() {
    let mut flow = DeployFlow::new(test_address(0x03));
    let reverted = Receipt {
        status: false,
        gas_used: 21000,
        block_number: 1,
        contract_address: None,
    };
    flow.advance(TxOutcome::Mined(reverted));
    match flow.result() {
        Some(Err(e)) => assert_eq!(e, ContractError::NoContractAddress),
        other => panic!("expected NoContractAddress, got {:?}", other),
    }
}

#[test]
fn single_deployment_outcomes() {
    let created = Receipt {
        status: true,
        gas_used: 100,
        block_number: 7,
        contract_address: Some(test_address(0x44)),
    };
    assert_eq!(
        complete_deployment(TxOutcome::Mined(created)).unwrap(),
        test_address(0x44)
    );
    let reverted = Receipt {
        status: false,
        gas_used: 100,
        block_number: 7,
        contract_address: None,
    };
    assert_eq!(
        complete_deployment(TxOutcome::Mined(reverted)),
        Err(ContractError::NoContractAddress)
    );
    assert_eq!(
        complete_deployment(TxOutcome::SubmissionFailed),
        Err(ContractError::SubmissionFailed)
    );
    assert_eq!(
        complete_deployment(TxOutcome::NotMined),
        Err(ContractError::NotMined)
    );
}

#[test]
fn random_member_is_well_formed() {
    let m = CommitteeMember::random();
    assert_eq!(m.sig_key.len(), 32);
    assert_eq!(m.dh_key.len(), 32);
    assert_eq!(m.dkg_key.len(), 32);
    assert!(m.network_address.starts_with("127.0.0.1:"));
    let port = m.network_address["127.0.0.1:".len()..].parse::<u16>();
    assert!(port.is_ok());
    let poster_port = m.batch_poster_address["127.0.0.1:".len()..].parse::<u16>();
    assert!(poster_port.is_ok());
    assert_eq!(m.sig_key_address.bytes, vec![0u8; 20]);
}

#[test]
fn flow_requests_implementation_then_proxy() {
    let manager = test_address(0x05);
    let mut flow = DeployFlow::new(manager);
    assert!(matches!(flow.phase, DeployPhase::Implementation));
    let impl_addr = test_address(0x06);
    let mined = Receipt {
        status: true,
        gas_used: 1,
        block_number: 1,
        contract_address: Some(impl_addr.clone()),
    };
    flow.advance(TxOutcome::Mined(mined));
    match &flow.phase {
        DeployPhase::Proxy { implementation } => assert_eq!(implementation, &impl_addr),
        other => panic!("expected proxy phase, got {:?}", other),
    }
    let proxy_addr = test_address(0x07);
    let mined = Receipt {
        status: true,
        gas_used: 1,
        block_number: 2,
        contract_address: Some(proxy_addr.clone()),
    };
    flow.advance(TxOutcome::Mined(mined));
    assert_eq!(flow.result(), Some(Ok(proxy_addr)));
}
