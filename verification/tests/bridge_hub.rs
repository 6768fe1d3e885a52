use parity_scale_codec::Encode;
use quantum_bridge::bridge_core::community::{register_supply_chain_entry, CommunityProposal, SupplyChainStage};
use quantum_bridge::bridge_core::encoding::encode_bridge_message;
use quantum_bridge::bridge_core::utils::quantum_secure_hash;
use quantum_bridge::bridge_core::{
    BlockchainPlatform, BridgeAccountId, BridgeConfig, BridgeFeeModel, BridgeMessage, BridgeMessageType, EntropyProtocol,
    SecurityConfig,
};
use quantum_bridge::bridge_hub::{
    account_id, calculate_fee, BridgeHub, DecodedPayload, Error, Event, QuantumKeyPair, ThreeNestedSecurityLevel,
};
use quantum_bridge::quantum_channel::QuantumProtocol;
use quantum_bridge::runtime::{DispatchError, Origin};

fn pair(n: u8) -> QuantumKeyPair {
    QuantumKeyPair { public_key: vec![n; 4], secret_key: vec![n; 8] }
}

fn module(e: Error) -> Result<(), DispatchError<Error>> {
    Err(DispatchError::Module(e))
}

fn hub_with_tezos(max_keys: u32) -> BridgeHub {
    let mut hub = BridgeHub::new(2, 1024, max_keys);
    let r = hub.register_bridge(
        Origin::Root,
        BlockchainPlatform::Tezos,
        b"https://tezos.example".to_vec(),
        None,
        2048,
        6,
        true,
        EntropyProtocol::ThriceNested,
        pair(1),
    );
    assert_eq!(r, Ok(()));
    hub
}

fn config(fee_model: BridgeFeeModel) -> BridgeConfig {
    BridgeConfig {
        platform: BlockchainPlatform::Tezos,
        endpoint: None,
        contract_address: None,
        max_message_size: 100,
        required_confirmations: 1,
        active: true,
        fee_model,
        security_config: SecurityConfig {
            use_quantum_security: true,
            required_validators: 3,
            entropy_protocol: EntropyProtocol::ThriceNestedStereo,
            challenge_timeout: 100,
        },
    }
}

#[test]
fn register_bridge_caps_size_and_generates_first_key() {
    let hub = hub_with_tezos(4);
    let config = hub.bridge(BlockchainPlatform::Tezos).unwrap();
    assert_eq!(config.max_message_size, 1024);
    assert_eq!(config.fee_model, BridgeFeeModel::Fixed(1_000_000));
    assert!(config.active);
    assert_eq!(config.security_config.required_validators, 3);
    assert_eq!(config.security_config.challenge_timeout, 100);
    assert_eq!(hub.key_count(BlockchainPlatform::Tezos), 1);
    assert_eq!(hub.next_key_index(BlockchainPlatform::Tezos), 1);
    let events = hub.event_log();
    assert_eq!(events.len(), 2);
    assert_eq!(
        events[0],
        Event::QuantumKeyGenerated {
            platform: BlockchainPlatform::Tezos,
            key_index: 0,
            protocol: QuantumProtocol::ThriceNestedStereo
        }
    );
    assert!(matches!(events[1], Event::BridgeRegistered { platform: BlockchainPlatform::Tezos, .. }));
}

#[test]
fn register_bridge_errors() {
    let mut hub = hub_with_tezos(4);
    let r = hub.register_bridge(Origin::Signed([1; 32]), BlockchainPlatform::Solana, vec![], None, 1, 1, false,
        EntropyProtocol::Standard, pair(2));
    assert_eq!(r, Err(DispatchError::BadOrigin));
    let r = hub.register_bridge(Origin::Root, BlockchainPlatform::Tezos, vec![], None, 1, 1, false,
        EntropyProtocol::Standard, pair(2));
    assert_eq!(r, module(Error::BridgeAlreadyExists));
    let r = hub.register_bridge(Origin::Root, BlockchainPlatform::Solana, vec![], None, 1, 1, false,
        EntropyProtocol::Standard, pair(2));
    assert_eq!(r, Ok(()));
    let events_before = hub.event_log().len();
    let r = hub.register_bridge(Origin::Root, BlockchainPlatform::Algorand, vec![], None, 1, 1, false,
        EntropyProtocol::Standard, pair(3));
    assert_eq!(r, module(Error::MaxBridgesReached));
    assert_eq!(hub.bridge_count(), 2);
    assert_eq!(hub.event_log().len(), events_before);
}

#[test]
fn keys_rotate_modulo_the_channel_limit() {
    let mut hub = hub_with_tezos(2);
    let r = hub.generate_quantum_key(Origin::Root, BlockchainPlatform::Tezos, QuantumProtocol::BB84,
        ThreeNestedSecurityLevel::High, pair(2));
    assert_eq!(r, Ok(()));
    assert_eq!(hub.key_count(BlockchainPlatform::Tezos), 2);
    assert_eq!(hub.next_key_index(BlockchainPlatform::Tezos), 0);
    let r = hub.generate_quantum_key(Origin::Root, BlockchainPlatform::Tezos, QuantumProtocol::BB84,
        ThreeNestedSecurityLevel::High, pair(3));
    assert_eq!(r, module(Error::TooManyKeys));
    let r = hub.generate_quantum_key(Origin::Root, BlockchainPlatform::Cardano, QuantumProtocol::BB84,
        ThreeNestedSecurityLevel::High, pair(3));
    assert_eq!(r, module(Error::BridgeDoesNotExist));
}

#[test]
fn send_message_needs_a_key_at_the_next_index() {
    let mut hub = hub_with_tezos(4);
    let alice = [7u8; 32];
    let r = hub.send_message(Origin::Signed(alice), BlockchainPlatform::Tezos, BridgeAccountId::Tezos(b"tz1x".to_vec()),
        BridgeMessageType::AssetTransfer, vec![1, 2, 3], true, 1_000);
    assert_eq!(r, module(Error::NoQuantumKeysAvailable));
    assert_eq!(hub.fees_reserved(BlockchainPlatform::Tezos), 0);
}

#[test]
fn send_and_confirm_message() {
    let mut hub = hub_with_tezos(2);
    hub.generate_quantum_key(Origin::Root, BlockchainPlatform::Tezos, QuantumProtocol::BB84,
        ThreeNestedSecurityLevel::High, pair(2)).unwrap();
    let alice = [7u8; 32];
    let payload = vec![1u8, 2, 3];
    let r = hub.send_message(Origin::Signed(alice), BlockchainPlatform::Tezos,
        BridgeAccountId::Tezos(b"tz1x".to_vec()), BridgeMessageType::AssetTransfer, payload.clone(), true, 1_000);
    assert_eq!(r, Ok(()));
    assert_eq!(hub.fees_reserved(BlockchainPlatform::Tezos), 1_000_000);
    assert_eq!(hub.next_key_index(BlockchainPlatform::Tezos), 1);
    let hash = match hub.event_log().last().unwrap() {
        Event::MessageSent { platform, message_hash, message_type, sender } => {
            assert_eq!(*platform, BlockchainPlatform::Tezos);
            assert_eq!(*message_type, BridgeMessageType::AssetTransfer);
            assert_eq!(*sender, alice);
            *message_hash
        },
        other => panic!("unexpected event {:?}", other),
    };
    let filed = BridgeMessage {
        source: BlockchainPlatform::Polkadot,
        target: BlockchainPlatform::Tezos,
        message_type: BridgeMessageType::AssetTransfer,
        sender: BridgeAccountId::Substrate(alice.to_vec()),
        recipient: BridgeAccountId::Tezos(b"tz1x".to_vec()),
        payload: payload.clone(),
        quantum_hash: quantum_secure_hash(&payload),
        timestamp: Some(1_000),
        nonce: 0,
    };
    assert_eq!(hash, sp_crypto_hashing::blake2_256(&encode_bridge_message(&filed)));
    assert!(hub.has_outbound(BlockchainPlatform::Tezos, &hash));

    let r = hub.confirm_message(Origin::Signed(alice), BlockchainPlatform::Tezos, hash, vec![9]);
    assert_eq!(r, Err(DispatchError::BadOrigin));
    let r = hub.confirm_message(Origin::Root, BlockchainPlatform::Tezos, hash, vec![9]);
    assert_eq!(r, Ok(()));
    assert!(!hub.has_outbound(BlockchainPlatform::Tezos, &hash));
    let r = hub.confirm_message(Origin::Root, BlockchainPlatform::Tezos, hash, vec![9]);
    assert_eq!(r, module(Error::MessageDoesNotExist));
}

#[test]
fn send_message_errors() {
    let mut hub = hub_with_tezos(1);
    let alice = [7u8; 32];
    let to = BridgeAccountId::Tezos(b"tz1x".to_vec());
    let r = hub.send_message(Origin::Root, BlockchainPlatform::Tezos, to.clone(), BridgeMessageType::AssetTransfer,
        vec![], true, 0);
    assert_eq!(r, Err(DispatchError::BadOrigin));
    let r = hub.send_message(Origin::Signed(alice), BlockchainPlatform::Near, to.clone(),
        BridgeMessageType::AssetTransfer, vec![], true, 0);
    assert_eq!(r, module(Error::BridgeDoesNotExist));
    let r = hub.send_message(Origin::Signed(alice), BlockchainPlatform::Tezos, to.clone(),
        BridgeMessageType::AssetTransfer, vec![0; 1025], true, 0);
    assert_eq!(r, module(Error::MessageTooLarge));
    let r = hub.send_message(Origin::Signed(alice), BlockchainPlatform::Tezos, to.clone(),
        BridgeMessageType::AssetTransfer, vec![1], false, 0);
    assert_eq!(r, Err(DispatchError::Currency));
    let r = hub.update_bridge(Origin::Root, BlockchainPlatform::Tezos, None, None, None, None, Some(false));
    assert_eq!(r, Ok(()));
    let r = hub.send_message(Origin::Signed(alice), BlockchainPlatform::Tezos, to.clone(),
        BridgeMessageType::AssetTransfer, vec![1], true, 0);
    assert_eq!(r, module(Error::BridgeNotActive));
}

#[test]
fn update_bridge_changes_only_given_fields() {
    let mut hub = hub_with_tezos(4);
    let r = hub.update_bridge(Origin::Root, BlockchainPlatform::Tezos, Some(b"new".to_vec()), None, Some(4096),
        Some(12), None);
    assert_eq!(r, Ok(()));
    let c = hub.bridge(BlockchainPlatform::Tezos).unwrap();
    assert_eq!(c.endpoint, Some(b"new".to_vec()));
    assert_eq!(c.max_message_size, 1024);
    assert_eq!(c.required_confirmations, 12);
    assert!(c.active);
    let r = hub.update_bridge(Origin::Root, BlockchainPlatform::Solana, None, None, None, None, None);
    assert_eq!(r, module(Error::BridgeDoesNotExist));
}

#[test]
fn fee_models() {
    let size = 50;
    assert_eq!(calculate_fee(&config(BridgeFeeModel::Fixed(5)), &BridgeMessageType::AssetTransfer, size), Ok(5));
    assert_eq!(calculate_fee(&config(BridgeFeeModel::Percentage(250)), &BridgeMessageType::AssetTransfer, size), Ok(25_000));
    let tiers = BridgeFeeModel::Tiered(vec![(10, 1), (100, 2), (1000, 3)]);
    assert_eq!(calculate_fee(&config(tiers.clone()), &BridgeMessageType::AssetTransfer, 50), Ok(2));
    assert_eq!(calculate_fee(&config(tiers.clone()), &BridgeMessageType::AssetTransfer, 10), Ok(1));
    assert_eq!(calculate_fee(&config(tiers), &BridgeMessageType::AssetTransfer, 5000), Ok(3));
    assert_eq!(
        calculate_fee(&config(BridgeFeeModel::Tiered(vec![])), &BridgeMessageType::AssetTransfer, 1),
        Err(Error::FeeCalculationError)
    );
    assert_eq!(calculate_fee(&config(BridgeFeeModel::NoFee), &BridgeMessageType::AssetTransfer, size), Ok(0));
}

#[test]
fn pallet_account_id() {
    let mut expected = b"modlbridgexx".to_vec();
    expected.resize(32, 0);
    assert_eq!(account_id().to_vec(), expected);
}

fn inbound(payload: Vec<u8>, message_type: BridgeMessageType, valid_hash: bool) -> BridgeMessage {
    let mut quantum_hash = quantum_secure_hash(&payload);
    if !valid_hash {
        quantum_hash[0] ^= 1;
    }
    BridgeMessage {
        source: BlockchainPlatform::Tezos,
        target: BlockchainPlatform::Polkadot,
        message_type,
        sender: BridgeAccountId::Tezos(b"tz1sender".to_vec()),
        recipient: BridgeAccountId::Substrate(vec![1; 32]),
        payload,
        quantum_hash,
        timestamp: None,
        nonce: 3,
    }
}

#[test]
fn receive_message_checks_the_payload_hash() {
    let mut hub = hub_with_tezos(4);
    let m = inbound(vec![1, 2], BridgeMessageType::DataAttestation, false);
    let r = hub.receive_message(Origin::Root, BlockchainPlatform::Tezos, m, vec![], DecodedPayload::Undecodable);
    assert_eq!(r, module(Error::InvalidSignature));
    let m = inbound(vec![1, 2], BridgeMessageType::DataAttestation, true);
    let r = hub.receive_message(Origin::Signed([1; 32]), BlockchainPlatform::Tezos, m.clone(), vec![],
        DecodedPayload::Undecodable);
    assert_eq!(r, Err(DispatchError::BadOrigin));
    let r = hub.receive_message(Origin::Root, BlockchainPlatform::Ethereum, m.clone(), vec![], DecodedPayload::Undecodable);
    assert_eq!(r, module(Error::BridgeDoesNotExist));
    let r = hub.receive_message(Origin::Root, BlockchainPlatform::Tezos, m.clone(), vec![], DecodedPayload::Undecodable);
    assert_eq!(r, Ok(()));
    let hash = sp_crypto_hashing::blake2_256(&encode_bridge_message(&m));
    assert!(hub.has_inbound(BlockchainPlatform::Tezos, &hash));
    assert_eq!(
        hub.event_log().last().unwrap(),
        &Event::MessageReceived {
            platform: BlockchainPlatform::Tezos,
            message_hash: hash,
            message_type: BridgeMessageType::DataAttestation
        }
    );
}

fn proposal(source_id: &[u8]) -> CommunityProposal {
    CommunityProposal {
        title: b"Seeds".to_vec(),
        description: b"Seed bank".to_vec(),
        funding_amount: 500,
        creator: BridgeAccountId::Tezos(b"tz1creator".to_vec()),
        target_communities: vec![b"village".to_vec()],
        sustainability_metrics: vec![(b"co2".to_vec(), b"low".to_vec())],
        source_chain: BlockchainPlatform::Tezos,
        source_id: source_id.to_vec(),
    }
}

#[test]
fn received_governance_proposal_is_registered_once() {
    let mut hub = hub_with_tezos(4);
    let m = inbound(vec![5], BridgeMessageType::GovernanceProposal, true);
    let r = hub.receive_message(Origin::Root, BlockchainPlatform::Tezos, m, vec![], DecodedPayload::Proposal(proposal(b"p-1")));
    assert_eq!(r, Ok(()));
    assert_eq!(hub.proposal(BlockchainPlatform::Tezos, &b"p-1".to_vec()), Some(&proposal(b"p-1")));
    let n = hub.event_log().len();
    assert!(matches!(hub.event_log()[n - 2], Event::MessageReceived { .. }));
    assert!(matches!(hub.event_log()[n - 1], Event::CommunityProposalRegistered { funding_amount: 500, .. }));

    let m = inbound(vec![6], BridgeMessageType::GovernanceProposal, true);
    let hash = sp_crypto_hashing::blake2_256(&encode_bridge_message(&m));
    let r = hub.receive_message(Origin::Root, BlockchainPlatform::Tezos, m, vec![], DecodedPayload::Proposal(proposal(b"p-1")));
    assert_eq!(r, module(Error::ProposalAlreadyExists));
    assert!(!hub.has_inbound(BlockchainPlatform::Tezos, &hash));
    assert_eq!(hub.event_log().len(), n);
}

#[test]
fn received_supply_chain_update_is_verified() {
    let mut hub = hub_with_tezos(4);
    let mut entry = register_supply_chain_entry(b"apple".to_vec(), b"farm".to_vec(), b"valley".to_vec(), 10,
        vec![b"organic".to_vec()], SupplyChainStage::Distribution).unwrap();
    let m = inbound(vec![8], BridgeMessageType::SupplyChainUpdate, true);
    let r = hub.receive_message(Origin::Root, BlockchainPlatform::Tezos, m, vec![], DecodedPayload::SupplyChain(entry.clone()));
    assert_eq!(r, Ok(()));
    assert_eq!(hub.supply_chain_history(&b"apple".to_vec()).len(), 1);

    let earlier = register_supply_chain_entry(b"apple".to_vec(), b"farm".to_vec(), b"valley".to_vec(), 11,
        vec![], SupplyChainStage::Production).unwrap();
    let m = inbound(vec![9], BridgeMessageType::SupplyChainUpdate, true);
    let r = hub.receive_message(Origin::Root, BlockchainPlatform::Tezos, m, vec![], DecodedPayload::SupplyChain(earlier));
    assert_eq!(r, module(Error::SupplyChainStageRegression));

    entry.verification_hash[0] ^= 0xff;
    let m = inbound(vec![10], BridgeMessageType::SupplyChainUpdate, true);
    let r = hub.receive_message(Origin::Root, BlockchainPlatform::Tezos, m, vec![], DecodedPayload::SupplyChain(entry));
    assert_eq!(r, module(Error::VerificationHashMismatch));
    assert_eq!(hub.supply_chain_history(&b"apple".to_vec()).len(), 1);
}

#[test]
fn direct_community_proposal() {
    let mut hub = hub_with_tezos(4);
    let bob = [2u8; 32];
    let r = hub.register_community_proposal_direct(Origin::Signed(bob), BlockchainPlatform::Tezos, b"Farm".to_vec(),
        b"desc".to_vec(), 10, vec![], vec![], b"id-1".to_vec());
    assert_eq!(r, Ok(()));
    let p = hub.proposal(BlockchainPlatform::Tezos, &b"id-1".to_vec()).unwrap();
    assert_eq!(p.creator, BridgeAccountId::Substrate(bob.encode()));
    assert_eq!(p.source_chain, BlockchainPlatform::Polkadot);
    let r = hub.register_community_proposal_direct(Origin::Signed(bob), BlockchainPlatform::Tezos, b"Farm".to_vec(),
        b"desc".to_vec(), 10, vec![], vec![], b"id-1".to_vec());
    assert_eq!(r, module(Error::ProposalAlreadyExists));
    let r = hub.register_community_proposal_direct(Origin::Signed(bob), BlockchainPlatform::Cosmos, b"Farm".to_vec(),
        b"desc".to_vec(), 10, vec![], vec![], b"id-2".to_vec());
    assert_eq!(r, module(Error::BridgeDoesNotExist));
    let r = hub.register_community_proposal_direct(Origin::Root, BlockchainPlatform::Tezos, b"Farm".to_vec(),
        b"desc".to_vec(), 10, vec![], vec![], b"id-3".to_vec());
    assert_eq!(r, Err(DispatchError::BadOrigin));
}

#[test]
fn supply_chain_stages_never_go_backwards() {
    let mut hub = BridgeHub::new(1, 10, 1);
    let who = Origin::Signed([3; 32]);
    let stages = [
        (SupplyChainStage::Processing, true),
        (SupplyChainStage::Processing, true),
        (SupplyChainStage::Production, false),
        (SupplyChainStage::Retail, true),
        (SupplyChainStage::Distribution, false),
    ];
    for (i, (stage, accepted)) in stages.iter().enumerate() {
        let r = hub.register_supply_chain_entry_direct(who, b"milk".to_vec(), b"dairy".to_vec(), b"hills".to_vec(),
            i as u64, vec![], *stage);
        if *accepted {
            assert_eq!(r, Ok(()));
        } else {
            assert_eq!(r, module(Error::SupplyChainStageRegression));
        }
    }
    let history = hub.supply_chain_history(&b"milk".to_vec());
    assert_eq!(history.len(), 3);
    for w in history.windows(2) {
        assert!((w[0].stage as u8) <= (w[1].stage as u8));
    }
    let expected = register_supply_chain_entry(b"milk".to_vec(), b"dairy".to_vec(), b"hills".to_vec(), 0, vec![],
        SupplyChainStage::Processing).unwrap();
    assert_eq!(history[0].verification_hash, expected.verification_hash);
}

#[test]
fn on_finalize_rotates_keys_every_ten_thousand_blocks() {
    let mut hub = hub_with_tezos(4);
    hub.register_bridge(Origin::Root, BlockchainPlatform::Solana, vec![], None, 10, 1, true,
        EntropyProtocol::Dual, pair(5)).unwrap();
    hub.update_bridge(Origin::Root, BlockchainPlatform::Solana, None, None, None, None, Some(false)).unwrap();
    let events = hub.event_log().len();
    hub.on_finalize(0, vec![pair(8)]);
    hub.on_finalize(9_999, vec![pair(8)]);
    assert_eq!(hub.key_count(BlockchainPlatform::Tezos), 1);
    assert_eq!(hub.event_log().len(), events);
    hub.on_finalize(20_000, vec![pair(8), pair(9)]);
    assert_eq!(hub.key_count(BlockchainPlatform::Tezos), 2);
    assert_eq!(hub.key_count(BlockchainPlatform::Solana), 1);
    assert_eq!(hub.next_key_index(BlockchainPlatform::Tezos), 2);
    assert_eq!(
        hub.event_log().last().unwrap(),
        &Event::QuantumKeyGenerated {
            platform: BlockchainPlatform::Tezos,
            key_index: 1,
            protocol: QuantumProtocol::ThriceNestedStereo
        }
    );
    hub.on_finalize(30_000, vec![]);
    assert_eq!(hub.key_count(BlockchainPlatform::Tezos), 2);
}

#[test]
fn built_supply_chain_entry_is_registered() {
    let mut hub = BridgeHub::new(1, 10, 1);
    let entry = register_supply_chain_entry(b"rice".to_vec(), b"paddy".to_vec(), b"delta".to_vec(), 5,
        vec![b"fair".to_vec()], SupplyChainStage::Processing).unwrap();
    assert_eq!(hub.register_supply_chain_entry(entry.clone()), Ok(()));
    let later = register_supply_chain_entry(b"rice".to_vec(), b"mill".to_vec(), b"town".to_vec(), 6,
        vec![], SupplyChainStage::Retail).unwrap();
    assert_eq!(hub.register_supply_chain_entry(later.clone()), Ok(()));
    let history = hub.supply_chain_history(&b"rice".to_vec());
    assert_eq!(history.len(), 2);
    let last = &history[1];
    assert_eq!(last.producer_id, later.producer_id);
    assert_eq!(last.location, later.location);
    assert_eq!(last.timestamp, later.timestamp);
    assert_eq!(last.stage, later.stage);
    assert_eq!(last.verification_hash, later.verification_hash);
    assert!(matches!(hub.event_log().last(), Some(Event::SupplyChainEntryVerified { .. })));
    let earlier = register_supply_chain_entry(b"rice".to_vec(), b"paddy".to_vec(), b"delta".to_vec(), 7,
        vec![], SupplyChainStage::Production).unwrap();
    assert_eq!(hub.register_supply_chain_entry(earlier), module(Error::SupplyChainStageRegression));
    let mut forged = entry;
    forged.timestamp = 99;
    assert_eq!(hub.register_supply_chain_entry(forged), module(Error::VerificationHashMismatch));
    assert_eq!(hub.supply_chain_history(&b"rice".to_vec()).len(), 2);
}
