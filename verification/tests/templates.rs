use quantum_bridge::bridge_core::templates::{avalanche, humanity, polkadot, polygon};
use quantum_bridge::bridge_core::{
    algorand, solana, tezos, BlockchainPlatform, BridgeAccountId, BridgeConfig, BridgeFeeModel, BridgeMessage,
    BridgeMessageType, BridgeResult, EntropyProtocol, SecurityConfig,
};

fn message() -> BridgeMessage {
    BridgeMessage {
        source: BlockchainPlatform::Polkadot,
        target: BlockchainPlatform::Avalanche,
        message_type: BridgeMessageType::FundingAllocation,
        sender: BridgeAccountId::Substrate(vec![1; 32]),
        recipient: BridgeAccountId::Avalanche(vec![2; 20]),
        payload: vec![1, 2, 3],
        quantum_hash: [0; 32],
        timestamp: None,
        nonce: 0,
    }
}

fn base() -> BridgeConfig {
    BridgeConfig {
        platform: BlockchainPlatform::Avalanche,
        endpoint: Some(b"node".to_vec()),
        contract_address: None,
        max_message_size: 10,
        required_confirmations: 2,
        active: true,
        fee_model: BridgeFeeModel::NoFee,
        security_config: SecurityConfig {
            use_quantum_security: false,
            required_validators: 1,
            entropy_protocol: EntropyProtocol::Standard,
            challenge_timeout: 5,
        },
    }
}

#[test]
fn templates_answer_with_the_placeholder_reference() {
    let expected = Ok(BridgeResult::Success(vec![0, 1, 2, 3]));
    assert_eq!(polygon::send_message(message()), expected);
    assert_eq!(polkadot::send_message(message()), expected);
    assert_eq!(avalanche::send_message(message()), expected);
    assert_eq!(humanity::send_message(message()), expected);
    assert_eq!(tezos::send_message(message()), expected);
    assert_eq!(algorand::send_message(message()), expected);
    assert_eq!(solana::send_message(message()), expected);
}

#[test]
fn templates_accept_and_report_ready() {
    assert_eq!(polygon::process_message(message()), Ok(()));
    assert_eq!(avalanche::get_status(), Ok(true));
    assert_eq!(humanity::get_status(), Ok(true));
    let id = polkadot::submit_sustainability_proposal(b"t".to_vec(), b"d".to_vec(), 1, BridgeAccountId::Custom(vec![]));
    assert_eq!(id, Ok(vec![0, 1, 2, 3]));
    let config = avalanche::AvalancheBridgeConfig {
        base_config: base(),
        node_endpoint: b"node".to_vec(),
        bridge_id: b"id".to_vec(),
        admin_credentials: None,
    };
    assert_eq!(avalanche::initialize(config), Ok(()));
}
