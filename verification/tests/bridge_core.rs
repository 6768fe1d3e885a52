use parity_scale_codec::Encode;
use quantum_bridge::bridge_core::community::{
    build_supply_chain_preimage, create_proposal, register_supply_chain_entry, supply_chain_verification_hash,
    SupplyChainStage,
};
use quantum_bridge::bridge_core::encoding::encode_bridge_message;
use quantum_bridge::bridge_core::tezos::format_tezos_address;
use quantum_bridge::bridge_core::utils::{
    apply_thrice_nested_entropy, calculate_bridge_weight, encode_account, format_account_display, quantum_secure_hash,
};
use quantum_bridge::bridge_core::{BlockchainPlatform, BridgeAccountId, BridgeMessage, BridgeMessageType};
use quantum_bridge::quantum_cipher::{decrypt_with_quantum_key, encrypt_with_quantum_key};

#[test]
fn test_entropy_transformation() {
    let mut data = vec![1, 2, 3, 4, 5];
    let untransformed = data.clone();

    apply_thrice_nested_entropy(&mut data);

    assert_ne!(data, untransformed);
}

#[test]
fn test_quantum_hash() {
    let data = vec![1, 2, 3, 4, 5];
    let hash = quantum_secure_hash(&data);

    assert_eq!(hash.len(), 32);
}

#[test]
fn thrice_nested_entropy_exact_values() {
    let mut data = vec![1u8, 2, 3, 4, 5];
    apply_thrice_nested_entropy(&mut data);
    assert_eq!(data, vec![183, 183, 151, 183, 126]);

    let mut one = vec![0u8];
    apply_thrice_nested_entropy(&mut one);
    assert_eq!(one, vec![39]);

    let mut two = vec![7u8, 9];
    apply_thrice_nested_entropy(&mut two);
    assert_eq!(two, vec![103, 110]);
}

#[test]
fn thrice_nested_entropy_keeps_empty_data_empty() {
    let mut data: Vec<u8> = Vec::new();
    apply_thrice_nested_entropy(&mut data);
    assert!(data.is_empty());
}

#[test]
fn thrice_nested_entropy_keeps_length() {
    for n in 0..40usize {
        let mut data: Vec<u8> = (0..n).map(|i| (i * 7 + 3) as u8).collect();
        apply_thrice_nested_entropy(&mut data);
        assert_eq!(data.len(), n);
    }
}

#[test]
fn quantum_hash_is_blake3() {
    let data = b"supply chain".to_vec();
    assert_eq!(quantum_secure_hash(&data), *blake3::hash(&data).as_bytes());
    assert_ne!(quantum_secure_hash(&data).to_vec(), data);
}

#[test]
fn bridge_weight_formula() {
    let w = calculate_bridge_weight(0);
    assert_eq!(w.ref_time, 10_000_000);
    assert_eq!(w.proof_size, 0);
    let w = calculate_bridge_weight(1_000);
    assert_eq!(w.ref_time, 11_000_000);
    let w = calculate_bridge_weight(18_446_744_073_709_551);
    assert_eq!(w.ref_time, u64::MAX);
}

#[test]
fn account_encoding_matches_codec() {
    let account = BridgeAccountId::Ethereum(vec![0xab; 20]);
    let mut expected = vec![5u8];
    expected.extend(vec![0xabu8; 20].encode());
    assert_eq!(encode_account(&account), expected);

    let near = BridgeAccountId::Near("alice.near".to_string());
    let mut expected = vec![8u8];
    expected.extend("alice.near".to_string().encode());
    assert_eq!(encode_account(&near), expected);
}

#[test]
fn account_display_forms() {
    let tezos = BridgeAccountId::Tezos(b"tz1abcdefghijk".to_vec());
    assert_eq!(format_account_display(&tezos), b"tz1a...hijk".to_vec());

    let short_tezos = BridgeAccountId::Tezos(b"tz1abc".to_vec());
    assert_eq!(format_account_display(&short_tezos), b"tz1abc".to_vec());

    let substrate = BridgeAccountId::Substrate(vec![9u8; 32]);
    let enc = encode_account(&substrate);
    assert_eq!(format_account_display(&substrate), enc[..10].to_vec());

    let tiny = BridgeAccountId::Custom(vec![1, 2]);
    assert_eq!(format_account_display(&tiny), b"?".to_vec());
}

#[test]
fn tezos_address_display() {
    assert_eq!(format_tezos_address(b"tz1VSUr8wwNhLAzempoch5d6hLRiTh8Cjcjb"), b"tz1VSU...jcjb".to_vec());
    assert_eq!(format_tezos_address(b"KT1PWx2mnDueood7fEmfbBDKx1D9BAnnXitn"), b"KT1PWx...Xitn".to_vec());
    assert_eq!(format_tezos_address(b"tz1short"), b"tz1short".to_vec());
    assert_eq!(format_tezos_address(b"xy1abcdefghijkl"), b"xy1abcdefghijkl".to_vec());
    assert_eq!(format_tezos_address(b"tz"), b"tz".to_vec());
}

#[test]
fn bridge_message_encoding_matches_codec() {
    let message = BridgeMessage {
        source: BlockchainPlatform::Polkadot,
        target: BlockchainPlatform::Custom(7),
        message_type: BridgeMessageType::SupplyChainUpdate,
        sender: BridgeAccountId::Substrate(vec![1, 2, 3]),
        recipient: BridgeAccountId::Solana(vec![4, 5]),
        payload: vec![10, 20, 30],
        quantum_hash: [3u8; 32],
        timestamp: Some(1_700_000_000_000),
        nonce: 42,
    };
    let mut expected = vec![4u8, 10u8];
    expected.extend(7u32.encode());
    expected.push(6);
    expected.push(4);
    expected.extend(vec![1u8, 2, 3].encode());
    expected.push(2);
    expected.extend(vec![4u8, 5].encode());
    expected.extend(vec![10u8, 20, 30].encode());
    expected.extend([3u8; 32]);
    expected.extend(Some(1_700_000_000_000u64).encode());
    expected.extend(42u64.encode());
    assert_eq!(encode_bridge_message(&message), expected);
}

#[test]
fn supply_chain_preimage_and_hash() {
    let certs = vec![b"organic".to_vec(), b"fair".to_vec()];
    let preimage = build_supply_chain_preimage(b"p1", b"farm", b"here", 5, &certs, SupplyChainStage::Processing);
    let mut expected = b"p1farmhere".to_vec();
    expected.extend(5u64.to_be_bytes());
    expected.extend(b"organicfair");
    expected.push(1);
    assert_eq!(preimage, expected);

    let mut transformed = expected.clone();
    apply_thrice_nested_entropy(&mut transformed);
    let hash = supply_chain_verification_hash(b"p1", b"farm", b"here", 5, &certs, SupplyChainStage::Processing);
    assert_eq!(hash, *blake3::hash(&transformed).as_bytes());

    let entry = register_supply_chain_entry(
        b"p1".to_vec(),
        b"farm".to_vec(),
        b"here".to_vec(),
        5,
        certs.clone(),
        SupplyChainStage::Processing,
    )
    .unwrap();
    assert_eq!(entry.verification_hash, hash);
    assert_eq!(entry.stage, SupplyChainStage::Processing);
}

#[test]
fn proposal_creation_defaults() {
    let creator = BridgeAccountId::Cosmos(vec![1]);
    let p = create_proposal(b"t".to_vec(), b"d".to_vec(), 100, creator.clone(), BlockchainPlatform::Cosmos).unwrap();
    assert_eq!(p.title, b"t".to_vec());
    assert_eq!(p.funding_amount, 100);
    assert_eq!(p.creator, creator);
    assert_eq!(p.source_chain, BlockchainPlatform::Polkadot);
    assert!(p.target_communities.is_empty());
    assert!(p.source_id.is_empty());
}

#[test]
fn cipher_exact_values() {
    assert_eq!(encrypt_with_quantum_key(&[1, 2, 3], &[5, 6]), vec![215, 199, 46]);
    assert_eq!(decrypt_with_quantum_key(&[10, 20, 30], &[1]), vec![1, 1, 7]);
    assert_eq!(encrypt_with_quantum_key(&[], &[]), Vec::<u8>::new());
}

#[test]
fn decryption_does_not_undo_encryption() {
    let encrypted = encrypt_with_quantum_key(&[1, 2, 3], &[5, 6]);
    let decrypted = decrypt_with_quantum_key(&encrypted, &[5, 6]);
    assert_eq!(decrypted, vec![7, 7, 6]);
    assert_ne!(decrypted, vec![1, 2, 3]);
}

#[test]
fn cipher_keeps_length() {
    for n in 0..20usize {
        let data: Vec<u8> = (0..n).map(|i| i as u8).collect();
        assert_eq!(encrypt_with_quantum_key(&data, &[9, 8, 7]).len(), n);
        assert_eq!(decrypt_with_quantum_key(&data, &[9, 8, 7]).len(), n);
    }
}
