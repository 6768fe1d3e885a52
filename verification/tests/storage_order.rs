use parity_scale_codec::Encode;
use quantum_bridge::bridge_core::{BlockchainPlatform, EntropyProtocol};
use quantum_bridge::bridge_hub::{BridgeHub, QuantumKeyPair};
use quantum_bridge::byte_order::{compare_keys, KeyPosition};
use quantum_bridge::runtime::Origin;
use quantum_bridge::storage_map::StorageMap;

fn hashed(enc: &[u8]) -> Vec<u8> {
    let mut k = sp_crypto_hashing::blake2_128(enc).to_vec();
    k.extend_from_slice(enc);
    k
}

#[test]
fn prefixes_come_first() {
    assert!(matches!(compare_keys(&[1, 2], &[1, 2, 0]), KeyPosition::Before));
    assert!(matches!(compare_keys(&[1, 2, 0], &[1, 2]), KeyPosition::After));
    assert!(matches!(compare_keys(&[], &[]), KeyPosition::Same));
}

#[test]
fn storage_map_walks_keys_by_hashed_key() {
    let mut map: StorageMap<u32, u8> = StorageMap::new();
    let ids = [2000u32, 1000, 3000, 7, 42, 1_000_000];
    for (n, id) in ids.iter().enumerate() {
        map.insert(*id, n as u8);
    }
    map.insert(1000, 99);
    assert_eq!(map.len(), ids.len());
    assert_eq!(map.get(&1000), Some(&99));
    let mut expected = ids.to_vec();
    expected.sort_by_key(|id| hashed(&id.encode()));
    assert_eq!(map.keys(), expected);

    assert_eq!(map.remove(&42), Some(4));
    assert_eq!(map.remove(&42), None);
    expected.retain(|id| *id != 42);
    assert_eq!(map.keys(), expected);
}

#[test]
fn rotation_follows_the_walk_order_of_bridges() {
    let mut hub = BridgeHub::new(3, 100, 4);
    let platforms = [BlockchainPlatform::Tezos, BlockchainPlatform::Custom(5), BlockchainPlatform::Near];
    for (n, p) in platforms.iter().enumerate() {
        let pair = QuantumKeyPair { public_key: vec![n as u8], secret_key: vec![n as u8] };
        hub.register_bridge(Origin::Root, *p, vec![], None, 10, 1, true, EntropyProtocol::Standard, pair).unwrap();
    }
    let encoding = |p: &BlockchainPlatform| match p {
        BlockchainPlatform::Tezos => vec![0u8],
        BlockchainPlatform::Near => vec![8u8],
        BlockchainPlatform::Custom(n) => {
            let mut e = vec![10u8];
            e.extend(n.encode());
            e
        },
        _ => unreachable!(),
    };
    let first = platforms.iter().min_by_key(|p| hashed(&encoding(p))).unwrap();
    let pair = QuantumKeyPair { public_key: vec![9], secret_key: vec![9] };
    hub.on_finalize(10_000, vec![pair]);
    for p in platforms.iter() {
        let expected = if p == first { 2 } else { 1 };
        assert_eq!(hub.key_count(*p), expected);
    }
}
