use parity_scale_codec::Encode;
use quantum_bridge::eigenlayer::{self, generate_avs_entropy, generate_operator_entropy, Eigenlayer, OperatorStatus};
use quantum_bridge::liquidity::{self, calculate_initial_shares, generate_quantum_entropy, Liquidity};
use quantum_bridge::byte_order::{compare_keys, KeyPosition};
use quantum_bridge::oracle::{self, generate_feed_id, AggregationMethod, FeedType, Oracle};
use quantum_bridge::rpc_q999::{self, generate_profile_entropy, generate_token_entropy, RpcQ999};
use quantum_bridge::runtime::{DispatchError, Origin};

fn blake3_of(parts: &[&[u8]]) -> [u8; 32] {
    let mut hasher = blake3::Hasher::new();
    for p in parts {
        hasher.update(p);
    }
    *hasher.finalize().as_bytes()
}

fn layers(fe: [u8; 32], ni: [u8; 32], co: [u8; 32]) -> Vec<u8> {
    let mut v = fe.to_vec();
    v.extend(ni);
    v.extend(co);
    v
}

#[test]
fn avs_entropy_layers() {
    let creator = [4u8; 32];
    let name = b"oracle avs".to_vec();
    let config = [9u8; 32];
    let fe = blake3_of(&[&creator, &name.encode()]);
    let ni = blake3_of(&[&fe, &config]);
    let co = blake3_of(&[&fe, &ni, &creator]);
    assert_eq!(generate_avs_entropy(&creator, &name, &config).to_vec(), layers(fe, ni, co));
}

#[test]
fn operator_entropy_layers() {
    let op = [5u8; 32];
    let block: u32 = 77;
    let ts = block.encode();
    let fe = blake3_of(&[&op, &ts]);
    let ni = blake3_of(&[&fe, &op]);
    let co = blake3_of(&[&fe, &ni, &ts]);
    assert_eq!(generate_operator_entropy(&op, block).to_vec(), layers(fe, ni, co));
}

#[test]
fn register_avs_flow() {
    let mut pallet = Eigenlayer::new(100, 10, 5);
    let alice = [1u8; 32];
    let err = |e| Err(DispatchError::Module(e));
    assert_eq!(pallet.register_avs(Origin::Root, b"a".to_vec(), 1, 2, [0; 32]), Err(DispatchError::BadOrigin));
    assert_eq!(pallet.register_avs(Origin::Signed(alice), b"a".to_vec(), 0, 2, [0; 32]), err(eigenlayer::Error::InvalidAvsParams));
    assert_eq!(pallet.register_avs(Origin::Signed(alice), b"a".to_vec(), 3, 2, [0; 32]), err(eigenlayer::Error::InvalidAvsParams));
    assert_eq!(pallet.register_avs(Origin::Signed(alice), vec![], 1, 2, [0; 32]), err(eigenlayer::Error::InvalidAvsParams));
    assert_eq!(pallet.register_avs(Origin::Signed(alice), b"restake".to_vec(), 10, 20, [2; 32]), Ok(()));
    assert_eq!(pallet.next_avs_id(), 1);
    let avs = pallet.avs_configs(0).unwrap();
    assert_eq!(avs.name, b"restake".to_vec());
    assert_eq!(avs.creator, alice);
    assert_eq!(avs.total_staked, 0);
    assert_eq!(avs.operator_count, 0);
    assert!(!avs.quorum_certified);
    assert_eq!(avs.quantum_entropy, generate_avs_entropy(&alice, &b"restake".to_vec(), &[2; 32]));
    assert_eq!(pallet.event_log(), &[eigenlayer::Event::AvsRegistered(alice, 0, b"restake".to_vec())]);
}

#[test]
fn register_operator_flow() {
    let mut pallet = Eigenlayer::new(100, 10, 5);
    let bob = [2u8; 32];
    assert_eq!(pallet.register_operator(Origin::Signed(bob), 99, 1), Err(DispatchError::Module(eigenlayer::Error::InsufficientStake)));
    assert_eq!(pallet.register_operator(Origin::Signed(bob), 150, 12), Ok(()));
    assert_eq!(pallet.stake_lock(&bob), 150);
    let op = pallet.operators(&bob).unwrap();
    assert_eq!(op.status, OperatorStatus::Active);
    assert_eq!(op.restaked_amount, 150);
    assert!(op.services.is_empty());
    assert_eq!(op.exit_start, None);
    assert_eq!(op.quantum_entropy, generate_operator_entropy(&bob, 12));
    assert_eq!(pallet.register_operator(Origin::Signed(bob), 150, 13),
        Err(DispatchError::Module(eigenlayer::Error::OperatorAlreadyRegistered)));
    assert_eq!(pallet.register_operator(Origin::Unsigned, 150, 13), Err(DispatchError::BadOrigin));
    assert_eq!(pallet.avs_operators(0, &bob), 0);
    assert_eq!(pallet.event_log(), &[eigenlayer::Event::OperatorRegistered(bob, 150)]);
}

#[test]
fn initial_shares_are_the_product() {
    assert_eq!(calculate_initial_shares(&vec![2, 3, 7]), Ok(42));
    assert_eq!(calculate_initial_shares(&vec![]), Err(liquidity::Error::ZeroLiquidity));
    assert_eq!(calculate_initial_shares(&vec![5, 0, 7]), Err(liquidity::Error::ZeroLiquidity));
    assert_eq!(calculate_initial_shares(&vec![u128::MAX, 2]), Err(liquidity::Error::MathOverflow));
    assert_eq!(calculate_initial_shares(&vec![u128::MAX, 2, 0]), Err(liquidity::Error::MathOverflow));
    assert_eq!(calculate_initial_shares(&vec![0, u128::MAX, 2]), Err(liquidity::Error::ZeroLiquidity));
    assert_eq!(calculate_initial_shares(&vec![u128::MAX, 1]), Ok(u128::MAX));
}

#[test]
fn pool_entropy_layers() {
    let account = [6u8; 32];
    let assets = vec![1u32, 2, 3];
    let a = assets.encode();
    let fe = blake3_of(&[&account, &a]);
    let ni = blake3_of(&[&fe, &account]);
    let co = blake3_of(&[&fe, &ni, &a]);
    let e = generate_quantum_entropy(&account, &assets);
    assert_eq!((e.fe_layer, e.ni_layer, e.co_layer), (fe, ni, co));
}

#[test]
fn create_pool_flow() {
    let mut pallet = Liquidity::new(1, 3);
    let carol = [3u8; 32];
    let err = |e| Err(DispatchError::Module(e));
    assert_eq!(pallet.create_pool(Origin::Signed(carol), vec![1], vec![5], 30, true), err(liquidity::Error::InsufficientLiquidity));
    assert_eq!(pallet.create_pool(Origin::Signed(carol), vec![1, 2, 3, 4], vec![5; 4], 30, true), err(liquidity::Error::TooManyAssetsInPool));
    assert_eq!(pallet.create_pool(Origin::Signed(carol), vec![1, 2], vec![5], 30, true), err(liquidity::Error::InsufficientLiquidity));
    assert_eq!(pallet.create_pool(Origin::Signed(carol), vec![1, 2], vec![5, 6], 10_001, true), err(liquidity::Error::InvalidFee));
    assert_eq!(pallet.create_pool(Origin::Signed(carol), vec![1, 2], vec![5, 0], 30, true), err(liquidity::Error::ZeroLiquidity));
    assert_eq!(pallet.create_pool(Origin::Signed(carol), vec![1, 2], vec![5, 6], 30, false), Err(DispatchError::Currency));
    assert_eq!(pallet.next_pool_id(), 0);
    assert_eq!(pallet.create_pool(Origin::Signed(carol), vec![1, 2], vec![5, 6], 30, true), Ok(()));
    let pool = pallet.pools(0).unwrap();
    assert_eq!(pool.total_shares, 30);
    assert_eq!(pool.shares.get(&carol), Some(&30));
    assert_eq!(pool.shares.len(), 1);
    assert_eq!(pool.balances, vec![5, 6]);
    assert_eq!(pool.fee, 30);
    assert_eq!(pallet.next_pool_id(), 1);
    assert_eq!(pallet.event_log(), &[liquidity::Event::PoolCreated(carol, 0, vec![1, 2])]);
}

#[test]
fn feed_id_and_type_encoding() {
    let creator = [8u8; 32];
    let custom = FeedType::Custom(b"soil".to_vec());
    let mut enc = vec![4u8];
    enc.extend(b"soil".to_vec().encode());
    assert_eq!(generate_feed_id(&creator, &custom, b"desc"), blake3_of(&[&creator, &enc, b"desc"]));
    assert_eq!(generate_feed_id(&creator, &FeedType::Weather, b""), blake3_of(&[&creator, &[1u8]]));
}

#[test]
fn key_comparison() {
    assert!(matches!(compare_keys(&[1, 2, 3], &[1, 3, 0]), KeyPosition::Before));
    assert!(matches!(compare_keys(&[2, 0, 0], &[1, 9, 9]), KeyPosition::After));
    assert!(matches!(compare_keys(&[4, 4], &[4, 4]), KeyPosition::Same));
}

fn storage_key(account: &[u8; 32]) -> Vec<u8> {
    let mut k = sp_crypto_hashing::blake2_128(account).to_vec();
    k.extend(account);
    k
}

#[test]
fn oracle_feed_flow() {
    let mut pallet = Oracle::new(16, 8);
    let dave = [4u8; 32];
    let erin = [5u8; 32];
    let err = |e| Err(DispatchError::Module(e));
    assert_eq!(pallet.create_feed(Origin::Signed(dave), FeedType::Price, vec![0; 17], 1, 2, 0, AggregationMethod::Mean, 0, [0; 32]),
        err(oracle::Error::DescriptionTooLong));
    assert_eq!(pallet.create_feed(Origin::Signed(dave), FeedType::Price, b"eth".to_vec(), 0, 2, 0, AggregationMethod::Mean, 0, [0; 32]),
        err(oracle::Error::InvalidFeedParameters));
    assert_eq!(pallet.create_feed(Origin::Signed(dave), FeedType::Price, b"eth".to_vec(), 2, 3, 5, AggregationMethod::Median, 10, [7; 32]),
        Ok(()));
    let id = generate_feed_id(&dave, &FeedType::Price, b"eth");
    assert_eq!(pallet.create_feed(Origin::Signed(dave), FeedType::Price, b"eth".to_vec(), 2, 3, 5, AggregationMethod::Median, 10, [7; 32]),
        err(oracle::Error::FeedAlreadyExists));
    let feed = pallet.data_feeds(&id).unwrap();
    assert_eq!(feed.min_submissions, 2);
    assert!(feed.active);
    assert_eq!(feed.last_update, None);
    assert!(pallet.feed_submitters(&id, &dave));
    assert_eq!(pallet.submitter_reputations(&id, &dave), 80);
    assert_eq!(pallet.event_log().len(), 2);

    assert_eq!(pallet.add_submitter(Origin::Signed(erin), id, erin), err(oracle::Error::Unauthorized));
    assert_eq!(pallet.add_submitter(Origin::Signed(dave), [0; 32], erin), err(oracle::Error::FeedNotFound));
    assert_eq!(pallet.add_submitter(Origin::Signed(dave), id, erin), Ok(()));
    assert_eq!(pallet.submitter_reputations(&id, &erin), 50);
    assert_eq!(pallet.add_submitter(Origin::Signed(dave), id, erin), err(oracle::Error::SubmitterAlreadyAuthorized));

    assert_eq!(pallet.submit_data(Origin::Signed([9; 32]), id, vec![1], vec![1], 5), err(oracle::Error::UnauthorizedSubmitter));
    assert_eq!(pallet.submit_data(Origin::Signed(dave), id, vec![0; 9], vec![1], 5), err(oracle::Error::DataTooLarge));
    assert_eq!(pallet.submit_data(Origin::Signed(dave), id, vec![1], vec![], 5), err(oracle::Error::InvalidSignature));
    assert_eq!(pallet.submit_data(Origin::Signed(dave), id, vec![1], vec![1], 5), Ok(()));
    assert!(pallet.current_submissions(&id, &dave).is_some());
    assert!(pallet.feed_values(&id).is_none());
    assert_eq!(pallet.submit_data(Origin::Signed(erin), id, vec![2], vec![1], 6), Ok(()));
    let value = pallet.feed_values(&id).unwrap();
    let last = if storage_key(&dave) > storage_key(&erin) { vec![1u8] } else { vec![2u8] };
    assert_eq!(value.value, last);
    assert_eq!(value.timestamp, 6);
    assert_eq!(value.submission_count, 2);
    assert_eq!(value.confidence, 90);
    assert_eq!(pallet.data_feeds(&id).unwrap().last_update, Some(6));
    assert!(pallet.current_submissions(&id, &dave).is_none());
    assert_eq!(pallet.event_log().last().unwrap(), &oracle::Event::FeedUpdated(id, 6, 2));
    assert_eq!(pallet.on_initialize(6).ref_time, 0);
}

#[test]
fn token_and_profile_entropy_layers() {
    let acc = [1u8; 32];
    let fe = blake3_of(&[&acc, b"Gold"]);
    let ni = blake3_of(&[&fe, b"GLD"]);
    let co = blake3_of(&[&fe, &ni, &acc]);
    assert_eq!(generate_token_entropy(&acc, b"Gold", b"GLD").to_vec(), layers(fe, ni, co));
    let ts = 9u32.encode();
    let fe = blake3_of(&[&acc, b"me"]);
    let ni = blake3_of(&[&fe, &ts]);
    let co = blake3_of(&[&fe, &ni, &acc]);
    assert_eq!(generate_profile_entropy(&acc, b"me", 9).to_vec(), layers(fe, ni, co));
}

#[test]
fn token_and_profile_flow() {
    let mut pallet = RpcQ999::new(8, 16, 4, 4);
    let frank = [6u8; 32];
    let err = |e| Err(DispatchError::Module(e));
    assert_eq!(pallet.create_token(Origin::Signed(frank), vec![0; 9], b"S".to_vec(), vec![], None, vec![], 0, 1),
        err(rpc_q999::Error::NameTooLong));
    assert_eq!(pallet.create_token(Origin::Signed(frank), b"N".to_vec(), b"S".to_vec(), vec![0; 17], None, vec![], 0, 1),
        err(rpc_q999::Error::MetadataTooLarge));
    assert_eq!(pallet.create_token(Origin::Signed(frank), b"N".to_vec(), b"S".to_vec(), vec![], Some(3), vec![], 0, 1),
        err(rpc_q999::Error::CircuitNotFound));
    assert_eq!(pallet.create_token(Origin::Signed(frank), b"N".to_vec(), b"S".to_vec(), vec![], None, vec![1], 0, 1),
        err(rpc_q999::Error::ZoneNotFound));
    assert_eq!(pallet.create_token(Origin::Signed(frank), b"Gold".to_vec(), b"GLD".to_vec(), b"cid".to_vec(), None, vec![], 3, 1000),
        Ok(()));
    let token = pallet.tokens(0).unwrap();
    assert_eq!(token.owner, frank);
    assert_eq!(token.balance, 1000);
    assert_eq!(token.entropy, generate_token_entropy(&frank, b"Gold", b"GLD"));
    assert_eq!(pallet.next_token_id(), 1);

    assert_eq!(pallet.create_profile(Origin::Signed(frank), b"me".to_vec(), vec![], vec![], 50, 9, false),
        Err(DispatchError::Currency));
    assert_eq!(pallet.create_profile(Origin::Signed(frank), b"me".to_vec(), vec![], vec![], 0, 9, false), Ok(()));
    assert_eq!(pallet.create_profile(Origin::Signed(frank), b"me2".to_vec(), vec![], vec![b"x".to_vec()], 50, 10, true), Ok(()));
    assert_eq!(pallet.account_profiles(&frank), &[0, 1]);
    let p = pallet.profiles(1).unwrap();
    assert_eq!(p.staked, 50);
    assert_eq!(p.entropy, generate_profile_entropy(&frank, b"me2", 10));
    assert_eq!(pallet.event_log().len(), 3);
}
