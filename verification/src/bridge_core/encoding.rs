//! The SCALE encoding of bridge messages, which the runtime hashes to file them.
use vstd::prelude::*;
use crate::bridge_core::{BlockchainPlatform, BridgeMessage, BridgeMessageType, account_parts};
use crate::bridge_core::utils::{account_encoding, encode_account};
use crate::storage_map::WalkKey;
use crate::scale::{append_bytes, le4, le8, scale_bytes, scale_encode_bytes, scale_encode_u32, scale_encode_u64};

verus! {

/// The encoding of a platform: its variant index, then the number of a custom platform.
pub open spec fn platform_encoding(p: BlockchainPlatform) -> Seq<u8> {
    match p {
        BlockchainPlatform::Tezos => seq![0u8],
        BlockchainPlatform::Algorand => seq![1u8],
        BlockchainPlatform::Solana => seq![2u8],
        BlockchainPlatform::Cardano => seq![3u8],
        BlockchainPlatform::Polkadot => seq![4u8],
        BlockchainPlatform::Ethereum => seq![5u8],
        BlockchainPlatform::Bitcoin => seq![6u8],
        BlockchainPlatform::Cosmos => seq![7u8],
        BlockchainPlatform::Near => seq![8u8],
        BlockchainPlatform::Avalanche => seq![9u8],
        BlockchainPlatform::Custom(n) => seq![10u8] + le4(n as nat),
    }
}

/// The encoding of a message type: its variant index, then the number of a custom type.
pub open spec fn message_type_encoding(t: BridgeMessageType) -> Seq<u8> {
    match t {
        BridgeMessageType::AssetTransfer => seq![0u8],
        BridgeMessageType::ContractCall => seq![1u8],
        BridgeMessageType::DataAttestation => seq![2u8],
        BridgeMessageType::GovernanceProposal => seq![3u8],
        BridgeMessageType::FundingAllocation => seq![4u8],
        BridgeMessageType::CommunityVote => seq![5u8],
        BridgeMessageType::SupplyChainUpdate => seq![6u8],
        BridgeMessageType::SustainabilityCert => seq![7u8],
        BridgeMessageType::Custom(n) => seq![8u8] + le4(n as nat),
    }
}

/// The encoding of an optional timestamp: 0 for none, or 1 and the eight little-endian bytes.
pub open spec fn timestamp_encoding(t: Option<u64>) -> Seq<u8> {
    match t {
        Some(v) => seq![1u8] + le8(v as nat),
        None => seq![0u8],
    }
}

/// The SCALE encoding of a bridge message, field after field.
pub open spec fn bridge_message_encoding(m: BridgeMessage) -> Seq<u8> {
    platform_encoding(m.source) + platform_encoding(m.target) + message_type_encoding(m.message_type)
        + account_encoding(m.sender) + account_encoding(m.recipient) + scale_bytes(m.payload@)
        + m.quantum_hash@ + timestamp_encoding(m.timestamp) + le8(m.nonce as nat)
}

/// Whether every byte string of a message fits the codec (at most `u32::MAX` bytes).
pub open spec fn message_encodable(m: BridgeMessage) -> bool {
    account_parts(m.sender).1.len() <= u32::MAX && account_parts(m.recipient).1.len() <= u32::MAX
        && m.payload@.len() <= u32::MAX
}

fn push_variant(out: &mut Vec<u8>, index: u8, custom: Option<u32>)
    ensures
        final(out)@ == old(out)@ + seq![index] + match custom {
            Some(n) => le4(n as nat),
            None => Seq::<u8>::empty(),
        },
{
    out.push(index);
    match custom {
        Some(n) => {
            let b = scale_encode_u32(n);
            append_bytes(out, b.as_slice());
        },
        None => {
            assert(out@ =~= out@ + Seq::<u8>::empty());
        },
    }
}

/// Append the encoding of a platform.
pub fn encode_platform(out: &mut Vec<u8>, p: BlockchainPlatform)
    ensures
        final(out)@ == old(out)@ + platform_encoding(p),
{
    match p {
        BlockchainPlatform::Tezos => push_variant(out, 0, None),
        BlockchainPlatform::Algorand => push_variant(out, 1, None),
        BlockchainPlatform::Solana => push_variant(out, 2, None),
        BlockchainPlatform::Cardano => push_variant(out, 3, None),
        BlockchainPlatform::Polkadot => push_variant(out, 4, None),
        BlockchainPlatform::Ethereum => push_variant(out, 5, None),
        BlockchainPlatform::Bitcoin => push_variant(out, 6, None),
        BlockchainPlatform::Cosmos => push_variant(out, 7, None),
        BlockchainPlatform::Near => push_variant(out, 8, None),
        BlockchainPlatform::Avalanche => push_variant(out, 9, None),
        BlockchainPlatform::Custom(n) => push_variant(out, 10, Some(n)),
    }
}

/// Append the encoding of a message type.
pub fn encode_message_type(out: &mut Vec<u8>, t: BridgeMessageType)
    ensures
        final(out)@ == old(out)@ + message_type_encoding(t),
{
    match t {
        BridgeMessageType::AssetTransfer => push_variant(out, 0, None),
        BridgeMessageType::ContractCall => push_variant(out, 1, None),
        BridgeMessageType::DataAttestation => push_variant(out, 2, None),
        BridgeMessageType::GovernanceProposal => push_variant(out, 3, None),
        BridgeMessageType::FundingAllocation => push_variant(out, 4, None),
        BridgeMessageType::CommunityVote => push_variant(out, 5, None),
        BridgeMessageType::SupplyChainUpdate => push_variant(out, 6, None),
        BridgeMessageType::SustainabilityCert => push_variant(out, 7, None),
        BridgeMessageType::Custom(n) => push_variant(out, 8, Some(n)),
    }
}

/// The SCALE encoding of a bridge message.
pub fn encode_bridge_message(m: &BridgeMessage) -> (enc: Vec<u8>)
    requires
        message_encodable(*m),
    ensures
        enc@ == bridge_message_encoding(*m),
{
    let mut out: Vec<u8> = Vec::new();
    encode_platform(&mut out, m.source);
    encode_platform(&mut out, m.target);
    encode_message_type(&mut out, m.message_type);
    let s = encode_account(&m.sender);
    append_bytes(&mut out, s.as_slice());
    let r = encode_account(&m.recipient);
    append_bytes(&mut out, r.as_slice());
    let p = scale_encode_bytes(m.payload.as_slice());
    append_bytes(&mut out, p.as_slice());
    append_bytes(&mut out, m.quantum_hash.as_slice());
    match m.timestamp {
        Some(t) => {
            out.push(1u8);
            let b = scale_encode_u64(t);
            append_bytes(&mut out, b.as_slice());
        },
        None => {
            out.push(0u8);
        },
    }
    let n = scale_encode_u64(m.nonce);
    append_bytes(&mut out, n.as_slice());
    assert(out@ =~= bridge_message_encoding(*m));
    out
}

impl WalkKey for BlockchainPlatform {
    open spec fn encoding_of(v: BlockchainPlatform) -> Seq<u8> {
        platform_encoding(v)
    }

    fn encode_key(&self) -> (e: Vec<u8>) {
        let mut out: Vec<u8> = Vec::new();
        encode_platform(&mut out, *self);
        assert(out@ =~= platform_encoding(*self));
        out
    }

    proof fn lemma_encoding_injective(a: BlockchainPlatform, b: BlockchainPlatform) {
        let ea = platform_encoding(a);
        let eb = platform_encoding(b);
        assert(ea[0] == eb[0]);
        if let (BlockchainPlatform::Custom(n), BlockchainPlatform::Custom(m)) = (a, b) {
            assert(ea.subrange(1, 5) =~= le4(n as nat));
            assert(eb.subrange(1, 5) =~= le4(m as nat));
            <u32 as WalkKey>::lemma_encoding_injective(n, m);
        }
    }
}

} // verus!
