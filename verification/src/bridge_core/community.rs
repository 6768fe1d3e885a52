//! Bridges for community outreach programs focused on sustainable food culture.
use vstd::prelude::*;
use crate::bridge_core::{BlockchainPlatform, BridgeAccountId};
use crate::bridge_core::utils::{apply_thrice_nested_entropy, quantum_secure_hash, thrice_nested};
use crate::hashing::blake3_digest;
use crate::scale::{append_bytes, be8, u64_to_be_bytes};

verus! {

/// Community proposal structure.
#[derive(Clone, Debug, PartialEq, Eq)]
pub struct CommunityProposal {
    /// Proposal title
    pub title: Vec<u8>,
    /// Proposal description
    pub description: Vec<u8>,
    /// Requested funding amount
    pub funding_amount: u128,
    /// Proposal creator
    pub creator: BridgeAccountId,
    /// Target communities
    pub target_communities: Vec<Vec<u8>>,
    /// Sustainability metrics
    pub sustainability_metrics: Vec<(Vec<u8>, Vec<u8>)>,
    /// Source blockchain
    pub source_chain: BlockchainPlatform,
    /// Proposal ID on source chain
    pub source_id: Vec<u8>,
}

/// Food supply chain verification entry.
#[derive(Clone, Debug, PartialEq, Eq)]
pub struct SupplyChainEntry {
    /// Product identifier
    pub product_id: Vec<u8>,
    /// Producer identifier
    pub producer_id: Vec<u8>,
    /// Geographic location
    pub location: Vec<u8>,
    /// Timestamp of production
    pub timestamp: u64,
    /// Certification standards met
    pub certifications: Vec<Vec<u8>>,
    /// Supply chain stage
    pub stage: SupplyChainStage,
    /// Verification hash
    pub verification_hash: [u8; 32],
}

/// Supply chain stages for food products, in the order a product passes them.
#[derive(Clone, Copy, Debug, PartialEq, Eq, Structural)]
pub enum SupplyChainStage {
    /// Production stage
    Production,
    /// Processing stage
    Processing,
    /// Distribution stage
    Distribution,
    /// Retail stage
    Retail,
    /// Consumption stage
    Consumption,
}

/// The position of a stage in the chain, starting at 0 for production.
pub open spec fn stage_code(stage: SupplyChainStage) -> u8 {
    match stage {
        SupplyChainStage::Production => 0,
        SupplyChainStage::Processing => 1,
        SupplyChainStage::Distribution => 2,
        SupplyChainStage::Retail => 3,
        SupplyChainStage::Consumption => 4,
    }
}

/// The position of a stage in the chain.
pub fn stage_index(stage: SupplyChainStage) -> (code: u8)
    ensures
        code == stage_code(stage),
{
    match stage {
        SupplyChainStage::Production => 0,
        SupplyChainStage::Processing => 1,
        SupplyChainStage::Distribution => 2,
        SupplyChainStage::Retail => 3,
        SupplyChainStage::Consumption => 4,
    }
}

/// All the byte strings of a sequence, one after the other.
pub open spec fn joined(parts: Seq<Vec<u8>>) -> Seq<u8>
    decreases parts.len(),
{
    if parts.len() == 0 {
        Seq::empty()
    } else {
        joined(parts.drop_last()) + parts.last()@
    }
}

/// The bytes that a supply chain entry's verification hash covers: product, producer, location,
/// big-endian timestamp, every certification, and the stage's position.
pub open spec fn supply_chain_preimage(
    product_id: Seq<u8>,
    producer_id: Seq<u8>,
    location: Seq<u8>,
    timestamp: u64,
    certifications: Seq<Vec<u8>>,
    stage: SupplyChainStage,
) -> Seq<u8> {
    product_id + producer_id + location + be8(timestamp) + joined(certifications) + seq![stage_code(stage)]
}

/// The verification hash of a supply chain entry: BLAKE3 of the thrice-nested transformation of
/// its preimage.
pub open spec fn supply_chain_hash(
    product_id: Seq<u8>,
    producer_id: Seq<u8>,
    location: Seq<u8>,
    timestamp: u64,
    certifications: Seq<Vec<u8>>,
    stage: SupplyChainStage,
) -> Seq<u8> {
    blake3_digest(
        thrice_nested(supply_chain_preimage(product_id, producer_id, location, timestamp, certifications, stage)),
    )
}

/// Build the bytes that a supply chain entry's verification hash covers.
pub fn build_supply_chain_preimage(
    product_id: &[u8],
    producer_id: &[u8],
    location: &[u8],
    timestamp: u64,
    certifications: &Vec<Vec<u8>>,
    stage: SupplyChainStage,
) -> (data: Vec<u8>)
    ensures
        data@ == supply_chain_preimage(product_id@, producer_id@, location@, timestamp, certifications@, stage),
{
    let mut data: Vec<u8> = Vec::new();
    append_bytes(&mut data, product_id);
    append_bytes(&mut data, producer_id);
    append_bytes(&mut data, location);
    let ts = u64_to_be_bytes(timestamp);
    append_bytes(&mut data, ts.as_slice());
    let ghost head = data@;
    let mut i: usize = 0;
    while i < certifications.len()
        invariant
            0 <= i <= certifications@.len(),
            data@ == head + joined(certifications@.subrange(0, i as int)),
        decreases certifications@.len() - i,
    {
        append_bytes(&mut data, certifications[i].as_slice());
        i = i + 1;
        assert(certifications@.subrange(0, i as int).drop_last() =~= certifications@.subrange(0, i - 1));
    }
    assert(certifications@.subrange(0, certifications@.len() as int) =~= certifications@);
    data.push(stage_index(stage));
    data
}

/// The verification hash of a supply chain entry's fields.
pub fn supply_chain_verification_hash(
    product_id: &[u8],
    producer_id: &[u8],
    location: &[u8],
    timestamp: u64,
    certifications: &Vec<Vec<u8>>,
    stage: SupplyChainStage,
) -> (hash: [u8; 32])
    ensures
        hash@ == supply_chain_hash(product_id@, producer_id@, location@, timestamp, certifications@, stage),
{
    let mut data = build_supply_chain_preimage(product_id, producer_id, location, timestamp, certifications, stage);
    apply_thrice_nested_entropy(&mut data);
    quantum_secure_hash(data.as_slice())
}

/// Create a new community proposal for sustainable food initiatives. The proposal is recorded
/// as coming from Polkadot, with no target communities, metrics or source id.
pub fn create_proposal(
    title: Vec<u8>,
    description: Vec<u8>,
    funding_amount: u128,
    creator: BridgeAccountId,
    target_chain: BlockchainPlatform,
) -> (result: Result<CommunityProposal, &'static str>)
    ensures
        result matches Ok(p) && p.title == title && p.description == description
            && p.funding_amount == funding_amount && p.creator == creator
            && p.target_communities@.len() == 0 && p.sustainability_metrics@.len() == 0
            && p.source_chain == BlockchainPlatform::Polkadot && p.source_id@.len() == 0,
{
    Ok(CommunityProposal {
        title,
        description,
        funding_amount,
        creator,
        target_communities: Vec::new(),
        sustainability_metrics: Vec::new(),
        source_chain: BlockchainPlatform::Polkadot,
        source_id: Vec::new(),
    })
}

/// Register a supply chain entry with verification: the entry keeps its fields and carries the
/// verification hash computed from them.
pub fn register_supply_chain_entry(
    product_id: Vec<u8>,
    producer_id: Vec<u8>,
    location: Vec<u8>,
    timestamp: u64,
    certifications: Vec<Vec<u8>>,
    stage: SupplyChainStage,
) -> (result: Result<SupplyChainEntry, &'static str>)
    ensures
        result matches Ok(e) && e.product_id == product_id && e.producer_id == producer_id
            && e.location == location && e.timestamp == timestamp && e.certifications == certifications
            && e.stage == stage
            && e.verification_hash@ == supply_chain_hash(product_id@, producer_id@, location@, timestamp, certifications@, stage),
{
    let verification_hash = supply_chain_verification_hash(
        product_id.as_slice(),
        producer_id.as_slice(),
        location.as_slice(),
        timestamp,
        &certifications,
        stage,
    );
    Ok(SupplyChainEntry {
        product_id,
        producer_id,
        location,
        timestamp,
        certifications,
        stage,
        verification_hash,
    })
}

} // verus!
