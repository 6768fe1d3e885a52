//! Core components for bridging to external blockchains: platforms, accounts, messages and
//! bridge configuration.
use vstd::prelude::*;
use crate::keyed_map::StorageKey;

pub mod utils;
pub mod encoding;
pub mod community;
pub mod tezos;
pub mod algorand;
pub mod solana;
pub mod templates;

verus! {

/// Supported blockchain platforms for bridging.
#[derive(Clone, Copy, PartialEq, Eq, Structural, Debug)]
pub enum BlockchainPlatform {
    /// Tezos blockchain (XTZ)
    Tezos,
    /// Algorand blockchain (ALGO)
    Algorand,
    /// Solana blockchain (SOL)
    Solana,
    /// Cardano blockchain (ADA)
    Cardano,
    /// Polkadot ecosystem parachains
    Polkadot,
    /// Ethereum and EVM-compatible chains
    Ethereum,
    /// Bitcoin
    Bitcoin,
    /// Cosmos ecosystem
    Cosmos,
    /// Near Protocol
    Near,
    /// Avalanche
    Avalanche,
    /// Custom blockchain (requires adapter implementation)
    Custom(u32),
}

impl View for BlockchainPlatform {
    type V = BlockchainPlatform;

    open spec fn view(&self) -> BlockchainPlatform {
        *self
    }
}

impl StorageKey for BlockchainPlatform {
    fn key_eq(&self, other: &Self) -> (same: bool) {
        *self == *other
    }

    fn key_clone(&self) -> (copy: Self) {
        *self
    }
}

/// Bridge account identifier for external blockchains.
#[derive(Clone, Debug, PartialEq, Eq)]
pub enum BridgeAccountId {
    /// Tezos account (tz1, tz2, tz3, KT1)
    Tezos(Vec<u8>),
    /// Algorand account (58 characters)
    Algorand(Vec<u8>),
    /// Solana account (Base58 pubkey)
    Solana(Vec<u8>),
    /// Cardano account (Bech32 address)
    Cardano(Vec<u8>),
    /// Substrate-based account (SS58)
    Substrate(Vec<u8>),
    /// Ethereum address (hex)
    Ethereum(Vec<u8>),
    /// Bitcoin address
    Bitcoin(Vec<u8>),
    /// Cosmos address (Bech32)
    Cosmos(Vec<u8>),
    /// Near account
    Near(String),
    /// Avalanche address
    Avalanche(Vec<u8>),
    /// Custom format
    Custom(Vec<u8>),
}

/// The position of an account's variant in the declaration (its SCALE variant index) and the
/// bytes that the variant holds (a Near account name in UTF-8).
pub open spec fn account_parts(account: BridgeAccountId) -> (u8, Seq<u8>) {
    match account {
        BridgeAccountId::Tezos(a) => (0u8, a@),
        BridgeAccountId::Algorand(a) => (1u8, a@),
        BridgeAccountId::Solana(a) => (2u8, a@),
        BridgeAccountId::Cardano(a) => (3u8, a@),
        BridgeAccountId::Substrate(a) => (4u8, a@),
        BridgeAccountId::Ethereum(a) => (5u8, a@),
        BridgeAccountId::Bitcoin(a) => (6u8, a@),
        BridgeAccountId::Cosmos(a) => (7u8, a@),
        BridgeAccountId::Near(s) => (8u8, vstd::utf8::encode_utf8(s@)),
        BridgeAccountId::Avalanche(a) => (9u8, a@),
        BridgeAccountId::Custom(a) => (10u8, a@),
    }
}

/// Two accounts of the same variant holding the same bytes.
pub open spec fn same_account(a: BridgeAccountId, b: BridgeAccountId) -> bool {
    account_parts(a) == account_parts(b) && (a is Near <==> b is Near)
}

/// Bridge message types for cross-chain communication.
#[derive(Clone, Copy, PartialEq, Eq, Structural, Debug)]
pub enum BridgeMessageType {
    /// Asset transfer request
    AssetTransfer,
    /// Contract call
    ContractCall,
    /// Data attestation (for supply chain verification)
    DataAttestation,
    /// Governance proposal
    GovernanceProposal,
    /// Grant or funding allocation
    FundingAllocation,
    /// Community voting
    CommunityVote,
    /// Food supply chain update
    SupplyChainUpdate,
    /// Sustainability certification
    SustainabilityCert,
    /// Custom message type
    Custom(u32),
}

/// Bridge message payload with quantum security wrapper.
#[derive(Clone, Debug, PartialEq, Eq)]
pub struct BridgeMessage {
    /// Source blockchain platform
    pub source: BlockchainPlatform,
    /// Target blockchain platform
    pub target: BlockchainPlatform,
    /// Message type
    pub message_type: BridgeMessageType,
    /// Sender account on source chain
    pub sender: BridgeAccountId,
    /// Recipient account on target chain
    pub recipient: BridgeAccountId,
    /// Message payload
    pub payload: Vec<u8>,
    /// Quantum-secure hash using BLAKE3
    pub quantum_hash: [u8; 32],
    /// Timestamp (if available from source chain)
    pub timestamp: Option<u64>,
    /// Nonce to prevent replay attacks
    pub nonce: u64,
}

/// Bridge configuration for a specific blockchain platform.
#[derive(Clone, Debug, PartialEq, Eq)]
pub struct BridgeConfig {
    /// Target blockchain platform
    pub platform: BlockchainPlatform,
    /// Bridge endpoint URL (if applicable)
    pub endpoint: Option<Vec<u8>>,
    /// Bridge contract address (if applicable)
    pub contract_address: Option<Vec<u8>>,
    /// Maximum message size
    pub max_message_size: u32,
    /// Required confirmations for finality
    pub required_confirmations: u32,
    /// Whether the bridge is active
    pub active: bool,
    /// Fee model configuration
    pub fee_model: BridgeFeeModel,
    /// Security level configuration
    pub security_config: SecurityConfig,
}

/// Fee model for bridge operations.
#[derive(Clone, Debug, PartialEq, Eq)]
pub enum BridgeFeeModel {
    /// Fixed fee per operation
    Fixed(u128),
    /// Percentage-based fee, in basis points (1/100 of a percent)
    Percentage(u32),
    /// Tiered fee structure: tier threshold and fee pairs
    Tiered(Vec<(u128, u128)>),
    /// No fee
    NoFee,
}

/// Security configuration for the bridge.
#[derive(Clone, Copy, Debug, PartialEq, Eq, Structural)]
pub struct SecurityConfig {
    /// Whether to use quantum-secure communication
    pub use_quantum_security: bool,
    /// Required number of validator signatures
    pub required_validators: u32,
    /// Entropy protocol to use
    pub entropy_protocol: EntropyProtocol,
    /// Challenge-response timeout in blocks
    pub challenge_timeout: u32,
}

/// Entropy protocol options for quantum security.
#[derive(Clone, Copy, Debug, PartialEq, Eq, Structural)]
pub enum EntropyProtocol {
    /// Standard entropy (single layer)
    Standard,
    /// Dual entropy
    Dual,
    /// Thrice-nested entropy (Fe-Ni-Co layers)
    ThriceNested,
    /// Thrice-nested with stereo channels (the default)
    ThriceNestedStereo,
}

/// Bridge operation result.
#[derive(Clone, Debug, PartialEq, Eq)]
pub enum BridgeResult {
    /// Operation succeeded with transaction hash
    Success(Vec<u8>),
    /// Operation pending with reference ID
    Pending(Vec<u8>),
    /// Operation failed with error message
    Failed(Vec<u8>),
}

/// Trait for blockchain-specific bridge implementations.
pub trait BlockchainBridge {
    /// Initialize the bridge for a specific blockchain.
    fn initialize(config: BridgeConfig) -> Result<(), &'static str>;

    /// Send a message to the target blockchain.
    fn send_message(message: BridgeMessage) -> Result<BridgeResult, &'static str>;

    /// Verify and process an incoming message from the source blockchain.
    fn process_message(message: BridgeMessage) -> Result<(), &'static str>;

    /// Get the current status of the bridge.
    fn get_status() -> Result<bool, &'static str>;

    /// Update the bridge configuration.
    fn update_config(config: BridgeConfig) -> Result<(), &'static str>;
}

/// The placeholder transaction reference that the bridge templates hand back.
pub open spec fn placeholder_reference() -> Seq<u8> {
    seq![0u8, 1u8, 2u8, 3u8]
}

/// The placeholder transaction reference `[0, 1, 2, 3]`.
pub fn placeholder_bytes() -> (bytes: Vec<u8>)
    ensures
        bytes@ == placeholder_reference(),
{
    let mut bytes: Vec<u8> = Vec::new();
    bytes.push(0);
    bytes.push(1);
    bytes.push(2);
    bytes.push(3);
    assert(bytes@ =~= placeholder_reference());
    bytes
}

} // verus!
