//! Quantum-secure channel primitives for parachains: channel records, keys, messages, and the
//! byte side of quantum-state entropy.
use vstd::prelude::*;
use crate::bridge_core::utils::{apply_thrice_nested_entropy, thrice_nested};
use crate::hashing::{blake3_digest, blake3_hash};

verus! {

/// A parachain identifier.
pub type ParaId = u32;

/// Quantum channel status information.
#[derive(Clone, Copy, Debug, PartialEq, Eq, Structural)]
pub enum QuantumChannelStatus {
    /// Channel is ready for quantum-secure communication.
    Ready,
    /// Channel is in the process of establishing quantum keys.
    EstablishingKeys,
    /// Channel has failed to establish quantum keys.
    Failed,
}

/// Information about a quantum channel.
#[derive(Clone, Copy, Debug, PartialEq, Eq, Structural)]
pub struct QuantumChannelInfo {
    /// The parachain this channel connects to.
    pub para_id: ParaId,
    /// Current status of the quantum channel.
    pub status: QuantumChannelStatus,
    /// Maximum message size for this channel.
    pub max_message_size: u32,
    /// Number of quantum keys currently available.
    pub available_keys: u32,
}

/// A quantum-secure message for cross-chain message passing.
#[derive(Clone, Debug, PartialEq, Eq)]
pub struct QuantumSecureXcmpMessage {
    /// The destination parachain.
    pub destination: ParaId,
    /// The encrypted message data.
    pub encrypted_data: Vec<u8>,
    /// Quantum cryptographic verification tag.
    pub quantum_tag: [u8; 32],
}

/// Quantum key distribution protocol identifiers.
#[derive(Clone, Copy, Debug, PartialEq, Eq, Structural)]
pub enum QuantumProtocol {
    /// BB84 protocol.
    BB84,
    /// E91 protocol.
    E91,
    /// Thrice-nested entropy protocol with stereo channels.
    ThriceNestedStereo,
}

/// Quantum channel key - a quantum-derived key for secure communication.
#[derive(Clone, Debug, PartialEq, Eq)]
pub struct QuantumChannelKey {
    /// Key identifier.
    pub id: [u8; 32],
    /// The quantum-derived key material.
    pub key_material: Vec<u8>,
    /// Protocol used to generate this key.
    pub protocol: QuantumProtocol,
    /// Quantum state signature.
    pub quantum_signature: Vec<u8>,
}

/// Why a cross-chain message could not be handled.
#[derive(Clone, Copy, Debug, PartialEq, Eq, Structural)]
pub enum MessageSendError {
    /// The queue is full.
    QueueFull,
    /// There is no open channel.
    ChannelClosed,
    /// The message is too big.
    TooBig,
    /// Some other error.
    Other,
    /// There are too many channels open at once.
    TooManyChannels,
    /// No key of the channel matches the message.
    NotInChannelMask,
    /// The service cannot answer right now.
    TemporarilyUnavailable,
}

/// Interface for handling quantum-secure cross-chain messages. A handler keeps its storage
/// consistent (`handler_wf`) across calls; state bytes are the amplitude bytes of the quantum
/// state from which keys are drawn (empty, or at least 32 bytes).
pub trait QuantumXcmpMessageHandler {
    /// The handler's storage is consistent.
    spec fn handler_wf(&self) -> bool;

    /// What establishing a channel with `target` from `state_bytes` does: the handler goes
    /// from `self` to `after` and answers `result`.
    spec fn channel_established(
        &self,
        after: &Self,
        target: ParaId,
        state_bytes: Seq<u8>,
        result: Result<QuantumChannelInfo, MessageSendError>,
    ) -> bool;

    /// What generating a key for the channel with `target` under `protocol` from `state_bytes`
    /// does: the handler goes from `self` to `after` and answers `result`.
    spec fn key_generated(
        &self,
        after: &Self,
        target: ParaId,
        protocol: QuantumProtocol,
        state_bytes: Seq<u8>,
        result: Result<QuantumChannelKey, MessageSendError>,
    ) -> bool;

    /// Process a quantum-secure message.
    fn handle_quantum_xcmp_message(
        &mut self,
        source: ParaId,
        message: QuantumSecureXcmpMessage,
    ) -> (result: Result<(), MessageSendError>)
        requires
            old(self).handler_wf(),
        ensures
            final(self).handler_wf(),
    ;

    /// Establish a quantum-secure channel with another parachain.
    fn establish_quantum_channel(
        &mut self,
        target: ParaId,
        state_bytes: &[u8],
    ) -> (result: Result<QuantumChannelInfo, MessageSendError>)
        requires
            old(self).handler_wf(),
            state_bytes@.len() == 0 || state_bytes@.len() >= 32,
        ensures
            final(self).handler_wf(),
            old(self).channel_established(final(self), target, state_bytes@, result),
    ;

    /// Generate a new quantum key for a channel.
    fn generate_quantum_key(
        &mut self,
        target: ParaId,
        protocol: QuantumProtocol,
        state_bytes: &[u8],
    ) -> (result: Result<QuantumChannelKey, MessageSendError>)
        requires
            old(self).handler_wf(),
            state_bytes@.len() == 0 || state_bytes@.len() >= 32,
        ensures
            final(self).handler_wf(),
            old(self).key_generated(final(self), target, protocol, state_bytes@, result),
    ;
}

/// The dimension of the quantum state that a protocol prepares.
pub open spec fn dimension_of(protocol: QuantumProtocol) -> usize {
    match protocol {
        QuantumProtocol::BB84 => 2,
        QuantumProtocol::E91 => 3,
        QuantumProtocol::ThriceNestedStereo => 4,
    }
}

/// The dimension of the quantum state that a protocol prepares.
pub fn protocol_dimension(protocol: QuantumProtocol) -> (dimension: usize)
    ensures
        dimension == dimension_of(protocol),
{
    match protocol {
        QuantumProtocol::BB84 => 2,
        QuantumProtocol::E91 => 3,
        QuantumProtocol::ThriceNestedStereo => 4,
    }
}

/// The entropy bytes of a quantum state, from the little-endian bytes of its amplitudes
/// (real part, then imaginary part, for each amplitude in turn): the thrice-nested
/// transformation of those bytes.
pub fn entropy_from_state_bytes(state_bytes: Vec<u8>) -> (entropy: Vec<u8>)
    ensures
        entropy@ == thrice_nested(state_bytes@),
{
    let mut result = state_bytes;
    apply_thrice_nested_entropy(&mut result);
    result
}

/// Generate a quantum-secure hash using BLAKE3.
pub fn quantum_secure_hash(data: &[u8]) -> (digest: [u8; 32])
    ensures
        digest@ == blake3_digest(data@),
{
    blake3_hash(data)
}

} // verus!
