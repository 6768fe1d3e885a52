//! Implementation template for the Algorand bridge.
use vstd::prelude::*;
use crate::bridge_core::{BridgeConfig, BridgeMessage, BridgeResult, placeholder_bytes, placeholder_reference};

verus! {

/// Algorand-specific bridge configuration.
#[derive(Clone, Debug, PartialEq, Eq)]
pub struct AlgorandBridgeConfig {
    /// Base bridge configuration
    pub base_config: BridgeConfig,
    /// Algorand node endpoint
    pub node_endpoint: Vec<u8>,
    /// Application ID for the bridge
    pub application_id: u64,
    /// Admin account for the bridge
    pub admin_account: Option<Vec<u8>>,
}

/// Initialize the Algorand bridge module.
pub fn initialize(config: AlgorandBridgeConfig) -> (result: Result<(), &'static str>)
    ensures
        result is Ok,
{
    Ok(())
}

/// Send a message to the Algorand blockchain; the template answers with the placeholder reference.
pub fn send_message(message: BridgeMessage) -> (result: Result<BridgeResult, &'static str>)
    ensures
        result matches Ok(BridgeResult::Success(r)) && r@ == placeholder_reference(),
{
    Ok(BridgeResult::Success(placeholder_bytes()))
}

} // verus!
