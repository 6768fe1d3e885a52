//! Humanity bridge implementation.
use vstd::prelude::*;
use crate::bridge_core::{BridgeAccountId, BridgeConfig, BridgeMessage, BridgeResult, placeholder_bytes, placeholder_reference};
use crate::bridge_core::utils::apply_thrice_nested_entropy;

verus! {

/// Humanity-specific bridge configuration.
#[derive(Clone, Debug, PartialEq, Eq)]
pub struct HumanityBridgeConfig {
    /// Base bridge configuration
    pub base_config: BridgeConfig,
    /// Humanity node endpoint
    pub node_endpoint: Vec<u8>,
    /// Bridge identifier (contract/program/application)
    pub bridge_id: Vec<u8>,
    /// Admin credentials for the bridge (optional)
    pub admin_credentials: Option<Vec<u8>>,
}

/// Initialize the Humanity bridge module.
pub fn initialize(config: HumanityBridgeConfig) -> (result: Result<(), &'static str>)
    ensures
        result is Ok,
{
    Ok(())
}

/// Send a message to the Humanity blockchain: the payload is put through the thrice-nested
/// transformation and the template answers with the placeholder reference.
pub fn send_message(message: BridgeMessage) -> (result: Result<BridgeResult, &'static str>)
    ensures
        result matches Ok(BridgeResult::Success(r)) && r@ == placeholder_reference(),
{
    let mut payload = message.payload.clone();
    apply_thrice_nested_entropy(&mut payload);
    Ok(BridgeResult::Success(placeholder_bytes()))
}

/// Process a message from the Humanity blockchain.
pub fn process_message(message: BridgeMessage) -> (result: Result<(), &'static str>)
    ensures
        result is Ok,
{
    Ok(())
}

/// Get the Humanity bridge status: always reachable in the template.
pub fn get_status() -> (result: Result<bool, &'static str>)
    ensures
        result == Ok::<bool, &'static str>(true),
{
    Ok(true)
}

/// Example community outreach function for Humanity: answers with the placeholder proposal id.
pub fn submit_sustainability_proposal(
    title: Vec<u8>,
    description: Vec<u8>,
    funding_amount: u128,
    creator: BridgeAccountId,
) -> (result: Result<Vec<u8>, &'static str>)
    ensures
        result matches Ok(id) && id@ == placeholder_reference(),
{
    Ok(placeholder_bytes())
}

} // verus!
