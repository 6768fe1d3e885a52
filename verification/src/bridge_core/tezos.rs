//! Implementation template for the Tezos bridge.
use vstd::prelude::*;
use crate::bridge_core::{BridgeConfig, BridgeMessage, BridgeResult, placeholder_bytes, placeholder_reference};
use crate::bridge_core::utils::ellipsis;
use crate::scale::{append_bytes, copy_range};

verus! {

/// Tezos-specific bridge configuration.
#[derive(Clone, Debug, PartialEq, Eq)]
pub struct TezosBridgeConfig {
    /// Base bridge configuration
    pub base_config: BridgeConfig,
    /// Tezos node RPC endpoint
    pub node_rpc: Vec<u8>,
    /// Bridge smart contract address (KT1...)
    pub contract_address: Vec<u8>,
    /// Admin key for the bridge
    pub admin_key: Option<Vec<u8>>,
}

/// Initialize the Tezos bridge module.
pub fn initialize(config: TezosBridgeConfig) -> (result: Result<(), &'static str>)
    ensures
        result is Ok,
{
    Ok(())
}

/// Send a message to Tezos blockchain; the template answers with the placeholder reference.
pub fn send_message(message: BridgeMessage) -> (result: Result<BridgeResult, &'static str>)
    ensures
        result matches Ok(BridgeResult::Success(r)) && r@ == placeholder_reference(),
{
    Ok(BridgeResult::Success(placeholder_bytes()))
}

/// Whether an address starts with one of the Tezos prefixes `tz1`, `tz2`, `tz3` or `KT1`.
pub open spec fn has_tezos_prefix(address: Seq<u8>) -> bool {
    address.len() >= 3 && (
        (address[0] == 116u8 && address[1] == 122u8 && (address[2] == 49u8 || address[2] == 50u8 || address[2] == 51u8))
        || (address[0] == 75u8 && address[1] == 84u8 && address[2] == 49u8)
    )
}

/// The display form of a Tezos address: a prefixed address longer than ten bytes keeps its
/// first six and last four bytes around `...`; anything else is shown as it is.
pub open spec fn tezos_display(address: Seq<u8>) -> Seq<u8> {
    if has_tezos_prefix(address) && address.len() > 10 {
        address.subrange(0, 6) + ellipsis() + address.subrange(address.len() - 4, address.len() as int)
    } else {
        address
    }
}

/// Format a Tezos address for display.
pub fn format_tezos_address(address: &[u8]) -> (display: Vec<u8>)
    ensures
        display@ == tezos_display(address@),
{
    if address.len() < 3 {
        return copy_range(address, 0, address.len());
    }
    let prefixed = (address[0] == 116u8 && address[1] == 122u8
        && (address[2] == 49u8 || address[2] == 50u8 || address[2] == 51u8))
        || (address[0] == 75u8 && address[1] == 84u8 && address[2] == 49u8);
    if prefixed && address.len() > 10 {
        let mut result = copy_range(address, 0, 6);
        let mut dots: Vec<u8> = Vec::new();
        dots.push(46u8);
        dots.push(46u8);
        dots.push(46u8);
        assert(dots@ =~= ellipsis());
        append_bytes(&mut result, dots.as_slice());
        let tail = copy_range(address, address.len() - 4, address.len());
        append_bytes(&mut result, tail.as_slice());
        result
    } else {
        let r = copy_range(address, 0, address.len());
        assert(address@.subrange(0, address@.len() as int) =~= address@);
        r
    }
}

} // verus!
