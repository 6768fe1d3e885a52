//! Verified runtime logic for quantum-secured cross-chain bridging.
use vstd::prelude::*;

pub mod hashing;
pub mod scale;
pub mod bridge_core;
pub mod keyed_map;
pub mod byte_order;
pub mod storage_map;
pub mod weights;
pub mod runtime;
pub mod quantum_channel;
pub mod quantum_cipher;
pub mod quantum_xcmp;
pub mod bridge_hub;
pub mod eigenlayer;
pub mod liquidity;
pub mod oracle;
pub mod rpc_q999;
pub mod gossip;

verus! {

} // verus!
