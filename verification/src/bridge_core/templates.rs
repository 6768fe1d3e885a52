//! Bridge templates for further chains, all built the same way.
pub mod polygon;
pub mod polkadot;
pub mod avalanche;
pub mod humanity;
