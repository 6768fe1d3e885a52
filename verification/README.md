# quantum_bridge

Verified runtime logic for quantum-secured cross-chain bridging: bridge channels with rotating
quantum keys, cross-chain message routing, community proposals and food supply chain
verification, quantum-secure parachain messaging, restaking, liquidity pools, a daemonless
oracle, Actorx tokens and the forwarding decisions of a gossip engine.

Every function in `src/` is proved with Verus against its `requires`/`ensures` contract.
Each pallet's storage is a plain struct (`BridgeHub`, `QuantumMessaging`, `Eigenlayer`,
`Liquidity`, `Oracle`, `RpcQ999`) whose calls take the origin and return the dispatch result;
what the runtime around it decides (a currency transfer, a random key pair, the current time)
is handed in as an argument.

Layout:

- `src/bridge_core/` – platforms, accounts, messages, their SCALE encoding, the thrice-nested
  entropy transformation and the per-chain bridge templates.
- `src/bridge_hub.rs`, `src/quantum_xcmp.rs`, `src/eigenlayer.rs`, `src/liquidity.rs`,
  `src/oracle.rs`, `src/rpc_q999.rs` – the pallets.
- `src/gossip.rs` – the gossip engine's forwarding state machine.
- `src/keyed_map.rs`, `src/storage_map.rs`, `src/byte_order.rs` – verified maps; a
  `StorageMap` walks its keys in the order of their `Blake2_128Concat` storage keys.
- `src/hashing.rs`, `src/scale.rs` – the calls into `blake3`, `sp-crypto-hashing` and
  `parity-scale-codec`, with their contracts.
- `app/` – the floating-point quantum state and SCALE decoding of received payloads.
- `tests/` – tests of the library.
