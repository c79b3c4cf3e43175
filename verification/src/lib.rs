//! Secure-pairing and session core of a peer-to-peer messenger over a
//! short-range wireless link.
//!
//! The library owns the logic that is worth proving: the pairing state
//! machine with fingerprint and PIN derivation, the encrypted session with
//! its framing and nonce discipline, the file-transfer state machine, the
//! peer registry and conversation store, and the error taxonomy. Platform
//! I/O (the Bluetooth stack, the on-disk database, the settings file) stays
//! outside and talks to this crate through plain values.

pub mod bluetooth;
pub mod crypto;
pub mod errors;
pub mod events;
pub mod manager;
pub mod pairing;
pub mod session;
pub mod settings;
pub mod store;
pub mod transfer;
pub mod wire;

