//! Device synchronisation: connection policy, encrypted deltas and device
//! pairing.

pub mod client;
pub mod encryption;
pub mod key_exchange;
