//! The control plane of a peer-to-peer attestation node: the wire codec for
//! signed attestation messages and batches, the signing identity and the
//! periodic heartbeat producer, the aggregation buffer with its
//! verify-and-append and flush operations, the bounded inbound distribution
//! channel, and the reactor's dispatch rules.  Network transport, timers and
//! process wiring live outside the library and drive it through these types.

pub mod attestation;
pub mod b64;
pub mod codec;
pub mod craig;
pub mod crypto;
pub mod genesis;
pub mod hub;
pub mod jsontext;
pub mod net;
pub mod numtext;
