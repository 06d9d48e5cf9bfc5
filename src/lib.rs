//! A real-time notification hub for a password-vault sync server: a registry
//! of live push connections per user, the binary framing of update events, the
//! per-connection session state machine, and the fan-out of each update to the
//! connections of the users it concerns.

pub mod frame;
pub mod hub;
pub mod message;
pub mod number;
pub mod query;
pub mod registry;
pub mod session;
pub mod timestamp;
pub mod update;
