//! Room-scoped pub/sub gateway: connection admission, room lifecycle and the
//! per-connection session protocol, with their contracts proved by Verus.
pub mod admission;
pub mod registry;
pub mod session;
pub mod token;
