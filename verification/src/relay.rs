//! The relay server: session bookkeeping, the signalling protocol and the
//! HTTP download endpoint.
pub mod store;
pub mod session;
pub mod protocol;
pub mod http;
pub mod laws;
