//! A verified core for a peer-to-peer file drop: the relay's session
//! bookkeeping and protocol decisions, and the client's planning, framing
//! and formatting rules.
pub mod client;
pub mod relay;
pub mod text;
pub mod web;
