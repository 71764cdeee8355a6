//! The sending and receiving client: its planning, framing and formatting
//! rules.
pub mod helpers;
pub mod protocol;
pub mod pipeline;
pub mod commands;
pub mod qr_server;
pub mod ui;
pub mod clipboard;
pub mod cli;
pub mod cipher;
pub mod laws;
