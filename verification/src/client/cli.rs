//! The command line: `send` and `receive` with their options.
use vstd::prelude::*;

verus! {

/// The parsed command line.
#[derive(Debug)]
pub struct Cli {
    pub command: Commands,
}

/// The two commands.
#[derive(Debug)]
pub enum Commands {
    /// Send a file to another machine.
    Send {
        file: Option<String>,
        fast: bool,
        secure: bool,
        secure_blast: bool,
        qr: bool,
        clip: bool,
        global_qr: bool,
        relay: String,
    },
    /// Receive a file from another machine.
    Receive { identifier: Option<String>, code: Option<String>, clip: bool, relay: String },
}

} // verus!
