//! The rules of a transfer: where the relay's HTTP side is, what the
//! received file is called, how encrypted chunks are framed, and when a
//! download from the relay is retried.
use vstd::prelude::*;

use crate::text::{
    dec, ends_with, has_suffix, owned, push_decimal, push_str, split, split_seq, str_eq,
};

verus! {

/// The base URL of the relay's HTTP side, from its `host:port` address:
/// `https://host` for hosts under `fly.dev` or `fly.io`, `http://host:port`
/// for the local machine, and `http://` before the whole address otherwise.
pub open spec fn http_base(relay: Seq<char>) -> Seq<char> {
    let pieces = split_seq(relay, ":"@);
    let host = pieces[0];
    let port = if pieces.len() > 1 {
        pieces[1]
    } else {
        ""@
    };
    if has_suffix(host, "fly.dev"@) || has_suffix(host, "fly.io"@) {
        "https://"@ + host
    } else if host == "127.0.0.1"@ || host == "localhost"@ {
        "http://"@ + host + ":"@ + port
    } else {
        "http://"@ + relay
    }
}

/// The base URL of the relay's HTTP side (see [`http_base`]).
pub fn http_base_from_relay(relay: &str) -> (r: String)
    ensures
        r@ == http_base(relay@),
{
    proof {
        reveal_strlit(":");
        crate::relay::http::lemma_split_nonempty(relay@, ":"@);
    }
    let pieces = split(relay, ":");
    let host = pieces[0].clone();
    let port = if pieces.len() > 1 {
        pieces[1].clone()
    } else {
        owned("")
    };
    if ends_with(host.as_str(), "fly.dev") || ends_with(host.as_str(), "fly.io") {
        let mut s = owned("https://");
        push_str(&mut s, host.as_str());
        s
    } else if str_eq(host.as_str(), "127.0.0.1") || str_eq(host.as_str(), "localhost") {
        let mut s = owned("http://");
        push_str(&mut s, host.as_str());
        push_str(&mut s, ":");
        push_str(&mut s, port.as_str());
        s
    } else {
        let mut s = owned("http://");
        push_str(&mut s, relay);
        s
    }
}

/// The URL to which a file for `session_id` is uploaded.
pub open spec fn upload_url_text(relay: Seq<char>, session_id: Seq<char>) -> Seq<char> {
    http_base(relay) + "/upload/"@ + session_id
}

/// The URL from which the file of `session_id` is downloaded, with the
/// code, if any, as a query.
pub open spec fn download_url_text(
    relay: Seq<char>,
    session_id: Seq<char>,
    code: Option<Seq<char>>,
) -> Seq<char> {
    http_base(relay) + "/dl/"@ + session_id + match code {
        Some(c) => "?code="@ + c,
        None => ""@,
    }
}

/// The URL to which a file for `session_id` is uploaded.
pub fn upload_url(relay: &str, session_id: &str) -> (r: String)
    ensures
        r@ == upload_url_text(relay@, session_id@),
{
    let mut s = http_base_from_relay(relay);
    push_str(&mut s, "/upload/");
    push_str(&mut s, session_id);
    s
}

/// The URL from which the file of `session_id` is downloaded.
pub fn download_url(relay: &str, session_id: &str, code: Option<&str>) -> (r: String)
    ensures
        r@ == download_url_text(
            relay@,
            session_id@,
            match code {
                Some(c) => Some(c@),
                None => None,
            },
        ),
{
    let mut s = http_base_from_relay(relay);
    push_str(&mut s, "/dl/");
    push_str(&mut s, session_id);
    match code {
        Some(c) => {
            let mut q = owned("?code=");
            push_str(&mut q, c);
            push_str(&mut s, q.as_str());
        },
        None => {
            push_str(&mut s, "");
        },
    }
    s
}

/// Where a received file is written.
pub fn received_path(filename: &str) -> (r: String)
    ensures
        r@ == "received_"@ + filename@,
{
    let mut s = owned("received_");
    push_str(&mut s, filename);
    s
}

/// Whether a session's mode encrypts the stream.
pub fn is_secure_mode(mode: &str) -> (r: bool)
    ensures
        r == (mode@ == "secure"@ || mode@ == "blast"@),
{
    str_eq(mode, "secure") || str_eq(mode, "blast")
}

/// The address at which the sender's listener is announced: its public
/// address (or `127.0.0.1` when that is unknown) and the port.
pub fn p2p_addr(public_ip: Option<String>, port: u16) -> (r: String)
    ensures
        r@ == match public_ip {
            Some(ip) => ip@,
            None => "127.0.0.1"@,
        } + ":"@ + dec(port as nat),
{
    let mut s = match public_ip {
        Some(ip) => ip,
        None => owned("127.0.0.1"),
    };
    push_str(&mut s, ":");
    push_decimal(&mut s, port as u64);
    s
}

/// The little-endian bytes of a frame's length as a `u32` (lengths wrap
/// at 2^32, as `len as u32` does).
pub open spec fn frame_len_bytes(len: nat) -> Seq<u8> {
    let x = len % 0x1_0000_0000;
    seq![(x % 256) as u8, ((x / 256) % 256) as u8, ((x / 65536) % 256) as u8, (x / 16777216) as u8]
}

/// The number that four little-endian bytes spell.
pub open spec fn le_u32_value(b: Seq<u8>) -> nat {
    b[0] as nat + 256 * b[1] as nat + 65536 * b[2] as nat + 16777216 * b[3] as nat
}

/// The length prefix of an encrypted frame.
pub fn frame_header(len: usize) -> (r: [u8; 4])
    ensures
        r@ == frame_len_bytes(len as nat),
{
    let x: u64 = (len as u64) % 0x1_0000_0000;
    let r = [(x % 256) as u8, ((x / 256) % 256) as u8, ((x / 65536) % 256) as u8, (x / 16777216) as u8];
    assert(r@ =~= frame_len_bytes(len as nat));
    r
}

/// The frame length that a length prefix gives.
pub fn frame_len(b: [u8; 4]) -> (r: usize)
    ensures
        r as nat == le_u32_value(b@),
{
    let v: u32 = b[0] as u32 + 256 * (b[1] as u32) + 65536 * (b[2] as u32) + 16777216 * (b[3] as u32);
    v as usize
}

/// What the receiver does after asking the relay for the file.
#[derive(Debug, Clone, Copy, PartialEq, Eq, Structural)]
pub enum DownloadStep {
    /// A success status: save the body.
    Save,
    /// Not there yet (404): wait and ask again.
    Retry,
    /// Any other status: give up.
    Fail,
}

/// A 2xx status saves, 404 retries, anything else fails.
pub open spec fn download_step_for(status: u16) -> DownloadStep {
    if 200 <= status <= 299 {
        DownloadStep::Save
    } else if status == 404 {
        DownloadStep::Retry
    } else {
        DownloadStep::Fail
    }
}

/// Decides what a status from the relay means for a download.
pub fn download_step(status: u16) -> (r: DownloadStep)
    ensures
        r == download_step_for(status),
{
    if 200 <= status && status <= 299 {
        DownloadStep::Save
    } else if status == 404 {
        DownloadStep::Retry
    } else {
        DownloadStep::Fail
    }
}

/// How long a download from the relay may keep retrying, in seconds.
pub const RELAY_DOWNLOAD_LIMIT_SECS: u64 = 120;

/// Whether `secs` seconds and `nanos` nanoseconds exceed the limit.
pub fn download_deadline_passed(secs: u64, nanos: u32) -> (r: bool)
    ensures
        r == (secs > RELAY_DOWNLOAD_LIMIT_SECS || (secs == RELAY_DOWNLOAD_LIMIT_SECS && nanos
            > 0)),
{
    secs > RELAY_DOWNLOAD_LIMIT_SECS || (secs == RELAY_DOWNLOAD_LIMIT_SECS && nanos > 0)
}

/// How a file travels once the sender has waited for the receiver.
#[derive(Debug, Clone, Copy, PartialEq, Eq, Structural)]
pub enum Link {
    /// The receiver connected: stream the file directly.
    Direct,
    /// No connection in time (NAT): go through the relay.
    Relay,
}

/// The sender streams directly when the receiver connected within the
/// wait, and through the relay otherwise.
pub fn link_after_wait(connected: bool) -> (r: Link)
    ensures
        r == if connected {
            Link::Direct
        } else {
            Link::Relay
        },
{
    if connected {
        Link::Direct
    } else {
        Link::Relay
    }
}

/// The address to connect to: the one the sender announced; a session
/// whose sender has not announced one yet cannot be received from.
pub fn sender_address(sender_addr: Option<String>) -> (r: Result<String, String>)
    ensures
        match sender_addr {
            Some(a) => (r matches Ok(x) && x@ == a@),
            None => (r matches Err(e) && e@ == "Sender not ready yet"@),
        },
{
    match sender_addr {
        Some(a) => Ok(a),
        None => Err(owned("Sender not ready yet")),
    }
}

/// The key that opens the stream: an encrypted mode needs one, and a
/// plain mode reads the stream as it is, whatever key was given.
pub fn stream_key(mode: &str, key: Option<[u8; 32]>) -> (r: Result<Option<[u8; 32]>, String>)
    ensures
        (mode@ == "secure"@ || mode@ == "blast"@) ==> match key {
            Some(k) => r == Ok::<Option<[u8; 32]>, String>(Some(k)),
            None => (r matches Err(e) && e@ == "encryption key required for secure mode"@),
        },
        !(mode@ == "secure"@ || mode@ == "blast"@) ==> r == Ok::<Option<[u8; 32]>, String>(None),
{
    if is_secure_mode(mode) {
        match key {
            Some(k) => Ok(Some(k)),
            None => Err(owned("encryption key required for secure mode")),
        }
    } else {
        Ok(None)
    }
}

} // verus!
