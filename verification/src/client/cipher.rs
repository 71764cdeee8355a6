//! The encryption of the secure and blast modes: a key derived from the
//! code with SHA-256, and each chunk of the file sealed with AES-256-GCM
//! under a fresh random nonce, in a frame of its own.
use aes_gcm::aead::{Aead, KeyInit};
use aes_gcm::{Aes256Gcm, Key, Nonce};
use rand::RngCore;
use sha2::{Digest, Sha256};
use vstd::prelude::*;

use crate::client::pipeline::{frame_len, frame_len_bytes, le_u32_value};
use crate::text::owned;

verus! {

/// The length of an AES-GCM nonce, in bytes.
pub const NONCE_LEN: usize = 12;

/// The length of an AES-GCM tag, in bytes.
pub const TAG_LEN: usize = 16;

/// The longest plaintext that AES-GCM seals, in bytes (`aes_gcm::P_MAX`).
pub const SEAL_MAX: u64 = 0x10_0000_0000;

/// The SHA-256 digest of `data`.
pub uninterp spec fn sha256(data: Seq<u8>) -> Seq<u8>;

/// The sealed form (ciphertext, then tag) of `plaintext` under `key` and
/// `nonce`, as AES-256-GCM computes it with no associated data.
pub uninterp spec fn gcm_seal(key: Seq<u8>, nonce: Seq<u8>, plaintext: Seq<u8>) -> Seq<u8>;

/// What AES-256-GCM opens `sealed` to under `key` and `nonce`: the
/// plaintext, or nothing when the tag does not match.
pub uninterp spec fn gcm_open(key: Seq<u8>, nonce: Seq<u8>, sealed: Seq<u8>) -> Option<Seq<u8>>;

/// `Sha256::digest` (sha2): the 32-byte SHA-256 digest of `data`. Claimed:
/// the digest depends on the data alone (named by [`sha256`]); its 32
/// bytes are fixed by the array type.
#[verifier::external_body]
fn sha256_digest(data: &[u8]) -> (r: [u8; 32])
    ensures
        r@ == sha256(data@),
{
    Sha256::digest(data).into()
}

/// `Aes256Gcm::encrypt` (aes-gcm, through `aead::Aead`): seals `plaintext`
/// under `key` and `nonce`. Claimed, from the source: it fails exactly when
/// the plaintext is longer than `P_MAX` (2^36 bytes); otherwise the result
/// is the plaintext's length plus the 16-byte tag, depends on the three
/// arguments alone (named by [`gcm_seal`]), and opens under the same key
/// and nonce to the plaintext again, which is what AES-GCM is for.
#[verifier::external_body]
fn seal(key: &[u8; 32], nonce: &[u8; 12], plaintext: &[u8]) -> (r: Option<Vec<u8>>)
    ensures
        r is Some <==> plaintext@.len() <= SEAL_MAX,
        r matches Some(c) ==> {
            &&& c@ == gcm_seal(key@, nonce@, plaintext@)
            &&& c@.len() == plaintext@.len() + TAG_LEN
            &&& gcm_open(key@, nonce@, c@) == Some(plaintext@)
        },
{
    let cipher = Aes256Gcm::new(Key::<Aes256Gcm>::from_slice(key));
    cipher.encrypt(Nonce::from_slice(nonce), plaintext).ok()
}

/// `Aes256Gcm::decrypt` (aes-gcm, through `aead::Aead`): opens `sealed`
/// under `key` and `nonce` (which must be 12 bytes: `Nonce::from_slice`
/// panics otherwise). Claimed: the result depends on the three arguments
/// alone (named by [`gcm_open`]); the source refuses a text shorter than
/// the tag, and a plaintext it gives back is the text without its tag.
#[verifier::external_body]
fn open(key: &[u8; 32], nonce: &[u8], sealed: &[u8]) -> (r: Option<Vec<u8>>)
    requires
        nonce@.len() == NONCE_LEN,
    ensures
        match r {
            Some(p) => gcm_open(key@, nonce@, sealed@) == Some(p@),
            None => gcm_open(key@, nonce@, sealed@) is None,
        },
        sealed@.len() < TAG_LEN ==> r is None,
        r matches Some(p) ==> p@.len() + TAG_LEN == sealed@.len(),
{
    let cipher = Aes256Gcm::new(Key::<Aes256Gcm>::from_slice(key));
    cipher.decrypt(Nonce::from_slice(nonce), sealed).ok()
}

/// `rand::thread_rng().fill_bytes`: twelve random bytes for a nonce.
/// Nothing is claimed of them.
#[verifier::external_body]
fn random_nonce() -> (n: [u8; 12]) {
    let mut n = [0u8; 12];
    rand::thread_rng().fill_bytes(&mut n);
    n
}

/// The key of an encrypted transfer: the SHA-256 digest of the code's
/// UTF-8 bytes.
pub fn derive_key(code: &str) -> (k: [u8; 32])
    ensures
        k@ == sha256(vstd::utf8::encode_utf8(code@)),
{
    sha256_digest(code.as_bytes())
}

/// Why a chunk could not be sealed or opened.
#[derive(Debug, Clone, Copy, PartialEq, Eq, Structural)]
pub enum CryptoError {
    /// The chunk is too long for AES-GCM.
    Encrypt,
    /// The frame is shorter than a nonce.
    FrameTooShort,
    /// The tag does not match: a wrong code or damaged data.
    Decrypt,
}

impl CryptoError {
    /// The error's text.
    pub fn message(&self) -> (r: String)
        ensures
            r@ == crypto_error_text(*self),
    {
        match self {
            CryptoError::Encrypt => owned("encryption failed"),
            CryptoError::FrameTooShort => owned("encrypted frame too short"),
            CryptoError::Decrypt => owned("decryption failed: wrong code or corrupted data"),
        }
    }
}

/// The text of each error.
pub open spec fn crypto_error_text(e: CryptoError) -> Seq<char> {
    match e {
        CryptoError::Encrypt => "encryption failed"@,
        CryptoError::FrameTooShort => "encrypted frame too short"@,
        CryptoError::Decrypt => "decryption failed: wrong code or corrupted data"@,
    }
}

/// The body of a frame: the nonce, then the sealed chunk.
pub open spec fn frame_body(key: Seq<u8>, nonce: Seq<u8>, chunk: Seq<u8>) -> Seq<u8> {
    nonce + gcm_seal(key, nonce, chunk)
}

/// A whole frame as it goes over the wire: the body's length as four
/// little-endian bytes, then the body.
pub open spec fn sealed_frame(key: Seq<u8>, nonce: Seq<u8>, chunk: Seq<u8>) -> Seq<u8> {
    let body = frame_body(key, nonce, chunk);
    frame_len_bytes(body.len()) + body
}

/// What a frame's body opens to: too short for a nonce is an error;
/// otherwise the first twelve bytes are the nonce and the rest is opened
/// under it.
pub open spec fn opened_frame(key: Seq<u8>, body: Seq<u8>) -> Result<Seq<u8>, CryptoError> {
    if body.len() < NONCE_LEN {
        Err(CryptoError::FrameTooShort)
    } else {
        match gcm_open(
            key,
            body.subrange(0, NONCE_LEN as int),
            body.subrange(NONCE_LEN as int, body.len() as int),
        ) {
            Some(p) => Ok(p),
            None => Err(CryptoError::Decrypt),
        }
    }
}

/// The bytes of a result, by their view.
pub open spec fn bytes_result_view(r: Result<Vec<u8>, CryptoError>) -> Result<Seq<u8>, CryptoError> {
    match r {
        Ok(v) => Ok(v@),
        Err(e) => Err(e),
    }
}

/// Seals `chunk` under `key` and `nonce` into a frame (see
/// [`sealed_frame`]); a chunk too long for AES-GCM is an error. The body of
/// the frame opens to the chunk again.
pub fn encrypt_frame(key: &[u8; 32], nonce: &[u8; 12], chunk: &[u8]) -> (r: Result<
    Vec<u8>,
    CryptoError,
>)
    ensures
        r is Ok <==> chunk@.len() <= SEAL_MAX,
        r matches Err(e) ==> e == CryptoError::Encrypt,
        r matches Ok(f) ==> {
            &&& f@ == sealed_frame(key@, nonce@, chunk@)
            &&& f@.len() == chunk@.len() + 32
            &&& opened_frame(key@, f@.subrange(4, f@.len() as int)) == Ok::<Seq<u8>, CryptoError>(
                chunk@,
            )
        },
{
    let sealed = match seal(key, nonce, chunk) {
        Some(c) => c,
        None => return Err(CryptoError::Encrypt),
    };
    let body_len: u64 = sealed.len() as u64 + 12;
    let x: u64 = body_len % 0x1_0000_0000;
    let mut frame: Vec<u8> = Vec::new();
    frame.push((x % 256) as u8);
    frame.push(((x / 256) % 256) as u8);
    frame.push(((x / 65536) % 256) as u8);
    frame.push((x / 16777216) as u8);
    assert(frame@ =~= frame_len_bytes(body_len as nat) + nonce@.subrange(0, 0));
    let mut i: usize = 0;
    while i < 12
        invariant
            i <= 12,
            nonce@.len() == 12,
            frame@ == frame_len_bytes(body_len as nat) + nonce@.subrange(0, i as int),
        decreases 12 - i,
    {
        frame.push(nonce[i]);
        assert(frame@ =~= frame_len_bytes(body_len as nat) + nonce@.subrange(0, i + 1));
        i = i + 1;
    }
    assert(nonce@.subrange(0, 12) =~= nonce@);
    assert(frame@ =~= frame_len_bytes(body_len as nat) + nonce@ + sealed@.subrange(0, 0));
    let mut j: usize = 0;
    while j < sealed.len()
        invariant
            j <= sealed@.len(),
            frame@ == frame_len_bytes(body_len as nat) + nonce@ + sealed@.subrange(0, j as int),
        decreases sealed@.len() - j,
    {
        frame.push(sealed[j]);
        assert(frame_len_bytes(body_len as nat) + nonce@ + sealed@.subrange(0, j + 1) =~= frame@);
        j = j + 1;
    }
    proof {
        assert(sealed@.subrange(0, sealed@.len() as int) =~= sealed@);
        let body = frame_body(key@, nonce@, chunk@);
        assert(body.len() == body_len);
        assert(frame@ =~= sealed_frame(key@, nonce@, chunk@));
        let b = frame@.subrange(4, frame@.len() as int);
        assert(b =~= body);
        assert(b.subrange(0, 12) =~= nonce@);
        assert(b.subrange(12, b.len() as int) =~= sealed@);
    }
    Ok(frame)
}

/// Seals `chunk` under `key` with a fresh random nonce (see
/// [`encrypt_frame`]). Whatever nonce came out, the frame's body opens to
/// the chunk again.
pub fn encrypt_chunk(key: &[u8; 32], chunk: &[u8]) -> (r: Result<Vec<u8>, CryptoError>)
    ensures
        r is Ok <==> chunk@.len() <= SEAL_MAX,
        r matches Err(e) ==> e == CryptoError::Encrypt,
        r matches Ok(f) ==> {
            &&& exists|n: Seq<u8>| n.len() == NONCE_LEN && f@ == #[trigger] sealed_frame(key@, n, chunk@)
            &&& f@.len() == chunk@.len() + 32
            &&& opened_frame(key@, f@.subrange(4, f@.len() as int)) == Ok::<Seq<u8>, CryptoError>(
                chunk@,
            )
        },
{
    let nonce = random_nonce();
    encrypt_frame(key, &nonce, chunk)
}

/// Opens the body of a frame (what follows its length prefix) under `key`
/// (see [`opened_frame`]).
pub fn decrypt_frame(key: &[u8; 32], body: &[u8]) -> (r: Result<Vec<u8>, CryptoError>)
    ensures
        bytes_result_view(r) == opened_frame(key@, body@),
{
    if body.len() < NONCE_LEN {
        return Err(CryptoError::FrameTooShort);
    }
    let (nonce, sealed) = body.split_at(NONCE_LEN);
    match open(key, nonce, sealed) {
        Some(p) => Ok(p),
        None => Err(CryptoError::Decrypt),
    }
}


// ---------------------------------------------------------------------------
// Whole streams of frames
// ---------------------------------------------------------------------------

/// The size of the pieces a file is cut into before each is sealed, in
/// bytes.
pub const CHUNK_SIZE: usize = 65536;

/// `r` with `a` in front of its bytes, errors kept as they are.
pub open spec fn prepend_ok(a: Seq<u8>, r: Result<Seq<u8>, CryptoError>) -> Result<
    Seq<u8>,
    CryptoError,
> {
    match r {
        Ok(q) => Ok(a + q),
        Err(e) => Err(e),
    }
}

/// What a stream of frames opens to, read as the receiver reads it: while
/// four bytes remain, they give the length of the body that follows; a body
/// cut short is an error, and each body is opened in turn. Fewer than four
/// bytes end the stream.
pub open spec fn opened_stream(key: Seq<u8>, s: Seq<u8>) -> Result<Seq<u8>, CryptoError>
    decreases s.len(),
{
    if s.len() < 4 {
        Ok(Seq::empty())
    } else {
        let len = le_u32_value(s.subrange(0, 4)) as int;
        if s.len() - 4 < len {
            Err(CryptoError::FrameTooShort)
        } else {
            match opened_frame(key, s.subrange(4, 4 + len)) {
                Ok(p) => prepend_ok(p, opened_stream(key, s.subrange(4 + len, s.len() as int))),
                Err(e) => Err(e),
            }
        }
    }
}

/// `data` cut into pieces of [`CHUNK_SIZE`] bytes, the last one shorter.
pub open spec fn chunks_of(data: Seq<u8>) -> Seq<Seq<u8>>
    decreases data.len(),
{
    if data.len() == 0 {
        seq![]
    } else if data.len() <= CHUNK_SIZE {
        seq![data]
    } else {
        seq![data.subrange(0, CHUNK_SIZE as int)] + chunks_of(
            data.subrange(CHUNK_SIZE as int, data.len() as int),
        )
    }
}

/// The frames of `chunks`, each sealed under its own nonce, one after
/// another.
pub open spec fn stream_frames(key: Seq<u8>, nonces: Seq<Seq<u8>>, chunks: Seq<Seq<u8>>) -> Seq<u8> {
    Seq::new(chunks.len(), |j: int| sealed_frame(key, nonces[j], chunks[j])).flatten()
}

/// A frame of `chunk` under `nonce` that has the length and opens as the
/// sealing promises.
pub open spec fn frame_seals(key: Seq<u8>, nonce: Seq<u8>, chunk: Seq<u8>) -> bool {
    let f = sealed_frame(key, nonce, chunk);
    &&& nonce.len() == NONCE_LEN
    &&& chunk.len() <= CHUNK_SIZE
    &&& f.len() == chunk.len() + 32
    &&& opened_frame(key, f.subrange(4, f.len() as int)) == Ok::<Seq<u8>, CryptoError>(chunk)
}

/// The pieces of `data` put back together are `data`.
proof fn lemma_chunks_flatten(data: Seq<u8>)
    ensures
        chunks_of(data).flatten() == data,
        forall|j: int|
            0 <= j < chunks_of(data).len() ==> (#[trigger] chunks_of(data)[j]).len() <= CHUNK_SIZE,
    decreases data.len(),
{
    if data.len() == 0 {
    } else if data.len() <= CHUNK_SIZE {
        let c = chunks_of(data);
        assert(c.drop_first() =~= Seq::<Seq<u8>>::empty());
        assert(c.drop_first().flatten() =~= Seq::<u8>::empty());
        assert(c.first() == data);
        assert(c.flatten() =~= data);
    } else {
        let rest = data.subrange(CHUNK_SIZE as int, data.len() as int);
        lemma_chunks_flatten(rest);
        let c = chunks_of(data);
        assert(c.drop_first() =~= chunks_of(rest));
        assert(data =~= data.subrange(0, CHUNK_SIZE as int) + rest);
        assert forall|j: int| 0 <= j < c.len() implies (#[trigger] c[j]).len() <= CHUNK_SIZE by {
            if j > 0 {
                assert(c[j] == chunks_of(rest)[j - 1]);
            }
        }
    }
}

/// A stream of frames that each open to their chunk opens to all the
/// chunks, in order.
proof fn lemma_stream_opens(key: Seq<u8>, nonces: Seq<Seq<u8>>, chunks: Seq<Seq<u8>>)
    requires
        nonces.len() == chunks.len(),
        forall|j: int| 0 <= j < chunks.len() ==> frame_seals(key, #[trigger] nonces[j], chunks[j]),
    ensures
        opened_stream(key, stream_frames(key, nonces, chunks)) == Ok::<Seq<u8>, CryptoError>(
            chunks.flatten(),
        ),
    decreases chunks.len(),
{
    if chunks.len() > 0 {
        let fs = Seq::new(chunks.len(), |j: int| sealed_frame(key, nonces[j], chunks[j]));
        let n1 = nonces.drop_first();
        let c1 = chunks.drop_first();
        assert forall|j: int| 0 <= j < c1.len() implies frame_seals(key, #[trigger] n1[j], c1[j]) by {
            assert(n1[j] == nonces[j + 1] && c1[j] == chunks[j + 1]);
            assert(frame_seals(key, nonces[j + 1], chunks[j + 1]));
        }
        lemma_stream_opens(key, n1, c1);
        assert(fs.drop_first() =~= Seq::new(c1.len(), |j: int| sealed_frame(key, n1[j], c1[j])));
        let f = fs[0];
        let rest = stream_frames(key, n1, c1);
        let s = f + rest;
        assert(stream_frames(key, nonces, chunks) == s);
        assert(frame_seals(key, nonces[0], chunks[0]));
        let body = frame_body(key, nonces[0], chunks[0]);
        crate::client::laws::law_frame_length_roundtrip(body.len());
        assert(s.subrange(0, 4) =~= frame_len_bytes(body.len()));
        assert(le_u32_value(s.subrange(0, 4)) == body.len());
        assert(s.subrange(4, 4 + body.len() as int) =~= f.subrange(4, f.len() as int));
        assert(s.subrange(4 + body.len() as int, s.len() as int) =~= rest);
    }
}

/// Cuts `data` into pieces of [`CHUNK_SIZE`] bytes and seals each under
/// `key` with a fresh random nonce, one frame after another. Whatever the
/// nonces, the stream opens to `data` again.
pub fn encrypt_stream(key: &[u8; 32], data: &[u8]) -> (r: Vec<u8>)
    ensures
        exists|nonces: Seq<Seq<u8>>|
            {
                &&& nonces.len() == chunks_of(data@).len()
                &&& forall|j: int|
                    0 <= j < nonces.len() ==> (#[trigger] nonces[j]).len() == NONCE_LEN
                &&& r@ == stream_frames(key@, nonces, chunks_of(data@))
            },
        opened_stream(key@, r@) == Ok::<Seq<u8>, CryptoError>(data@),
{
    let n = data.len();
    let mut out: Vec<u8> = Vec::new();
    let mut i: usize = 0;
    let ghost mut nonces: Seq<Seq<u8>> = seq![];
    let ghost mut chunks: Seq<Seq<u8>> = seq![];
    proof {
        assert(data@.subrange(0, n as int) =~= data@);
        assert(Seq::new(0, |j: int| sealed_frame(key@, nonces[j], chunks[j])) =~= Seq::<
            Seq<u8>,
        >::empty());
    }
    while i < n
        invariant
            i <= n == data@.len(),
            nonces.len() == chunks.len(),
            chunks_of(data@) == chunks + chunks_of(data@.subrange(i as int, n as int)),
            forall|j: int| 0 <= j < chunks.len() ==> frame_seals(key@, #[trigger] nonces[j], chunks[j]),
            out@ == stream_frames(key@, nonces, chunks),
        decreases n - i,
    {
        let end: usize = if n - i <= CHUNK_SIZE {
            n
        } else {
            i + CHUNK_SIZE
        };
        let (_, tail) = data.split_at(i);
        let (piece, _) = tail.split_at(end - i);
        let ghost c = piece@;
        let mut frame = match encrypt_chunk(key, piece) {
            Ok(f) => f,
            Err(_) => {
                assert(false);
                return Vec::new();
            },
        };
        proof {
            let rest = data@.subrange(i as int, n as int);
            assert(c =~= data@.subrange(i as int, end as int));
            if end == n {
                assert(rest =~= c);
                assert(data@.subrange(end as int, n as int) =~= Seq::<u8>::empty());
                assert(chunks_of(rest) =~= seq![c]);
            } else {
                assert(rest.subrange(0, CHUNK_SIZE as int) =~= c);
                assert(rest.subrange(CHUNK_SIZE as int, rest.len() as int) =~= data@.subrange(
                    end as int,
                    n as int,
                ));
            }
            assert(chunks_of(rest) =~= seq![c] + chunks_of(data@.subrange(end as int, n as int)));
            let nn = choose|nn: Seq<u8>| nn.len() == NONCE_LEN && frame@ == sealed_frame(key@, nn, c);
            let fs0 = Seq::new(chunks.len(), |j: int| sealed_frame(key@, nonces[j], chunks[j]));
            nonces = nonces.push(nn);
            chunks = chunks.push(c);
            let fs1 = Seq::new(chunks.len(), |j: int| sealed_frame(key@, nonces[j], chunks[j]));
            assert(fs1 =~= fs0.push(frame@));
            fs0.lemma_flatten_push(frame@);
        }
        out.append(&mut frame);
        proof {
            assert(chunks_of(data@) =~= chunks + chunks_of(data@.subrange(end as int, n as int)));
        }
        i = end;
    }
    proof {
        assert(data@.subrange(n as int, n as int) =~= Seq::<u8>::empty());
        assert(chunks_of(data@) =~= chunks);
        lemma_chunks_flatten(data@);
        lemma_stream_opens(key@, nonces, chunks);
        assert forall|j: int| 0 <= j < nonces.len() implies (#[trigger] nonces[j]).len()
            == NONCE_LEN by {
            assert(frame_seals(key@, nonces[j], chunks[j]));
        }
    }
    out
}

/// Opens a stream of frames under `key` (see [`opened_stream`]).
pub fn decrypt_stream(key: &[u8; 32], data: &[u8]) -> (r: Result<Vec<u8>, CryptoError>)
    ensures
        bytes_result_view(r) == opened_stream(key@, data@),
{
    let n = data.len();
    let mut out: Vec<u8> = Vec::new();
    let mut i: usize = 0;
    assert(data@.subrange(0, n as int) =~= data@);
    while i < n && n - i >= 4
        invariant
            i <= n == data@.len(),
            opened_stream(key@, data@) == prepend_ok(
                out@,
                opened_stream(key@, data@.subrange(i as int, n as int)),
            ),
        decreases n - i,
    {
        let ghost rest = data@.subrange(i as int, n as int);
        let prefix = [data[i], data[i + 1], data[i + 2], data[i + 3]];
        assert(prefix@ =~= rest.subrange(0, 4));
        let len = frame_len(prefix);
        if n - i - 4 < len {
            return Err(CryptoError::FrameTooShort);
        }
        let (_, tail) = data.split_at(i + 4);
        let (body, _) = tail.split_at(len);
        assert(body@ =~= rest.subrange(4, 4 + len as int));
        let next: usize = i + 4 + len;
        assert(rest.subrange(4 + len as int, rest.len() as int) =~= data@.subrange(
            next as int,
            n as int,
        ));
        match decrypt_frame(key, body) {
            Err(e) => {
                return Err(e);
            },
            Ok(p) => {
                let ghost out0 = out@;
                let ghost pv = p@;
                let mut p = p;
                out.append(&mut p);
                proof {
                    match opened_stream(key@, data@.subrange(next as int, n as int)) {
                        Ok(q) => {
                            assert(out0 + (pv + q) =~= out@ + q);
                        },
                        Err(e) => {},
                    }
                }
                i = next;
            },
        }
    }
    proof {
        assert(data@.subrange(i as int, n as int).len() < 4);
        assert(out@ + Seq::<u8>::empty() =~= out@);
    }
    Ok(out)
}

} // verus!
