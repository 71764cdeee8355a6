use voiddrop::client::cipher::{
    decrypt_frame, decrypt_stream, derive_key, encrypt_chunk, encrypt_frame, encrypt_stream, CryptoError,
    CHUNK_SIZE,
};

fn key() -> [u8; 32] {
    let mut k = [0u8; 32];
    for (i, b) in k.iter_mut().enumerate() {
        *b = i as u8;
    }
    k
}

fn nonce() -> [u8; 12] {
    let mut n = [0u8; 12];
    for (i, b) in n.iter_mut().enumerate() {
        *b = i as u8;
    }
    n
}

#[test]
fn key_is_sha256_of_code() {
    assert_eq!(
        derive_key("4829"),
        [
            30, 192, 130, 133, 167, 37, 254, 94, 1, 65, 204, 92, 200, 212, 147, 179, 66, 163, 209, 44,
            117, 174, 115, 179, 172, 211, 147, 188, 59, 125, 93, 58
        ]
    );
    assert_ne!(derive_key("4829"), derive_key("4828"));
}

#[test]
fn frame_layout_and_known_ciphertext() {
    let f = encrypt_frame(&key(), &nonce(), b"hello").unwrap();
    // length prefix: 12 (nonce) + 5 (text) + 16 (tag) = 33
    assert_eq!(&f[..4], &[33, 0, 0, 0]);
    assert_eq!(&f[4..16], &nonce());
    assert_eq!(
        &f[16..],
        &[47, 103, 186, 119, 170, 39, 151, 255, 53, 59, 138, 4, 109, 40, 35, 109, 205, 157, 5, 123, 187]
    );
}

#[test]
fn frame_opens_to_the_chunk() {
    let f = encrypt_frame(&key(), &nonce(), b"some bytes").unwrap();
    assert_eq!(decrypt_frame(&key(), &f[4..]).unwrap(), b"some bytes".to_vec());
    let g = encrypt_chunk(&key(), b"").unwrap();
    assert_eq!(g.len(), 4 + 12 + 16);
    assert_eq!(decrypt_frame(&key(), &g[4..]).unwrap(), Vec::<u8>::new());
}

#[test]
fn wrong_key_or_damage_is_refused() {
    let f = encrypt_frame(&key(), &nonce(), b"secret").unwrap();
    let other = derive_key("0000");
    assert_eq!(decrypt_frame(&other, &f[4..]), Err(CryptoError::Decrypt));
    let mut bad = f[4..].to_vec();
    let last = bad.len() - 1;
    bad[last] ^= 1;
    assert_eq!(decrypt_frame(&key(), &bad), Err(CryptoError::Decrypt));
    assert_eq!(decrypt_frame(&key(), &[1, 2, 3]), Err(CryptoError::FrameTooShort));
    assert_eq!(decrypt_frame(&key(), &nonce()), Err(CryptoError::Decrypt));
}

#[test]
fn error_texts() {
    assert_eq!(CryptoError::Encrypt.message(), "encryption failed");
    assert_eq!(CryptoError::FrameTooShort.message(), "encrypted frame too short");
    assert_eq!(
        CryptoError::Decrypt.message(),
        "decryption failed: wrong code or corrupted data"
    );
}

#[test]
fn stream_round_trip() {
    let k = derive_key("X9P1");
    let data: Vec<u8> = (0..(2 * CHUNK_SIZE + 5)).map(|i| (i % 251) as u8).collect();
    let s = encrypt_stream(&k, &data);
    // three frames: two full chunks and one of 5 bytes, each 32 bytes longer
    assert_eq!(s.len(), data.len() + 3 * 32);
    assert_eq!(&s[..4], &((CHUNK_SIZE + 28) as u32).to_le_bytes());
    assert_eq!(decrypt_stream(&k, &s).unwrap(), data);
    assert_eq!(encrypt_stream(&k, &[]), Vec::<u8>::new());
    assert_eq!(decrypt_stream(&k, &[]).unwrap(), Vec::<u8>::new());
    // a stream cut inside a body, and one under another key
    assert_eq!(decrypt_stream(&k, &s[..40]), Err(CryptoError::FrameTooShort));
    assert_eq!(decrypt_stream(&derive_key("AAAA"), &s), Err(CryptoError::Decrypt));
    // fewer than four bytes after the last frame end the stream
    let mut t = encrypt_stream(&k, b"abc");
    t.extend_from_slice(&[1, 2]);
    assert_eq!(decrypt_stream(&k, &t).unwrap(), b"abc".to_vec());
}
