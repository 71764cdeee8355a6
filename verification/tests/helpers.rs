use voiddrop::client::helpers::{
    format_duration, format_size, generate_blast_code, generate_code, generate_session_id,
};

fn float_reference(bytes: u64) -> String {
    if bytes < 1024 {
        format!("{} B", bytes)
    } else if bytes < 1024 * 1024 {
        format!("{:.1} KB", bytes as f64 / 1024.0)
    } else if bytes < 1024 * 1024 * 1024 {
        format!("{:.1} MB", bytes as f64 / (1024.0 * 1024.0))
    } else {
        format!("{:.2} GB", bytes as f64 / (1024.0 * 1024.0 * 1024.0))
    }
}

#[test]
fn format_size_matches_float_formatting() {
    let mut samples: Vec<u64> = vec![
        0, 1, 1023, 1024, 1075, 1126, 1280, 1536, 1792, 2048, 2304, 10 * 1024 + 512,
        1024 * 1024 - 1, 1024 * 1024, 1024 * 1024 + 52428, 1024 * 1024 + 52429,
        1024 * 1024 * 3 / 2, 5 * 1024 * 1024 + 1024 * 1024 / 4, 1024 * 1024 * 1024 - 1,
        1024 * 1024 * 1024, 1024 * 1024 * 1024 + 1024 * 1024 * 1024 / 200,
        1024 * 1024 * 1024 * 3 + 1024 * 1024 * 1024 / 8, (1u64 << 53) + 1, (1u64 << 53) + 3,
        (1u64 << 60) + 12345, u64::MAX, u64::MAX - 1, u64::MAX / 3,
    ];
    for i in 0..4000u64 {
        samples.push(1024 + i * 257);
        samples.push(1024 * 1024 + i * 262_147);
        samples.push(1024 * 1024 * 1024 + i * 5_368_709);
        samples.push(i.wrapping_mul(0x9E37_79B9_7F4A_7C15));
    }
    for b in samples {
        assert_eq!(format_size(b), float_reference(b), "bytes = {}", b);
    }
}

#[test]
fn format_size_examples() {
    assert_eq!(format_size(0), "0 B");
    assert_eq!(format_size(1023), "1023 B");
    assert_eq!(format_size(1536), "1.5 KB");
    assert_eq!(format_size(2_516_582), "2.4 MB");
    assert_eq!(format_size(3 * 1024 * 1024 * 1024), "3.00 GB");
}

#[test]
fn format_duration_examples() {
    assert_eq!(format_duration(0), "0s");
    assert_eq!(format_duration(59), "59s");
    assert_eq!(format_duration(60), "1m 0s");
    assert_eq!(format_duration(3599), "59m 59s");
    assert_eq!(format_duration(3600), "1h 0m");
    assert_eq!(format_duration(7384), "2h 3m");
}

#[test]
fn generated_codes_have_their_shapes() {
    for _ in 0..200 {
        let c = generate_code();
        let n: u32 = c.parse().unwrap();
        assert!((1000..=9999).contains(&n));
        let b = generate_blast_code();
        assert_eq!(b.chars().count(), 4);
        assert!(b.chars().all(|ch| "ABCDEFGHJKLMNPQRSTUVWXYZ23456789".contains(ch)));
        let id = generate_session_id();
        assert_eq!(id.len(), 36);
        assert_eq!(id.as_bytes()[14], b'4');
    }
}
