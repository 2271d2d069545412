use qkc_mining_assistant::encoding::{digit_of, parse_u128, parse_u64, strip_markers, to_be_bytes};

#[test]
fn digits_of_either_case() {
    assert_eq!(digit_of(b'0'), Some(0));
    assert_eq!(digit_of(b'9'), Some(9));
    assert_eq!(digit_of(b'a'), Some(10));
    assert_eq!(digit_of(b'f'), Some(15));
    assert_eq!(digit_of(b'A'), Some(10));
    assert_eq!(digit_of(b'F'), Some(15));
    assert_eq!(digit_of(b'g'), None);
    assert_eq!(digit_of(b'G'), None);
    assert_eq!(digit_of(b'/'), None);
    assert_eq!(digit_of(b':'), None);
    assert_eq!(digit_of(b'@'), None);
    assert_eq!(digit_of(b'`'), None);
    assert_eq!(digit_of(b' '), None);
}

#[test]
fn quantities_are_read_in_base_sixteen() {
    assert_eq!(parse_u128(b"0"), Some(0));
    assert_eq!(parse_u128(b"ff"), Some(255));
    assert_eq!(parse_u128(b"Ff"), Some(255));
    assert_eq!(parse_u128(b"f4240"), Some(1_000_000));
    assert_eq!(parse_u128(b"+10"), Some(16));
    assert_eq!(parse_u128(b"0000000000000000000000000000000000000000001"), Some(1));
}

#[test]
fn quantities_that_are_none() {
    assert_eq!(parse_u128(b""), None);
    assert_eq!(parse_u128(b"+"), None);
    assert_eq!(parse_u128(b"-1"), None);
    assert_eq!(parse_u128(b"++1"), None);
    assert_eq!(parse_u128(b"0x10"), None);
    assert_eq!(parse_u128(b"12 "), None);
    assert_eq!(parse_u128(b" 12"), None);
    assert_eq!(parse_u128(b"1_0"), None);
}

#[test]
fn quantities_at_the_limits() {
    assert_eq!(parse_u128(b"ffffffffffffffffffffffffffffffff"), Some(u128::MAX));
    assert_eq!(parse_u128(b"100000000000000000000000000000000"), None);
    assert_eq!(parse_u64(b"ffffffffffffffff"), Some(u64::MAX));
    assert_eq!(parse_u64(b"10000000000000000"), None);
    assert_eq!(parse_u64(b"2a"), Some(42));
    assert_eq!(parse_u64(b""), None);
}

#[test]
fn quantities_agree_with_the_standard_library() {
    let samples: Vec<&str> = vec![
        "", "+", "0", "+0", "-0", "7f", "+7F", "abcdef", "g", "0x1", "00ff", "ffffffffffffffffffffffffffffffff",
        "1ffffffffffffffffffffffffffffffff", "+ffffffffffffffffffffffffffffffff", "1 ", "١",
    ];
    for s in samples {
        assert_eq!(parse_u128(s.as_bytes()), u128::from_str_radix(s, 16).ok());
        assert_eq!(parse_u64(s.as_bytes()), u64::from_str_radix(s, 16).ok());
    }
}

#[test]
fn markers_are_dropped_however_many() {
    assert_eq!(strip_markers(b"0x1f"), b"1f");
    assert_eq!(strip_markers(b"0x0x1f"), b"1f");
    assert_eq!(strip_markers(b"1f"), b"1f");
    assert_eq!(strip_markers(b"0x"), b"");
    assert_eq!(strip_markers(b"0"), b"0");
    assert_eq!(strip_markers(b"0X1f"), b"0X1f");
    assert_eq!(strip_markers(b"00x1"), b"00x1");
    assert_eq!(strip_markers(b""), b"");
    for s in ["0x0x0x12", "0x", "x0", "0x0", "abc0x"] {
        assert_eq!(strip_markers(s.as_bytes()), s.trim_start_matches("0x").as_bytes());
    }
}

#[test]
fn bytes_most_significant_first() {
    assert_eq!(to_be_bytes(0x0102030405060708, 8), vec![1, 2, 3, 4, 5, 6, 7, 8]);
    assert_eq!(to_be_bytes(255, 8), 255u64.to_be_bytes().to_vec());
    assert_eq!(to_be_bytes(u64::MAX, 8), vec![255; 8]);
    assert_eq!(to_be_bytes(0x0102, 1), vec![2]);
    assert_eq!(to_be_bytes(7, 0), Vec::<u8>::new());
    assert_eq!(to_be_bytes(1, 9), vec![0, 0, 0, 0, 0, 0, 0, 0, 1]);
}
