use icy::text::{decimal_string, is_whitespace};

#[test]
fn decimal_rendering() {
    for n in [0u128, 7, 10, 99, 100, 12345, u64::MAX as u128, u128::MAX] {
        assert_eq!(decimal_string(n), n.to_string());
    }
}

#[test]
fn whitespace_matches_std() {
    for u in 0..0x3100u32 {
        if let Some(c) = char::from_u32(u) {
            assert_eq!(is_whitespace(c), c.is_whitespace(), "{:x}", u);
        }
    }
}

