use content_engine::keygen::{generate_key, random_token, u64_to_decimal};

#[test]
fn generated_keys_have_the_asked_length_and_alphabet() {
    for length in [0usize, 1, 16, 32, 64] {
        let key = generate_key(length);
        assert_eq!(key.chars().count(), length);
        assert!(key.chars().all(|c| c.is_ascii_alphanumeric()));
    }
}

#[test]
fn decimal_rendering_is_exact() {
    assert_eq!(u64_to_decimal(0), "0");
    assert_eq!(u64_to_decimal(7), "7");
    assert_eq!(u64_to_decimal(10), "10");
    assert_eq!(u64_to_decimal(42), "42");
    assert_eq!(u64_to_decimal(1_000_000_007), "1000000007");
    assert_eq!(u64_to_decimal(u64::MAX), "18446744073709551615");
}

#[test]
fn random_tokens_are_nonempty_digits() {
    for _ in 0..100 {
        let t = random_token();
        assert!(!t.is_empty());
        assert!(t.chars().all(|c| c.is_ascii_digit()));
    }
}
