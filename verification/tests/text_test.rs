use neural_network::text::{decimal, str_equal};

#[test]
fn decimal_renders_zero_as_a_single_digit() {
    assert_eq!(decimal(0), "0");
}

#[test]
fn decimal_renders_numbers_like_format() {
    for n in [1usize, 9, 10, 11, 99, 100, 1234, 90210, 1_000_000] {
        assert_eq!(decimal(n), format!("{}", n));
    }
}

#[test]
fn decimal_renders_the_largest_usize() {
    assert_eq!(decimal(usize::MAX), format!("{}", usize::MAX));
}

#[test]
fn str_equal_compares_every_character() {
    assert!(str_equal("Sigmoid", "Sigmoid"));
    assert!(!str_equal("Sigmoid", "sigmoid"));
    assert!(!str_equal("Sigmoid", "Sigmoi"));
    assert!(str_equal("", ""));
    assert!(!str_equal("é", "e"));
}
