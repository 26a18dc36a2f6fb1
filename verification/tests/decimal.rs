use simple_http_client::decimal::decimal_string;

#[test]
fn single_digits() {
    for (n, text) in ["0", "1", "2", "3", "4", "5", "6", "7", "8", "9"].iter().enumerate() {
        assert_eq!(decimal_string(n), *text);
    }
}

#[test]
fn several_digits() {
    assert_eq!(decimal_string(10), "10");
    assert_eq!(decimal_string(17), "17");
    assert_eq!(decimal_string(80), "80");
    assert_eq!(decimal_string(100), "100");
    assert_eq!(decimal_string(8080), "8080");
    assert_eq!(decimal_string(65535), "65535");
    assert_eq!(decimal_string(1_000_000_007), "1000000007");
}

#[test]
fn largest_number() {
    assert_eq!(decimal_string(usize::MAX), usize::MAX.to_string());
}

#[test]
fn agrees_with_the_standard_rendering() {
    let mut n: usize = 1;
    for _ in 0..60 {
        assert_eq!(decimal_string(n), n.to_string());
        assert_eq!(decimal_string(n - 1), (n - 1).to_string());
        n = n.wrapping_mul(3).wrapping_add(7) % 1_000_000_000_000;
        if n == 0 {
            n = 1;
        }
    }
}
