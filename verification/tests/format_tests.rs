use market_mirror::models::{u64_to_dec_string, Addr};

#[test]
fn addresses_render_as_prefixed_lowercase_hex() {
    let mut bytes = [0u8; 20];
    for (i, b) in bytes.iter_mut().enumerate() {
        *b = i as u8;
    }
    let a = Addr::new(bytes);
    assert_eq!(
        a.hex_string().as_str(),
        "0x000102030405060708090a0b0c0d0e0f10111213"
    );
}

#[test]
fn high_nibbles_and_letters_render_correctly() {
    let mut bytes = [0xffu8; 20];
    bytes[0] = 0xa0;
    bytes[19] = 0x0b;
    let a = Addr::new(bytes);
    assert_eq!(
        a.hex_string().as_str(),
        "0xa0ffffffffffffffffffffffffffffffffffff0b"
    );
}

#[test]
fn identifiers_render_in_decimal() {
    assert_eq!(u64_to_dec_string(0).as_str(), "0");
    assert_eq!(u64_to_dec_string(7).as_str(), "7");
    assert_eq!(u64_to_dec_string(10).as_str(), "10");
    assert_eq!(u64_to_dec_string(1234567890).as_str(), "1234567890");
    assert_eq!(
        u64_to_dec_string(u64::MAX).as_str(),
        "18446744073709551615"
    );
}

#[test]
fn equal_addresses_compare_equal_and_others_do_not() {
    let a = Addr::new([9; 20]);
    let b = Addr::new([9; 20]);
    let mut c_bytes = [9u8; 20];
    c_bytes[19] = 8;
    let c = Addr::new(c_bytes);
    assert!(a.eq_addr(&b));
    assert!(!a.eq_addr(&c));
}
