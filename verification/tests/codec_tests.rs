use blockifier_utils::addr::felt;

#[test]
fn felt_round_trips_simple_hex() {
    let f = felt("0x1a2b").unwrap();
    assert_eq!(f.to_hex(), "0x1a2b");
}

#[test]
fn felt_round_trips_zero() {
    let f = felt("0x0").unwrap();
    assert_eq!(f.to_hex(), "0x0");
}

#[test]
fn felt_canonicalizes_leading_zeros_and_case() {
    let f = felt("0x000FF").unwrap();
    assert_eq!(f.to_hex(), "0xff");
}

#[test]
fn felt_accepts_decimal() {
    let f = felt("255").unwrap();
    assert_eq!(f, felt("0xff").unwrap());
    assert_eq!(f.to_hex(), "0xff");
}

#[test]
fn felt_accepts_largest_element() {
    // The field modulus minus one.
    let f = felt("0x800000000000011000000000000000000000000000000000000000000000000").unwrap();
    assert_eq!(f.to_hex(), "0x800000000000011000000000000000000000000000000000000000000000000");
}

#[test]
fn felt_rejects_modulus_and_above() {
    assert!(felt("0x800000000000011000000000000000000000000000000000000000000000001").is_err());
    assert!(felt("0x800000000000011000000000000000000000000000000000000000000000002").is_err());
    // Far beyond two limbs.
    assert!(felt("0x10000000000000000000000000000000000000000000000000000000000000000").is_err());
}

#[test]
fn felt_rejects_garbage() {
    assert!(felt("").is_err());
    assert!(felt("0x").is_err());
    assert!(felt("xyz").is_err());
    assert!(felt("0xg1").is_err());
    assert!(felt("12a").is_err());
    assert!(felt("-5").is_err());
    assert!(felt("0x 1").is_err());
}

#[test]
fn felt_hex_and_decimal_agree() {
    assert_eq!(felt("4660").unwrap(), felt("0x1234").unwrap());
    assert_eq!(felt("0").unwrap().to_hex(), "0x0");
}
