use blockifier_utils::addr::{class, contract, felt, key, patricia, storage};
use blockifier_utils::starkhash::selector_from_name;
use sha3::{Digest, Keccak256};
use starknet_crypto::pedersen_hash;

#[test]
fn typed_wrappers_carry_the_same_element() {
    let f = felt("0x123").unwrap();
    assert_eq!(patricia("0x123").unwrap().0, f);
    assert_eq!(class("0x123").unwrap().0, f);
    assert_eq!(contract("0x123").unwrap().0.0, f);
    assert_eq!(key("0x123").unwrap().0.0, f);
}

#[test]
fn typed_wrappers_propagate_encoding_failure() {
    assert!(patricia("zzz").is_err());
    assert!(class("0x").is_err());
    assert!(contract("").is_err());
    assert!(key("0xg").is_err());
}

#[test]
fn selector_of_execute_matches_known_vector() {
    let sel = selector_from_name("__execute__");
    assert_eq!(sel.to_hex(), "0x15d40a3d6ca2ac30f4031e42be28da9b056fef9bb7357ac5e85627ee876e5ad");
}

#[test]
fn selector_of_empty_name_matches_known_vector() {
    let sel = selector_from_name("");
    assert_eq!(sel.to_hex(), "0x1d2460186f7233c927e7db2dcc703c0e500b653ca82273b7bfad8045d85a470");
}

#[test]
fn storage_key_argument_order_matters() {
    let a = storage("balances", &vec![String::from("0x1"), String::from("0x2")]).unwrap();
    let b = storage("balances", &vec![String::from("0x2"), String::from("0x1")]).unwrap();
    assert_ne!(a, b);
}

#[test]
fn storage_key_rejects_bad_argument() {
    assert!(storage("balances", &vec![String::from("0x1"), String::from("oops")]).is_err());
}

#[test]
fn storage_key_matches_independent_derivation() {
    // Recompute the same key straight from the hash crates.
    let mut hasher = Keccak256::new();
    hasher.update(b"balances");
    let mut digest: [u8; 32] = hasher.finalize().into();
    digest[0] &= 3;
    let mut expected = starknet_crypto::Felt::from_bytes_be(&digest);
    expected = pedersen_hash(&expected, &starknet_crypto::Felt::from_hex("0x6").unwrap());
    expected = pedersen_hash(&expected, &starknet_crypto::Felt::from_hex("0x7").unwrap());

    let got = storage("balances", &vec![String::from("0x6"), String::from("0x7")]).unwrap();
    assert_eq!(got.0.0.to_hex(), expected.to_hex_string());
}

#[test]
fn storage_key_without_arguments_is_the_name_hash() {
    let got = storage("total_supply", &Vec::new()).unwrap();
    let sel = selector_from_name("total_supply");
    assert_eq!(got.0.0, sel);
}

#[test]
fn default_entry_points_dispatch_through_selector_zero() {
    assert_eq!(selector_from_name("__default__"), felt("0x0").unwrap());
    assert_eq!(selector_from_name("__l1_default__"), felt("0x0").unwrap());
}
