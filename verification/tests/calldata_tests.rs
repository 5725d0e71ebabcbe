use blockifier_utils::addr::felt;
use blockifier_utils::calldata::invoke_calldata;
use blockifier_utils::starkhash::selector_from_name;

#[test]
fn calldata_is_in_dispatcher_order() {
    let c = invoke_calldata("0x10", "transfer", vec!["0x20", "0x5"]).unwrap();
    let expected = vec![
        felt("0x10").unwrap(),
        selector_from_name("transfer"),
        felt("2").unwrap(),
        felt("0x20").unwrap(),
        felt("0x5").unwrap(),
    ];
    assert_eq!(c.elements, expected);
}

#[test]
fn calldata_without_arguments_has_count_zero() {
    let c = invoke_calldata("0x1", "mint", vec![]).unwrap();
    assert_eq!(c.elements.len(), 3);
    assert_eq!(c.elements[0], felt("0x1").unwrap());
    assert_eq!(c.elements[1], selector_from_name("mint"));
    assert_eq!(c.elements[2], felt("0").unwrap());
}

#[test]
fn calldata_fails_fast_on_bad_argument() {
    assert!(invoke_calldata("0x10", "transfer", vec!["0x20", "bogus"]).is_err());
    assert!(invoke_calldata("not-a-felt", "transfer", vec![]).is_err());
}
