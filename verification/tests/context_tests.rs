use blockifier_utils::addr::felt;
use blockifier_utils::context::block_context;
use blockifier_utils::{CAIRO_STEPS, DEFAULT_GAS_PRICE};

#[test]
fn context_is_deterministic() {
    let a = block_context();
    let b = block_context();
    assert_eq!(a, b);
}

#[test]
fn context_holds_the_fixture_defaults() {
    let c = block_context();
    assert_eq!(c.chain_id, "DOJO_CLIENT");
    assert_eq!(c.block_number, 0);
    assert_eq!(c.block_timestamp, 0);
    assert_eq!(c.sequencer_address.0.0, felt("0x1").unwrap());
    assert_eq!(c.fee_token_address.0.0, felt("0x1").unwrap());
    assert_eq!(c.gas_price, DEFAULT_GAS_PRICE);
    assert_eq!(c.invoke_tx_max_n_steps, CAIRO_STEPS);
    assert_eq!(c.validate_max_n_steps, CAIRO_STEPS);
    assert_eq!(c.max_recursion_depth, 100);
}

#[test]
fn context_prices_every_resource_at_unit_weight() {
    let c = block_context();
    let names: Vec<&str> = c.vm_resource_fee_cost.iter().map(|p| p.0.as_str()).collect();
    assert_eq!(
        names,
        vec![
            "n_steps",
            "pedersen_builtin",
            "range_check_builtin",
            "ecdsa_builtin",
            "bitwise_builtin",
            "poseidon_builtin",
            "output_builtin",
            "ec_op_builtin",
            "keccak_builtin",
            "segment_arena_builtin",
        ]
    );
    assert!(c.vm_resource_fee_cost.iter().all(|p| p.1 == 1));
}

#[test]
fn contexts_are_independently_owned() {
    let a = block_context();
    let mut b = block_context();
    b.block_number = 7;
    b.vm_resource_fee_cost.clear();
    assert_eq!(a.block_number, 0);
    assert_eq!(a.vm_resource_fee_cost.len(), 10);
}
