use vstd::prelude::*;
use vstd::string::StringExecFns;
use crate::addr::{ContractAddress, PatriciaKey};
use crate::field::Felt;
use crate::{CAIRO_STEPS, DEFAULT_GAS_PRICE};

verus! {

pub const OUTPUT_BUILTIN_NAME: &'static str = "output_builtin";

pub const HASH_BUILTIN_NAME: &'static str = "pedersen_builtin";

pub const RANGE_CHECK_BUILTIN_NAME: &'static str = "range_check_builtin";

pub const SIGNATURE_BUILTIN_NAME: &'static str = "ecdsa_builtin";

pub const BITWISE_BUILTIN_NAME: &'static str = "bitwise_builtin";

pub const EC_OP_BUILTIN_NAME: &'static str = "ec_op_builtin";

pub const KECCAK_BUILTIN_NAME: &'static str = "keccak_builtin";

pub const POSEIDON_BUILTIN_NAME: &'static str = "poseidon_builtin";

pub const SEGMENT_ARENA_BUILTIN_NAME: &'static str = "segment_arena_builtin";

/// The block-level execution context handed to the engine for every
/// transaction of a scenario: chain id, block coordinates, fee accounting
/// and step ceilings. Resource weights are per-unit fee weights.
#[derive(Clone, Debug, PartialEq, Eq)]
pub struct ExecutionContext {
    pub chain_id: String,
    pub block_number: u64,
    pub block_timestamp: u64,
    pub sequencer_address: ContractAddress,
    pub fee_token_address: ContractAddress,
    pub vm_resource_fee_cost: Vec<(String, u64)>,
    pub gas_price: u128,
    pub invoke_tx_max_n_steps: u32,
    pub validate_max_n_steps: u32,
    pub max_recursion_depth: u32,
}

/// The names of the resources every context prices, in table order: CPU
/// steps first, then every recognized builtin.
pub open spec fn resource_names() -> Seq<Seq<char>> {
    seq![
        "n_steps"@,
        "pedersen_builtin"@,
        "range_check_builtin"@,
        "ecdsa_builtin"@,
        "bitwise_builtin"@,
        "poseidon_builtin"@,
        "output_builtin"@,
        "ec_op_builtin"@,
        "keccak_builtin"@,
        "segment_arena_builtin"@,
    ]
}

/// What the one fixed context of every test scenario holds, field by field.
pub open spec fn is_default_context(c: ExecutionContext) -> bool {
    &&& c.chain_id@ == "DOJO_CLIENT"@
    &&& c.block_number == 0
    &&& c.block_timestamp == 0
    &&& c.sequencer_address.0.0@ == 1
    &&& c.fee_token_address.0.0@ == 1
    &&& c.vm_resource_fee_cost@.len() == resource_names().len()
    &&& (forall|i: int|
        0 <= i < c.vm_resource_fee_cost@.len() ==> #[trigger] c.vm_resource_fee_cost@[i].0@
            == resource_names()[i] && c.vm_resource_fee_cost@[i].1 == 1)
    &&& c.gas_price == DEFAULT_GAS_PRICE
    &&& c.invoke_tx_max_n_steps == CAIRO_STEPS
    &&& c.validate_max_n_steps == CAIRO_STEPS
    &&& c.max_recursion_depth == 100
}

/// Builds the execution context every test scenario runs under: fixed chain
/// id, zero block coordinates, unit fee weight for every priced resource,
/// the default gas price and the fixed step and recursion ceilings.
pub fn block_context() -> (r: ExecutionContext)
    ensures
        is_default_context(r),
{
    let one = Felt::from_u64(1);
    let mut costs: Vec<(String, u64)> = Vec::new();
    costs.push((String::from_str("n_steps"), 1));
    costs.push((String::from_str(HASH_BUILTIN_NAME), 1));
    costs.push((String::from_str(RANGE_CHECK_BUILTIN_NAME), 1));
    costs.push((String::from_str(SIGNATURE_BUILTIN_NAME), 1));
    costs.push((String::from_str(BITWISE_BUILTIN_NAME), 1));
    costs.push((String::from_str(POSEIDON_BUILTIN_NAME), 1));
    costs.push((String::from_str(OUTPUT_BUILTIN_NAME), 1));
    costs.push((String::from_str(EC_OP_BUILTIN_NAME), 1));
    costs.push((String::from_str(KECCAK_BUILTIN_NAME), 1));
    costs.push((String::from_str(SEGMENT_ARENA_BUILTIN_NAME), 1));
    let r = ExecutionContext {
        chain_id: String::from_str("DOJO_CLIENT"),
        block_number: 0,
        block_timestamp: 0,
        sequencer_address: ContractAddress(PatriciaKey(one)),
        fee_token_address: ContractAddress(PatriciaKey(one)),
        vm_resource_fee_cost: costs,
        gas_price: DEFAULT_GAS_PRICE,
        invoke_tx_max_n_steps: CAIRO_STEPS,
        validate_max_n_steps: CAIRO_STEPS,
        max_recursion_depth: 100,
    };
    proof {
        assert forall|i: int| 0 <= i < r.vm_resource_fee_cost@.len() implies #[trigger] r
            .vm_resource_fee_cost@[i].0@ == resource_names()[i] && r.vm_resource_fee_cost@[i].1
            == 1 by {
        }
    }
    r
}

/// The context builder is deterministic: any two contexts that satisfy its
/// contract agree on every field it fixes.
pub proof fn lemma_context_deterministic(a: ExecutionContext, b: ExecutionContext)
    requires
        is_default_context(a),
        is_default_context(b),
    ensures
        a.chain_id@ == b.chain_id@,
        a.block_number == b.block_number,
        a.block_timestamp == b.block_timestamp,
        a.sequencer_address == b.sequencer_address,
        a.fee_token_address == b.fee_token_address,
        a.vm_resource_fee_cost@.len() == b.vm_resource_fee_cost@.len(),
        forall|i: int|
            0 <= i < a.vm_resource_fee_cost@.len() ==> #[trigger] a.vm_resource_fee_cost@[i].0@
                == b.vm_resource_fee_cost@[i].0@ && a.vm_resource_fee_cost@[i].1
                == b.vm_resource_fee_cost@[i].1,
        a.gas_price == b.gas_price,
        a.invoke_tx_max_n_steps == b.invoke_tx_max_n_steps,
        a.validate_max_n_steps == b.validate_max_n_steps,
        a.max_recursion_depth == b.max_recursion_depth,
{
    crate::field::lemma_view_is_limbs(a.sequencer_address.0.0);
    crate::field::lemma_view_is_limbs(b.sequencer_address.0.0);
    crate::field::lemma_view_is_limbs(a.fee_token_address.0.0);
    crate::field::lemma_view_is_limbs(b.fee_token_address.0.0);
    crate::field::lemma_combine_parts_unique(a.sequencer_address.0.0, b.sequencer_address.0.0);
    crate::field::lemma_combine_parts_unique(a.fee_token_address.0.0, b.fee_token_address.0.0);
}

} // verus!
