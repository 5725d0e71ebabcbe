//! Fixture assembly for a StarkNet-style execution engine: field-element
//! encoding, address and storage-key derivation, calldata and transaction
//! assembly, block-context construction, and compilation of declarative
//! contract artifacts into executable classes.

use vstd::prelude::*;

pub mod addr;
pub mod calldata;
pub mod compile;
pub mod context;
pub mod field;
pub mod starkhash;
pub mod tx;

verus! {

/// Address (and class hash) of the fee-token contract in test fixtures.
pub const FEE_TKN_ADDR: &'static str = "0x1";

/// Class hash of the account contract; also usable as its deployed address.
pub const ACCOUNT_ADDR: &'static str = "0x100";

/// Class hash of the universal deployer; also usable as its deployed address.
pub const DEPLOYER_ADDR: &'static str = "0x2";

/// Default gas price, in wei: 100 * 10^9.
pub const DEFAULT_GAS_PRICE: u128 = 100_000_000_000;

/// Step ceiling applied to both validation and invocation.
pub const CAIRO_STEPS: u32 = 1_000_000;

/// Fee ceiling applied to every assembled transaction: 10^6 * DEFAULT_GAS_PRICE.
pub const MAX_FEE: u128 = 100_000_000_000_000_000;

} // verus!
