use vstd::prelude::*;
use starknet_api::hash::StarkHash;
use starknet_api::transaction::{Fee, InvokeTransactionV1};
use crate::addr::ContractAddress;
use crate::calldata::Calldata;
use crate::field::{literal_value, valid_felt_literal, EncodingError, Felt};
use crate::starkhash::l2_address_bound;
use crate::MAX_FEE;

verus! {

/// The signature carried by a transaction; empty when the caller gives none.
#[derive(Clone, Debug, PartialEq, Eq)]
pub struct TransactionSignature(pub Vec<Felt>);

/// A fully populated invoke transaction, with the protocol-mandated
/// defaults: the fixed fee ceiling and a zero transaction-hash sentinel the
/// engine is responsible for filling in.
#[derive(Clone, Debug, PartialEq, Eq)]
pub struct AccountTransaction {
    pub max_fee: u128,
    pub signature: TransactionSignature,
    pub nonce: Felt,
    pub sender_address: ContractAddress,
    pub calldata: Calldata,
    pub tx_hash: Felt,
}

/// Assembles an invoke transaction from a sender literal, calldata, an
/// optional signature and a nonce literal. Fails exactly when the sender or
/// nonce literal is invalid; the calldata is taken verbatim and an absent
/// signature becomes the empty signature.
pub fn invoke_tx(
    sender_address: &str,
    calldata: Calldata,
    signature: Option<TransactionSignature>,
    nonce: &str,
) -> (r: Result<AccountTransaction, EncodingError>)
    ensures
        r is Ok <==> (valid_felt_literal(sender_address@) && valid_felt_literal(nonce@)),
        r matches Ok(t) ==> {
            &&& t.max_fee == MAX_FEE
            &&& t.sender_address.0.0@ == literal_value(sender_address@)
            &&& t.nonce@ == literal_value(nonce@)
            &&& t.calldata == calldata
            &&& t.tx_hash@ == 0
            &&& (match signature {
                Some(s) => t.signature == s,
                None => t.signature.0@.len() == 0,
            })
        },
{
    let sender = match crate::addr::contract(sender_address) {
        Ok(c) => c,
        Err(e) => {
            return Err(e);
        },
    };
    let nonce_felt = match Felt::from_literal(nonce) {
        Ok(f) => f,
        Err(e) => {
            return Err(e);
        },
    };
    let sig = match signature {
        Some(s) => s,
        None => TransactionSignature(Vec::new()),
    };
    Ok(
        AccountTransaction {
            max_fee: MAX_FEE,
            signature: sig,
            nonce: nonce_felt,
            sender_address: sender,
            calldata,
            tx_hash: Felt::zero(),
        },
    )
}

/// Declares the engine's native invoke-transaction type.
#[verifier::external_type_specification]
#[verifier::external_body]
pub struct ExInvokeTransactionV1(InvokeTransactionV1);

/// Declares the engine's field-element type.
#[verifier::external_type_specification]
#[verifier::external_body]
pub struct ExEngineFelt(StarkHash);

/// Relies on starknet-types-core's Felt::from_bytes_be: carries one field
/// element over, big-endian limb by limb, exact for values below the
/// modulus.
#[verifier::external_body]
fn to_engine_felt(x: &Felt) -> StarkHash {
    let mut b = [0u8; 32];
    b[..16].copy_from_slice(&x.hi.to_be_bytes());
    b[16..].copy_from_slice(&x.lo.to_be_bytes());
    StarkHash::from_bytes_be(&b)
}

/// Relies on starknet_api::transaction::InvokeTransactionV1: repacks the
/// assembled transaction, field for field, into the engine's native type.
/// The sender must lie in the trie's address domain, as the engine's
/// ContractAddress demands.
#[verifier::external_body]
pub fn to_engine_invoke_tx(tx: &AccountTransaction) -> InvokeTransactionV1
    requires
        tx.sender_address.0.0@ < l2_address_bound(),
{
    let sig = tx.signature.0.iter().map(to_engine_felt).collect();
    let args = tx.calldata.elements.iter().map(to_engine_felt).collect();
    let sender = to_engine_felt(&tx.sender_address.0.0);
    InvokeTransactionV1 {
        max_fee: Fee(tx.max_fee),
        signature: starknet_api::transaction::TransactionSignature(sig),
        nonce: starknet_api::core::Nonce(to_engine_felt(&tx.nonce)),
        sender_address: starknet_api::core::ContractAddress::try_from(sender).expect("in domain"),
        calldata: starknet_api::transaction::Calldata(std::sync::Arc::new(args)),
    }
}

} // verus!
