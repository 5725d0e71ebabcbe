use blockifier_utils::addr::felt;
use blockifier_utils::calldata::invoke_calldata;
use blockifier_utils::tx::{invoke_tx, to_engine_invoke_tx, TransactionSignature};
use blockifier_utils::MAX_FEE;

#[test]
fn invoke_tx_defaults_to_empty_signature() {
    let cd = invoke_calldata("0x10", "transfer", vec!["0x20", "0x5"]).unwrap();
    let tx = invoke_tx("0x100", cd, None, "0x1").unwrap();
    assert!(tx.signature.0.is_empty());
    assert_eq!(tx.max_fee, MAX_FEE);
    assert_eq!(tx.tx_hash, felt("0x0").unwrap());
    assert_eq!(tx.sender_address.0.0, felt("0x100").unwrap());
    assert_eq!(tx.nonce, felt("0x1").unwrap());
}

#[test]
fn invoke_tx_preserves_explicit_signature() {
    let cd = invoke_calldata("0x10", "transfer", vec!["0x20"]).unwrap();
    let sig = TransactionSignature(vec![felt("0x7").unwrap(), felt("0x8").unwrap()]);
    let tx = invoke_tx("0x100", cd, Some(sig.clone()), "0x2").unwrap();
    assert_eq!(tx.signature, sig);
}

#[test]
fn invoke_tx_rejects_bad_sender_or_nonce() {
    let cd = invoke_calldata("0x10", "transfer", vec![]).unwrap();
    assert!(invoke_tx("bogus", cd.clone(), None, "0x1").is_err());
    assert!(invoke_tx("0x100", cd, None, "bogus").is_err());
}

#[test]
fn engine_transaction_carries_the_same_fields() {
    let cd = invoke_calldata("0x10", "transfer", vec!["0x20", "0x5"]).unwrap();
    let tx = invoke_tx("0x100", cd, None, "0x3").unwrap();
    let engine = to_engine_invoke_tx(&tx);
    assert_eq!(engine.max_fee, starknet_api::transaction::Fee(MAX_FEE));
    assert!(engine.signature.0.is_empty());
    assert_eq!(engine.nonce.0, starknet_api::hash::StarkHash::from(3u64));
    let sender: starknet_api::hash::StarkHash = *engine.sender_address.0.key();
    assert_eq!(sender, starknet_api::hash::StarkHash::from(0x100u64));
    assert_eq!(engine.calldata.0.len(), 5);
    assert_eq!(engine.calldata.0[0], starknet_api::hash::StarkHash::from(0x10u64));
    assert_eq!(engine.calldata.0[2], starknet_api::hash::StarkHash::from(2u64));
    assert_eq!(engine.calldata.0[3], starknet_api::hash::StarkHash::from(0x20u64));
    assert_eq!(engine.calldata.0[4], starknet_api::hash::StarkHash::from(5u64));
}
