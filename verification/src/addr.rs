use vstd::prelude::*;
use crate::field::{literal_value, valid_felt_literal, EncodingError, Felt};
use crate::starkhash::{felt_values, get_storage_var_address, l2_address_bound, storage_key_hash};

verus! {

/// A field element constrained to the state trie's address space.
#[derive(Clone, Copy, Debug, PartialEq, Eq, Structural)]
pub struct PatriciaKey(pub Felt);

/// The identifier of a compiled contract class.
#[derive(Clone, Copy, Debug, PartialEq, Eq, Structural)]
pub struct ClassHash(pub Felt);

/// The address of a deployed contract.
#[derive(Clone, Copy, Debug, PartialEq, Eq, Structural)]
pub struct ContractAddress(pub PatriciaKey);

/// The address of a single storage slot.
#[derive(Clone, Copy, Debug, PartialEq, Eq, Structural)]
pub struct StorageKey(pub PatriciaKey);

/// Converts a hexadecimal or decimal literal to a field element.
pub fn felt(hex: &str) -> (r: Result<Felt, EncodingError>)
    ensures
        r is Ok <==> valid_felt_literal(hex@),
        r matches Ok(f) ==> f@ == literal_value(hex@),
{
    Felt::from_literal(hex)
}

/// Converts a literal to a Patricia key.
pub fn patricia(key: &str) -> (r: Result<PatriciaKey, EncodingError>)
    ensures
        r is Ok <==> valid_felt_literal(key@),
        r matches Ok(k) ==> k.0@ == literal_value(key@),
{
    match felt(key) {
        Ok(f) => Ok(PatriciaKey(f)),
        Err(e) => Err(e),
    }
}

/// Converts a literal to a class hash.
pub fn class(class_hash_str: &str) -> (r: Result<ClassHash, EncodingError>)
    ensures
        r is Ok <==> valid_felt_literal(class_hash_str@),
        r matches Ok(c) ==> c.0@ == literal_value(class_hash_str@),
{
    match felt(class_hash_str) {
        Ok(f) => Ok(ClassHash(f)),
        Err(e) => Err(e),
    }
}

/// Converts a literal to a contract address.
pub fn contract(contract_addr_str: &str) -> (r: Result<ContractAddress, EncodingError>)
    ensures
        r is Ok <==> valid_felt_literal(contract_addr_str@),
        r matches Ok(c) ==> c.0.0@ == literal_value(contract_addr_str@),
{
    match patricia(contract_addr_str) {
        Ok(k) => Ok(ContractAddress(k)),
        Err(e) => Err(e),
    }
}

/// Converts a literal directly to a storage key.
pub fn key(storage_key: &str) -> (r: Result<StorageKey, EncodingError>)
    ensures
        r is Ok <==> valid_felt_literal(storage_key@),
        r matches Ok(k) ==> k.0.0@ == literal_value(storage_key@),
{
    match patricia(storage_key) {
        Ok(k) => Ok(StorageKey(k)),
        Err(e) => Err(e),
    }
}

/// The values denoted by a sequence of literals.
pub open spec fn literal_values(args: Seq<String>) -> Seq<nat> {
    args.map_values(|a: String| literal_value(a@))
}

/// Derives the storage key of a named storage variable from its arguments,
/// in the given order. Fails exactly when some argument is not a valid
/// field-element literal.
pub fn storage(storage_var_name: &str, args: &Vec<String>) -> (r: Result<
    StorageKey,
    EncodingError,
>)
    ensures
        r is Ok <==> (forall|i: int| 0 <= i < args@.len() ==> valid_felt_literal(args@[i]@)),
        r matches Ok(k) ==> k.0.0@ == storage_key_hash(storage_var_name@, literal_values(args@))
            % l2_address_bound(),
{
    let mut felts: Vec<Felt> = Vec::new();
    let mut i: usize = 0;
    while i < args.len()
        invariant
            i <= args.len(),
            felts@.len() == i,
            forall|j: int| 0 <= j < i ==> (#[trigger] felts@[j])@ == literal_value(args@[j]@),
            forall|j: int| 0 <= j < i ==> valid_felt_literal(#[trigger] args@[j]@),
        decreases args.len() - i,
    {
        match felt(args[i].as_str()) {
            Ok(f) => {
                felts.push(f);
            },
            Err(e) => {
                return Err(e);
            },
        }
        i += 1;
    }
    proof {
        assert forall|j: int| 0 <= j < args@.len() implies felt_values(felts@)[j]
            == literal_values(args@)[j] by {
            assert(felt_values(felts@)[j] == felts@[j]@);
            assert(literal_values(args@)[j] == literal_value(args@[j]@));
        }
        assert(felt_values(felts@) =~= literal_values(args@));
    }
    let k = get_storage_var_address(storage_var_name, &felts);
    Ok(StorageKey(PatriciaKey(k)))
}

} // verus!
