use vstd::prelude::*;
use vstd::string::StrSliceExecFns;
use sha3::{Digest, Keccak256};
use crate::field::{combine, field_modulus, pow128, Felt};

verus! {

broadcast use crate::field::lemma_view_is_limbs;

/// 2^250, the bound the truncated Keccak respects.
pub open spec fn pow250() -> nat {
    0x400000000000000000000000000000000000000000000000000000000000000nat
}

/// 2^251 - 256, the size of the state trie's address domain.
pub open spec fn l2_address_bound() -> nat {
    0x7ffffffffffffffffffffffffffffffffffffffffffffffffffffffffffff00nat
}

/// High 128 bits of the address-domain size.
const L2_BOUND_HI: u128 = 0x7ffffffffffffffffffffffffffffff;

/// Low 128 bits of the address-domain size.
const L2_BOUND_LO: u128 = 0xffffffffffffffffffffffffffffff00;

/// The value of the protocol's name hash: Keccak-256 of the name's UTF-8
/// bytes, truncated to its low 250 bits. A function of the characters alone.
pub uninterp spec fn sn_keccak_of(name: Seq<char>) -> nat;

/// The value of the protocol's two-to-one Pedersen hash on field elements.
pub uninterp spec fn pedersen_of(x: nat, y: nat) -> nat;

/// Relies on sha3::Keccak256 over the name's UTF-8 bytes, with the top six
/// bits of the digest discarded: the starknet_keccak construction. The result
/// depends on the name alone and always fits in 250 bits.
#[verifier::external_body]
fn starknet_keccak(name: &str) -> (r: Felt)
    ensures
        r@ == sn_keccak_of(name@),
        r@ < pow250(),
{
    let mut hasher = Keccak256::new();
    hasher.update(name.as_bytes());
    let mut out: [u8; 32] = hasher.finalize().into();
    out[0] &= 3;
    let mut half = [0u8; 16];
    half.copy_from_slice(&out[..16]);
    let hi = u128::from_be_bytes(half);
    half.copy_from_slice(&out[16..]);
    let lo = u128::from_be_bytes(half);
    Felt { hi, lo }
}

/// Relies on starknet_crypto::pedersen_hash: a deterministic two-to-one hash
/// whose result is an element of the field.
#[verifier::external_body]
fn pedersen(x: &Felt, y: &Felt) -> (r: Felt)
    ensures
        r@ == pedersen_of(x@, y@),
        r@ < field_modulus(),
{
    let mut xb = [0u8; 32];
    xb[..16].copy_from_slice(&x.hi.to_be_bytes());
    xb[16..].copy_from_slice(&x.lo.to_be_bytes());
    let mut yb = [0u8; 32];
    yb[..16].copy_from_slice(&y.hi.to_be_bytes());
    yb[16..].copy_from_slice(&y.lo.to_be_bytes());
    let xf = starknet_crypto::Felt::from_bytes_be(&xb);
    let yf = starknet_crypto::Felt::from_bytes_be(&yb);
    let hb = starknet_crypto::pedersen_hash(&xf, &yf).to_bytes_be();
    let mut half = [0u8; 16];
    half.copy_from_slice(&hb[..16]);
    let hi = u128::from_be_bytes(half);
    half.copy_from_slice(&hb[16..]);
    let lo = u128::from_be_bytes(half);
    Felt { hi, lo }
}

/// Character-by-character string equality.
fn str_equal(a: &str, b: &str) -> (r: bool)
    ensures
        r <==> a@ == b@,
{
    let na = a.unicode_len();
    let nb = b.unicode_len();
    if na != nb {
        proof {
            if a@ == b@ {
                assert(a@.len() == b@.len());
            }
        }
        return false;
    }
    let mut i: usize = 0;
    while i < na
        invariant
            i <= na,
            na == a@.len(),
            na == b@.len(),
            forall|j: int| 0 <= j < i ==> a@[j] == b@[j],
        decreases na - i,
    {
        if a.get_char(i) != b.get_char(i) {
            proof {
                if a@ == b@ {
                    assert(a@[i as int] == b@[i as int]);
                }
            }
            return false;
        }
        i += 1;
    }
    proof {
        assert(a@ =~= b@);
    }
    true
}

/// The selector an entry-point name dispatches through: zero for the two
/// default entry points, the protocol's name hash for every other name.
pub open spec fn selector_of(name: Seq<char>) -> nat {
    if name == "__default__"@ || name == "__l1_default__"@ {
        0
    } else {
        sn_keccak_of(name)
    }
}

/// The selector of an entry point. The default entry points are dispatched
/// by selector zero rather than by their name hash.
pub fn selector_from_name(name: &str) -> (r: Felt)
    ensures
        r@ == selector_of(name@),
        r@ < pow250(),
{
    if str_equal(name, "__default__") || str_equal(name, "__l1_default__") {
        Felt::zero()
    } else {
        starknet_keccak(name)
    }
}

/// The raw storage-variable key: the name hash, folded once with the
/// Pedersen hash for each argument, in argument order.
pub open spec fn storage_key_hash(name: Seq<char>, args: Seq<nat>) -> nat
    decreases args.len(),
{
    if args.len() == 0 {
        sn_keccak_of(name)
    } else {
        pedersen_of(storage_key_hash(name, args.drop_last()), args.last())
    }
}

/// The values of a sequence of field elements.
pub open spec fn felt_values(args: Seq<Felt>) -> Seq<nat> {
    args.map_values(|f: Felt| f@)
}

/// The storage address of a named storage variable with the given arguments:
/// the folded Pedersen chain, reduced into the trie's address domain.
pub fn get_storage_var_address(name: &str, args: &Vec<Felt>) -> (r: Felt)
    ensures
        r@ == storage_key_hash(name@, felt_values(args@)) % l2_address_bound(),
        r@ < l2_address_bound(),
{
    let ghost vals = felt_values(args@);
    let mut h = starknet_keccak(name);
    proof {
        assert(vals.take(0) =~= Seq::<nat>::empty());
        assert(h@ < field_modulus());
    }
    let mut i: usize = 0;
    while i < args.len()
        invariant
            i <= args.len(),
            vals == felt_values(args@),
            vals.len() == args@.len(),
            h@ == storage_key_hash(name@, vals.take(i as int)),
            h@ < field_modulus(),
        decreases args.len() - i,
    {
        h = pedersen(&h, &args[i]);
        proof {
            assert(vals.take(i + 1).drop_last() =~= vals.take(i as int));
            assert(vals.take(i + 1).last() == args@[i as int]@);
        }
        i += 1;
    }
    proof {
        assert(vals.take(vals.len() as int) =~= vals);
    }
    reduce_to_address_domain(h)
}

/// Reduces a field element into the address domain. Because the field
/// modulus is below twice the domain size, one conditional subtraction is
/// the whole reduction.
fn reduce_to_address_domain(h: Felt) -> (r: Felt)
    ensures
        r@ == h@ % l2_address_bound(),
        r@ < l2_address_bound(),
{
    proof {
        use_type_invariant(&h);
        assert(combine(L2_BOUND_HI, L2_BOUND_LO) == l2_address_bound());
    }
    let ge = h.hi > L2_BOUND_HI || (h.hi == L2_BOUND_HI && h.lo >= L2_BOUND_LO);
    proof {
        assert(ge <==> combine(h.hi, h.lo) >= l2_address_bound()) by (nonlinear_arith)
            requires
                ge == (h.hi > L2_BOUND_HI || (h.hi == L2_BOUND_HI && h.lo >= L2_BOUND_LO)),
                combine(h.hi, h.lo) == (h.hi as int) * (pow128() as int) + h.lo as int,
                l2_address_bound() as int == (L2_BOUND_HI as int) * (pow128() as int)
                    + L2_BOUND_LO as int,
                h.lo <= u128::MAX,
                L2_BOUND_LO <= u128::MAX,
                (u128::MAX as int) + 1 == pow128() as int,
        ;
    }
    if ge {
        let (rhi, rlo): (u128, u128) = if h.lo >= L2_BOUND_LO {
            (h.hi - L2_BOUND_HI, h.lo - L2_BOUND_LO)
        } else {
            (h.hi - L2_BOUND_HI - 1, h.lo + (u128::MAX - L2_BOUND_LO) + 1)
        };
        proof {
            assert(combine(rhi, rlo) == combine(h.hi, h.lo) - l2_address_bound())
                by (nonlinear_arith)
                requires
                    (if h.lo >= L2_BOUND_LO {
                        rhi == h.hi - L2_BOUND_HI && rlo == h.lo - L2_BOUND_LO
                    } else {
                        rhi as int == h.hi - L2_BOUND_HI - 1 && rlo as int == h.lo + (
                        u128::MAX - L2_BOUND_LO) + 1
                    }),
                    combine(rhi, rlo) == (rhi as int) * (pow128() as int) + rlo as int,
                    combine(h.hi, h.lo) == (h.hi as int) * (pow128() as int) + h.lo as int,
                    l2_address_bound() as int == (L2_BOUND_HI as int) * (pow128() as int)
                        + L2_BOUND_LO as int,
                    (u128::MAX as int) + 1 == pow128() as int,
            ;
            assert(h@ < 2 * l2_address_bound());
            vstd::arithmetic::div_mod::lemma_fundamental_div_mod_converse(
                h@ as int,
                l2_address_bound() as int,
                1,
                h@ as int - l2_address_bound() as int,
            );
        }
        Felt { hi: rhi, lo: rlo }
    } else {
        proof {
            vstd::arithmetic::div_mod::lemma_fundamental_div_mod_converse(
                h@ as int,
                l2_address_bound() as int,
                0,
                h@ as int,
            );
        }
        h
    }
}

} // verus!
