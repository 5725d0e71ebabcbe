use vstd::prelude::*;
use vstd::string::{StrSliceExecFns, StringExecFns};

verus! {

/// The prime modulus of the protocol's field: 2^251 + 17 * 2^192 + 1.
pub open spec fn field_modulus() -> nat {
    0x800000000000011000000000000000000000000000000000000000000000001nat
}

/// 2^128, the weight of the high limb of a field element.
pub open spec fn pow128() -> nat {
    0x100000000000000000000000000000000nat
}

/// 2^256, the first value a two-limb accumulator cannot hold.
pub open spec fn pow256() -> nat {
    0x10000000000000000000000000000000000000000000000000000000000000000nat
}

/// The value held by a pair of 128-bit limbs.
pub open spec fn combine(hi: u128, lo: u128) -> nat {
    (hi as nat) * pow128() + lo as nat
}

pub open spec fn is_dec_digit(c: char) -> bool {
    48 <= c as u32 <= 57
}

pub open spec fn is_hex_digit(c: char) -> bool {
    is_dec_digit(c) || 97 <= c as u32 <= 102 || 65 <= c as u32 <= 70
}

pub open spec fn spec_base(base16: bool) -> nat {
    if base16 {
        16
    } else {
        10
    }
}

pub open spec fn valid_digit(c: char, base: nat) -> bool {
    if base == 16 {
        is_hex_digit(c)
    } else {
        is_dec_digit(c)
    }
}

pub open spec fn digit_value(c: char, base: nat) -> nat {
    if base == 16 && 97 <= c as u32 <= 102 {
        (c as u32 - 87) as nat
    } else if base == 16 && 65 <= c as u32 <= 70 {
        (c as u32 - 55) as nat
    } else if is_dec_digit(c) {
        (c as u32 - 48) as nat
    } else {
        0
    }
}

/// The number denoted by a digit string, most significant digit first.
pub open spec fn digits_value(s: Seq<char>, base: nat) -> nat
    decreases s.len(),
{
    if s.len() == 0 {
        0
    } else {
        digits_value(s.drop_last(), base) * base + digit_value(s.last(), base)
    }
}

pub open spec fn all_digits(s: Seq<char>, base: nat) -> bool {
    forall|i: int| 0 <= i < s.len() ==> valid_digit(s[i], base)
}

/// A hexadecimal literal: `0x` followed by at least one hex digit.
pub open spec fn is_hex_literal(s: Seq<char>) -> bool {
    s.len() >= 3 && s[0] == '0' && s[1] == 'x' && all_digits(s.skip(2), 16)
}

/// A decimal literal: at least one decimal digit and nothing else.
pub open spec fn is_dec_literal(s: Seq<char>) -> bool {
    s.len() >= 1 && all_digits(s, 10)
}

/// A well-formed field-element literal, per the protocol's text convention.
pub open spec fn is_field_literal(s: Seq<char>) -> bool {
    is_hex_literal(s) || is_dec_literal(s)
}

/// A literal the codec accepts: well formed, with a value inside the field.
pub open spec fn valid_felt_literal(s: Seq<char>) -> bool {
    is_field_literal(s) && literal_value(s) < field_modulus()
}

/// The number a well-formed literal denotes.
pub open spec fn literal_value(s: Seq<char>) -> nat {
    if is_hex_literal(s) {
        digits_value(s.skip(2), 16)
    } else {
        digits_value(s, 10)
    }
}

/// The character that renders a single hex digit, lower case.
pub open spec fn hex_char(d: nat) -> char {
    if d == 0 {
        '0'
    } else if d == 1 {
        '1'
    } else if d == 2 {
        '2'
    } else if d == 3 {
        '3'
    } else if d == 4 {
        '4'
    } else if d == 5 {
        '5'
    } else if d == 6 {
        '6'
    } else if d == 7 {
        '7'
    } else if d == 8 {
        '8'
    } else if d == 9 {
        '9'
    } else if d == 10 {
        'a'
    } else if d == 11 {
        'b'
    } else if d == 12 {
        'c'
    } else if d == 13 {
        'd'
    } else if d == 14 {
        'e'
    } else {
        'f'
    }
}

/// The shortest lower-case hex rendering of a value, most significant digit
/// first; the single digit `0` for zero.
pub open spec fn canonical_digits(v: nat) -> Seq<char>
    decreases v,
{
    if v < 16 {
        seq![hex_char(v)]
    } else {
        canonical_digits(v / 16) + seq![hex_char(v % 16)]
    }
}

/// The canonical literal of a value: `0x` followed by its shortest hex form.
pub open spec fn canonical_literal(v: nat) -> Seq<char> {
    seq!['0', 'x'] + canonical_digits(v)
}

/// Rejection of a malformed or out-of-range field-element literal.
#[derive(Clone, Copy, Debug, PartialEq, Eq, Structural)]
pub struct EncodingError;

/// An element of the protocol's prime field, always below the modulus.
#[derive(Clone, Copy, Debug, PartialEq, Eq, Structural)]
pub struct Felt {
    pub(crate) hi: u128,
    pub(crate) lo: u128,
}

impl View for Felt {
    type V = nat;

    closed spec fn view(&self) -> nat {
        combine(self.hi, self.lo)
    }
}

impl Felt {
    #[verifier::type_invariant]
    pub open spec fn wf(self) -> bool {
        self@ < field_modulus()
    }
}

/// Within the crate, a field element's value is exactly its two limbs.
pub(crate) broadcast proof fn lemma_view_is_limbs(f: Felt)
    ensures
        #[trigger] f@ == combine(f.hi, f.lo),
{
}

/// Two field elements with the same value are the same element.
pub proof fn lemma_combine_parts_unique(a: Felt, b: Felt)
    requires
        a@ == b@,
    ensures
        a == b,
{
    lemma_view_is_limbs(a);
    lemma_view_is_limbs(b);
    assert(a.hi == b.hi && a.lo == b.lo) by (nonlinear_arith)
        requires
            (a.hi as int) * (pow128() as int) + a.lo as int == (b.hi as int) * (pow128() as int)
                + b.lo as int,
            a.lo <= u128::MAX,
            b.lo <= u128::MAX,
            (u128::MAX as int) + 1 == pow128() as int,
    ;
}

/// 2^64, the split point inside a limb used while parsing.
const POW64: u128 = 0x10000000000000000;

/// High 128 bits of the field modulus.
const MOD_HI: u128 = 0x8000000000000110000000000000000;

/// Low 128 bits of the field modulus.
const MOD_LO: u128 = 1;

fn digit_of(c: char, base16: bool) -> (r: Option<u8>)
    ensures
        r is Some <==> valid_digit(c, spec_base(base16)),
        r matches Some(d) ==> d as nat == digit_value(c, spec_base(base16)) && d < spec_base(
            base16,
        ),
{
    let u = c as u32;
    if 48 <= u && u <= 57 {
        Some((u - 48) as u8)
    } else if base16 && 97 <= u && u <= 102 {
        Some((u - 87) as u8)
    } else if base16 && 65 <= u && u <= 70 {
        Some((u - 55) as u8)
    } else {
        None
    }
}

/// One step of positional accumulation: the held value times the base, plus a
/// digit, or `None` once the result can no longer fit in two limbs.
fn mul_add(hi: u128, lo: u128, base: u8, d: u8) -> (r: Option<(u128, u128)>)
    requires
        base == 10 || base == 16,
        d < base,
    ensures
        r matches Some(p) ==> combine(p.0, p.1) == combine(hi, lo) * (base as nat) + (d as nat),
        r is None ==> combine(hi, lo) * (base as nat) + (d as nat) >= pow256(),
{
    let b: u128 = base as u128;
    let dd: u128 = d as u128;
    let lo_hi: u128 = lo / POW64;
    let lo_lo: u128 = lo % POW64;
    proof {
        assert((lo_lo as int) * (b as int) + (dd as int) < 0x100000000000000000000000000000000int)
            by (nonlinear_arith)
            requires
                lo_lo < 0x10000000000000000u128,
                b <= 16,
                dd < 16,
        ;
    }
    let t0: u128 = lo_lo * b + dd;
    proof {
        assert(t0 / POW64 <= 16) by (nonlinear_arith)
            requires
                t0 <= (0x10000000000000000int - 1) * 16 + 15,
                POW64 == 0x10000000000000000u128,
        ;
        assert((lo_hi as int) * (b as int) + 16 < 0x100000000000000000000000000000000int)
            by (nonlinear_arith)
            requires
                lo_hi < 0x10000000000000000u128,
                b <= 16,
        ;
    }
    let t1: u128 = lo_hi * b + t0 / POW64;
    proof {
        assert(((t1 % POW64) as int) * (POW64 as int) + ((t0 % POW64) as int)
            <= u128::MAX as int) by (nonlinear_arith)
            requires
                POW64 == 0x10000000000000000u128,
                t1 % POW64 < POW64,
                t0 % POW64 < POW64,
        ;
    }
    let new_lo: u128 = (t1 % POW64) * POW64 + t0 % POW64;
    let carry: u128 = t1 / POW64;
    proof {
        // The exact value carried so far, as unbounded integers.
        vstd::arithmetic::div_mod::lemma_fundamental_div_mod(lo as int, POW64 as int);
        vstd::arithmetic::div_mod::lemma_fundamental_div_mod(t0 as int, POW64 as int);
        vstd::arithmetic::div_mod::lemma_fundamental_div_mod(t1 as int, POW64 as int);
        assert(((hi as int) * (b as int) + (carry as int)) * (pow128() as int) + (new_lo as int)
            == ((hi as int) * (pow128() as int) + (lo as int)) * (b as int) + (dd as int))
            by (nonlinear_arith)
            requires
                pow128() == (POW64 as int) * (POW64 as int),
                lo as int == (lo_hi as int) * (POW64 as int) + (lo_lo as int),
                t0 as int == (lo_lo as int) * (b as int) + (dd as int),
                t0 as int == ((t0 / POW64) as int) * (POW64 as int) + ((t0 % POW64) as int),
                t1 as int == (lo_hi as int) * (b as int) + ((t0 / POW64) as int),
                t1 as int == (carry as int) * (POW64 as int) + ((t1 % POW64) as int),
                new_lo as int == ((t1 % POW64) as int) * (POW64 as int) + ((t0 % POW64) as int),
        ;
    }
    let cap: u128 = (u128::MAX - carry) / b;
    proof {
        vstd::arithmetic::div_mod::lemma_fundamental_div_mod(
            u128::MAX as int - carry as int,
            b as int,
        );
    }
    if hi <= cap {
        proof {
            assert((hi as int) * (b as int) + (carry as int) <= u128::MAX as int)
                by (nonlinear_arith)
                requires
                    hi <= cap,
                    u128::MAX as int - carry as int == (b as int) * (cap as int) + (u128::MAX
                        as int - carry as int) % (b as int),
                    0 <= (u128::MAX as int - carry as int) % (b as int),
                    b >= 1,
            ;
        }
        let new_hi: u128 = hi * b + carry;
        Some((new_hi, new_lo))
    } else {
        proof {
            assert((hi as int) * (b as int) + (carry as int) > u128::MAX as int)
                by (nonlinear_arith)
                requires
                    hi > cap,
                    u128::MAX as int - carry as int == (b as int) * (cap as int) + (u128::MAX
                        as int - carry as int) % (b as int),
                    (u128::MAX as int - carry as int) % (b as int) < b as int,
                    b >= 1,
            ;
            assert(((hi as int) * (b as int) + (carry as int)) * (pow128() as int) + (new_lo as int)
                >= pow256() as int) by (nonlinear_arith)
                requires
                    (hi as int) * (b as int) + (carry as int) >= 0x100000000000000000000000000000000int,
                    pow128() == 0x100000000000000000000000000000000int,
                    pow256() == 0x100000000000000000000000000000000int
                        * 0x100000000000000000000000000000000int,
                    new_lo >= 0,
            ;
        }
        None
    }
}

/// Appending one digit multiplies the prefix value by the base and adds it.
proof fn lemma_take_step(s: Seq<char>, j: int, base: nat)
    requires
        0 <= j < s.len(),
    ensures
        digits_value(s.take(j + 1), base) == digits_value(s.take(j), base) * base + digit_value(
            s[j],
            base,
        ),
{
    assert(s.take(j + 1).drop_last() =~= s.take(j));
    assert(s.take(j + 1).last() == s[j]);
}

/// The value of a digit string never falls below the value of any prefix.
proof fn lemma_value_mono(s: Seq<char>, j: int, base: nat)
    requires
        0 <= j <= s.len(),
        base >= 1,
    ensures
        digits_value(s, base) >= digits_value(s.take(j), base),
    decreases s.len() - j,
{
    if j == s.len() {
        assert(s.take(j) =~= s);
    } else {
        lemma_take_step(s, j, base);
        assert(digits_value(s.take(j), base) * base + digit_value(s[j], base) >= digits_value(
            s.take(j),
            base,
        )) by (nonlinear_arith)
            requires
                base >= 1,
        ;
        lemma_value_mono(s, j + 1, base);
    }
}

/// A two-limb pair always holds a value below 2^256.
proof fn lemma_combine_bound(hi: u128, lo: u128)
    ensures
        combine(hi, lo) < pow256(),
{
    assert((hi as int) * (pow128() as int) + (lo as int) < pow256() as int) by (nonlinear_arith)
        requires
            hi <= u128::MAX,
            lo <= u128::MAX,
            u128::MAX as int + 1 == pow128() as int,
            pow256() as int == (pow128() as int) * (pow128() as int),
    ;
}

/// A two-limb pair is below the modulus exactly when its limbs are below the
/// modulus limbs in lexicographic order.
proof fn lemma_modulus_compare(hi: u128, lo: u128)
    ensures
        combine(hi, lo) < field_modulus() <==> (hi < MOD_HI || (hi == MOD_HI && lo < MOD_LO)),
{
    assert(0x8000000000000110000000000000000int * 0x100000000000000000000000000000000int + 1
        == 0x800000000000011000000000000000000000000000000000000000000000001int);
    assert(field_modulus() as int == (MOD_HI as int) * (pow128() as int) + (MOD_LO as int));
    assert((hi as int) * (pow128() as int) + (lo as int) < field_modulus() as int <==> (hi
        < MOD_HI || (hi == MOD_HI && lo < MOD_LO))) by (nonlinear_arith)
        requires
            lo <= u128::MAX,
            hi <= u128::MAX,
            u128::MAX as int + 1 == pow128() as int,
            field_modulus() as int == (MOD_HI as int) * (pow128() as int) + (MOD_LO as int),
            MOD_LO == 1u128,
    ;
}

/// Accumulates the digits of `s` from position `start` on, in the given base.
/// Returns the value as two limbs, or `None` if a character is not a digit of
/// the base or the value cannot fit in two limbs.
fn parse_digits(s: &str, start: usize, base16: bool) -> (r: Option<(u128, u128)>)
    requires
        start as int <= s@.len(),
    ensures
        r is Some <==> (all_digits(s@.skip(start as int), spec_base(base16)) && digits_value(
            s@.skip(start as int),
            spec_base(base16),
        ) < pow256()),
        r matches Some(p) ==> combine(p.0, p.1) == digits_value(
            s@.skip(start as int),
            spec_base(base16),
        ),
{
    let ghost ds = s@.skip(start as int);
    let ghost base = spec_base(base16);
    let base_u8: u8 = if base16 {
        16
    } else {
        10
    };
    let n = s.unicode_len();
    let mut i: usize = start;
    let mut hi: u128 = 0;
    let mut lo: u128 = 0;
    proof {
        assert(ds.take(0) =~= Seq::<char>::empty());
    }
    while i < n
        invariant
            start <= i <= n,
            n == s@.len(),
            start as int <= s@.len(),
            ds == s@.skip(start as int),
            base == spec_base(base16),
            base_u8 as nat == base,
            all_digits(ds.take(i - start), base),
            combine(hi, lo) == digits_value(ds.take(i - start), base),
        decreases n - i,
    {
        let c = s.get_char(i);
        let ghost j = i - start;
        proof {
            assert(ds[j] == s@[i as int]);
        }
        match digit_of(c, base16) {
            None => {
                proof {
                    assert(!valid_digit(ds[j], base));
                }
                return None;
            },
            Some(d) => {
                match mul_add(hi, lo, base_u8, d) {
                    None => {
                        proof {
                            lemma_take_step(ds, j, base);
                            lemma_value_mono(ds, j + 1, base);
                            assert(digits_value(ds, base) >= pow256());
                        }
                        return None;
                    },
                    Some(p) => {
                        proof {
                            lemma_take_step(ds, j, base);
                        }
                        hi = p.0;
                        lo = p.1;
                    },
                }
            },
        }
        i += 1;
        proof {
            assert(ds.take(i - start).drop_last() =~= ds.take(i - 1 - start));
        }
    }
    proof {
        assert(ds.take(n - start) =~= ds);
        lemma_combine_bound(hi, lo);
    }
    Some((hi, lo))
}

impl Felt {
    /// Parses a hexadecimal (`0x`-prefixed) or decimal literal into a field
    /// element. Fails exactly when the text is not a well-formed literal or
    /// its value is not below the field modulus.
    pub fn from_literal(text: &str) -> (r: Result<Felt, EncodingError>)
        ensures
            r is Ok <==> is_field_literal(text@) && literal_value(text@) < field_modulus(),
            r matches Ok(f) ==> f@ == literal_value(text@),
    {
        let n = text.unicode_len();
        let base16 = n >= 2 && text.get_char(0) == '0' && text.get_char(1) == 'x';
        let start: usize = if base16 {
            2
        } else {
            0
        };
        proof {
            if base16 {
                assert(!is_dec_digit('x'));
                assert(!is_dec_literal(text@));
            } else {
                assert(!is_hex_literal(text@));
            }
        }
        if n <= start {
            proof {
                if base16 {
                    assert(!is_hex_literal(text@));
                }
            }
            return Err(EncodingError);
        }
        match parse_digits(text, start, base16) {
            None => {
                proof {
                    if base16 {
                        if all_digits(text@.skip(2), 16) {
                            assert(is_hex_literal(text@));
                            assert(literal_value(text@) >= pow256());
                        } else {
                            assert(!is_hex_literal(text@));
                        }
                    } else {
                        if all_digits(text@, 10) {
                            assert(text@.skip(0) =~= text@);
                            assert(literal_value(text@) >= pow256());
                        }
                    }
                }
                Err(EncodingError)
            },
            Some(p) => {
                let (hi, lo) = p;
                proof {
                    lemma_modulus_compare(hi, lo);
                    if base16 {
                        assert(is_hex_literal(text@));
                    } else {
                        assert(text@.skip(0) =~= text@);
                        assert(is_dec_literal(text@));
                        assert(!is_hex_literal(text@));
                    }
                }
                if hi < MOD_HI || (hi == MOD_HI && lo < MOD_LO) {
                    Ok(Felt { hi, lo })
                } else {
                    Err(EncodingError)
                }
            },
        }
    }

    /// The field element of a small machine integer.
    pub fn from_u64(v: u64) -> (r: Felt)
        ensures
            r@ == v as nat,
    {
        proof {
            assert(combine(0, v as u128) == v as nat);
        }
        Felt { hi: 0, lo: v as u128 }
    }

    /// The zero element, used as the transaction-hash sentinel.
    pub fn zero() -> (r: Felt)
        ensures
            r@ == 0,
    {
        proof {
            assert(combine(0, 0) == 0);
        }
        Felt { hi: 0, lo: 0 }
    }

    /// Renders the element as its canonical hexadecimal literal.
    pub fn to_hex(&self) -> (r: String)
        ensures
            r@ == canonical_literal(self@),
    {
        let digits = hex_digits_string(self.hi, self.lo);
        let mut out = String::from_str("0x");
        proof {
            reveal_strlit("0x");
            assert(("0x")@ =~= seq!['0', 'x']);
        }
        out.append(digits.as_str());
        out
    }
}

/// Divides a two-limb value by 16, returning the quotient limbs and remainder.
fn div16(hi: u128, lo: u128) -> (r: (u128, u128, u8))
    ensures
        combine(hi, lo) == combine(r.0, r.1) * 16 + r.2 as nat,
        r.2 < 16,
        combine(r.0, r.1) == combine(hi, lo) / 16,
{
    let new_hi: u128 = hi / 16;
    let new_lo: u128 = (hi % 16) * 0x10000000000000000000000000000000 + lo / 16;
    let rem: u8 = (lo % 16) as u8;
    proof {
        vstd::arithmetic::div_mod::lemma_fundamental_div_mod(hi as int, 16);
        vstd::arithmetic::div_mod::lemma_fundamental_div_mod(lo as int, 16);
        assert(0x10000000000000000000000000000000int * 16
            == 0x100000000000000000000000000000000int);
        assert(pow128() as int == 0x10000000000000000000000000000000int * 16);
        assert((new_hi as int) * (pow128() as int) * 16 + ((hi % 16) as int)
            * 0x10000000000000000000000000000000int * 16 + ((lo / 16) as int) * 16 + (rem as int)
            == (hi as int) * (pow128() as int) + lo as int) by (nonlinear_arith)
            requires
                hi as int == 16 * ((hi / 16) as int) + ((hi % 16) as int),
                lo as int == 16 * ((lo / 16) as int) + ((lo % 16) as int),
                new_hi == hi / 16,
                rem as int == (lo % 16) as int,
                pow128() as int == 0x10000000000000000000000000000000int * 16,
        ;
        assert(combine(new_hi, new_lo) * 16 + rem as nat == combine(hi, lo)) by (nonlinear_arith)
            requires
                (new_hi as int) * (pow128() as int) * 16 + ((hi % 16) as int)
                    * 0x10000000000000000000000000000000int * 16 + ((lo / 16) as int) * 16 + (
                rem as int) == (hi as int) * (pow128() as int) + lo as int,
                new_lo as int == ((hi % 16) as int) * 0x10000000000000000000000000000000int + (lo
                    / 16) as int,
                combine(new_hi, new_lo) == (new_hi as int) * (pow128() as int) + new_lo as int,
                combine(hi, lo) == (hi as int) * (pow128() as int) + lo as int,
        ;
        vstd::arithmetic::div_mod::lemma_fundamental_div_mod(combine(hi, lo) as int, 16);
        assert(combine(new_hi, new_lo) == combine(hi, lo) / 16) by (nonlinear_arith)
            requires
                combine(new_hi, new_lo) * 16 + rem as nat == combine(hi, lo),
                rem < 16,
                combine(hi, lo) as int == 16 * ((combine(hi, lo) / 16) as int) + ((combine(hi, lo)
                    % 16) as int),
                0 <= ((combine(hi, lo) % 16) as int) < 16,
        ;
    }
    (new_hi, new_lo, rem)
}

/// The one-character string of a hex digit, lower case.
fn hex_digit_str(d: u8) -> (r: &'static str)
    requires
        d < 16,
    ensures
        r@ =~= seq![hex_char(d as nat)],
{
    let s: &'static str = match d {
        0 => "0",
        1 => "1",
        2 => "2",
        3 => "3",
        4 => "4",
        5 => "5",
        6 => "6",
        7 => "7",
        8 => "8",
        9 => "9",
        10 => "a",
        11 => "b",
        12 => "c",
        13 => "d",
        14 => "e",
        _ => "f",
    };
    proof {
        reveal_strlit("0");
        reveal_strlit("1");
        reveal_strlit("2");
        reveal_strlit("3");
        reveal_strlit("4");
        reveal_strlit("5");
        reveal_strlit("6");
        reveal_strlit("7");
        reveal_strlit("8");
        reveal_strlit("9");
        reveal_strlit("a");
        reveal_strlit("b");
        reveal_strlit("c");
        reveal_strlit("d");
        reveal_strlit("e");
        reveal_strlit("f");
    }
    s
}

/// Builds the shortest hex rendering of a two-limb value, recursively from
/// the most significant digit down.
fn hex_digits_string(hi: u128, lo: u128) -> (r: String)
    ensures
        r@ == canonical_digits(combine(hi, lo)),
    decreases combine(hi, lo),
{
    let (nhi, nlo, rem) = div16(hi, lo);
    if hi == 0 && lo < 16 {
        proof {
            assert(combine(hi, lo) == lo as nat);
        }
        let r = String::from_str(hex_digit_str(lo as u8));
        proof {
            assert(r@ =~= canonical_digits(combine(hi, lo)));
        }
        r
    } else {
        proof {
            if hi >= 1 {
                assert(combine(hi, lo) >= pow128()) by (nonlinear_arith)
                    requires
                        hi >= 1,
                        combine(hi, lo) == (hi as int) * (pow128() as int) + lo as int,
                ;
            }
            assert(combine(hi, lo) >= 16);
            assert(combine(nhi, nlo) < combine(hi, lo)) by (nonlinear_arith)
                requires
                    combine(hi, lo) == combine(nhi, nlo) * 16 + rem as nat,
                    combine(hi, lo) >= 16,
                    rem < 16,
            ;
        }
        let mut r = hex_digits_string(nhi, nlo);
        r.append(hex_digit_str(rem));
        proof {
            assert(r@ =~= canonical_digits(combine(hi, lo)));
        }
        r
    }
}

/// The canonical hex rendering of any value parses back to that value: the
/// digits are valid and denote it.
pub proof fn lemma_hex_digits_round_trip(v: nat)
    ensures
        canonical_digits(v).len() >= 1,
        all_digits(canonical_digits(v), 16),
        digits_value(canonical_digits(v), 16) == v,
    decreases v,
{
    if v < 16 {
        let s = seq![hex_char(v)];
        assert(s.drop_last() =~= Seq::<char>::empty());
        assert(digits_value(Seq::<char>::empty(), 16) == 0);
        assert(s.last() == hex_char(v));
        assert(valid_digit(hex_char(v), 16) && digit_value(hex_char(v), 16) == v);
        assert(digits_value(s, 16) == 0 * 16 + digit_value(hex_char(v), 16));
    } else {
        lemma_hex_digits_round_trip(v / 16);
        let pre = canonical_digits(v / 16);
        let s = pre + seq![hex_char(v % 16)];
        assert(s.drop_last() =~= pre);
        assert(s.last() == hex_char(v % 16));
        assert forall|d: nat| d < 16 implies valid_digit(hex_char(d), 16) && digit_value(
            hex_char(d),
            16,
        ) == d by {
        }
        assert(digits_value(s, 16) == (v / 16) * 16 + v % 16);
        vstd::arithmetic::div_mod::lemma_fundamental_div_mod(v as int, 16);
        assert(forall|i: int| 0 <= i < s.len() ==> valid_digit(s[i], 16));
    }
}

/// Round trip of the codec: the canonical literal of any value is a
/// well-formed field literal denoting exactly that value.
pub proof fn lemma_literal_round_trip(v: nat)
    ensures
        is_field_literal(canonical_literal(v)),
        literal_value(canonical_literal(v)) == v,
{
    let s = canonical_literal(v);
    lemma_hex_digits_round_trip(v);
    assert(s.skip(2) =~= canonical_digits(v));
    assert(s[0] == '0' && s[1] == 'x');
    assert(is_hex_literal(s));
}

} // verus!
