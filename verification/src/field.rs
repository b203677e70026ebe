//! Constants of the native field, as far as the instruction layer reads
//! them: a number below the field's modulus, its low bits and its bit length.

use vstd::arithmetic::power2::{lemma2_to64, lemma_pow2_pos, lemma_pow2_unfold, pow2};
use vstd::prelude::*;

verus! {

/// 2^128, the weight of the high half of a [`FieldElement`].
pub open spec fn two_pow_128() -> nat {
    0x1_0000_0000_0000_0000_0000_0000_0000_0000nat
}

/// The order of the BN254 scalar field.
pub open spec fn modulus() -> nat {
    0x30644e72e131a029b85045b68181585d2833e84879b9709143e1f593f0000001nat
}

/// High half of the modulus.
pub const MODULUS_HIGH: u128 = 0x30644e72e131a029b85045b68181585d;

/// Low half of the modulus.
pub const MODULUS_LOW: u128 = 0x2833e84879b9709143e1f593f0000001;

/// Bits needed to write any element of the field.
pub const MAX_NUM_BITS: u32 = 254;

/// The number of binary digits of `n`: 0 for 0, and one more than that of
/// `n / 2` otherwise.
pub open spec fn bit_length(n: nat) -> nat
    decreases n,
{
    if n == 0 {
        0
    } else {
        1 + bit_length(n / 2)
    }
}

/// Shifting a positive number left by `k` places adds `k` binary digits.
pub proof fn lemma_bit_length_shift(a: nat, b: nat, k: nat)
    requires
        a > 0,
        b < pow2(k),
    ensures
        bit_length(a * pow2(k) + b) == k + bit_length(a),
    decreases k,
{
    if k == 0 {
        lemma2_to64();
        assert(a * pow2(0) + b == a) by (nonlinear_arith)
            requires
                pow2(0) == 1,
                b < pow2(0),
        ;
    } else {
        lemma_pow2_unfold(k);
        lemma_pow2_pos((k - 1) as nat);
        let half = pow2((k - 1) as nat);
        let n = a * pow2(k) + b;
        assert(a * pow2(k) == 2 * (a * half)) by (nonlinear_arith)
            requires
                pow2(k) == 2 * half,
        ;
        assert(a * half > 0) by (nonlinear_arith)
            requires
                a > 0,
                half > 0,
        ;
        assert(n / 2 == a * half + b / 2);
        assert(n > 0);
        lemma_bit_length_shift(a, b / 2, (k - 1) as nat);
    }
}

/// A number below 2^k has at most `k` binary digits.
pub proof fn lemma_bit_length_bound(n: nat, k: nat)
    requires
        n < pow2(k),
    ensures
        bit_length(n) <= k,
    decreases k,
{
    if n > 0 {
        if k == 0 {
            lemma2_to64();
        } else {
            lemma_pow2_unfold(k);
            lemma_bit_length_bound(n / 2, (k - 1) as nat);
        }
    }
}

proof fn lemma_two_pow_128()
    ensures
        pow2(128) == two_pow_128(),
{
    lemma2_to64();
    vstd::arithmetic::power2::lemma_pow2_adds(64, 64);
    assert(pow2(64) == 0x1_0000_0000_0000_0000nat);
    assert(pow2(128) == pow2(64) * pow2(64));
    assert(0x1_0000_0000_0000_0000nat * 0x1_0000_0000_0000_0000nat == two_pow_128()) by (nonlinear_arith);
}

/// The number of binary digits of a 128-bit word.
fn word_bits(word: u128) -> (bits: u32)
    ensures
        bits == bit_length(word as nat),
        bits <= 128,
{
    proof {
        lemma_two_pow_128();
        lemma_bit_length_bound(word as nat, 128);
    }
    let mut rest: u128 = word;
    let mut bits: u32 = 0;
    while rest > 0
        invariant
            bits + bit_length(rest as nat) == bit_length(word as nat),
            bit_length(word as nat) <= 128,
        decreases rest,
    {
        rest = rest / 2;
        bits = bits + 1;
    }
    bits
}

/// A power of two below the 128th is below 2^128.
pub proof fn lemma_pow2_below_128(bits: u32)
    requires
        bits < 128,
    ensures
        pow2(bits as nat) < two_pow_128(),
{
    lemma_two_pow_128();
    vstd::arithmetic::power2::lemma_pow2_strictly_increases(bits as nat, 128);
}

/// 2 to the power `bits`.
pub fn two_pow(bits: u32) -> (power: u128)
    requires
        bits < 128,
    ensures
        power == pow2(bits as nat),
{
    proof {
        lemma2_to64();
        lemma_two_pow_128();
    }
    let mut power: u128 = 1;
    let mut done: u32 = 0;
    while done < bits
        invariant
            done <= bits,
            bits < 128,
            power == pow2(done as nat),
            pow2(128) == two_pow_128(),
        decreases bits - done,
    {
        proof {
            lemma_pow2_unfold((done + 1) as nat);
            vstd::arithmetic::power2::lemma_pow2_strictly_increases((done + 1) as nat, 128);
        }
        power = power * 2;
        done = done + 1;
    }
    power
}

/// The low `bits` bits of `number`.
pub fn truncate_u128(number: u128, bits: u32) -> (low: u128)
    ensures
        low == number as nat % pow2(bits as nat),
{
    if bits >= 128 {
        proof {
            lemma_two_pow_128();
            if bits > 128 {
                vstd::arithmetic::power2::lemma_pow2_strictly_increases(128, bits as nat);
            }
            vstd::arithmetic::div_mod::lemma_small_mod(number as nat, pow2(bits as nat));
        }
        number
    } else {
        proof {
            lemma_pow2_pos(bits as nat);
        }
        number % two_pow(bits)
    }
}

/// Every bit of `number` flipped.
pub fn not_u128(number: u128) -> (flipped: u128)
    ensures
        flipped == two_pow_128() - 1 - number,
{
    assert(!number == 0xffff_ffff_ffff_ffff_ffff_ffff_ffff_ffffu128 - number) by (bit_vector);
    !number
}

/// An element of the native field, held as the two 128-bit halves of its
/// canonical representative.
#[derive(Clone, Copy, PartialEq, Eq, Structural, Hash, Debug)]
pub struct FieldElement {
    high: u128,
    low: u128,
}

impl FieldElement {
    /// The canonical representative, a number below [`modulus`].
    pub closed spec fn value(self) -> nat {
        self.high as nat * two_pow_128() + self.low as nat
    }

    /// The element whose halves are `n / 2^128` and `n % 2^128`.
    pub closed spec fn of(n: nat) -> FieldElement {
        FieldElement { high: (n / two_pow_128()) as u128, low: (n % two_pow_128()) as u128 }
    }

    #[verifier::type_invariant]
    closed spec fn canonical(self) -> bool {
        self.value() < modulus()
    }

    /// `of` and `value` undo each other on 256-bit numbers.
    pub proof fn lemma_of_value(n: nat)
        requires
            n < two_pow_128() * two_pow_128(),
        ensures
            Self::of(n).value() == n,
    {
        let q = n / two_pow_128();
        assert(q < two_pow_128()) by (nonlinear_arith)
            requires
                q == n / two_pow_128(),
                n < two_pow_128() * two_pow_128(),
                two_pow_128() > 0,
        ;
        assert(n == q * two_pow_128() + n % two_pow_128()) by (nonlinear_arith)
            requires
                q == n / two_pow_128(),
                two_pow_128() > 0,
        ;
    }

    /// Two elements with the same representative are the same element.
    pub proof fn lemma_value_injective(a: FieldElement, b: FieldElement)
        requires
            a.value() == b.value(),
        ensures
            a == b,
    {
        let (ah, al, bh, bl) = (a.high as nat, a.low as nat, b.high as nat, b.low as nat);
        assert(ah == bh && al == bl) by (nonlinear_arith)
            requires
                ah * two_pow_128() + al == bh * two_pow_128() + bl,
                al < two_pow_128(),
                bl < two_pow_128(),
        ;
    }

    /// Every element is the image of its own representative.
    pub proof fn lemma_of_own_value(a: FieldElement)
        ensures
            Self::of(a.value()) == a,
    {
        assert(a.value() < two_pow_128() * two_pow_128()) by (nonlinear_arith)
            requires
                a.value() == a.high as nat * two_pow_128() + a.low as nat,
                (a.high as nat) < two_pow_128(),
                (a.low as nat) < two_pow_128(),
        ;
        Self::lemma_of_value(a.value());
        Self::lemma_value_injective(Self::of(a.value()), a);
    }

    /// The element with the given halves, if they name a number below the
    /// modulus.
    pub fn new(high: u128, low: u128) -> (element: Option<FieldElement>)
        ensures
            match element {
                Some(e) => e.value() == high as nat * two_pow_128() + low as nat,
                None => high as nat * two_pow_128() + low as nat >= modulus(),
            },
            element is Some <==> (high as nat) * two_pow_128() + (low as nat) < modulus(),
    {
        if high < MODULUS_HIGH || (high == MODULUS_HIGH && low < MODULUS_LOW) {
            proof {
                let (h, l) = (high as nat, low as nat);
                assert(h * two_pow_128() + l < modulus()) by (nonlinear_arith)
                    requires
                        h < MODULUS_HIGH || (h == MODULUS_HIGH && l < MODULUS_LOW),
                        l < two_pow_128(),
                        modulus() == MODULUS_HIGH as nat * two_pow_128() + MODULUS_LOW as nat,
                ;
            }
            Some(FieldElement { high, low })
        } else {
            proof {
                let (h, l) = (high as nat, low as nat);
                assert(h * two_pow_128() + l >= modulus()) by (nonlinear_arith)
                    requires
                        h > MODULUS_HIGH || (h == MODULUS_HIGH && l >= MODULUS_LOW),
                        modulus() == MODULUS_HIGH as nat * two_pow_128() + MODULUS_LOW as nat,
                        (MODULUS_LOW as nat) < two_pow_128(),
                ;
            }
            None
        }
    }

    /// The element that stands for `number`.
    pub fn from_u128(number: u128) -> (element: FieldElement)
        ensures
            element.value() == number,
            element == Self::of(number as nat),
    {
        let element = FieldElement { high: 0, low: number };
        proof {
            Self::lemma_of_value(number as nat);
            Self::lemma_value_injective(element, Self::of(number as nat));
        }
        element
    }

    pub fn zero() -> (element: FieldElement)
        ensures
            element.value() == 0,
            element == Self::of(0),
    {
        Self::from_u128(0)
    }

    pub fn one() -> (element: FieldElement)
        ensures
            element.value() == 1,
            element == Self::of(1),
    {
        Self::from_u128(1)
    }

    /// High half of the representative.
    pub fn high(&self) -> (half: u128)
        ensures
            half == self.value() / two_pow_128(),
    {
        proof {
            let (h, l) = (self.high as nat, self.low as nat);
            assert((h * two_pow_128() + l) / two_pow_128() == h) by (nonlinear_arith)
                requires
                    l < two_pow_128(),
            ;
        }
        self.high
    }

    /// Low half of the representative.
    pub fn low(&self) -> (half: u128)
        ensures
            half == self.value() % two_pow_128(),
    {
        proof {
            let (h, l) = (self.high as nat, self.low as nat);
            assert((h * two_pow_128() + l) % two_pow_128() == l) by (nonlinear_arith)
                requires
                    l < two_pow_128(),
            ;
        }
        self.low
    }

    pub fn is_zero(&self) -> (zero: bool)
        ensures
            zero == (self.value() == 0),
    {
        proof {
            let (h, l) = (self.high as nat, self.low as nat);
            assert(h * two_pow_128() + l == 0 <==> h == 0 && l == 0) by (nonlinear_arith);
        }
        self.high == 0 && self.low == 0
    }

    pub fn is_one(&self) -> (one: bool)
        ensures
            one == (self.value() == 1),
    {
        proof {
            let (h, l) = (self.high as nat, self.low as nat);
            assert(h * two_pow_128() + l == 1 <==> h == 0 && l == 1) by (nonlinear_arith)
                requires
                    l < two_pow_128(),
            ;
        }
        self.high == 0 && self.low == 1
    }

    /// The low 128 bits of the representative.
    pub fn to_u128(&self) -> (number: u128)
        ensures
            number == self.value() % two_pow_128(),
    {
        self.low()
    }

    /// The number of bits needed to write this element: 0 for zero.
    pub fn num_bits(&self) -> (bits: u32)
        ensures
            bits == bit_length(self.value()),
            bits <= MAX_NUM_BITS,
    {
        proof {
            use_type_invariant(self);
            lemma_two_pow_128();
            lemma_modulus_bits();
            lemma_bit_length_bound(self.value(), 254);
            if self.high > 0 {
                lemma_bit_length_shift(self.high as nat, self.low as nat, 128);
            }
        }
        if self.high == 0 {
            word_bits(self.low)
        } else {
            128 + word_bits(self.high)
        }
    }

    /// The element that the low `bits` bits of this one spell.
    pub fn truncate(&self, bits: u32) -> (low: FieldElement)
        ensures
            low.value() == self.value() % pow2(bits as nat),
    {
        proof {
            use_type_invariant(self);
            lemma_two_pow_128();
            lemma_pow2_pos(bits as nat);
            vstd::arithmetic::div_mod::lemma_mod_decreases(self.value(), pow2(bits as nat));
        }
        let ghost high = self.high as nat;
        let ghost low = self.low as nat;
        if bits >= 128 {
            let kept = truncate_u128(self.high, bits - 128);
            proof {
                let rest = pow2((bits - 128) as nat);
                lemma_pow2_pos((bits - 128) as nat);
                vstd::arithmetic::power2::lemma_pow2_adds(128, (bits - 128) as nat);
                assert(pow2(bits as nat) == two_pow_128() * rest);
                vstd::arithmetic::div_mod::lemma_mod_breakdown(
                    self.value() as int,
                    two_pow_128() as int,
                    rest as int,
                );
                assert(self.value() / two_pow_128() == high) by (nonlinear_arith)
                    requires
                        self.value() == high * two_pow_128() + low,
                        low < two_pow_128(),
                ;
                assert(self.value() % two_pow_128() == low) by (nonlinear_arith)
                    requires
                        self.value() == high * two_pow_128() + low,
                        low < two_pow_128(),
                ;
                assert(self.value() % pow2(bits as nat) == two_pow_128() * (high % rest) + low);
                assert(two_pow_128() * (high % rest) == (high % rest) * two_pow_128())
                    by (nonlinear_arith);
            }
            FieldElement { high: kept, low: self.low }
        } else {
            let kept = truncate_u128(self.low, bits);
            proof {
                let rest = pow2((128 - bits) as nat);
                lemma_pow2_pos((128 - bits) as nat);
                vstd::arithmetic::power2::lemma_pow2_adds(bits as nat, (128 - bits) as nat);
                assert(two_pow_128() == pow2(bits as nat) * rest);
                vstd::arithmetic::div_mod::lemma_mod_mod(
                    self.value() as int,
                    pow2(bits as nat) as int,
                    rest as int,
                );
                assert(self.value() % two_pow_128() == low) by (nonlinear_arith)
                    requires
                        self.value() == high * two_pow_128() + low,
                        low < two_pow_128(),
                ;
                assert(self.value() % pow2(bits as nat) == low % pow2(bits as nat));
            }
            FieldElement { high: 0, low: kept }
        }
    }

    /// The element as a 64-bit number, if it has at most 64 bits.
    pub fn try_to_u64(&self) -> (number: Option<u64>)
        ensures
            match number {
                Some(n) => n == self.value(),
                None => self.value() > u64::MAX,
            },
    {
        if self.high == 0 && self.low <= 0xffff_ffff_ffff_ffff {
            Some(self.low as u64)
        } else {
            proof {
                let (h, l) = (self.high as nat, self.low as nat);
                assert(h * two_pow_128() + l > u64::MAX) by (nonlinear_arith)
                    requires
                        h > 0 || l > u64::MAX,
                ;
            }
            None
        }
    }

    /// The element as a 32-bit number, if it has at most 32 bits.
    pub fn try_to_u32(&self) -> (number: Option<u32>)
        ensures
            match number {
                Some(n) => n == self.value(),
                None => self.value() > u32::MAX,
            },
    {
        if self.high == 0 && self.low <= 0xffff_ffff {
            Some(self.low as u32)
        } else {
            proof {
                let (h, l) = (self.high as nat, self.low as nat);
                assert(h * two_pow_128() + l > u32::MAX) by (nonlinear_arith)
                    requires
                        h > 0 || l > u32::MAX,
                ;
            }
            None
        }
    }
}

proof fn lemma_modulus_bits()
    ensures
        modulus() < pow2(254),
{
    lemma2_to64();
    vstd::arithmetic::power2::lemma_pow2_adds(64, 64);
    vstd::arithmetic::power2::lemma_pow2_adds(128, 64);
    vstd::arithmetic::power2::lemma_pow2_adds(192, 62);
    vstd::arithmetic::power2::lemma2_to64_rest();
    assert(pow2(62) == 0x4000_0000_0000_0000nat);
    assert(pow2(64) == 0x1_0000_0000_0000_0000nat);
    assert(0x1_0000_0000_0000_0000nat * 0x1_0000_0000_0000_0000nat * 0x1_0000_0000_0000_0000nat
        * 0x4000_0000_0000_0000nat > modulus()) by (nonlinear_arith);
    assert(pow2(254) == pow2(64) * pow2(64) * pow2(64) * pow2(62)) by (nonlinear_arith)
        requires
            pow2(128) == pow2(64) * pow2(64),
            pow2(192) == pow2(128) * pow2(64),
            pow2(254) == pow2(192) * pow2(62),
    ;
}

} // verus!
