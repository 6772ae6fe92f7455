use rust_decimal::Decimal;
use vstd::arithmetic::power::pow;
use vstd::prelude::*;

verus! {

/// `rust_decimal::Decimal`, the number type that every amount passes through.
#[verifier::external_type_specification]
#[verifier::external_body]
pub struct ExDecimal(Decimal);

/// One more than the largest magnitude a decimal can hold (it holds 96 bits).
pub open spec fn magnitude_limit() -> int {
    0x1_0000_0000_0000_0000_0000_0000
}

/// The largest number of digits after the decimal point.
pub open spec fn max_scale() -> nat {
    28
}

pub open spec fn pow10(n: nat) -> int {
    pow(10, n)
}

/// A decimal amount of money, held as the parts of a `rust_decimal::Decimal`:
/// a sign, a 96-bit magnitude and a scale (the number of digits after the
/// decimal point). Its value is `(-1)^negative * magnitude / 10^scale`.
#[derive(Clone, Copy, Debug)]
pub struct Amount {
    negative: bool,
    magnitude: u128,
    scale: u32,
}

impl PartialEq for Amount {
    fn eq(&self, other: &Amount) -> (r: bool) {
        !self.decimal_lt(*other) && !other.decimal_lt(*self)
    }
}

impl vstd::std_specs::cmp::PartialEqSpecImpl for Amount {
    open spec fn obeys_eq_spec() -> bool {
        true
    }

    /// Two amounts are equal when their values are, whatever their scales.
    open spec fn eq_spec(&self, other: &Amount) -> bool {
        self.units() == other.units()
    }
}

/// What `Decimal::checked_add` returns for two amounts.
pub uninterp spec fn decimal_sum(a: Amount, b: Amount) -> Option<Amount>;

/// What `Decimal::checked_sub` returns for two amounts.
pub uninterp spec fn decimal_difference(a: Amount, b: Amount) -> Option<Amount>;

impl Amount {
    /// Every amount has a magnitude below 2^96 and a scale of at most 28.
    #[verifier::type_invariant]
    pub closed spec fn wf(self) -> bool {
        &&& self.magnitude < magnitude_limit()
        &&& self.scale <= max_scale()
    }

    pub closed spec fn is_negative(self) -> bool {
        self.negative
    }

    pub closed spec fn magnitude(self) -> nat {
        self.magnitude as nat
    }

    pub closed spec fn scale(self) -> nat {
        self.scale as nat
    }

    /// The amount built from its parts.
    pub closed spec fn from_parts(negative: bool, magnitude: u128, scale: u32) -> Amount {
        Amount { negative, magnitude, scale }
    }

    /// The signed magnitude, the value times `10^scale`.
    pub open spec fn signed(self) -> int {
        if self.is_negative() {
            -(self.magnitude() as int)
        } else {
            self.magnitude() as int
        }
    }

    /// The signed magnitude written at scale `s` (for `s >= scale`).
    pub open spec fn aligned(self, s: nat) -> int {
        self.signed() * pow10((s - self.scale()) as nat)
    }

    /// The value counted in units of `10^-28`: two amounts are equal in value
    /// exactly when their units are equal.
    pub open spec fn units(self) -> int {
        self.aligned(max_scale())
    }

    /// The exact sum of `a` and `b`, written at the larger of their scales,
    /// fits in 96 bits.
    pub open spec fn sum_fits(a: Amount, b: Amount) -> bool {
        let s = if a.scale() <= b.scale() { b.scale() } else { a.scale() };
        let x = a.aligned(s) + b.aligned(s);
        -magnitude_limit() < x < magnitude_limit()
    }

    /// The exact difference `a - b`, written at the larger of their scales,
    /// fits in 96 bits.
    pub open spec fn difference_fits(a: Amount, b: Amount) -> bool {
        let s = if a.scale() <= b.scale() { b.scale() } else { a.scale() };
        let x = a.aligned(s) - b.aligned(s);
        -magnitude_limit() < x < magnitude_limit()
    }

    /// The larger of the two scales, at which the decimal type adds and
    /// subtracts.
    pub open spec fn common_scale(a: Amount, b: Amount) -> nat {
        if a.scale() <= b.scale() {
            b.scale()
        } else {
            a.scale()
        }
    }

    /// The amount whose signed magnitude at scale `s` is `x` (zero is never
    /// negative).
    pub open spec fn from_signed(x: int, s: nat) -> Amount {
        Amount::from_parts(x < 0, (if x < 0 { -x } else { x }) as u128, s as u32)
    }

    /// The same magnitude and scale with the other sign (zero keeps its own).
    pub open spec fn negated(self) -> Amount {
        if self.magnitude() == 0 {
            self
        } else {
            Amount::from_parts(!self.is_negative(), self.magnitude() as u128, self.scale() as u32)
        }
    }

    /// The decimal type adds exactly: one operand is zero, or the sum fits.
    pub open spec fn sum_is_exact(a: Amount, b: Amount) -> bool {
        a.magnitude() == 0 || b.magnitude() == 0 || Amount::sum_fits(a, b)
    }

    /// The decimal type subtracts exactly: one operand is zero, or the
    /// difference fits.
    pub open spec fn difference_is_exact(a: Amount, b: Amount) -> bool {
        a.magnitude() == 0 || b.magnitude() == 0 || Amount::difference_fits(a, b)
    }

    /// The sum as the decimal type writes it when it adds exactly: the other
    /// operand, unchanged, when one is zero; otherwise the exact sum at the
    /// larger scale.
    pub open spec fn exact_sum(a: Amount, b: Amount) -> Amount {
        let s = Amount::common_scale(a, b);
        if a.magnitude() == 0 {
            b
        } else if b.magnitude() == 0 {
            a
        } else {
            Amount::from_signed(a.aligned(s) + b.aligned(s), s)
        }
    }

    /// The difference `a - b` as the decimal type writes it when it subtracts
    /// exactly: `b` negated when `a` is zero, `a` unchanged when `b` is zero,
    /// otherwise the exact difference at the larger scale.
    pub open spec fn exact_difference(a: Amount, b: Amount) -> Amount {
        let s = Amount::common_scale(a, b);
        if a.magnitude() == 0 {
            b.negated()
        } else if b.magnitude() == 0 {
            a
        } else {
            Amount::from_signed(a.aligned(s) - b.aligned(s), s)
        }
    }

    /// An amount built from parts holds those parts, and is valid exactly
    /// when they are those of a decimal.
    pub proof fn lemma_from_parts(negative: bool, magnitude: u128, scale: u32)
        ensures
            Amount::from_parts(negative, magnitude, scale).is_negative() == negative,
            Amount::from_parts(negative, magnitude, scale).magnitude() == magnitude,
            Amount::from_parts(negative, magnitude, scale).scale() == scale,
            Amount::from_parts(negative, magnitude, scale).wf() <==> (magnitude < magnitude_limit()
                && scale <= max_scale()),
    {
    }

    /// Every amount is the one built from its own parts.
    pub proof fn lemma_parts(self)
        ensures
            self == Amount::from_parts(
                self.is_negative(),
                self.magnitude() as u128,
                self.scale() as u32,
            ),
            self.wf() <==> (self.magnitude() < magnitude_limit() && self.scale() <= max_scale()),
    {
    }

    /// Zero has no units.
    pub proof fn lemma_zero_units()
        ensures
            Amount::from_parts(false, 0, 0).units() == 0,
    {
        vstd::arithmetic::mul::lemma_mul_basics(pow10(28));
    }

    /// An amount whose magnitude is zero has no units.
    pub proof fn lemma_zero_magnitude_units(a: Amount)
        requires
            a.magnitude() == 0,
        ensures
            a.units() == 0,
    {
        vstd::arithmetic::mul::lemma_mul_basics(pow10((28 - a.scale()) as nat));
    }

    /// Writing a signed magnitude at a larger scale and then in units is
    /// writing it in units directly.
    proof fn lemma_aligned_units(x: int, t: nat, s: nat)
        requires
            t <= s <= 28,
        ensures
            (x * pow10((s - t) as nat)) * pow10((28 - s) as nat) == x * pow10((28 - t) as nat),
    {
        vstd::arithmetic::power::lemma_pow_adds(10, (s - t) as nat, (28 - s) as nat);
        vstd::arithmetic::mul::lemma_mul_is_associative(
            x,
            pow10((s - t) as nat),
            pow10((28 - s) as nat),
        );
    }

    /// The exact sum and the exact difference have the values of the sum and
    /// the difference, whenever the decimal type computes them exactly.
    pub proof fn lemma_exact_units(a: Amount, b: Amount)
        requires
            a.wf(),
            b.wf(),
        ensures
            Amount::sum_is_exact(a, b) ==> Amount::exact_sum(a, b).units() == a.units()
                + b.units(),
            Amount::difference_is_exact(a, b) ==> Amount::exact_difference(a, b).units()
                == a.units() - b.units(),
    {
        let s = Amount::common_scale(a, b);
        let p = pow10((28 - s) as nat);
        if a.magnitude() == 0 {
            Amount::lemma_zero_magnitude_units(a);
            if b.magnitude() != 0 {
                let n = b.negated();
                vstd::arithmetic::mul::lemma_mul_unary_negation(
                    b.signed(),
                    pow10((28 - b.scale()) as nat),
                );
                assert(n.signed() == -b.signed());
            } else {
                Amount::lemma_zero_magnitude_units(b);
            }
        } else if b.magnitude() == 0 {
            Amount::lemma_zero_magnitude_units(b);
        } else {
            Amount::lemma_aligned_units(a.signed(), a.scale(), s);
            Amount::lemma_aligned_units(b.signed(), b.scale(), s);
            vstd::arithmetic::mul::lemma_mul_is_distributive_add_other_way(
                p,
                a.aligned(s),
                b.aligned(s),
            );
            vstd::arithmetic::mul::lemma_mul_is_distributive_sub_other_way(
                p,
                a.aligned(s),
                b.aligned(s),
            );
            let x = a.aligned(s) + b.aligned(s);
            let y = a.aligned(s) - b.aligned(s);
            assert(Amount::sum_fits(a, b) ==> Amount::from_signed(x, s).signed() == x);
            assert(Amount::difference_fits(a, b) ==> Amount::from_signed(y, s).signed() == y);
        }
    }

    /// Written at a scale at least its own, an amount whose magnitude is below
    /// `k` times its own scale's power of ten stays below `k` times the new
    /// scale's.
    proof fn lemma_aligned_bound(a: Amount, k: int, s: nat)
        requires
            0 < k,
            a.scale() <= s,
            a.magnitude() < k * pow10(a.scale()),
        ensures
            -(k * pow10(s)) < a.aligned(s) < k * pow10(s),
    {
        let t = a.scale();
        let d = (s - t) as nat;
        let m = a.magnitude() as int;
        vstd::arithmetic::power::lemma_pow_positive(10, d);
        vstd::arithmetic::power::lemma_pow_adds(10, t, d);
        assert(t + d == s);
        assert(pow10(s) == pow10(t) * pow10(d));
        vstd::arithmetic::mul::lemma_mul_strict_inequality(m, k * pow10(t), pow10(d));
        vstd::arithmetic::mul::lemma_mul_is_associative(k, pow10(t), pow10(d));
        vstd::arithmetic::mul::lemma_mul_unary_negation(m, pow10(d));
        assert(0 <= m * pow10(d)) by (nonlinear_arith)
            requires
                0 <= m,
                0 < pow10(d),
        ;
    }

    /// For amounts of at most four decimal places and below 10^20 in absolute
    /// value, the decimal type subtracts exactly, and adding back what was
    /// subtracted is exact too and gives the starting value.
    pub proof fn lemma_sub_then_add(a: Amount, b: Amount)
        requires
            a.wf(),
            b.wf(),
            a.scale() <= 4,
            b.scale() <= 4,
            a.magnitude() < 100_000_000_000_000_000_000 * pow10(a.scale()),
            b.magnitude() < 100_000_000_000_000_000_000 * pow10(b.scale()),
        ensures
            Amount::difference_is_exact(a, b),
            Amount::exact_difference(a, b).units() == a.units() - b.units(),
            Amount::sum_is_exact(Amount::exact_difference(a, b), b),
            Amount::exact_sum(Amount::exact_difference(a, b), b).units() == a.units(),
    {
        let k: int = 100_000_000_000_000_000_000;
        let s = Amount::common_scale(a, b);
        assert(pow10(4) == 10000) by {
            reveal_with_fuel(pow, 5);
        }
        vstd::arithmetic::power::lemma_pow_increases(10, s, 4);
        Amount::lemma_aligned_bound(a, k, s);
        Amount::lemma_aligned_bound(b, k, s);
        assert(k * pow10(s) <= k * 10000) by (nonlinear_arith)
            requires
                pow10(s) <= 10000,
                k > 0,
        ;
        Amount::lemma_exact_units(a, b);
        let d = Amount::exact_difference(a, b);
        let y = a.aligned(s) - b.aligned(s);
        if a.magnitude() != 0 && b.magnitude() != 0 {
            assert(d.magnitude() == (if y < 0 { -y } else { y }));
            assert(d.scale() == s);
        }
        assert(d.scale() <= 4);
        assert(d.magnitude() < 2 * k * pow10(d.scale())) by {
            vstd::arithmetic::power::lemma_pow_positive(10, d.scale());
            if a.magnitude() == 0 || b.magnitude() != 0 {
                assert(k * pow10(d.scale()) <= 2 * k * pow10(d.scale())) by (nonlinear_arith)
                    requires
                        pow10(d.scale()) > 0,
                        k > 0,
                ;
            }
        }
        vstd::arithmetic::power::lemma_pow_increases(10, d.scale(), 4);
        assert(2 * k * pow10(d.scale()) <= 2 * k * 10000) by (nonlinear_arith)
            requires
                pow10(d.scale()) <= 10000,
                k > 0,
        ;
        assert(d.wf());
        let t = Amount::common_scale(d, b);
        vstd::arithmetic::power::lemma_pow_increases(10, t, 4);
        Amount::lemma_aligned_bound(d, 2 * k, t);
        Amount::lemma_aligned_bound(b, k, t);
        assert(3 * k * pow10(t) <= 3 * k * 10000) by (nonlinear_arith)
            requires
                pow10(t) <= 10000,
                k > 0,
        ;
        Amount::lemma_exact_units(d, b);
    }

    /// The amount with these parts, when they are those of a decimal: a
    /// magnitude below 2^96 and a scale of at most 28.
    pub fn try_new(negative: bool, magnitude: u128, scale: u32) -> (r: Option<Amount>)
        ensures
            r is Some <==> magnitude < magnitude_limit() && scale <= max_scale(),
            r is Some ==> r->0 == Amount::from_parts(negative, magnitude, scale),
    {
        if magnitude < 0x1_0000_0000_0000_0000_0000_0000 && scale <= 28 {
            Some(Amount { negative, magnitude, scale })
        } else {
            None
        }
    }

    /// Zero, with scale 0 (`Decimal::ZERO`).
    pub fn zero() -> (r: Amount)
        ensures
            r == Amount::from_parts(false, 0, 0),
            r.units() == 0,
    {
        proof {
            vstd::arithmetic::mul::lemma_mul_basics(pow10(28));
        }
        Amount { negative: false, magnitude: 0, scale: 0 }
    }

    /// Wraps a decimal (`Decimal::mantissa`, `Decimal::scale` and
    /// `Decimal::is_sign_negative` give the parts); every decimal is a valid amount.
    #[verifier::external_body]
    pub fn new(value: Decimal) -> Amount {
        Amount {
            negative: value.is_sign_negative(),
            magnitude: value.mantissa().unsigned_abs(),
            scale: value.scale(),
        }
    }

    /// The decimal with these parts (`Decimal::from_i128_with_scale`, then
    /// `Decimal::set_sign_negative`).
    #[verifier::external_body]
    pub fn into_inner(self) -> Decimal {
        let mut value = Decimal::from_i128_with_scale(self.magnitude as i128, self.scale);
        value.set_sign_negative(self.negative);
        value
    }
}

impl Amount {
    /// `Decimal::checked_add`. rust_decimal hands back the other operand,
    /// unchanged, when one is zero; otherwise, when the exact sum written at the
    /// larger of the two scales fits in 96 bits, it returns that sum at that
    /// scale. Only where it does not fit does it round or return `None`; that
    /// result is named.
    #[verifier::external_body]
    pub(crate) fn checked_add(self, rhs: Amount) -> (r: Option<Amount>)
        ensures
            r == decimal_sum(self, rhs),
            Amount::sum_is_exact(self, rhs) ==> r == Some(Amount::exact_sum(self, rhs)),
    {
        let mut a = Decimal::from_i128_with_scale(self.magnitude as i128, self.scale);
        a.set_sign_negative(self.negative);
        let mut b = Decimal::from_i128_with_scale(rhs.magnitude as i128, rhs.scale);
        b.set_sign_negative(rhs.negative);
        match a.checked_add(b) {
            Some(c) => Some(Amount {
                negative: c.is_sign_negative(),
                magnitude: c.mantissa().unsigned_abs(),
                scale: c.scale(),
            }),
            None => None,
        }
    }

    /// `Decimal::checked_sub`. rust_decimal hands back the right operand with
    /// its sign turned when the left one is zero, the left one unchanged when
    /// the right one is zero, and otherwise, when it fits in 96 bits, the exact
    /// difference at the larger of the two scales. Only where it does not fit
    /// does it round or return `None`; that result is named.
    #[verifier::external_body]
    pub(crate) fn checked_sub(self, rhs: Amount) -> (r: Option<Amount>)
        ensures
            r == decimal_difference(self, rhs),
            Amount::difference_is_exact(self, rhs) ==> r == Some(
                Amount::exact_difference(self, rhs),
            ),
    {
        let mut a = Decimal::from_i128_with_scale(self.magnitude as i128, self.scale);
        a.set_sign_negative(self.negative);
        let mut b = Decimal::from_i128_with_scale(rhs.magnitude as i128, rhs.scale);
        b.set_sign_negative(rhs.negative);
        match a.checked_sub(b) {
            Some(c) => Some(Amount {
                negative: c.is_sign_negative(),
                magnitude: c.mantissa().unsigned_abs(),
                scale: c.scale(),
            }),
            None => None,
        }
    }

    /// `<` on decimals, which compares their values.
    #[verifier::external_body]
    pub(crate) fn decimal_lt(self, rhs: Amount) -> (r: bool)
        ensures
            r == (self.units() < rhs.units()),
    {
        let mut a = Decimal::from_i128_with_scale(self.magnitude as i128, self.scale);
        a.set_sign_negative(self.negative);
        let mut b = Decimal::from_i128_with_scale(rhs.magnitude as i128, rhs.scale);
        b.set_sign_negative(rhs.negative);
        a < b
    }

    /// The sum of two amounts (`Decimal`'s `+`, which panics where
    /// `checked_add` gives `None`; it never does where the sum is exact).
    pub fn add(self, rhs: Amount) -> (r: Amount)
        requires
            Amount::sum_is_exact(self, rhs) || decimal_sum(self, rhs) is Some,
        ensures
            decimal_sum(self, rhs) == Some(r),
            Amount::sum_is_exact(self, rhs) ==> r == Amount::exact_sum(self, rhs),
            Amount::sum_is_exact(self, rhs) ==> r.units() == self.units() + rhs.units(),
    {
        proof {
            use_type_invariant(&self);
            use_type_invariant(&rhs);
            Amount::lemma_exact_units(self, rhs);
        }
        match self.checked_add(rhs) {
            Some(r) => r,
            None => {
                proof {
                    assert(false);
                }
                self
            },
        }
    }

    /// The difference of two amounts (`Decimal`'s `-`, which panics where
    /// `checked_sub` gives `None`; it never does where the difference is
    /// exact).
    pub fn sub(self, rhs: Amount) -> (r: Amount)
        requires
            Amount::difference_is_exact(self, rhs) || decimal_difference(self, rhs) is Some,
        ensures
            decimal_difference(self, rhs) == Some(r),
            Amount::difference_is_exact(self, rhs) ==> r == Amount::exact_difference(self, rhs),
            Amount::difference_is_exact(self, rhs) ==> r.units() == self.units() - rhs.units(),
    {
        proof {
            use_type_invariant(&self);
            use_type_invariant(&rhs);
            Amount::lemma_exact_units(self, rhs);
        }
        match self.checked_sub(rhs) {
            Some(r) => r,
            None => {
                proof {
                    assert(false);
                }
                self
            },
        }
    }
}

impl Amount {
    /// The 16 bytes of `Decimal::serialize`: the flags word (scale in byte 2,
    /// sign in the top bit of byte 3), then the 96-bit magnitude, little-endian.
    pub open spec fn serialized(self) -> Seq<u8> {
        let m = self.magnitude() as u128;
        seq![
            0u8,
            0u8,
            self.scale() as u8,
            if self.is_negative() { 0x80u8 } else { 0u8 },
            (m & 0xff) as u8,
            ((m >> 8) & 0xff) as u8,
            ((m >> 16) & 0xff) as u8,
            ((m >> 24) & 0xff) as u8,
            ((m >> 32) & 0xff) as u8,
            ((m >> 40) & 0xff) as u8,
            ((m >> 48) & 0xff) as u8,
            ((m >> 56) & 0xff) as u8,
            ((m >> 64) & 0xff) as u8,
            ((m >> 72) & 0xff) as u8,
            ((m >> 80) & 0xff) as u8,
            ((m >> 88) & 0xff) as u8,
        ]
    }

    /// The amount that `Decimal::deserialize` reads from 16 bytes: the sign
    /// from the top bit of byte 3, the scale from the low five bits of byte 2,
    /// the magnitude from bytes 4 to 15. A scale above 28 is brought down to 28
    /// by dividing the magnitude by the power of ten in between, adding one
    /// where the remainder is 5 or more.
    pub open spec fn deserialized(b: Seq<u8>) -> Amount {
        let negative = b[3] & 0x80u8 != 0u8;
        let scale = (b[2] & 0x1fu8) as nat;
        let m = le_magnitude(b) as int;
        if scale <= max_scale() {
            Amount::from_parts(negative, m as u128, scale as u32)
        } else {
            let p = pow10((scale - max_scale()) as nat);
            let q = m / p;
            let rounded = if m % p >= 5 {
                q + 1
            } else {
                q
            };
            Amount::from_parts(negative, rounded as u128, 28)
        }
    }

    /// `Decimal::serialize`.
    #[verifier::external_body]
    pub(crate) fn serialize(self) -> (r: [u8; 16])
        ensures
            r@ == self.serialized(),
    {
        let mut value = Decimal::from_i128_with_scale(self.magnitude as i128, self.scale);
        value.set_sign_negative(self.negative);
        value.serialize()
    }

    /// `Decimal::deserialize`, which reads the parts as `deserialized` says.
    #[verifier::external_body]
    pub(crate) fn deserialize(bytes: [u8; 16]) -> (r: Amount)
        ensures
            r == Amount::deserialized(bytes@),
    {
        let value = Decimal::deserialize(bytes);
        Amount {
            negative: value.is_sign_negative(),
            magnitude: value.mantissa().unsigned_abs(),
            scale: value.scale(),
        }
    }

    /// What `serialize` writes, `deserialize` reads back.
    pub proof fn lemma_serialized_roundtrip(self)
        requires
            self.wf(),
        ensures
            self.serialized().len() == 16,
            self.serialized()[2] & 0x1fu8 <= 28,
            Amount::deserialized(self.serialized()) == self,
    {
        let m = self.magnitude;
        let sc = self.scale;
        assert(((m & 0xff) as u8 as u128)
                | ((((m >> 8) & 0xff) as u8 as u128) << 8)
                | ((((m >> 16) & 0xff) as u8 as u128) << 16)
                | ((((m >> 24) & 0xff) as u8 as u128) << 24)
                | ((((m >> 32) & 0xff) as u8 as u128) << 32)
                | ((((m >> 40) & 0xff) as u8 as u128) << 40)
                | ((((m >> 48) & 0xff) as u8 as u128) << 48)
                | ((((m >> 56) & 0xff) as u8 as u128) << 56)
                | ((((m >> 64) & 0xff) as u8 as u128) << 64)
                | ((((m >> 72) & 0xff) as u8 as u128) << 72)
                | ((((m >> 80) & 0xff) as u8 as u128) << 80)
                | ((((m >> 88) & 0xff) as u8 as u128) << 88) == m) by (bit_vector)
            requires
                m < 0x1_0000_0000_0000_0000_0000_0000u128;
        assert((sc as u8) & 0x1fu8 == sc) by (bit_vector)
            requires
                sc <= 28u32;
        assert(0x80u8 & 0x80u8 != 0u8) by (bit_vector);
        assert(0u8 & 0x80u8 == 0u8) by (bit_vector);
    }
}

/// The magnitude stored little-endian in bytes 4 to 15.
pub open spec fn le_magnitude(b: Seq<u8>) -> u128 {
    (b[4] as u128)
        | ((b[5] as u128) << 8)
        | ((b[6] as u128) << 16)
        | ((b[7] as u128) << 24)
        | ((b[8] as u128) << 32)
        | ((b[9] as u128) << 40)
        | ((b[10] as u128) << 48)
        | ((b[11] as u128) << 56)
        | ((b[12] as u128) << 64)
        | ((b[13] as u128) << 72)
        | ((b[14] as u128) << 80)
        | ((b[15] as u128) << 88)
}

} // verus!
