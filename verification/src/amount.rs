//! Exact decimal amounts.

use rust_decimal::prelude::ToPrimitive;
use rust_decimal::Decimal;
use vstd::prelude::*;
use crate::text::{decimal, digit_char};

verus! {

/// An exact decimal number: `mantissa / 10^scale`, with a mantissa of at most
/// 96 bits and at most 28 decimal places.
#[derive(Debug, Clone, Copy)]
pub struct Amount {
    mantissa: i128,
    scale: u32,
}

/// A power of ten.
pub open spec fn ten_to(n: nat) -> int
    decreases n,
{
    if n == 0 {
        1
    } else {
        10 * ten_to((n - 1) as nat)
    }
}

/// The largest mantissa of an amount.
pub open spec fn max_mantissa() -> int {
    0xFFFF_FFFF_FFFF_FFFF_FFFF_FFFF
}

/// Whether an amount can have this mantissa and scale.
pub open spec fn is_amount(mantissa: int, scale: int) -> bool {
    -max_mantissa() <= mantissa <= max_mantissa() && 0 <= scale <= 28
}

/// A number as mantissa and scale.
pub struct Number {
    pub mantissa: int,
    pub scale: nat,
}

impl Number {
    /// Whether two numbers are equal, however they are written.
    pub open spec fn equals(self, other: Number) -> bool {
        self.mantissa * ten_to(other.scale) == other.mantissa * ten_to(self.scale)
    }

    /// Whether a number is below another.
    pub open spec fn below(self, other: Number) -> bool {
        self.mantissa * ten_to(other.scale) < other.mantissa * ten_to(self.scale)
    }

    /// The sum of two numbers.
    pub open spec fn plus(self, other: Number) -> Number {
        Number {
            mantissa: self.mantissa * ten_to(other.scale) + other.mantissa * ten_to(self.scale),
            scale: self.scale + other.scale,
        }
    }
}

impl View for Amount {
    type V = Number;

    closed spec fn view(&self) -> Number {
        Number { mantissa: self.mantissa as int, scale: self.scale as nat }
    }
}

impl Amount {
    #[verifier::type_invariant]
    closed spec fn in_range(self) -> bool {
        is_amount(self.mantissa as int, self.scale as int)
    }

    /// The amount `mantissa / 10^scale`, where that is in range.
    pub fn new(mantissa: i128, scale: u32) -> (r: Option<Amount>)
        ensures
            match r {
                Some(a) => a@ == (Number { mantissa: mantissa as int, scale: scale as nat })
                    && is_amount(mantissa as int, scale as int),
                None => !is_amount(mantissa as int, scale as int),
            },
    {
        if scale <= 28 && mantissa <= 0xFFFF_FFFF_FFFF_FFFF_FFFF_FFFF && mantissa
            >= -0xFFFF_FFFF_FFFF_FFFF_FFFF_FFFF {
            Some(Amount { mantissa, scale })
        } else {
            None
        }
    }

    /// Zero.
    pub fn zero() -> (r: Amount)
        ensures
            r@ == (Number { mantissa: 0, scale: 0 }),
    {
        Amount { mantissa: 0, scale: 0 }
    }

    /// The mantissa.
    pub fn mantissa(&self) -> (r: i128)
        ensures
            r == self@.mantissa,
    {
        self.mantissa
    }

    /// The number of decimal places.
    pub fn scale(&self) -> (r: u32)
        ensures
            r == self@.scale,
    {
        self.scale
    }

    /// The amount with the other sign.
    pub fn negated(self) -> (r: Amount)
        ensures
            r@ == (Number { mantissa: -self@.mantissa, scale: self@.scale }),
    {
        proof {
            use_type_invariant(&self);
        }
        Amount { mantissa: -self.mantissa, scale: self.scale }
    }

    /// Whether the amount is above zero.
    pub fn is_positive(self) -> (r: bool)
        ensures
            r == (self@.mantissa > 0),
    {
        self.mantissa > 0
    }

    /// Whether two amounts are equal numbers, however they are written.
    pub fn equals(self, other: Amount) -> (r: bool)
        ensures
            r == self@.equals(other@),
    {
        proof {
            use_type_invariant(&self);
            use_type_invariant(&other);
        }
        decimal_eq(self.mantissa, self.scale, other.mantissa, other.scale)
    }

    /// Whether the amount is below another.
    pub fn below(self, other: Amount) -> (r: bool)
        ensures
            r == self@.below(other@),
    {
        proof {
            use_type_invariant(&self);
            use_type_invariant(&other);
        }
        decimal_lt(self.mantissa, self.scale, other.mantissa, other.scale)
    }

    /// The smaller of two amounts; of equal ones the first.
    pub fn min(self, other: Amount) -> (r: Amount)
        ensures
            r == (if other@.below(self@) {
                other
            } else {
                self
            }),
    {
        if other.below(self) {
            other
        } else {
            self
        }
    }
}

/// The magnitude of an integer.
pub open spec fn magnitude(n: int) -> int {
    if n < 0 {
        -n
    } else {
        n
    }
}

/// The last `places` decimal digits of a number, with leading zeros.
pub open spec fn last_digits(n: int, places: nat) -> Seq<char>
    decreases places,
{
    if places == 0 {
        Seq::empty()
    } else {
        last_digits(n / 10, (places - 1) as nat).push(digit_char(n % 10))
    }
}

impl Number {
    /// The whole part, rounded towards zero.
    pub open spec fn whole(self) -> int {
        let units = magnitude(self.mantissa) / ten_to(self.scale);
        if self.mantissa < 0 {
            -units
        } else {
            units
        }
    }

    /// The number in decimal digits, with as many places as its scale.
    pub open spec fn digits(self) -> Seq<char> {
        let sign = if self.mantissa < 0 {
            seq!['-']
        } else {
            Seq::empty()
        };
        let units = decimal(magnitude(self.mantissa) / ten_to(self.scale));
        if self.scale == 0 {
            sign + units
        } else {
            sign + units + seq!['.'] + last_digits(magnitude(self.mantissa), self.scale)
        }
    }
}

impl Amount {
    /// The whole part, rounded towards zero, where an `i64` can hold it.
    pub fn to_i64(self) -> (r: Option<i64>)
        ensures
            r == (if i64::MIN <= self@.whole() <= i64::MAX {
                Some(self@.whole() as i64)
            } else {
                None
            }),
    {
        proof {
            use_type_invariant(&self);
        }
        decimal_to_i64(self.mantissa, self.scale)
    }

    /// The amount in decimal digits.
    pub fn text(self) -> (r: String)
        ensures
            r@ == self@.digits(),
    {
        proof {
            use_type_invariant(&self);
        }
        decimal_to_string(self.mantissa, self.scale)
    }
}

/// Calls `rust_decimal::Decimal::from_i128_with_scale` and
/// `num_traits::ToPrimitive::to_i64` of `Decimal`: the whole part, rounded
/// towards zero, or nothing where an `i64` cannot hold it.
#[verifier::external_body]
fn decimal_to_i64(m: i128, s: u32) -> (r: Option<i64>)
    requires
        is_amount(m as int, s as int),
    ensures
        ({
            let whole = (Number { mantissa: m as int, scale: s as nat }).whole();
            r == (if i64::MIN <= whole <= i64::MAX {
                Some(whole as i64)
            } else {
                None
            })
        }),
{
    Decimal::from_i128_with_scale(m, s).to_i64()
}

/// Calls `rust_decimal::Decimal::from_i128_with_scale` and the `Display` form of
/// `Decimal`: a sign below zero, the whole part, and as many decimal places as
/// the scale.
#[verifier::external_body]
fn decimal_to_string(m: i128, s: u32) -> (r: String)
    requires
        is_amount(m as int, s as int),
    ensures
        r@ == (Number { mantissa: m as int, scale: s as nat }).digits(),
{
    Decimal::from_i128_with_scale(m, s).to_string()
}

/// Calls `rust_decimal::Decimal::from_i128_with_scale` and `Decimal::eq`: equal
/// as numbers, whatever the scales.
#[verifier::external_body]
fn decimal_eq(m: i128, s: u32, n: i128, t: u32) -> (r: bool)
    requires
        is_amount(m as int, s as int),
        is_amount(n as int, t as int),
    ensures
        r == (Number { mantissa: m as int, scale: s as nat }).equals(
            Number { mantissa: n as int, scale: t as nat },
        ),
{
    Decimal::from_i128_with_scale(m, s) == Decimal::from_i128_with_scale(n, t)
}

/// Calls `rust_decimal::Decimal::from_i128_with_scale` and `Decimal::lt`: below
/// as numbers, whatever the scales.
#[verifier::external_body]
fn decimal_lt(m: i128, s: u32, n: i128, t: u32) -> (r: bool)
    requires
        is_amount(m as int, s as int),
        is_amount(n as int, t as int),
    ensures
        r == (Number { mantissa: m as int, scale: s as nat }).below(
            Number { mantissa: n as int, scale: t as nat },
        ),
{
    Decimal::from_i128_with_scale(m, s) < Decimal::from_i128_with_scale(n, t)
}

/// A power of ten is positive.
pub proof fn lemma_ten_to_positive(n: nat)
    ensures
        ten_to(n) > 0,
    decreases n,
{
    if n > 0 {
        lemma_ten_to_positive((n - 1) as nat);
    }
}

/// Powers of ten multiply by adding their exponents.
pub proof fn lemma_ten_to_adds(a: nat, b: nat)
    ensures
        ten_to(a + b) == ten_to(a) * ten_to(b),
    decreases a,
{
    if a > 0 {
        lemma_ten_to_adds((a - 1) as nat, b);
        assert(ten_to(a + b) == 10 * ten_to((a - 1 + b) as nat));
        assert(10 * (ten_to((a - 1) as nat) * ten_to(b)) == 10 * ten_to((a - 1) as nat) * ten_to(b))
            by (nonlinear_arith);
    } else {
        assert(1 * ten_to(b) == ten_to(b)) by (nonlinear_arith);
    }
}

/// What was added to a positive number stays below the sum, and nothing else
/// does: `signed` is below `sum` exactly where `old` is above zero.
pub proof fn law_summand_is_below_the_sum(old: Number, signed: Number, sum: Number)
    requires
        sum.equals(old.plus(signed)),
    ensures
        signed.below(sum) <==> old.mantissa > 0,
{
    let (o, s, n) = (old.mantissa, signed.mantissa, sum.mantissa);
    let (p, q, r) = (ten_to(old.scale), ten_to(signed.scale), ten_to(sum.scale));
    lemma_ten_to_positive(old.scale);
    lemma_ten_to_positive(signed.scale);
    lemma_ten_to_positive(sum.scale);
    lemma_ten_to_adds(old.scale, signed.scale);
    assert(n * (p * q) == (o * q + s * p) * r);
    assert(p * (n * q - s * r) == n * (p * q) - s * p * r) by (nonlinear_arith);
    assert((o * q + s * p) * r == o * (q * r) + s * p * r) by (nonlinear_arith);
    let d = n * q - s * r;
    let e = q * r;
    assert(e > 0) by (nonlinear_arith)
        requires
            q > 0,
            r > 0,
            e == q * r,
    ;
    assert(d > 0 <==> o > 0) by (nonlinear_arith)
        requires
            p > 0,
            e > 0,
            p * d == o * e,
    ;
}

/// A number's sign is its mantissa's: it is above zero exactly where zero is
/// below it, and at or below zero otherwise.
pub proof fn law_sign_is_the_mantissas(a: Number)
    ensures
        (Number { mantissa: 0, scale: 0 }).below(a) <==> a.mantissa > 0,
        a.below(Number { mantissa: 0, scale: 0 }) <==> a.mantissa < 0,
{
    assert(ten_to(0) == 1);
    assert(a.mantissa * 1 == a.mantissa) by (nonlinear_arith);
    assert(0 * ten_to(a.scale) == 0) by (nonlinear_arith);
    assert(1 * ten_to(a.scale) == ten_to(a.scale)) by (nonlinear_arith);
}

/// Of two amounts one is below the other or they are equal, and only one of these;
/// equal amounts are equal either way round.
pub proof fn law_amounts_compare_as_numbers(a: Number, b: Number)
    ensures
        a.below(b) || b.below(a) || a.equals(b),
        !(a.below(b) && b.below(a)),
        !(a.below(b) && a.equals(b)),
        a.equals(b) <==> b.equals(a),
        a.equals(a),
        !a.below(a),
{
}

/// A decimal place more, or one less, does not change an amount; one unit more
/// does.
pub proof fn law_amounts_ignore_their_scale(m: int, s: nat)
    ensures
        (Number { mantissa: m, scale: s }).equals(Number { mantissa: 10 * m, scale: s + 1 }),
        (Number { mantissa: m, scale: s }).below(Number { mantissa: m + 1, scale: s }),
{
    let p = ten_to(s);
    lemma_ten_to_positive(s);
    assert(ten_to(s + 1) == 10 * p);
    assert(m * (10 * p) == (10 * m) * p) by (nonlinear_arith);
    assert(m * p < (m + 1) * p) by (nonlinear_arith)
        requires
            p > 0,
    ;
}

/// An amount is what it is made of; its negative is as far on the other side of
/// zero; and the smaller of two is one of them and not above the other.
pub proof fn law_amounts_are_what_they_are_made_of(
    mantissa: i128,
    scale: u32,
    made: Option<Amount>,
    a: Amount,
    b: Amount,
    negative: Amount,
    smaller: Amount,
    nothing: Amount,
)
    requires
        call_ensures(Amount::new, (mantissa, scale), made),
        call_ensures(Amount::negated, (a,), negative),
        call_ensures(Amount::min, (a, b), smaller),
        call_ensures(Amount::zero, (), nothing),
    ensures
        made is Some ==> (made->0)@.mantissa == mantissa && (made->0)@.scale == scale,
        made is Some <==> scale <= 28 && -0xFFFF_FFFF_FFFF_FFFF_FFFF_FFFF <= mantissa
            <= 0xFFFF_FFFF_FFFF_FFFF_FFFF_FFFF,
        negative@.mantissa + a@.mantissa == 0,
        negative@.scale == a@.scale,
        smaller == a || smaller == b,
        !a@.below(smaller@),
        !b@.below(smaller@),
        nothing@.mantissa == 0,
{
    assert(!a@.below(a@) && !b@.below(b@));
}

/// Two amounts are compared as numbers.
pub proof fn law_comparisons_are_of_numbers(
    a: Amount,
    b: Amount,
    same: bool,
    less: bool,
    positive: bool,
)
    requires
        call_ensures(Amount::equals, (a, b), same),
        call_ensures(Amount::below, (a, b), less),
        call_ensures(Amount::is_positive, (a,), positive),
    ensures
        same <==> a@.mantissa * ten_to(b@.scale) == b@.mantissa * ten_to(a@.scale),
        less <==> a@.mantissa * ten_to(b@.scale) < b@.mantissa * ten_to(a@.scale),
        positive <==> a@.mantissa > 0,
{
}

/// The whole part of a number is cut off toward zero: it is on the same side, not
/// farther from zero than the number, and less than one away from it.
pub proof fn law_whole_parts_are_cut_toward_zero(n: Number)
    ensures
        magnitude(n.whole()) * ten_to(n.scale) <= magnitude(n.mantissa),
        magnitude(n.mantissa) < (magnitude(n.whole()) + 1) * ten_to(n.scale),
        n.whole() > 0 ==> n.mantissa > 0,
        n.whole() < 0 ==> n.mantissa < 0,
{
    lemma_ten_to_positive(n.scale);
    let p = ten_to(n.scale);
    let m = magnitude(n.mantissa);
    let units = m / p;
    assert(units * p <= m && m < (units + 1) * p && 0 <= units) by (nonlinear_arith)
        requires
            p > 0,
            m >= 0,
            units == m / p,
    ;
    assert(magnitude(n.whole()) == units);
}

/// An amount has an integer exactly where its whole part fits, and that integer is
/// the amount cut off toward zero.
pub proof fn law_integers_are_whole_parts(a: Amount, r: Option<i64>)
    requires
        call_ensures(Amount::to_i64, (a,), r),
    ensures
        r is Some ==> magnitude(r->0 as int) * ten_to(a@.scale) <= magnitude(a@.mantissa)
            && magnitude(a@.mantissa) < (magnitude(r->0 as int) + 1) * ten_to(a@.scale),
        r is Some && r->0 > 0 ==> a@.mantissa > 0,
        r is Some && r->0 < 0 ==> a@.mantissa < 0,
        r is None ==> magnitude(a@.mantissa) > i64::MAX * ten_to(a@.scale),
{
    law_whole_parts_are_cut_toward_zero(a@);
    lemma_ten_to_positive(a@.scale);
    if r is None {
        let w = magnitude(a@.whole());
        let p = ten_to(a@.scale);
        assert(w >= i64::MAX + 1);
        assert(w * p > i64::MAX * p) by (nonlinear_arith)
            requires
                p > 0,
                w >= i64::MAX + 1,
        ;
    }
}

/// A number is written digit by digit: one place more is one digit behind, the first
/// place stands behind a point, and below zero a sign stands in front.
pub proof fn law_digits_grow_by_places(m: int, s: nat, d: int)
    requires
        0 <= m,
        0 <= d < 10,
    ensures
        (Number { mantissa: m, scale: 0 }).digits() == decimal(m),
        (Number { mantissa: 10 * m + d, scale: 1 }).digits() == (Number {
            mantissa: m,
            scale: 0,
        }).digits() + seq!['.', digit_char(d)],
        s > 0 ==> (Number { mantissa: 10 * m + d, scale: s + 1 }).digits() == (Number {
            mantissa: m,
            scale: s,
        }).digits().push(digit_char(d)),
        m > 0 ==> (Number { mantissa: -m, scale: s }).digits() == seq!['-'] + (Number {
            mantissa: m,
            scale: s,
        }).digits(),
{
    reveal_with_fuel(last_digits, 2);
    reveal_with_fuel(ten_to, 2);
    let more = 10 * m + d;
    assert(more / 10 == m && more % 10 == d);
    assert((Number { mantissa: m, scale: 0 }).digits() =~= decimal(m));
    assert((Number { mantissa: more, scale: 1 }).digits() =~= decimal(m) + seq!['.', digit_char(d)]);
    lemma_ten_to_positive(s);
    let p = ten_to(s);
    assert(ten_to(s + 1) == 10 * p);
    vstd::arithmetic::div_mod::lemma_div_denominator(more, 10, p);
    assert(more / ten_to(s + 1) == m / p);
    assert(last_digits(more, s + 1) == last_digits(m, s).push(digit_char(d)));
    if s > 0 {
        assert((Number { mantissa: more, scale: s + 1 }).digits() =~= (Number {
            mantissa: m,
            scale: s,
        }).digits().push(digit_char(d)));
    }
    if m > 0 {
        assert((Number { mantissa: -m, scale: s }).digits() =~= seq!['-'] + (Number {
            mantissa: m,
            scale: s,
        }).digits());
    }
}

}
