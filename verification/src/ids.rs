//! Identifiers as text.

use vstd::prelude::*;
use crate::text::hex_digit;

verus! {

/// A power of sixteen.
pub open spec fn sixteen_to(n: nat) -> int
    decreases n,
{
    if n == 0 {
        1
    } else {
        16 * sixteen_to((n - 1) as nat)
    }
}

/// Where the hyphens of an identifier stand.
pub open spec fn is_hyphen_place(i: int) -> bool {
    i == 8 || i == 13 || i == 18 || i == 23
}

/// How many hyphens stand before a place.
pub open spec fn hyphens_before(i: int) -> int {
    if i <= 8 {
        0
    } else if i <= 13 {
        1
    } else if i <= 18 {
        2
    } else if i <= 23 {
        3
    } else {
        4
    }
}

/// The `k`th of the thirty-two hexadecimal digits of an identifier, the most
/// significant first.
pub open spec fn id_digit(id: u128, k: int) -> char {
    hex_digit((id as int / sixteen_to((31 - k) as nat)) % 16)
}

/// An identifier in hyphenated lower-case hexadecimal.
pub open spec fn id_digits(id: u128) -> Seq<char> {
    Seq::new(
        36,
        |i: int|
            if is_hyphen_place(i) {
                '-'
            } else {
                id_digit(id, i - hyphens_before(i))
            },
    )
}

/// Calls `uuid::Uuid::from_u128` and the `Display` form of `Uuid`: groups of
/// eight, four, four, four and twelve lower-case hexadecimal digits.
#[verifier::external_body]
pub(crate) fn id_text(id: u128) -> (r: String)
    ensures
        r@ == id_digits(id),
{
    uuid::Uuid::from_u128(id).to_string()
}

/// Different identifiers have different digits.
pub proof fn law_id_digits_differ(a: u128, b: u128)
    requires
        id_digits(a) == id_digits(b),
    ensures
        a == b,
{
    assert forall|k: int| 0 <= k < 32 implies id_digit(a, k) == #[trigger] id_digit(b, k) by {
        let i = place_of(k);
        assert(id_digits(a)[i] == id_digit(a, k));
        assert(id_digits(b)[i] == id_digit(b, k));
    }
    lemma_same_digits(a, b, 0);
    assert(sixteen_to(0) == 1);
    assert(a as int / 1 == a && b as int / 1 == b);
}

/// Where the `k`th digit of an identifier stands.
spec fn place_of(k: int) -> int {
    if k < 8 {
        k
    } else if k < 12 {
        k + 1
    } else if k < 16 {
        k + 2
    } else if k < 20 {
        k + 3
    } else {
        k + 4
    }
}

/// Identifiers with the same digits agree above every place.
proof fn lemma_same_digits(a: u128, b: u128, j: nat)
    requires
        j <= 32,
        forall|k: int| 0 <= k < 32 ==> id_digit(a, k) == #[trigger] id_digit(b, k),
    ensures
        a as int / sixteen_to(j) == b as int / sixteen_to(j),
    decreases 32 - j,
{
    lemma_sixteen_to_positive(j);
    if j == 32 {
        assert(sixteen_to(32) == 0x1_0000_0000_0000_0000_0000_0000_0000_0000) by {
            reveal_with_fuel(sixteen_to, 33);
        }
        vstd::arithmetic::div_mod::lemma_basic_div(a as int, sixteen_to(32));
        vstd::arithmetic::div_mod::lemma_basic_div(b as int, sixteen_to(32));
    } else {
        lemma_same_digits(a, b, j + 1);
        let p = sixteen_to(j);
        let x = a as int / p;
        let y = b as int / p;
        vstd::arithmetic::div_mod::lemma_div_denominator(a as int, p, 16);
        vstd::arithmetic::div_mod::lemma_div_denominator(b as int, p, 16);
        assert(sixteen_to(j + 1) == 16 * p);
        assert(p * 16 == 16 * p) by (nonlinear_arith);
        assert(x / 16 == y / 16);
        assert(id_digit(a, 31 - j) == id_digit(b, 31 - j));
        assert(hex_digit(x % 16) == hex_digit(y % 16));
        lemma_hex_digits_differ(x % 16, y % 16);
        assert(x % 16 == y % 16);
    }
}

proof fn lemma_hex_digits_differ(m: int, n: int)
    requires
        0 <= m < 16,
        0 <= n < 16,
        hex_digit(m) == hex_digit(n),
    ensures
        m == n,
{
}

proof fn lemma_sixteen_to_positive(n: nat)
    ensures
        sixteen_to(n) > 0,
    decreases n,
{
    if n > 0 {
        lemma_sixteen_to_positive((n - 1) as nat);
    }
}

}
