//! The exact integer value of a JSON number, and the narrowing conversion
//! that every fixed-width integer decoder shares.

use vstd::arithmetic::div_mod::{lemma_div_by_multiple, lemma_mod_multiples_basic};
use vstd::arithmetic::power::{lemma_pow_adds, lemma_pow_positive};
use vstd::prelude::*;

use crate::value::JsonNumber;

verus! {

/// Ten to the power `e`.
pub open spec fn pow10(e: nat) -> int {
    vstd::arithmetic::power::pow(10, e)
}

/// The exact integer a JSON number denotes, if it denotes one:
/// `number_int(n) == Some(v)` exactly when
/// `v == (-1)^negative * mantissa * 10^exponent` over the integers, and
/// `None` when the number is fractional.
pub open spec fn number_int(n: JsonNumber) -> Option<int> {
    let mag: Option<int> = if n.exponent >= 0 {
        Some(n.mantissa * pow10(n.exponent as nat))
    } else if n.mantissa as int % pow10((-(n.exponent as int)) as nat) == 0 {
        Some(n.mantissa as int / pow10((-(n.exponent as int)) as nat))
    } else {
        None
    };
    match mag {
        Some(m) => Some(if n.negative { -m } else { m }),
        None => None,
    }
}

/// The JSON number that the integer `v` encodes to: its magnitude as the
/// mantissa, its sign, and exponent zero.
pub open spec fn int_number(v: int) -> JsonNumber {
    JsonNumber {
        negative: v < 0,
        mantissa: (if v < 0 {
            -v
        } else {
            v
        }) as u64,
        exponent: 0,
    }
}

/// A number built by `int_number` denotes exactly the integer it was built
/// from.
pub proof fn lemma_int_number(v: int)
    requires
        -(u64::MAX as int) <= v <= u64::MAX as int,
    ensures
        number_int(int_number(v)) == Some(v),
{
    let n = int_number(v);
    assert(pow10(0) == 1) by {
        vstd::arithmetic::power::lemma_pow0(10);
    }
    assert(n.mantissa * pow10(0) == n.mantissa);
}

proof fn lemma_pow10_pos(e: nat)
    ensures
        pow10(e) >= 1,
{
    lemma_pow_positive(10, e);
}

/// The magnitude of the integer a JSON number denotes: `Some(m)` when the
/// number denotes an exact integer of absolute value `m` that fits in 64
/// bits, and `None` when the number is fractional or its magnitude exceeds
/// `u64::MAX`.
pub fn number_magnitude(n: &JsonNumber) -> (r: Option<u64>)
    ensures
        match r {
            Some(m) => number_int(*n) == Some(
                if n.negative {
                    -(m as int)
                } else {
                    m as int
                },
            ),
            None => match number_int(*n) {
                Some(v) => v > u64::MAX as int || v < -(u64::MAX as int),
                None => true,
            },
        },
{
    if n.exponent >= 0 {
        let e: u16 = n.exponent as u16;
        let mut m: u64 = n.mantissa;
        let mut i: u16 = 0;
        proof {
            assert(pow10(0) == 1) by {
                vstd::arithmetic::power::lemma_pow0(10);
            }
        }
        while i < e
            invariant
                0 <= i <= e,
                e == n.exponent,
                m as int == n.mantissa as int * pow10(i as nat),
            decreases e - i,
        {
            proof {
                assert(pow10((i + 1) as nat) == pow10(i as nat) * 10) by {
                    lemma_pow_adds(10, i as nat, 1);
                    vstd::arithmetic::power::lemma_pow1(10);
                }
            }
            if m > u64::MAX / 10 {
                proof {
                    lemma_magnitude_overflow(n.mantissa as int, m as int, i as nat, e as nat);
                }
                return None;
            }
            proof {
                assert(n.mantissa as int * pow10((i + 1) as nat) == m as int * 10) by (
                nonlinear_arith)
                    requires
                        m as int == n.mantissa as int * pow10(i as nat),
                        pow10((i + 1) as nat) == pow10(i as nat) * 10,
                ;
            }
            m = m * 10;
            i = i + 1;
        }
        Some(m)
    } else {
        let e: u32 = (-(n.exponent as i32)) as u32;
        let mut m: u64 = n.mantissa;
        let mut i: u32 = 0;
        proof {
            assert(pow10(0) == 1) by {
                vstd::arithmetic::power::lemma_pow0(10);
            }
        }
        while i < e
            invariant
                0 <= i <= e,
                e == -(n.exponent as int),
                n.mantissa as int == m as int * pow10(i as nat),
            decreases e - i,
        {
            proof {
                assert(pow10((i + 1) as nat) == pow10(i as nat) * 10) by {
                    lemma_pow_adds(10, i as nat, 1);
                    vstd::arithmetic::power::lemma_pow1(10);
                }
                lemma_pow10_pos(i as nat);
            }
            if m % 10 != 0 {
                proof {
                    lemma_magnitude_fractional(n.mantissa as int, m as int, i as nat, e as nat);
                }
                return None;
            }
            proof {
                assert(n.mantissa as int == (m as int / 10) * pow10((i + 1) as nat)) by (
                nonlinear_arith)
                    requires
                        n.mantissa as int == m as int * pow10(i as nat),
                        pow10((i + 1) as nat) == pow10(i as nat) * 10,
                        m as int % 10 == 0,
                        m >= 0,
                ;
            }
            m = m / 10;
            i = i + 1;
        }
        proof {
            lemma_pow10_pos(e as nat);
            lemma_mod_multiples_basic(m as int, pow10(e as nat));
            lemma_div_by_multiple(m as int, pow10(e as nat));
        }
        Some(m)
    }
}

/// If the running product already exceeds a tenth of `u64::MAX` with scaling
/// steps left, the denoted magnitude exceeds `u64::MAX`.
proof fn lemma_magnitude_overflow(mantissa: int, m: int, i: nat, e: nat)
    requires
        m == mantissa * pow10(i),
        m > u64::MAX as int / 10,
        i < e,
    ensures
        mantissa * pow10(e) > u64::MAX as int,
{
    lemma_pow_adds(10, i, (e - i) as nat);
    lemma_pow10_pos((e - i - 1) as nat);
    assert(pow10((e - i) as nat) == pow10((e - i - 1) as nat) * 10) by {
        lemma_pow_adds(10, (e - i - 1) as nat, 1);
        vstd::arithmetic::power::lemma_pow1(10);
    }
    assert(pow10((e - i) as nat) >= 10);
    assert(mantissa * pow10(e) == m * pow10((e - i) as nat)) by (nonlinear_arith)
        requires
            m == mantissa * pow10(i),
            pow10(e) == pow10(i) * pow10((e - i) as nat),
    ;
    assert(m * pow10((e - i) as nat) >= m * 10) by (nonlinear_arith)
        requires
            m > 0,
            pow10((e - i) as nat) >= 10,
    ;
}

/// If dividing out the tens hits a remainder with steps left, the number is
/// fractional: its mantissa is not divisible by the full power of ten.
proof fn lemma_magnitude_fractional(mantissa: int, m: int, i: nat, e: nat)
    requires
        mantissa == m * pow10(i),
        m >= 0,
        m % 10 != 0,
        i < e,
    ensures
        mantissa % pow10(e) != 0,
{
    lemma_pow10_pos(i);
    lemma_pow10_pos(e);
    lemma_pow10_pos((e - i - 1) as nat);
    assert(pow10(e) == pow10(i) * 10 * pow10((e - i - 1) as nat)) by {
        lemma_pow_adds(10, i, (e - i) as nat);
        lemma_pow_adds(10, 1, (e - i - 1) as nat);
        vstd::arithmetic::power::lemma_pow1(10);
        assert(pow10(e) == pow10(i) * (10 * pow10((e - i - 1) as nat)));
        assert(pow10(i) * (10 * pow10((e - i - 1) as nat)) == pow10(i) * 10 * pow10(
            (e - i - 1) as nat,
        )) by (nonlinear_arith);
    }
    if mantissa % pow10(e) == 0 {
        let k = mantissa / pow10(e);
        vstd::arithmetic::div_mod::lemma_fundamental_div_mod(mantissa, pow10(e));
        assert(mantissa == pow10(e) * k);
        assert(m * pow10(i) == (k * 10 * pow10((e - i - 1) as nat)) * pow10(i)) by (
        nonlinear_arith)
            requires
                mantissa == pow10(e) * k,
                mantissa == m * pow10(i),
                pow10(e) == pow10(i) * 10 * pow10((e - i - 1) as nat),
        ;
        assert(m == k * 10 * pow10((e - i - 1) as nat)) by (nonlinear_arith)
            requires
                m * pow10(i) == (k * 10 * pow10((e - i - 1) as nat)) * pow10(i),
                pow10(i) >= 1,
        ;
        assert(m == (k * pow10((e - i - 1) as nat)) * 10) by (nonlinear_arith)
            requires
                m == k * 10 * pow10((e - i - 1) as nat),
        ;
        lemma_mod_multiples_basic(k * pow10((e - i - 1) as nat), 10);
        assert(m % 10 == 0);
    }
}

} // verus!
