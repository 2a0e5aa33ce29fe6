//! Checked arithmetic over non-negative token amounts.
//!
//! Every money computation of the market goes through [`SafeAmount`]. No
//! operation wraps: each returns the exact mathematical result or says why
//! it could not.

use vstd::arithmetic::div_mod::{lemma_div_is_ordered, lemma_fundamental_div_mod_converse};
use vstd::prelude::*;

verus! {

/// The ways a checked operation on amounts can fail.
#[derive(Clone, Copy, Debug, PartialEq, Eq, Structural)]
pub enum ArithmeticError {
    /// The exact result does not fit in 128 bits.
    Overflow,
    /// The exact result would be negative.
    Underflow,
    /// The divisor is zero.
    DivisionByZero,
}

/// Number of indivisible units in one whole token.
pub const ONE_NEAR: u128 = 1_000_000_000_000_000_000_000_000;

/// Number of indivisible units in a thousandth of a token.
pub const ONE_MILLINEAR: u128 = 1_000_000_000_000_000_000_000;

/// Largest count of whole tokens that an amount can hold.
pub const MAX_WHOLE_NEAR: u128 = 340_282_366_920_938;

/// Largest count of thousandths of a token that an amount can hold.
pub const MAX_WHOLE_MILLINEAR: u128 = 340_282_366_920_938_463;

/// A non-negative amount of value, counted in indivisible units.
#[derive(Clone, Copy, Debug, PartialEq, Eq, Structural)]
pub struct SafeAmount {
    pub yocto: u128,
}

/// An amount as it crosses the market's boundary: a bare count of
/// indivisible units.
#[derive(Clone, Copy, Debug, PartialEq, Eq, Structural)]
pub struct U128(pub u128);

impl View for SafeAmount {
    type V = nat;

    open spec fn view(&self) -> nat {
        self.yocto as nat
    }
}

/// `floor(a * b / c)` over the mathematical integers.
pub open spec fn mul_div_floor(a: nat, b: nat, c: nat) -> nat
    recommends
        c > 0,
{
    ((a * b) / c) as nat
}

/// Quotient and remainder of `a * b` by `c`, or `None` when the quotient does
/// not fit in 128 bits. Works on one binary digit of `b` at a time, so no
/// intermediate value leaves the range of `u128`.
fn mul_div_rem(a: u128, b: u128, c: u128) -> (r: Option<(u128, u128)>)
    requires
        c > 0,
    ensures
        match r {
            Some((q, rem)) => q * c + rem == a * b && rem < c,
            None => (a * b) / (c as int) > u128::MAX,
        },
    decreases b,
{
    if b == 0 {
        assert(a * 0 == 0);
        assert(0 * c + 0 == 0);
        return Some((0, 0));
    }
    let half: u128 = b / 2;
    let bit: u128 = b % 2;
    let ghost target: int = a * b;
    let ghost lower: int = a * half;
    proof {
        assert(target == 2 * lower + bit * a) by (nonlinear_arith)
            requires
                target == a * b,
                lower == a * half,
                b == 2 * half + bit,
        ;
        assert(0 <= lower) by (nonlinear_arith)
            requires
                lower == a * half,
                a >= 0,
                half >= 0,
        ;
        assert(0 <= bit * a) by (nonlinear_arith)
            requires
                a >= 0,
                bit >= 0,
        ;
    }
    match mul_div_rem(a, half, c) {
        None => {
            proof {
                lemma_div_is_ordered(lower, target, c as int);
            }
            None
        },
        Some((qh, rh)) => {
            let carry_double: u128 = if rh >= c - rh {
                1
            } else {
                0
            };
            let r2: u128 = if rh >= c - rh {
                rh - (c - rh)
            } else {
                rh + rh
            };
            let ghost q2_exact: int = 2 * qh + carry_double;
            proof {
                assert(q2_exact * c + r2 == 2 * lower) by (nonlinear_arith)
                    requires
                        qh * c + rh == lower,
                        q2_exact == 2 * qh + carry_double,
                        r2 + carry_double * c == 2 * rh,
                ;
                lemma_fundamental_div_mod_converse(2 * lower, c as int, q2_exact, r2 as int);
                lemma_div_is_ordered(2 * lower, target, c as int);
            }
            let doubled = match qh.checked_mul(2) {
                Some(v) => v.checked_add(carry_double),
                None => None,
            };
            let q2: u128 = match doubled {
                Some(v) => v,
                None => {
                    return None;
                },
            };
            if bit == 0 {
                assert(bit * a == 0) by (nonlinear_arith)
                    requires
                        bit == 0,
                ;
                return Some((q2, r2));
            }
            assert(bit * a == a) by (nonlinear_arith)
                requires
                    bit == 1,
            ;
            let qa: u128 = a / c;
            let ra: u128 = a % c;
            let carry_add: u128 = if r2 >= c - ra {
                1
            } else {
                0
            };
            let r3: u128 = if r2 >= c - ra {
                r2 - (c - ra)
            } else {
                r2 + ra
            };
            let ghost q3_exact: int = q2_exact + qa + carry_add;
            proof {
                assert(a == qa * c + ra) by {
                    vstd::arithmetic::div_mod::lemma_fundamental_div_mod(a as int, c as int);
                    assert(c * (a as int / c as int) == (a as int / c as int) * c)
                        by (nonlinear_arith);
                }
                assert(q3_exact * c + r3 == target) by (nonlinear_arith)
                    requires
                        q2_exact * c + r2 == 2 * lower,
                        target == 2 * lower + a,
                        a == qa * c + ra,
                        q3_exact == q2_exact + qa + carry_add,
                        r3 + carry_add * c == r2 + ra,
                ;
                lemma_fundamental_div_mod_converse(target, c as int, q3_exact, r3 as int);
            }
            let summed = match q2.checked_add(qa) {
                Some(v) => v.checked_add(carry_add),
                None => None,
            };
            match summed {
                Some(q3) => Some((q3, r3)),
                None => None,
            }
        },
    }
}

impl SafeAmount {
    /// The amount of `yocto` indivisible units.
    pub fn from_yoctonear(yocto: u128) -> (r: SafeAmount)
        ensures
            r@ == yocto,
    {
        SafeAmount { yocto }
    }

    /// The amount of `near` whole tokens.
    pub fn from_near(near: u128) -> (r: SafeAmount)
        requires
            near <= MAX_WHOLE_NEAR,
        ensures
            r@ == near * ONE_NEAR,
    {
        assert(near * ONE_NEAR <= u128::MAX) by (nonlinear_arith)
            requires
                near <= MAX_WHOLE_NEAR,
                ONE_NEAR == 1_000_000_000_000_000_000_000_000,
                MAX_WHOLE_NEAR == 340_282_366_920_938,
        ;
        SafeAmount { yocto: near * ONE_NEAR }
    }

    /// The amount of `millinear` thousandths of a token.
    pub fn from_millinear(millinear: u128) -> (r: SafeAmount)
        requires
            millinear <= MAX_WHOLE_MILLINEAR,
        ensures
            r@ == millinear * ONE_MILLINEAR,
    {
        assert(millinear * ONE_MILLINEAR <= u128::MAX) by (nonlinear_arith)
            requires
                millinear <= MAX_WHOLE_MILLINEAR,
                ONE_MILLINEAR == 1_000_000_000_000_000_000_000,
                MAX_WHOLE_MILLINEAR == 340_282_366_920_938_463,
        ;
        SafeAmount { yocto: millinear * ONE_MILLINEAR }
    }

    /// The number of indivisible units in this amount.
    pub fn as_yoctonear(&self) -> (r: u128)
        ensures
            r == self@,
    {
        self.yocto
    }

    /// The number of whole tokens in this amount, rounded down.
    pub fn as_near(&self) -> (r: u128)
        ensures
            r == self@ / (ONE_NEAR as nat),
    {
        self.yocto / ONE_NEAR
    }

    /// Whether this is the zero amount.
    pub fn is_zero(&self) -> (r: bool)
        ensures
            r == (self@ == 0),
    {
        self.yocto == 0
    }

    /// Exact sum, or `Overflow` when it does not fit.
    pub fn checked_add(self, other: SafeAmount) -> (r: Result<SafeAmount, ArithmeticError>)
        ensures
            self@ + other@ <= u128::MAX ==> r is Ok && r->Ok_0@ == self@ + other@,
            self@ + other@ > u128::MAX ==> r == Err::<SafeAmount, ArithmeticError>(
                ArithmeticError::Overflow,
            ),
    {
        match self.yocto.checked_add(other.yocto) {
            Some(v) => Ok(SafeAmount { yocto: v }),
            None => Err(ArithmeticError::Overflow),
        }
    }

    /// Exact difference, or `Underflow` when `other` is the larger.
    pub fn checked_sub(self, other: SafeAmount) -> (r: Result<SafeAmount, ArithmeticError>)
        ensures
            other@ <= self@ ==> r is Ok && r->Ok_0@ == self@ - other@,
            other@ > self@ ==> r == Err::<SafeAmount, ArithmeticError>(
                ArithmeticError::Underflow,
            ),
    {
        match self.yocto.checked_sub(other.yocto) {
            Some(v) => Ok(SafeAmount { yocto: v }),
            None => Err(ArithmeticError::Underflow),
        }
    }

    /// Exact product with a plain factor, or `Overflow` when it does not fit.
    pub fn checked_mul(self, factor: u128) -> (r: Result<SafeAmount, ArithmeticError>)
        ensures
            self@ * factor <= u128::MAX ==> r is Ok && r->Ok_0@ == self@ * factor,
            self@ * factor > u128::MAX ==> r == Err::<SafeAmount, ArithmeticError>(
                ArithmeticError::Overflow,
            ),
    {
        match self.yocto.checked_mul(factor) {
            Some(v) => Ok(SafeAmount { yocto: v }),
            None => Err(ArithmeticError::Overflow),
        }
    }

    /// Quotient by a plain divisor, rounded down, or `DivisionByZero`.
    pub fn checked_div(self, divisor: u128) -> (r: Result<SafeAmount, ArithmeticError>)
        ensures
            divisor > 0 ==> r is Ok && r->Ok_0@ == self@ / (divisor as nat),
            divisor == 0 ==> r == Err::<SafeAmount, ArithmeticError>(
                ArithmeticError::DivisionByZero,
            ),
    {
        if divisor == 0 {
            Err(ArithmeticError::DivisionByZero)
        } else {
            Ok(SafeAmount { yocto: self.yocto / divisor })
        }
    }

    /// `floor(self * numerator / denominator)`, exact even where the product
    /// alone would not fit in 128 bits. Fails with `DivisionByZero` for a zero
    /// denominator and with `Overflow` only when the quotient itself is too
    /// large.
    pub fn mul_div(self, numerator: u128, denominator: u128) -> (r: Result<
        SafeAmount,
        ArithmeticError,
    >)
        ensures
            denominator == 0 ==> r == Err::<SafeAmount, ArithmeticError>(
                ArithmeticError::DivisionByZero,
            ),
            denominator > 0 && mul_div_floor(self@, numerator as nat, denominator as nat)
                > u128::MAX ==> r == Err::<SafeAmount, ArithmeticError>(ArithmeticError::Overflow),
            denominator > 0 && mul_div_floor(self@, numerator as nat, denominator as nat)
                <= u128::MAX ==> r is Ok && r->Ok_0@ == mul_div_floor(
                self@,
                numerator as nat,
                denominator as nat,
            ),
    {
        if denominator == 0 {
            return Err(ArithmeticError::DivisionByZero);
        }
        proof {
            assert(0 <= self.yocto * numerator) by (nonlinear_arith)
                requires
                    self.yocto >= 0,
                    numerator >= 0,
            ;
            vstd::arithmetic::div_mod::lemma_div_pos_is_pos(
                self.yocto * numerator,
                denominator as int,
            );
        }
        match mul_div_rem(self.yocto, numerator, denominator) {
            Some((q, rem)) => {
                proof {
                    lemma_fundamental_div_mod_converse(
                        self.yocto * numerator,
                        denominator as int,
                        q as int,
                        rem as int,
                    );
                }
                Ok(SafeAmount { yocto: q })
            },
            None => Err(ArithmeticError::Overflow),
        }
    }
}

} // verus!
