//! Arithmetic on integers that are known.

use vstd::arithmetic::power::pow;
use vstd::prelude::*;

verus! {

/// The integer, where it can be held.
pub open spec fn held(i: int) -> Option<i64> {
    if i64::MIN <= i <= i64::MAX {
        Some(i as i64)
    } else {
        None
    }
}

/// Whether a division by `b` goes beyond what can be held, although `b` is not zero.
pub open spec fn division_overflows(a: i64, b: i64) -> bool {
    a == i64::MIN && b == -1
}

/// The operators on two integers that give an integer or a float.
#[derive(Clone, Copy, Debug, PartialEq, Eq, Structural)]
pub enum ArithmeticOperator {
    Addition,
    Subtraction,
    Multiplication,
    Division,
    Modulo,
    Exponentiation,
}

/// The operators on the bits of two integers.
#[derive(Clone, Copy, Debug, PartialEq, Eq, Structural)]
pub enum BitwiseOperator {
    And,
    Or,
    Xor,
    LeftShift,
    RightShift,
}

/// What an operator gives, where it is an integer that can be held. Of an exponent only the lowest
/// 32 bits count.
pub open spec fn arithmetic_result(operator: ArithmeticOperator, a: i64, b: i64) -> Option<i64> {
    match operator {
        ArithmeticOperator::Addition => held(a + b),
        ArithmeticOperator::Subtraction => held(a - b),
        ArithmeticOperator::Multiplication => held(a * b),
        ArithmeticOperator::Division => if b != 0 && a.checked_rem(b) == Some(0i64) {
            a.checked_div(b)
        } else {
            None
        },
        ArithmeticOperator::Modulo => if b != 0 {
            a.checked_rem(b)
        } else {
            None
        },
        ArithmeticOperator::Exponentiation => if b >= 0 {
            held(pow(a as int, (b as u32) as nat))
        } else {
            None
        },
    }
}

/// What an operator on bits gives; a shift by a negative number gives nothing that is known.
pub open spec fn bitwise_result(operator: BitwiseOperator, a: i64, b: i64) -> Option<i64> {
    match operator {
        BitwiseOperator::And => Some(a & b),
        BitwiseOperator::Or => Some(a | b),
        BitwiseOperator::Xor => Some(a ^ b),
        BitwiseOperator::LeftShift => if b < 0 {
            None
        } else if b < 64 {
            Some(a << b)
        } else {
            Some(0)
        },
        BitwiseOperator::RightShift => if b < 0 {
            None
        } else if b < 64 {
            Some(a >> b)
        } else if a >= 0 {
            Some(0)
        } else {
            Some((-1) as i64)
        },
    }
}

/// The negation of an integer, which for the least one is that integer itself.
pub open spec fn wrapped_negation(i: i64) -> i64 {
    if i == i64::MIN {
        i64::MIN
    } else {
        (-i) as i64
    }
}

pub fn wrapping_negation(i: i64) -> (n: i64)
    ensures
        n == wrapped_negation(i),
{
    if i == i64::MIN {
        i64::MIN
    } else {
        -i
    }
}

proof fn lemma_pow_step(base: int, e: nat)
    ensures
        pow(base, 0) == 1,
        pow(base, e + 1) == base * pow(base, e),
{
    reveal(pow);
}

/// The powers of a base beyond one in size grow at least twofold in size.
proof fn lemma_power_grows(base: int, k: nat, e: nat)
    requires
        base >= 2 || base <= -2,
        k < e,
        pow(base, k) > i64::MAX || pow(base, k) < i64::MIN,
    ensures
        pow(base, e) > i64::MAX || pow(base, e) < i64::MIN,
        pow(base, e) >= 2 * i64::MAX + 2 || pow(base, e) <= 2 * i64::MIN,
    decreases e - k,
{
    let before = pow(base, (e - 1) as nat);
    if k < e - 1 {
        lemma_power_grows(base, k, (e - 1) as nat);
    }
    lemma_pow_step(base, (e - 1) as nat);
    assert(base * before >= 2 * i64::MAX + 2 || base * before <= 2 * i64::MIN) by (nonlinear_arith)
        requires
            base >= 2 || base <= -2,
            before > i64::MAX || before < i64::MIN,
    ;
}

proof fn lemma_small_base_power(base: int, e: nat)
    requires
        -1 <= base <= 1,
    ensures
        base == 1 ==> pow(base, e) == 1,
        base == 0 ==> pow(base, e) == if e == 0 {
            1int
        } else {
            0int
        },
        base == -1 ==> pow(base, e) == if e % 2 == 0 {
            1int
        } else {
            -1int
        },
    decreases e,
{
    reveal(pow);
    if e > 0 {
        lemma_small_base_power(base, (e - 1) as nat);
        let before = pow(base, (e - 1) as nat);
        assert(base * before == if base == 1 {
            before
        } else if base == 0 {
            0
        } else {
            -before
        }) by (nonlinear_arith)
            requires
                -1 <= base <= 1,
        ;
    }
}

/// The power of an integer, where it can be held.
pub fn checked_power(base: i64, exponent: u32) -> (power: Option<i64>)
    ensures
        power == held(pow(base as int, exponent as nat)),
{
    if -1 <= base && base <= 1 {
        proof {
            lemma_small_base_power(base as int, exponent as nat);
        }
        return if base == 1 || exponent == 0 {
            Some(1)
        } else if base == 0 {
            Some(0)
        } else if exponent % 2 == 0 {
            Some(1)
        } else {
            Some(-1)
        };
    }
    let mut power: i64 = 1;
    let mut done: u32 = 0;
    proof {
        lemma_pow_step(base as int, 0);
    }
    while done < exponent
        invariant
            done <= exponent,
            base >= 2 || base <= -2,
            power == pow(base as int, done as nat),
        decreases exponent - done,
    {
        proof {
            lemma_pow_step(base as int, done as nat);
            assert(base * power == power * base) by (nonlinear_arith);
        }
        match power.checked_mul(base) {
            Some(next) => {
                power = next;
            },
            None => {
                proof {
                    if done + 1 < exponent {
                        lemma_power_grows(base as int, (done + 1) as nat, exponent as nat);
                    }
                }
                return None;
            },
        }
        done = done + 1;
    }
    Some(power)
}

/// What an operator gives, where it is an integer that can be held.
pub fn apply_arithmetic(operator: ArithmeticOperator, a: i64, b: i64) -> (result: Option<i64>)
    ensures
        result == arithmetic_result(operator, a, b),
{
    match operator {
        ArithmeticOperator::Addition => a.checked_add(b),
        ArithmeticOperator::Subtraction => a.checked_sub(b),
        ArithmeticOperator::Multiplication => a.checked_mul(b),
        ArithmeticOperator::Division => {
            if b == 0 {
                return None;
            }
            match a.checked_rem(b) {
                Some(0) => a.checked_div(b),
                _ => None,
            }
        },
        ArithmeticOperator::Modulo => if b == 0 {
            None
        } else {
            a.checked_rem(b)
        },
        ArithmeticOperator::Exponentiation => if b >= 0 {
            checked_power(a, b as u32)
        } else {
            None
        },
    }
}

/// What an operator on bits gives, where it is known.
pub fn apply_bitwise(operator: BitwiseOperator, a: i64, b: i64) -> (result: Option<i64>)
    ensures
        result == bitwise_result(operator, a, b),
{
    match operator {
        BitwiseOperator::And => Some(a & b),
        BitwiseOperator::Or => Some(a | b),
        BitwiseOperator::Xor => Some(a ^ b),
        BitwiseOperator::LeftShift => if b < 0 {
            None
        } else if b < 64 {
            Some(a << b)
        } else {
            Some(0)
        },
        BitwiseOperator::RightShift => if b < 0 {
            None
        } else if b < 64 {
            Some(a >> b)
        } else if a >= 0 {
            Some(0)
        } else {
            Some(-1)
        },
    }
}

} // verus!
