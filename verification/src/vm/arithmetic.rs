//! Integer arithmetic of the machine: two's-complement results, and an
//! error for a zero divisor.

use crate::bytecode::{Bytecode, InstrView};
use crate::value::{values_equal, RuntimeValue, ValueView};
use crate::vm::{ErrorView, RuntimeError};
use vstd::prelude::*;

verus! {

/// The 64-bit two's-complement integer that is congruent to `v` modulo 2^64.
pub open spec fn wrap(v: int) -> i64 {
    let r = v % 0x1_0000_0000_0000_0000;
    if r > i64::MAX {
        (r - 0x1_0000_0000_0000_0000) as i64
    } else {
        r as i64
    }
}

/// The quotient of `a` by `b` rounded toward zero, for `b` other than zero.
pub open spec fn truncated_quotient(a: int, b: int) -> int {
    if a >= 0 && b > 0 {
        a / b
    } else if a < 0 && b < 0 {
        (-a) / (-b)
    } else if a < 0 {
        -((-a) / b)
    } else {
        -(a / (-b))
    }
}

/// The remainder that goes with [`truncated_quotient`]: it has the sign of
/// `a`, for `b` other than zero.
pub open spec fn truncated_remainder(a: int, b: int) -> int {
    if a >= 0 && b > 0 {
        a % b
    } else if a < 0 && b < 0 {
        -((-a) % (-b))
    } else if a < 0 {
        -((-a) % b)
    } else {
        a % (-b)
    }
}

/// Integer arithmetic of the machine: two's-complement results, and an
/// error for a zero divisor.
pub open spec fn arithmetic(op: InstrView, a: i64, b: i64) -> Result<i64, ErrorView> {
    match op {
        InstrView::Add => Ok(wrap(a + b)),
        InstrView::Sub => Ok(wrap(a - b)),
        InstrView::Mul => Ok(wrap(a * b)),
        InstrView::Div => if b == 0 {
            Err(ErrorView::DivisionByZero)
        } else {
            Ok(wrap(truncated_quotient(a as int, b as int)))
        },
        InstrView::Mod => if b == 0 {
            Err(ErrorView::ModuloByZero)
        } else {
            Ok(wrap(truncated_remainder(a as int, b as int)))
        },
        _ => Err(ErrorView::TypeMismatch),
    }
}

/// Ordering comparisons of the machine.
pub open spec fn ordering(op: InstrView, a: i64, b: i64) -> bool {
    match op {
        InstrView::Lt => a < b,
        InstrView::Gt => a > b,
        InstrView::Le => a <= b,
        _ => a >= b,
    }
}

/// Whether the instruction pops two operands and pushes one result.
pub open spec fn is_binary(op: InstrView) -> bool {
    op is Add || op is Sub || op is Mul || op is Div || op is Mod || op is Eq || op is Ne || op is Lt
        || op is Gt || op is Le || op is Ge
}

/// The result of a binary instruction on `left` and `right`. Arithmetic and
/// ordering accept two integers and nothing else; equality accepts any two
/// values.
pub open spec fn binary_result(op: InstrView, left: ValueView, right: ValueView) -> Result<
    ValueView,
    ErrorView,
> {
    match op {
        InstrView::Eq => Ok(ValueView::Boolean(values_equal(left, right))),
        InstrView::Ne => Ok(ValueView::Boolean(!values_equal(left, right))),
        InstrView::Lt | InstrView::Gt | InstrView::Le | InstrView::Ge => match (left, right) {
            (ValueView::Integer(a), ValueView::Integer(b)) => Ok(
                ValueView::Boolean(ordering(op, a, b)),
            ),
            _ => Err(ErrorView::TypeMismatch),
        },
        _ => match (left, right) {
            (ValueView::Integer(a), ValueView::Integer(b)) => match arithmetic(op, a, b) {
                Ok(r) => Ok(ValueView::Integer(r)),
                Err(e) => Err(e),
            },
            _ => Err(ErrorView::TypeMismatch),
        },
    }
}

/// The result of an arithmetic instruction on two integers.
fn integer_arithmetic(op: &Bytecode, a: i64, b: i64) -> (r: Result<i64, RuntimeError>)
    requires
        op@ is Add || op@ is Sub || op@ is Mul || op@ is Div || op@ is Mod,
    ensures
        match arithmetic(op@, a, b) {
            Ok(v) => r == Ok::<i64, RuntimeError>(v),
            Err(e) => r is Err && r->Err_0@ == e,
        },
{
    match op {
        Bytecode::Add => Ok(a.wrapping_add(b)),
        Bytecode::Sub => Ok(a.wrapping_sub(b)),
        Bytecode::Mul => Ok(a.wrapping_mul(b)),
        Bytecode::Div => {
            if b == 0 {
                Err(RuntimeError::DivisionByZero)
            } else {
                match a.checked_div(b) {
                    Some(q) => Ok(q),
                    None => Ok(i64::MIN),
                }
            }
        },
        _ => {
            if b == 0 {
                Err(RuntimeError::ModuloByZero)
            } else {
                match a.checked_rem(b) {
                    Some(r) => Ok(r),
                    None => Ok(0),
                }
            }
        },
    }
}

/// The result of a binary instruction on `left` and `right`.
pub(crate) fn binary(op: &Bytecode, left: &RuntimeValue, right: &RuntimeValue) -> (r: Result<
    RuntimeValue,
    RuntimeError,
>)
    requires
        is_binary(op@),
    ensures
        match binary_result(op@, left@, right@) {
            Ok(v) => r is Ok && r->Ok_0@ == v,
            Err(e) => r is Err && r->Err_0@ == e,
        },
{
    match op {
        Bytecode::Eq => Ok(RuntimeValue::Boolean(left.eq(right))),
        Bytecode::Ne => Ok(RuntimeValue::Boolean(!left.eq(right))),
        Bytecode::Lt | Bytecode::Gt | Bytecode::Le | Bytecode::Ge => {
            match (left, right) {
                (RuntimeValue::Integer(a), RuntimeValue::Integer(b)) => {
                    let holds = match op {
                        Bytecode::Lt => *a < *b,
                        Bytecode::Gt => *a > *b,
                        Bytecode::Le => *a <= *b,
                        _ => *a >= *b,
                    };
                    Ok(RuntimeValue::Boolean(holds))
                },
                _ => Err(RuntimeError::TypeMismatch),
            }
        },
        _ => {
            match (left, right) {
                (RuntimeValue::Integer(a), RuntimeValue::Integer(b)) => {
                    match integer_arithmetic(op, *a, *b) {
                        Ok(v) => Ok(RuntimeValue::Integer(v)),
                        Err(e) => Err(e),
                    }
                },
                _ => Err(RuntimeError::TypeMismatch),
            }
        },
    }
}

/// Integer arithmetic is two's-complement: the sum, difference and product
/// are the exact results wrapped to 64 bits (see
/// [`lemma_wrap_is_congruent`]); the quotient is the exact quotient rounded
/// toward zero, and wraps only for the least integer divided by minus one.
/// Dividing or taking the remainder by zero fails, whatever the dividend.
pub proof fn lemma_integer_arithmetic(a: i64, b: i64)
    ensures
        binary_result(InstrView::Add, ValueView::Integer(a), ValueView::Integer(b)) == Ok::<
            ValueView,
            ErrorView,
        >(ValueView::Integer(wrap(a + b))),
        binary_result(InstrView::Sub, ValueView::Integer(a), ValueView::Integer(b)) == Ok::<
            ValueView,
            ErrorView,
        >(ValueView::Integer(wrap(a - b))),
        binary_result(InstrView::Mul, ValueView::Integer(a), ValueView::Integer(b)) == Ok::<
            ValueView,
            ErrorView,
        >(ValueView::Integer(wrap(a * b))),
        b != 0 ==> binary_result(InstrView::Div, ValueView::Integer(a), ValueView::Integer(b))
            == Ok::<ValueView, ErrorView>(
            ValueView::Integer(wrap(truncated_quotient(a as int, b as int))),
        ),
        b != 0 && !(a == i64::MIN && b == -1) ==> wrap(truncated_quotient(a as int, b as int))
            == truncated_quotient(a as int, b as int),
        binary_result(InstrView::Div, ValueView::Integer(a), ValueView::Integer(0)) == Err::<
            ValueView,
            ErrorView,
        >(ErrorView::DivisionByZero),
        binary_result(InstrView::Mod, ValueView::Integer(a), ValueView::Integer(0)) == Err::<
            ValueView,
            ErrorView,
        >(ErrorView::ModuloByZero),
{
    if b != 0 && !(a == i64::MIN && b == -1) {
        lemma_quotient_bounds(a as int, b as int);
    }
}

/// What makes `wrap` two's-complement: its result differs from the exact
/// value by a multiple of 2^64, and is the exact value where that fits in
/// 64 bits.
pub proof fn lemma_wrap_is_congruent(v: int)
    ensures
        (wrap(v) - v) % 0x1_0000_0000_0000_0000 == 0,
        i64::MIN <= v <= i64::MAX ==> wrap(v) == v,
{
}

/// The quotient rounded toward zero is no larger in magnitude than the
/// dividend, and smaller where the divisor is neither one nor minus one.
pub proof fn lemma_quotient_bounds(a: int, b: int)
    requires
        b != 0,
    ensures
        a >= 0 ==> -a <= truncated_quotient(a, b) <= a,
        a < 0 ==> a <= truncated_quotient(a, b) <= -a,
        a > 0 && b != 1 && b != -1 ==> -a < truncated_quotient(a, b) < a,
        a < 0 && b != 1 && b != -1 ==> a < truncated_quotient(a, b) < -a,
{
    let x = if a >= 0 {
        a
    } else {
        -a
    };
    let d = if b > 0 {
        b
    } else {
        -b
    };
    assert(0 <= x / d <= x) by (nonlinear_arith)
        requires
            x >= 0,
            d > 0,
    ;
    assert(d >= 2 && x > 0 ==> x / d < x) by (nonlinear_arith)
        requires
            x >= 0,
            d > 0,
    ;
}

} // verus!
