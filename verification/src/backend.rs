//! The pluggable compute-backend seam: operations delegate all per-element
//! numeric work to a [`Backend`], and this module states the contract any
//! backend must satisfy. A verified integer backend is provided; other
//! carriers (such as hardware floating point) can implement the same trait
//! outside the verified core.

use vstd::prelude::*;

verus! {

/// The element-wise binary kernel families.
#[derive(Debug, Clone, Copy, PartialEq, Eq, Structural)]
pub enum BinaryOp {
    Add,
    Sub,
    Mul,
    Div,
}

/// The element-wise unary kernel families.
#[derive(Debug, Clone, Copy, PartialEq, Eq, Structural)]
pub enum UnaryOp {
    Exp,
    Neg,
    Sqrt,
    Abs,
    Square,
    Log,
}

/// A capability supplying the numeric kernels that the operation framework
/// delegates to. Each executable kernel is bound to a specification member:
/// the binary, unary and power kernels to postcondition predicates (so a
/// backend may choose its own wrapping or saturating conventions), and the
/// comparison, zero and index-conversion kernels to exact spec functions.
pub trait Backend<T: Copy> {
    /// What the binary kernel may return for the given operands.
    spec fn binary_post(&self, op: BinaryOp, a: T, b: T, r: T) -> bool;

    /// What the unary kernel may return for the given operand.
    spec fn unary_post(&self, op: UnaryOp, a: T, r: T) -> bool;

    /// What the power kernel may return for base `a` and exponent `e`.
    spec fn pow_post(&self, a: T, e: T, r: T) -> bool;

    /// The backend's total comparison: `a` sorts at or below `b`.
    spec fn le_spec(&self, a: T, b: T) -> bool;

    /// The backend's additive identity.
    spec fn zero_spec(&self) -> T;

    /// The backend's carrier value for a positional index.
    spec fn index_spec(&self, i: usize) -> T;

    /// One element-wise binary kernel application.
    fn binary(&self, op: BinaryOp, a: T, b: T) -> (r: T)
        ensures
            self.binary_post(op, a, b, r),
    ;

    /// One element-wise unary kernel application.
    fn unary(&self, op: UnaryOp, a: T) -> (r: T)
        ensures
            self.unary_post(op, a, r),
    ;

    /// One power kernel application.
    fn pow(&self, a: T, e: T) -> (r: T)
        ensures
            self.pow_post(a, e, r),
    ;

    /// Comparison kernel used by selection and reduction.
    fn le(&self, a: T, b: T) -> (r: bool)
        ensures
            r == self.le_spec(a, b),
    ;

    /// The additive identity, used to seed dot-product accumulation.
    fn zero(&self) -> (r: T)
        ensures
            r == self.zero_spec(),
    ;

    /// Converts a positional index into the carrier type, for the index
    /// outputs of selection and reduction.
    fn index_value(&self, i: usize) -> (r: T)
        ensures
            r == self.index_spec(i),
    ;
}

/// Truncating 64-bit division with the conventions of [`IntBackend`]:
/// division by zero yields zero, and the one overflowing quotient wraps.
pub open spec fn int_div(a: i64, b: i64) -> i64 {
    match a.checked_div(b) {
        Some(v) => v,
        None => if b == 0 {
            0
        } else {
            i64::MIN
        },
    }
}

/// Saturating powers of two: the value `min(2^e, i64::MAX)` for `e >= 0`.
pub open spec fn exp2_sat(e: int) -> i64
    decreases e,
{
    if e <= 0 {
        1
    } else {
        let p = exp2_sat(e - 1);
        if p > i64::MAX / 2 {
            i64::MAX
        } else {
            (2 * p) as i64
        }
    }
}

/// Wrapping integer exponentiation: `a^e` modulo 2^64.
pub open spec fn wrap_pow(a: i64, e: int) -> i64
    decreases e,
{
    if e <= 0 {
        1
    } else {
        wrap_pow(a, e - 1).wrapping_mul(a)
    }
}

/// The verified reference backend over 64-bit integers. Addition,
/// subtraction, multiplication, negation, squaring and the power kernel wrap
/// on overflow; division truncates with `int_div`'s conventions; the square
/// root is the integer floor root (zero for negative inputs); and the
/// exponential and logarithm kernels are the saturating base-2 pair (zero
/// for inputs outside their domain).
pub struct IntBackend;

impl Backend<i64> for IntBackend {
    open spec fn binary_post(&self, op: BinaryOp, a: i64, b: i64, r: i64) -> bool {
        match op {
            BinaryOp::Add => r == a.wrapping_add(b),
            BinaryOp::Sub => r == a.wrapping_sub(b),
            BinaryOp::Mul => r == a.wrapping_mul(b),
            BinaryOp::Div => r == int_div(a, b),
        }
    }

    open spec fn unary_post(&self, op: UnaryOp, a: i64, r: i64) -> bool {
        match op {
            UnaryOp::Exp => r == if a < 0 {
                0
            } else {
                exp2_sat(a as int)
            },
            UnaryOp::Neg => r == (0i64).wrapping_sub(a),
            UnaryOp::Sqrt => if a < 0 {
                r == 0
            } else {
                r >= 0 && r * r <= a && (r + 1) * (r + 1) > a
            },
            UnaryOp::Abs => if a == i64::MIN {
                r == i64::MIN
            } else if a < 0 {
                r == -a
            } else {
                r == a
            },
            UnaryOp::Square => r == a.wrapping_mul(a),
            UnaryOp::Log => if a <= 0 {
                r == 0
            } else {
                r >= 0 && exp2_sat(r as int) <= a && a < 2 * exp2_sat(r as int)
            },
        }
    }

    open spec fn pow_post(&self, a: i64, e: i64, r: i64) -> bool {
        r == if e < 0 {
            0
        } else {
            wrap_pow(a, e as int)
        }
    }

    open spec fn le_spec(&self, a: i64, b: i64) -> bool {
        a <= b
    }

    open spec fn zero_spec(&self) -> i64 {
        0
    }

    open spec fn index_spec(&self, i: usize) -> i64 {
        if i <= i64::MAX as usize {
            i as i64
        } else {
            i64::MIN
        }
    }

    fn binary(&self, op: BinaryOp, a: i64, b: i64) -> (r: i64) {
        match op {
            BinaryOp::Add => a.wrapping_add(b),
            BinaryOp::Sub => a.wrapping_sub(b),
            BinaryOp::Mul => a.wrapping_mul(b),
            BinaryOp::Div => match a.checked_div(b) {
                Some(v) => v,
                None => if b == 0 {
                    0
                } else {
                    i64::MIN
                },
            },
        }
    }

    fn unary(&self, op: UnaryOp, a: i64) -> (r: i64) {
        match op {
            UnaryOp::Exp => int_exp2(a),
            UnaryOp::Neg => (0i64).wrapping_sub(a),
            UnaryOp::Sqrt => int_sqrt(a),
            UnaryOp::Abs => if a == i64::MIN {
                i64::MIN
            } else if a < 0 {
                -a
            } else {
                a
            },
            UnaryOp::Square => a.wrapping_mul(a),
            UnaryOp::Log => int_log2(a),
        }
    }

    fn pow(&self, a: i64, e: i64) -> (r: i64) {
        if e < 0 {
            return 0;
        }
        let mut r: i64 = 1;
        let mut k: i64 = 0;
        while k < e
            invariant
                0 <= k <= e,
                r == wrap_pow(a, k as int),
            decreases e - k,
        {
            r = r.wrapping_mul(a);
            k = k + 1;
        }
        r
    }

    fn le(&self, a: i64, b: i64) -> (r: bool) {
        a <= b
    }

    fn zero(&self) -> (r: i64) {
        0
    }

    fn index_value(&self, i: usize) -> (r: i64) {
        if i <= (i64::MAX as usize) {
            #[verifier::truncate] (i as i64)
        } else {
            i64::MIN
        }
    }
}

/// Saturating base-2 exponential of a non-negative 64-bit integer.
fn int_exp2(a: i64) -> (r: i64)
    ensures
        a < 0 ==> r == 0,
        a >= 0 ==> r == exp2_sat(a as int),
{
    if a < 0 {
        return 0;
    }
    let mut r: i64 = 1;
    let mut k: i64 = 0;
    while k < a
        invariant
            0 <= k <= a,
            r == exp2_sat(k as int),
            r >= 1,
        decreases a - k,
    {
        if r > i64::MAX / 2 {
            // Saturated: every further doubling stays at the ceiling.
            proof {
                lemma_exp2_sat_stable(k as int, a as int);
            }
            r = i64::MAX;
            k = a;
        } else {
            r = 2 * r;
            k = k + 1;
        }
    }
    r
}

/// Once the saturating base-2 exponential exceeds half the carrier range it
/// stays at the saturation value.
proof fn lemma_exp2_sat_stable(k: int, m: int)
    requires
        0 <= k < m,
        exp2_sat(k) > i64::MAX / 2,
    ensures
        exp2_sat(m) == i64::MAX,
    decreases m - k,
{
    if m > k + 1 {
        lemma_exp2_sat_stable(k, m - 1);
    }
}

/// Floor of the base-2 logarithm; zero for inputs at or below zero.
fn int_log2(a: i64) -> (r: i64)
    ensures
        a <= 0 ==> r == 0,
        a >= 1 ==> r >= 0 && exp2_sat(r as int) <= a && a < 2 * exp2_sat(r as int),
{
    if a <= 0 {
        return 0;
    }
    let mut p: i64 = 1;
    let mut r: i64 = 0;
    while p <= a / 2
        invariant
            1 <= p <= a,
            0 <= r,
            p >= r + 1,
            p == exp2_sat(r as int),
        decreases a - p,
    {
        p = 2 * p;
        r = r + 1;
        proof {
            assert(exp2_sat(r as int) == p);
        }
    }
    r
}

/// Integer floor square root by binary search; zero for negative inputs.
fn int_sqrt(a: i64) -> (r: i64)
    ensures
        a < 0 ==> r == 0,
        a >= 0 ==> r >= 0 && r * r <= a && (r + 1) * (r + 1) > a,
{
    if a < 0 {
        return 0;
    }
    let mut lo: i64 = 0;
    let mut hi: i64 = 3037000500;
    proof {
        assert(3037000500i64 * 3037000500i64 > i64::MAX) by (nonlinear_arith);
    }
    while hi - lo > 1
        invariant
            0 <= lo < hi <= 3037000500,
            lo * lo <= a,
            a < hi * hi,
        decreases hi - lo,
    {
        let mid = lo + (hi - lo) / 2;
        proof {
            assert(lo < mid < hi);
            assert(mid * mid <= 3037000499i64 * 3037000499i64) by (nonlinear_arith)
                requires
                    0 <= mid <= 3037000499,
            ;
        }
        if mid * mid <= a {
            lo = mid;
        } else {
            hi = mid;
        }
    }
    proof {
        assert(hi == lo + 1);
    }
    lo
}

} // verus!
