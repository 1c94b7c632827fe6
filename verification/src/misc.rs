//! Small numeric helpers shared by the value operators.

use vstd::arithmetic::div_mod::{
    lemma_fundamental_div_mod, lemma_fundamental_div_mod_converse_mod,
};
use vstd::math::abs;
use vstd::prelude::*;

verus! {

/// The remainder of `left` divided by `right`, taking the sign of `right`:
/// the magnitudes are divided, and a non-zero remainder is counted from zero
/// towards `right`. [`lemma_floor_mod_congruent`] shows that the result
/// differs from `left` by a multiple of `right`, so this is the remainder of
/// the floor division.
pub open spec fn floor_mod(left: int, right: int) -> int {
    let m = (abs(left) % abs(right)) as int;
    if left >= 0 && right > 0 {
        m
    } else if left >= 0 && right < 0 {
        if m == 0 {
            0
        } else {
            m + right
        }
    } else if right > 0 {
        if m == 0 {
            0
        } else {
            right - m
        }
    } else {
        -m
    }
}

/// `floor_mod(a, b)` differs from `a` by a multiple of `b`.
pub proof fn lemma_floor_mod_congruent(a: int, b: int)
    requires
        b != 0,
    ensures
        (a - floor_mod(a, b)) % (abs(b) as int) == 0,
{
    let bb = abs(b) as int;
    let aa = abs(a) as int;
    let q: int = aa / bb;
    let m: int = aa % bb;
    lemma_fundamental_div_mod(aa, bb);
    assert(aa == bb * q + m);
    let r = floor_mod(a, b);
    let k: int = if a >= 0 && b > 0 {
        q
    } else if a >= 0 && b < 0 {
        if m == 0 {
            -q
        } else {
            -q - 1
        }
    } else if b > 0 {
        if m == 0 {
            -q
        } else {
            -q - 1
        }
    } else {
        q
    };
    assert(a - r == k * b) by {
        if a >= 0 && b > 0 {
            assert(aa - m == q * b) by (nonlinear_arith)
                requires
                    aa == bb * q + m,
                    bb == b,
            ;
        } else if a >= 0 && b < 0 {
            assert(aa - m == (-q) * b && aa - m - b == (-q - 1) * b) by (nonlinear_arith)
                requires
                    aa == bb * q + m,
                    bb == -b,
            ;
        } else if b > 0 {
            assert(-aa == (-q) * b - m && -aa - b + m == (-q - 1) * b) by (nonlinear_arith)
                requires
                    aa == bb * q + m,
                    bb == b,
            ;
        } else {
            assert(-aa + m == q * b) by (nonlinear_arith)
                requires
                    aa == bb * q + m,
                    bb == -b,
            ;
        }
    }
    assert((k * b) % (abs(b) as int) == 0) by {
        if b > 0 {
            lemma_fundamental_div_mod_converse_mod(k * b, b, k, 0);
        } else {
            assert(k * b == (-k) * (-b)) by (nonlinear_arith);
            lemma_fundamental_div_mod_converse_mod((-k) * (-b), -b, -k, 0);
        }
    }
}

/// Calculate the remainder of `left` divided by `right`, ensuring the result
/// has the same sign as `right` (or is zero).
pub fn modulo(left: i64, right: i64) -> (result: i64)
    requires
        right != 0,
    ensures
        result == floor_mod(left as int, right as int),
        right > 0 ==> 0 <= result < right,
        right < 0 ==> right < result <= 0,
{
    let la: u64 = if left >= 0 {
        left as u64
    } else {
        #[verifier::truncate] ((-(left as i128)) as u64)
    };
    let rb: u64 = if right > 0 {
        right as u64
    } else {
        #[verifier::truncate] ((-(right as i128)) as u64)
    };
    let m: u64 = la % rb;
    if left >= 0 {
        if right > 0 {
            m as i64
        } else {
            if m == 0 {
                0
            } else {
                (m as i64) + right
            }
        }
    } else {
        if right > 0 {
            if m == 0 {
                0
            } else {
                right - (m as i64)
            }
        } else {
            -(m as i64)
        }
    }
}

/// The sign of an integer: `-1`, `0` or `1`.
pub open spec fn sign(v: int) -> int {
    if v < 0 {
        -1
    } else if v == 0 {
        0
    } else {
        1
    }
}

/// The remainder operator never leaves the sign of its right operand:
/// for every `a` and every `b != 0`, `sign(floor_mod(a, b))` is either `0`
/// or `sign(b)`.
pub proof fn lemma_modulo_sign(a: int, b: int)
    requires
        b != 0,
    ensures
        sign(floor_mod(a, b)) == 0 || sign(floor_mod(a, b)) == sign(b),
{
}

} // verus!
