//! # AMF0 numbers
//!
//! An AMF0 `Number` is an IEEE 754 double. The library holds it as the 64 bits
//! that stand on the wire, and converts it to and from integers where the
//! protocol means an integer (a transaction id, a stream id, a metadata field):
//!
//! * to an integer as Rust's `as u64` does on a double: the fraction is cut off,
//!   a negative value or a NaN gives 0, and a value above `u64::MAX` gives
//!   `u64::MAX`;
//! * from an integer as Rust's `as f64` does on a `u64`: to the nearest double,
//!   ties to the even one.
use vstd::prelude::*;
use vstd::arithmetic::power2::{pow2, lemma_pow2_unfold, lemma_pow2_adds, lemma_pow2_pos, lemma2_to64};

verus! {

/// 2 to the 52nd: the weight of the lowest bit of the exponent field.
pub open spec fn two52() -> nat {
    4503599627370496
}

/// The biased exponent field of a double.
pub open spec fn exponent_of(bits: u64) -> int {
    (bits as int / 4503599627370496) % 2048
}

/// The fraction field of a double.
pub open spec fn fraction_of(bits: u64) -> int {
    bits as int % 4503599627370496
}

/// The sign bit of a double.
pub open spec fn sign_of(bits: u64) -> int {
    bits as int / 9223372036854775808
}

/// The integer that Rust's `as u64` gives for the double whose bits are `bits`.
#[verifier::opaque]
pub open spec fn number_to_u64_spec(bits: u64) -> u64 {
    let exp = exponent_of(bits);
    let mant = fraction_of(bits) + two52();
    if exp == 2047 {
        if fraction_of(bits) != 0 || sign_of(bits) == 1 {
            0
        } else {
            u64::MAX
        }
    } else if sign_of(bits) == 1 || exp < 1023 {
        0
    } else if exp >= 1087 {
        u64::MAX
    } else if exp >= 1075 {
        (mant * pow2((exp - 1075) as nat)) as u64
    } else {
        (mant as int / pow2((1075 - exp) as nat) as int) as u64
    }
}

/// The index of the highest set bit of `v` (0 for 0 and 1).
pub open spec fn log2(v: nat) -> nat
    decreases v,
{
    if v < 2 {
        0
    } else {
        1 + log2(v / 2)
    }
}

/// The bits of the double that Rust's `as f64` gives for `v`: the nearest
/// double, ties to the one whose last significand bit is 0.
#[verifier::opaque]
pub open spec fn u64_to_number_spec(v: u64) -> u64 {
    if v == 0 {
        0
    } else {
        let p = log2(v as nat);
        if p <= 52 {
            ((p + 1023) * two52() + (v * pow2((52 - p) as nat) - two52())) as u64
        } else {
            let s = (p - 52) as nat;
            let q = v as int / pow2(s) as int;
            let r = v as int % pow2(s) as int;
            let half = pow2(s) / 2;
            let m = if r > half || (r == half && q % 2 == 1) {
                q + 1
            } else {
                q
            };
            if m == 2 * two52() {
                ((p + 1024) * two52()) as u64
            } else {
                ((p + 1023) * two52() + (m - two52())) as u64
            }
        }
    }
}

/// `log2(v)` is the exponent of the highest power of 2 not above `v`.
pub proof fn lemma_log2_bounds(v: nat)
    requires
        v >= 1,
    ensures
        pow2(log2(v)) <= v < pow2(log2(v) + 1),
    decreases v,
{
    lemma_pow2_unfold(log2(v) + 1);
    if v < 2 {
        lemma2_to64();
    } else {
        lemma_log2_bounds(v / 2);
        lemma_pow2_unfold(log2(v));
    }
}

/// A power of 2 bracketing `v` gives its `log2`.
pub proof fn lemma_log2_unique(v: nat, p: nat)
    requires
        pow2(p) <= v < pow2(p + 1),
    ensures
        log2(v) == p,
    decreases p,
{
    lemma_pow2_unfold(p + 1);
    lemma_pow2_pos(p);
    if p == 0 {
        lemma2_to64();
    } else {
        lemma_pow2_unfold(p);
        lemma_log2_unique(v / 2, (p - 1) as nat);
    }
}

/// Returns 2 to the `e`.
fn pow2_u64(e: u64) -> (r: u64)
    requires
        e < 64,
    ensures
        r == pow2(e as nat),
{
    let mut r: u64 = 1;
    let mut i: u64 = 0;
    proof {
        lemma2_to64();
    }
    while i < e
        invariant
            i <= e < 64,
            r == pow2(i as nat),
        decreases e - i,
    {
        proof {
            lemma_pow2_unfold((i + 1) as nat);
            vstd::bits::lemma_u64_pow2_no_overflow((i + 1) as nat);
        }
        r = r * 2;
        i = i + 1;
    }
    r
}

/// Converts an AMF0 number to an integer as Rust's `as u64` converts a double.
pub fn number_to_u64(bits: u64) -> (r: u64)
    ensures
        r == number_to_u64_spec(bits),
{
    reveal(number_to_u64_spec);
    let sign = bits / 9223372036854775808;
    let exp = (bits / 4503599627370496) % 2048;
    let frac = bits % 4503599627370496;
    if exp == 2047 {
        if frac != 0 || sign == 1 {
            0
        } else {
            u64::MAX
        }
    } else if sign == 1 || exp < 1023 {
        0
    } else if exp >= 1087 {
        u64::MAX
    } else if exp >= 1075 {
        let mant = frac + 4503599627370496;
        let p = pow2_u64(exp - 1075);
        proof {
            lemma2_to64();
            if exp - 1075 < 11 {
                vstd::arithmetic::power2::lemma_pow2_strictly_increases((exp - 1075) as nat, 11);
            }
            assert(p <= 2048);
            assert(mant * p <= u64::MAX) by (nonlinear_arith)
                requires
                    mant < 9007199254740992,
                    p <= 2048,
            ;
        }
        mant * p
    } else {
        let mant = frac + 4503599627370496;
        let p = pow2_u64(1075 - exp);
        proof {
            lemma_pow2_pos((1075 - exp) as nat);
        }
        mant / p
    }
}

/// Converts an integer to an AMF0 number as Rust's `as f64` converts a `u64`.
pub fn u64_to_number(v: u64) -> (r: u64)
    ensures
        r == u64_to_number_spec(v),
{
    reveal(u64_to_number_spec);
    if v == 0 {
        return 0;
    }
    // p: the index of the highest set bit of v.

    let mut p: u64 = 63;
    proof {
        lemma2_to64();
        vstd::bits::lemma_u64_pow2_no_overflow(63);
    }
    let mut bound = pow2_u64(63);
    while v < bound
        invariant
            1 <= v,
            p <= 63,
            bound == pow2(p as nat),
            v < pow2((p + 1) as nat),
        decreases p,
    {
        proof {
            lemma2_to64();
            assert(p > 0);
            lemma_pow2_unfold(p as nat);
        }
        p = p - 1;
        bound = pow2_u64(p);
    }
    proof {
        lemma_log2_unique(v as nat, p as nat);
        lemma_pow2_unfold((p + 1) as nat);
    }
    if p <= 52 {
        let k = pow2_u64(52 - p);
        proof {
            lemma_pow2_adds((p + 1) as nat, (52 - p) as nat);
            lemma_pow2_adds(p as nat, (52 - p) as nat);
            assert(pow2(53) == 2 * two52()) by {
                lemma_pow2_unfold(53);
                assert(pow2(52) == two52()) by {
                    lemma_pow2_adds(20, 32);
                    lemma2_to64();
                }
            }
            assert(pow2(52) == two52()) by {
                lemma_pow2_adds(20, 32);
                lemma2_to64();
            }
            assert(v * k < 2 * two52()) by (nonlinear_arith)
                requires
                    v < pow2((p + 1) as nat),
                    k == pow2((52 - p) as nat),
                    pow2((p + 1) as nat) * pow2((52 - p) as nat) == 2 * two52(),
            ;
            assert(v * k >= two52()) by (nonlinear_arith)
                requires
                    v >= pow2(p as nat),
                    k == pow2((52 - p) as nat),
                    pow2(p as nat) * pow2((52 - p) as nat) == two52(),
            ;
        }
        (p + 1023) * 4503599627370496 + (v * k - 4503599627370496)
    } else {
        let s = p - 52;
        let d = pow2_u64(s);
        proof {
            lemma_pow2_pos(s as nat);
            lemma_pow2_adds(s as nat, 53);
            assert(pow2(53) == 2 * two52()) by {
                lemma_pow2_unfold(53);
                lemma_pow2_adds(20, 32);
                lemma2_to64();
            }
            assert(pow2(52) == two52()) by {
                lemma_pow2_adds(20, 32);
                lemma2_to64();
            }
            lemma_pow2_adds(s as nat, 52);
            assert(v / d < 2 * two52()) by (nonlinear_arith)
                requires
                    v < d * (2 * two52()),
                    d > 0,
            ;
            assert(v / d >= two52()) by (nonlinear_arith)
                requires
                    v >= d * two52(),
                    d > 0,
            ;
        }
        let q = v / d;
        let r = v % d;
        let half = d / 2;
        let m = if r > half || (r == half && q % 2 == 1) {
            q + 1
        } else {
            q
        };
        if m == 9007199254740992 {
            (p + 1024) * 4503599627370496
        } else {
            (p + 1023) * 4503599627370496 + (m - 4503599627370496)
        }
    }
}

/// An integer below 2 to the 53rd survives the trip to an AMF0 number and back.
pub proof fn lemma_number_roundtrip(v: u64)
    requires
        v < 9007199254740992,
    ensures
        number_to_u64_spec(u64_to_number_spec(v)) == v,
{
    reveal(number_to_u64_spec);
    reveal(u64_to_number_spec);
    if v == 0 {
        return;
    }
    let p = log2(v as nat);
    lemma_log2_bounds(v as nat);
    assert(pow2(52) == two52()) by {
        lemma_pow2_adds(20, 32);
        lemma2_to64();
    }
    assert(pow2(53) == 2 * two52()) by {
        lemma_pow2_unfold(53);
    }
    if p > 52 {
        vstd::arithmetic::power2::lemma_pow2_strictly_increases(53, p);
        assert(false);
    }
    let k = pow2((52 - p) as nat);
    lemma_pow2_pos((52 - p) as nat);
    lemma_pow2_adds((p + 1) as nat, (52 - p) as nat);
    lemma_pow2_adds(p as nat, (52 - p) as nat);
    assert(v * k < 2 * two52() && v * k >= two52()) by (nonlinear_arith)
        requires
            v < pow2((p + 1) as nat),
            v >= pow2(p as nat),
            k == pow2((52 - p) as nat),
            pow2((p + 1) as nat) * pow2((52 - p) as nat) == 2 * two52(),
            pow2(p as nat) * pow2((52 - p) as nat) == two52(),
    ;
    let frac = v * k - two52();
    let bits = u64_to_number_spec(v);
    assert(bits == (p + 1023) * two52() + frac);
    assert(exponent_of(bits) == p + 1023 && fraction_of(bits) == frac && sign_of(bits) == 0)
        by (nonlinear_arith)
        requires
            bits == (p + 1023) * 4503599627370496 + frac,
            0 <= frac < 4503599627370496,
            p <= 52,
    ;
    if p == 52 {
        lemma2_to64();
        assert(k == 1);
        assert(v * k == v);
        assert(frac + two52() == v);
        assert(exponent_of(bits) - 1075 == 0);
        assert((frac + two52()) * pow2(0) == v);
    } else {
        assert((v * k) / (k as int) == v) by (nonlinear_arith)
            requires
                k > 0,
        ;
    }
}

} // verus!
