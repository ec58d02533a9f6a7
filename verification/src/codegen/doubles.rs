//! Number literals, read from the bits of their double-precision value.
use vstd::arithmetic::power2::{lemma_pow2_pos, lemma_pow2_strictly_increases, pow2};
use vstd::prelude::*;

verus! {

/// The fraction field of a double.
pub open spec fn fraction(bits: u64) -> nat {
    (bits % 0x10_0000_0000_0000) as nat
}

/// The biased exponent field of a double.
pub open spec fn biased_exponent(bits: u64) -> nat {
    ((bits / 0x10_0000_0000_0000) % 2048) as nat
}

/// Whether the sign of a double is negative.
pub open spec fn is_negative(bits: u64) -> bool {
    bits / 0x8000_0000_0000_0000 == 1
}

/// Whether a double is neither infinite nor a NaN.
pub open spec fn is_finite(bits: u64) -> bool {
    biased_exponent(bits) != 2047
}

/// The significand of a finite double as an integer: its magnitude is the
/// significand times two to the power of [`exponent`].
pub open spec fn significand(bits: u64) -> nat {
    if biased_exponent(bits) == 0 {
        fraction(bits)
    } else {
        fraction(bits) + 0x10_0000_0000_0000
    }
}

/// The power of two that scales the significand.
pub open spec fn exponent(bits: u64) -> int {
    if biased_exponent(bits) == 0 {
        -1074
    } else {
        biased_exponent(bits) - 1075
    }
}

/// The magnitude of a finite double without its fractional part.
pub open spec fn whole_magnitude(bits: u64) -> nat {
    if exponent(bits) >= 0 {
        significand(bits) * pow2(exponent(bits) as nat)
    } else {
        significand(bits) / pow2((-exponent(bits)) as nat)
    }
}

/// Whether a finite double has no fractional part.
pub open spec fn is_whole(bits: u64) -> bool {
    exponent(bits) >= 0 || significand(bits) % pow2((-exponent(bits)) as nat) == 0
}

/// The value of a double that is a whole number from zero to the largest
/// 32-bit value.
pub open spec fn index_value(bits: u64) -> Option<u32> {
    if is_finite(bits) && is_whole(bits) && whole_magnitude(bits) <= u32::MAX && (!is_negative(bits)
        || whole_magnitude(bits) == 0) {
        Some(whole_magnitude(bits) as u32)
    } else {
        None
    }
}

/// A double as a 64-bit integer: without its fractional part, held to the
/// range of the type, and zero for a NaN.
pub open spec fn integer_value(bits: u64) -> i64 {
    if !is_finite(bits) && fraction(bits) != 0 {
        0
    } else if is_negative(bits) {
        if !is_finite(bits) || -whole_magnitude(bits) < i64::MIN {
            i64::MIN
        } else {
            (-whole_magnitude(bits)) as i64
        }
    } else {
        if !is_finite(bits) || whole_magnitude(bits) > i64::MAX {
            i64::MAX
        } else {
            whole_magnitude(bits) as i64
        }
    }
}

fn power(n: u32) -> (r: u64)
    requires
        n <= 63,
    ensures
        r == pow2(n as nat),
{
    let mut r: u64 = 1;
    let mut i: u32 = 0;
    proof {
        vstd::arithmetic::power2::lemma2_to64();
    }
    while i < n
        invariant
            i <= n <= 63,
            r == pow2(i as nat),
        decreases n - i,
    {
        proof {
            vstd::arithmetic::power2::lemma_pow2_unfold((i + 1) as nat);
            vstd::arithmetic::power2::lemma2_to64();
            vstd::arithmetic::power2::lemma2_to64_rest();
            if i + 1 < 63 {
                lemma_pow2_strictly_increases((i + 1) as nat, 63);
            }
        }
        r = r * 2;
        i += 1;
    }
    r
}

/// The significand and the exponent of a finite double.
fn decode(bits: u64) -> (r: (u64, i32))
    ensures
        r.0 == significand(bits),
        r.1 == exponent(bits),
        r.0 < 0x20_0000_0000_0000,
        -1074 <= r.1 <= 972,
        r.1 >= 0 ==> r.0 >= 0x10_0000_0000_0000,
{
    let frac: u64 = bits % 0x10_0000_0000_0000;
    let exp: u64 = (bits / 0x10_0000_0000_0000) % 2048;
    if exp == 0 {
        (frac, -1074)
    } else {
        (frac + 0x10_0000_0000_0000, exp as i32 - 1075)
    }
}

/// A significand scaled down by more than its own size leaves nothing whole.
proof fn lemma_small(m: nat, shift: nat)
    requires
        m < 0x20_0000_0000_0000,
        shift >= 53,
    ensures
        m / pow2(shift) == 0,
        m % pow2(shift) == m,
{
    vstd::arithmetic::power2::lemma2_to64_rest();
    if shift > 53 {
        lemma_pow2_strictly_increases(53, shift);
    }
    vstd::arithmetic::div_mod::lemma_small_mod(m, pow2(shift));
    vstd::arithmetic::div_mod::lemma_basic_div(m as int, pow2(shift) as int);
}

/// A normalised significand scaled up exceeds what it was.
proof fn lemma_large(m: nat, shift: nat)
    ensures
        m * pow2(shift) >= m,
{
    lemma_pow2_pos(shift);
    assert(m * pow2(shift) >= m) by (nonlinear_arith)
        requires
            pow2(shift) >= 1,
    ;
}

/// The value of a literal that can serve as a constant index.
pub fn index_of(bits: u64) -> (r: Option<u32>)
    ensures
        r == index_value(bits),
{
    if (bits / 0x10_0000_0000_0000) % 2048 == 2047 {
        return None;
    }
    let (m, e): (u64, i32) = decode(bits);
    if e >= 0 {
        proof {
            lemma_large(m as nat, e as nat);
        }
        return None;
    }
    let shift: u32 = (-e) as u32;
    proof {
        lemma_pow2_pos(shift as nat);
    }
    if m == 0 {
        proof {
            vstd::arithmetic::div_mod::lemma_small_mod(0, pow2(shift as nat));
            vstd::arithmetic::div_mod::lemma_basic_div(0, pow2(shift as nat) as int);
        }
        return Some(0);
    }
    if shift >= 53 {
        proof {
            lemma_small(m as nat, shift as nat);
        }
        return None;
    }
    let d: u64 = power(shift);
    let q: u64 = m / d;
    if m % d != 0 || q > 0xffff_ffff {
        return None;
    }
    assert(q > 0) by {
        vstd::arithmetic::div_mod::lemma_fundamental_div_mod(m as int, d as int);
        assert(d * 0 == 0);
    }
    if bits / 0x8000_0000_0000_0000 == 1 {
        return None;
    }
    Some(q as u32)
}

/// A literal as a 64-bit integer.
pub fn integer_of(bits: u64) -> (r: i64)
    ensures
        r == integer_value(bits),
{
    let negative: bool = bits / 0x8000_0000_0000_0000 == 1;
    let frac: u64 = bits % 0x10_0000_0000_0000;
    if (bits / 0x10_0000_0000_0000) % 2048 == 2047 {
        if frac != 0 {
            return 0;
        }
        return if negative {
            i64::MIN
        } else {
            i64::MAX
        };
    }
    let (m, e): (u64, i32) = decode(bits);
    if e >= 11 {
        proof {
            vstd::arithmetic::power2::lemma2_to64();
            if e > 11 {
                lemma_pow2_strictly_increases(11, e as nat);
            }
            assert(m * pow2(e as nat) >= 0x10_0000_0000_0000 * 0x800) by (nonlinear_arith)
                requires
                    m >= 0x10_0000_0000_0000,
                    pow2(e as nat) >= 0x800,
            ;
        }
        return if negative {
            i64::MIN
        } else {
            i64::MAX
        };
    }
    let mag: u64 = if e >= 0 {
        let d: u64 = power(e as u32);
        proof {
            vstd::arithmetic::power2::lemma2_to64();
            if e < 10 {
                lemma_pow2_strictly_increases(e as nat, 10);
            }
            assert(m * d <= 0x1f_ffff_ffff_ffff * 0x400) by (nonlinear_arith)
                requires
                    m <= 0x1f_ffff_ffff_ffff,
                    d <= 0x400,
            ;
        }
        m * d
    } else {
        let shift: u32 = (-e) as u32;
        if shift >= 53 {
            proof {
                lemma_small(m as nat, shift as nat);
            }
            0
        } else {
            let d: u64 = power(shift);
            proof {
                lemma_pow2_pos(shift as nat);
                assert(m / d <= m) by (nonlinear_arith)
                    requires
                        d >= 1,
                ;
            }
            m / d
        }
    };
    assert(mag == whole_magnitude(bits));
    assert(mag <= 0x1f_ffff_ffff_ffff * 0x400);
    if negative {
        -(mag as i64)
    } else {
        mag as i64
    }
}

} // verus!
