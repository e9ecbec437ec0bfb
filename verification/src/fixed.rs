//! Fixed-point scalar arithmetic.
//!
//! Every scalar quantity in the library (translations, scales, quaternion
//! components, timestamps, coverage thresholds) is a `Fixed`: a signed
//! 32-bit count of 1/65536 units.  All operations saturate at the i32
//! range and truncate toward zero, and each one is specified exactly over
//! the underlying integers.

use vstd::prelude::*;

verus! {

/// Number of raw units in 1.0.
pub const FX_ONE: i32 = 65536;

/// Truncated (round-toward-zero) division; `b` is expected positive.
pub open spec fn fx_tdiv(a: int, b: int) -> int {
    if a >= 0 {
        a / b
    } else {
        -((-a) / b)
    }
}

/// Saturation to the i32 range.
pub open spec fn fx_clip(x: int) -> int {
    if x > i32::MAX as int {
        i32::MAX as int
    } else if x < i32::MIN as int {
        i32::MIN as int
    } else {
        x
    }
}

/// Exact meaning of fixed-point addition.
pub open spec fn fx_add(a: int, b: int) -> int {
    fx_clip(a + b)
}

/// Exact meaning of fixed-point subtraction.
pub open spec fn fx_sub(a: int, b: int) -> int {
    fx_clip(a - b)
}

/// Exact meaning of fixed-point negation.
pub open spec fn fx_neg(a: int) -> int {
    fx_clip(-a)
}

/// Exact meaning of fixed-point multiplication: the double-width product
/// scaled back down, truncating toward zero, then saturated.
pub open spec fn fx_mul(a: int, b: int) -> int {
    fx_clip(fx_tdiv(a * b, FX_ONE as int))
}

/// Exact meaning of fixed-point division (`b != 0`): the dividend scaled
/// up, truncating toward zero, then saturated.  The divisor's sign is
/// normalized so that `fx_tdiv` always sees a positive divisor.
pub open spec fn fx_div(a: int, b: int) -> int {
    if b > 0 {
        fx_clip(fx_tdiv(a * (FX_ONE as int), b))
    } else {
        fx_clip(fx_tdiv(-(a * (FX_ONE as int)), -b))
    }
}

/// A fixed-point scalar: `raw` counts 1/65536 units.
#[derive(Clone, Copy, Debug, PartialEq, Eq, Structural)]
pub struct Fixed {
    pub raw: i32,
}

/// Truncated division of an i64 by a positive divisor, done on
/// magnitudes so that the rounding direction is pinned down.
fn tdiv_i64(a: i64, b: i64) -> (r: i64)
    requires
        0 < b,
        a != i64::MIN,
    ensures
        r == fx_tdiv(a as int, b as int),
{
    if a >= 0 {
        let q: u64 = (a as u64) / (b as u64);
        q as i64
    } else {
        let q: u64 = ((-a) as u64) / (b as u64);
        assert(q <= (-a) as u64);
        -(q as i64)
    }
}

/// Saturate an i64 into the i32 range.
fn clip_i64(x: i64) -> (r: i32)
    ensures
        r == fx_clip(x as int),
{
    if x > i32::MAX as i64 {
        i32::MAX
    } else if x < i32::MIN as i64 {
        i32::MIN
    } else {
        x as i32
    }
}

impl Fixed {
    /// The zero scalar.
    pub fn zero() -> (r: Fixed)
        ensures
            r.raw == 0,
    {
        Fixed { raw: 0 }
    }

    /// The scalar 1.0.
    pub fn one() -> (r: Fixed)
        ensures
            r.raw == FX_ONE,
    {
        Fixed { raw: FX_ONE }
    }

    /// Build a scalar from its raw count of 1/65536 units.
    pub fn from_raw(raw: i32) -> (r: Fixed)
        ensures
            r.raw == raw,
    {
        Fixed { raw }
    }

    /// Saturating addition.
    pub fn add(self, other: Fixed) -> (r: Fixed)
        ensures
            r.raw == fx_add(self.raw as int, other.raw as int),
    {
        Fixed { raw: clip_i64(self.raw as i64 + other.raw as i64) }
    }

    /// Saturating subtraction.
    pub fn sub(self, other: Fixed) -> (r: Fixed)
        ensures
            r.raw == fx_sub(self.raw as int, other.raw as int),
    {
        Fixed { raw: clip_i64(self.raw as i64 - other.raw as i64) }
    }

    /// Saturating negation.
    pub fn neg(self) -> (r: Fixed)
        ensures
            r.raw == fx_neg(self.raw as int),
    {
        Fixed { raw: clip_i64(-(self.raw as i64)) }
    }

    /// Fixed-point product, truncating toward zero and saturating.
    pub fn mul(self, other: Fixed) -> (r: Fixed)
        ensures
            r.raw == fx_mul(self.raw as int, other.raw as int),
    {
        let a: i64 = self.raw as i64;
        let b: i64 = other.raw as i64;
        proof {
            assert(-0x4000000000000000 <= a * b <= 0x4000000000000000) by (nonlinear_arith)
                requires
                    -0x80000000 <= a <= 0x7fffffff,
                    -0x80000000 <= b <= 0x7fffffff,
            ;
        }
        let p: i64 = a * b;
        Fixed { raw: clip_i64(tdiv_i64(p, FX_ONE as i64)) }
    }

    /// Fixed-point quotient, truncating toward zero and saturating.
    /// Division by zero is excluded by contract.
    pub fn div(self, other: Fixed) -> (r: Fixed)
        requires
            other.raw != 0,
        ensures
            r.raw == fx_div(self.raw as int, other.raw as int),
    {
        let a: i64 = self.raw as i64;
        proof {
            assert(-0x800000000000 <= a * 65536 <= 0x800000000000) by (nonlinear_arith)
                requires
                    -0x80000000 <= a <= 0x7fffffff,
            ;
        }
        let num: i64 = a * (FX_ONE as i64);
        if other.raw > 0 {
            Fixed { raw: clip_i64(tdiv_i64(num, other.raw as i64)) }
        } else {
            // a / b == (-a) / (-b); negate both so the divisor is positive.
            let flipped: i64 = -num;
            let d: i64 = -(other.raw as i64);
            Fixed { raw: clip_i64(tdiv_i64(flipped, d)) }
        }
    }

    /// Absolute value, saturating at `i32::MAX`.
    pub fn abs(self) -> (r: Fixed)
        ensures
            r.raw == fx_clip(if self.raw < 0 { -(self.raw as int) } else { self.raw as int }),
    {
        if self.raw < 0 {
            Fixed { raw: clip_i64(-(self.raw as i64)) }
        } else {
            self
        }
    }

    /// The larger of two scalars.
    pub fn max(self, other: Fixed) -> (r: Fixed)
        ensures
            r.raw == if self.raw >= other.raw { self.raw } else { other.raw },
    {
        if self.raw >= other.raw {
            self
        } else {
            other
        }
    }

    /// The smaller of two scalars.
    pub fn min(self, other: Fixed) -> (r: Fixed)
        ensures
            r.raw == if self.raw <= other.raw { self.raw } else { other.raw },
    {
        if self.raw <= other.raw {
            self
        } else {
            other
        }
    }

}

/// Value of an IEEE 754 single-precision bit pattern in raw fixed-point
/// units, truncated toward zero.  Infinities saturate; not-a-number and
/// subnormals (below the 1/65536 resolution) become zero.
pub open spec fn fx_of_f32_bits(bits: u32) -> int {
    let sign = bits >> 31u32;
    let exp = (bits >> 23u32) & 0xff;
    let man = (bits & 0x7fffff) as u64;
    if exp == 255 {
        if man != 0 {
            0
        } else if sign == 1 {
            i32::MIN as int
        } else {
            i32::MAX as int
        }
    } else if exp == 0 {
        0
    } else {
        let m = man | 0x800000;
        if exp >= 142 {
            if sign == 1 {
                i32::MIN as int
            } else {
                i32::MAX as int
            }
        } else if exp >= 134 {
            let mag = m << ((exp - 134) as u64);
            if sign == 1 {
                -(mag as int)
            } else {
                mag as int
            }
        } else if exp <= 110 {
            0
        } else {
            let mag = m >> ((134 - exp) as u64);
            if sign == 1 {
                -(mag as int)
            } else {
                mag as int
            }
        }
    }
}

impl Fixed {
    /// Decode an IEEE 754 single-precision bit pattern into a
    /// fixed-point scalar by integer sign/exponent/mantissa arithmetic.
    pub fn from_f32_bits(bits: u32) -> (r: Fixed)
        ensures
            r.raw == fx_of_f32_bits(bits),
    {
        let sign: u32 = bits >> 31;
        let exp: u32 = (bits >> 23) & 0xff;
        let man32: u32 = bits & 0x7fffff;
        assert(man32 <= 0x7fffffu32) by (bit_vector)
            requires
                man32 == bits & 0x7fffffu32,
        ;
        let man: u64 = man32 as u64;
        if exp == 255 {
            if man != 0 {
                Fixed { raw: 0 }
            } else if sign == 1 {
                Fixed { raw: i32::MIN }
            } else {
                Fixed { raw: i32::MAX }
            }
        } else if exp == 0 {
            Fixed { raw: 0 }
        } else {
            let m: u64 = man | 0x800000;
            assert(m <= 0xffffffu64) by (bit_vector)
                requires
                    m == man | 0x800000u64,
                    man <= 0x7fffffu64,
            ;
            if exp >= 142 {
                if sign == 1 {
                    Fixed { raw: i32::MIN }
                } else {
                    Fixed { raw: i32::MAX }
                }
            } else if exp >= 134 {
                let s: u64 = (exp - 134) as u64;
                assert(m << s <= 0x7fffff80u64) by (bit_vector)
                    requires
                        m <= 0xffffffu64,
                        s <= 7u64,
                ;
                let mag: u64 = m << s;
                if sign == 1 {
                    Fixed { raw: -(mag as i32) }
                } else {
                    Fixed { raw: mag as i32 }
                }
            } else if exp <= 110 {
                Fixed { raw: 0 }
            } else {
                let s: u64 = (134 - exp) as u64;
                assert(m >> s <= m) by (bit_vector);
                let mag: u64 = m >> s;
                if sign == 1 {
                    Fixed { raw: -(mag as i32) }
                } else {
                    Fixed { raw: mag as i32 }
                }
            }
        }
    }

    /// The fixed-point value of a plain integer, saturating at the
    /// representable range.
    pub fn from_int(v: i32) -> (r: Fixed)
        ensures
            r.raw == fx_clip(65536 * v as int),
    {
        let wide: i64 = 65536 * (v as i64);
        clip_to_fixed(wide)
    }

    /// Fixed-point value of a normalized unsigned byte: `v / 255`
    /// mapped onto `[0, 1]`.
    pub fn from_unorm8(v: u8) -> (r: Fixed)
        ensures
            r.raw == (v as int * 65536) / 255,
            0 <= r.raw <= FX_ONE,
    {
        let raw: u32 = (v as u32) * 65536 / 255;
        assert((v as u32) * 65536 / 255 == (v as int * 65536) / 255);
        Fixed { raw: raw as i32 }
    }

    /// Fixed-point value of a normalized unsigned short: `v / 65535`
    /// mapped onto `[0, 1]`.
    pub fn from_unorm16(v: u16) -> (r: Fixed)
        ensures
            r.raw == (v as int * 65536) / 65535,
            0 <= r.raw <= FX_ONE,
    {
        let raw: u64 = (v as u64) * 65536 / 65535;
        Fixed { raw: raw as i32 }
    }

    /// Fixed-point value of a normalized signed byte: `v / 127` clamped
    /// below at -1, as the glTF format prescribes.
    pub fn from_snorm8(v: i8) -> (r: Fixed)
        ensures
            r.raw == if v >= 0 {
                (v as int * 65536) / 127
            } else {
                -(((-(v as int)) * 65536) / 127)
            },
            -(FX_ONE as int) - 516 <= r.raw <= FX_ONE,
    {
        if v >= 0 {
            let raw: u32 = (v as u32) * 65536 / 127;
            Fixed { raw: raw as i32 }
        } else {
            let mag: u32 = ((-(v as i32)) as u32) * 65536 / 127;
            Fixed { raw: -(mag as i32) }
        }
    }

    /// The same conversion with the glTF clamp at -1 applied.
    pub fn from_snorm8_clamped(v: i8) -> (r: Fixed)
        ensures
            r.raw == if v >= 0 {
                (v as int * 65536) / 127
            } else if -(((-(v as int)) * 65536) / 127) < -(FX_ONE as int) {
                -(FX_ONE as int)
            } else {
                -(((-(v as int)) * 65536) / 127)
            },
    {
        let raw = Self::from_snorm8(v);
        if raw.raw < -FX_ONE {
            Fixed { raw: -FX_ONE }
        } else {
            raw
        }
    }

    /// Fixed-point value of a normalized signed short: `v / 32767`
    /// clamped below at -1, as the glTF format prescribes.
    pub fn from_snorm16_clamped(v: i16) -> (r: Fixed)
        ensures
            r.raw == {
                let unclamped = if v >= 0 {
                    (v as int * 65536) / 32767
                } else {
                    -(((-(v as int)) * 65536) / 32767)
                };
                if unclamped < -(FX_ONE as int) {
                    -(FX_ONE as int)
                } else {
                    unclamped
                }
            },
    {
        if v >= 0 {
            let raw: u64 = (v as u64) * 65536 / 32767;
            Fixed { raw: raw as i32 }
        } else {
            let mag: u64 = ((-(v as i64)) as u64) * 65536 / 32767;
            let raw: i32 = -(mag as i32);
            if raw < -FX_ONE {
                Fixed { raw: -FX_ONE }
            } else {
                Fixed { raw }
            }
        }
    }
}

/// The signed value an 8-bit two's-complement pattern denotes.
pub open spec fn spec_s8(v: int) -> int {
    if v < 128 {
        v
    } else {
        v - 256
    }
}

/// The signed value a 16-bit two's-complement pattern denotes.
pub open spec fn spec_s16(v: int) -> int {
    if v < 32768 {
        v
    } else {
        v - 65536
    }
}

/// The fixed-point value of a normalized signed byte pattern:
/// `s / 127` clamped below at -1, as the glTF format prescribes.
pub open spec fn spec_snorm8(v: int) -> int {
    let s = spec_s8(v);
    let unclamped = if s >= 0 {
        (s * 65536) / 127
    } else {
        -(((-s) * 65536) / 127)
    };
    if unclamped < -65536 {
        -65536
    } else {
        unclamped
    }
}

/// The fixed-point value of a normalized signed short pattern:
/// `s / 32767` clamped below at -1.
pub open spec fn spec_snorm16(v: int) -> int {
    let s = spec_s16(v);
    let unclamped = if s >= 0 {
        (s * 65536) / 32767
    } else {
        -(((-s) * 65536) / 32767)
    };
    if unclamped < -65536 {
        -65536
    } else {
        unclamped
    }
}

impl Fixed {
    /// Decode a normalized signed byte from its raw bit pattern.
    pub fn from_snorm8_bits(v: u8) -> (r: Fixed)
        ensures
            r.raw == spec_snorm8(v as int),
    {
        if v < 128 {
            let raw: u32 = (v as u32) * 65536 / 127;
            Fixed { raw: raw as i32 }
        } else {
            let mag: u32 = (256 - v as u32) * 65536 / 127;
            let raw: i32 = -(mag as i32);
            if raw < -FX_ONE {
                Fixed { raw: -FX_ONE }
            } else {
                Fixed { raw }
            }
        }
    }

    /// Decode a normalized signed short from its raw bit pattern.
    pub fn from_snorm16_bits(v: u16) -> (r: Fixed)
        ensures
            r.raw == spec_snorm16(v as int),
    {
        if v < 32768 {
            let raw: u64 = (v as u64) * 65536 / 32767;
            Fixed { raw: raw as i32 }
        } else {
            let mag: u64 = (65536 - v as u64) * 65536 / 32767;
            let raw: i32 = -(mag as i32);
            if raw < -FX_ONE {
                Fixed { raw: -FX_ONE }
            } else {
                Fixed { raw }
            }
        }
    }
}

/// Saturate an i64 into a fixed-point scalar.
fn clip_to_fixed(x: i64) -> (r: Fixed)
    ensures
        r.raw == fx_clip(x as int),
{
    Fixed { raw: clip_i64(x) }
}

/// Integer square root: the greatest `r` with `r * r <= x`.
pub fn isqrt_u64(x: u64) -> (r: u64)
    ensures
        r * r <= x,
        (r + 1) * (r + 1) > x,
{
    let mut lo: u64 = 0;
    let mut hi: u64 = 0x100000000;
    proof {
        assert((0x100000000 as int) * (0x100000000 as int) > u64::MAX as int) by (nonlinear_arith);
    }
    while hi - lo > 1
        invariant
            lo < hi <= 0x100000000,
            (lo as int) * (lo as int) <= x as int,
            (hi as int) * (hi as int) > x as int,
        decreases hi - lo,
    {
        let mid: u64 = lo + (hi - lo) / 2;
        proof {
            assert(mid * mid <= 0xffffffff00000001u64) by (nonlinear_arith)
                requires
                    mid <= 0xffffffffu64,
            ;
        }
        if mid * mid <= x {
            lo = mid;
        } else {
            hi = mid;
        }
    }
    lo
}

/// The integer square root of `x`: the unique nonnegative `r` with
/// `r * r <= x < (r + 1) * (r + 1)`.
pub open spec fn spec_isqrt(x: int) -> int {
    choose|r: int| r >= 0 && #[trigger] (r * r) <= x && (r + 1) * (r + 1) > x
}

/// Any value satisfying the square-root property is the square root.
pub proof fn lemma_isqrt_unique(x: int, r: int)
    requires
        x >= 0,
        r >= 0,
        r * r <= x,
        (r + 1) * (r + 1) > x,
    ensures
        spec_isqrt(x) == r,
{
    assert(exists|s: int| s >= 0 && #[trigger] (s * s) <= x && (s + 1) * (s + 1) > x) by {
        assert(r >= 0 && r * r <= x && (r + 1) * (r + 1) > x);
    }
    let s = spec_isqrt(x);
    assert(s >= 0 && s * s <= x && (s + 1) * (s + 1) > x);
    if s < r {
        assert(r * r >= (s + 1) * (s + 1)) by (nonlinear_arith)
            requires
                0 <= s,
                s + 1 <= r,
        ;
    }
    if r < s {
        assert(s * s >= (r + 1) * (r + 1)) by (nonlinear_arith)
            requires
                0 <= r,
                r + 1 <= s,
        ;
    }
}

/// A fixed-point square is never negative.
pub proof fn lemma_fx_square_nonneg(a: int)
    ensures
        fx_mul(a, a) >= 0,
{
    assert(a * a >= 0) by (nonlinear_arith);
}

impl Fixed {
    /// Fixed-point square root of a nonnegative scalar, truncated.
    pub fn sqrt(self) -> (r: Fixed)
        requires
            self.raw >= 0,
        ensures
            r.raw == spec_isqrt(self.raw as int * 65536),
            0 <= r.raw <= 0x1000000,
            (r.raw as int) * (r.raw as int) <= (self.raw as int) * 65536,
            ((r.raw as int) + 1) * ((r.raw as int) + 1) > (self.raw as int) * 65536,
    {
        let wide: u64 = (self.raw as u64) * 65536;
        let root = isqrt_u64(wide);
        proof {
            if root >= 0x1000000 {
                assert(root * root >= 0x1000000000000u64 * 1) by (nonlinear_arith)
                    requires
                        root >= 0x1000000u64,
                ;
            }
            lemma_isqrt_unique(wide as int, root as int);
        }
        Fixed { raw: root as i32 }
    }
}

/// Multiplying by one is exact: `fx_mul(a, 1.0) == a`.
pub proof fn lemma_fx_mul_one(a: int)
    requires
        i32::MIN <= a <= i32::MAX,
    ensures
        fx_mul(a, FX_ONE as int) == a,
        fx_mul(FX_ONE as int, a) == a,
{
    if a >= 0 {
        vstd::arithmetic::div_mod::lemma_div_multiples_vanish(a, 65536);
        assert(a * 65536 == 65536 * a) by (nonlinear_arith);
    } else {
        vstd::arithmetic::div_mod::lemma_div_multiples_vanish(-a, 65536);
        assert(-(a * 65536) == 65536 * (-a)) by (nonlinear_arith);
        assert(-(65536 * a) == 65536 * (-a)) by (nonlinear_arith);
    }
}

/// Multiplying by zero is exact.
pub proof fn lemma_fx_mul_zero(a: int)
    ensures
        fx_mul(a, 0) == 0,
        fx_mul(0, a) == 0,
{
    assert(a * 0 == 0) by (nonlinear_arith);
    assert(0 * a == 0) by (nonlinear_arith);
}

/// Negation is exact whenever the result stays in range.
pub proof fn lemma_fx_neg_in_range(a: int)
    requires
        i32::MIN < a <= i32::MAX,
    ensures
        fx_neg(a) == -a,
{
}

/// Adding zero is exact for any in-range scalar.
pub proof fn lemma_fx_add_zero(a: int)
    requires
        i32::MIN <= a <= i32::MAX,
    ensures
        fx_add(a, 0) == a,
        fx_add(0, a) == a,
{
}

} // verus!
