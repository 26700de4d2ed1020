//! Little-endian field readers over byte slices, and the conversion of
//! a binary32 bit pattern to the crate's fixed-point scale.

use vstd::prelude::*;
use vstd::arithmetic::div_mod::lemma_div_denominator;
use vstd::arithmetic::power2::{lemma_pow2_pos, lemma_pow2_unfold, pow2};
use crate::fx::{div_trunc, fx_clamped, lemma_mul_le, FX_LIM};

verus! {

/// The unsigned value of two little-endian bytes at `off`.
pub open spec fn spec_le_u16(b: Seq<u8>, off: int) -> int {
    b[off] + 256 * b[off + 1]
}

/// The unsigned value of four little-endian bytes at `off`.
pub open spec fn spec_le_u32(b: Seq<u8>, off: int) -> int {
    b[off] + 256 * b[off + 1] + 65536 * b[off + 2] + 16777216 * b[off + 3]
}

/// The two's-complement value of four little-endian bytes at `off`.
pub open spec fn spec_le_i32(b: Seq<u8>, off: int) -> int {
    let u = spec_le_u32(b, off);
    if u < 0x8000_0000 {
        u
    } else {
        u - 0x1_0000_0000
    }
}

/// The two's-complement value of two little-endian bytes at `off`.
pub open spec fn spec_le_i16(b: Seq<u8>, off: int) -> int {
    let u = spec_le_u16(b, off);
    if u < 0x8000 {
        u
    } else {
        u - 0x1_0000
    }
}

/// Read two little-endian bytes.
pub fn le_u16_at(b: &[u8], off: usize) -> (r: u16)
    requires
        off + 2 <= b@.len(),
    ensures
        r as int == spec_le_u16(b@, off as int),
{
    (b[off] as u16) + (b[off + 1] as u16) * 256
}

/// Read four little-endian bytes.
pub fn le_u32_at(b: &[u8], off: usize) -> (r: u32)
    requires
        off + 4 <= b@.len(),
    ensures
        r as int == spec_le_u32(b@, off as int),
{
    (b[off] as u32) + (b[off + 1] as u32) * 256 + (b[off + 2] as u32) * 65536 + (b[off
        + 3] as u32) * 16777216
}

/// Read a little-endian signed 32-bit field.
pub fn le_i32_at(b: &[u8], off: usize) -> (r: i32)
    requires
        off + 4 <= b@.len(),
    ensures
        r as int == spec_le_i32(b@, off as int),
{
    let u: u32 = le_u32_at(b, off);
    if u < 0x8000_0000u32 {
        u as i32
    } else {
        let w: i64 = (u as i64) - 0x1_0000_0000i64;
        w as i32
    }
}

/// Read a little-endian signed 16-bit field.
pub fn le_i16_at(b: &[u8], off: usize) -> (r: i16)
    requires
        off + 2 <= b@.len(),
    ensures
        r as int == spec_le_i16(b@, off as int),
{
    let u: u16 = le_u16_at(b, off);
    if u < 0x8000u16 {
        u as i16
    } else {
        let w: i32 = (u as i32) - 0x1_0000i32;
        w as i16
    }
}

/// The fixed-point value a binary32 bit pattern stands for: the
/// magnitude `mantissa * 2^(exponent - 150)` scaled by 1000 and
/// truncated toward zero, saturated at the fixed-point range; the
/// non-finite exponent saturates outright.
#[verifier::opaque]
pub open spec fn spec_fx_of_f32_bits(bits: int) -> int {
    let s = bits / 0x8000_0000;
    let e = (bits / 0x80_0000) % 0x100;
    let m = bits % 0x80_0000;
    let mag = if e == 255 {
        FX_LIM as int
    } else {
        let mant = if e == 0 {
            m
        } else {
            m + 0x80_0000
        };
        let ee = if e == 0 {
            1int
        } else {
            e
        };
        if ee >= 150 {
            fx_clamped(mant * 1000 * pow2((ee - 150) as nat))
        } else {
            fx_clamped((mant * 1000) / pow2((150 - ee) as nat) as int)
        }
    };
    if s == 1 {
        -mag
    } else {
        mag
    }
}

/// Decode a binary32 bit pattern into fixed-point.
pub fn fx_of_f32_bits(bits: u32) -> (r: i64)
    ensures
        r as int == spec_fx_of_f32_bits(bits as int),
        -FX_LIM <= r <= FX_LIM,
{
    let s: u32 = bits / 0x8000_0000;
    let e: u32 = (bits / 0x80_0000) % 0x100;
    let m: u32 = bits % 0x80_0000;
    proof {
        reveal(spec_fx_of_f32_bits);
        let bi: int = bits as int;
        assert(s as int == bi / 0x8000_0000);
        assert(e as int == (bi / 0x80_0000) % 0x100);
        assert(m as int == bi % 0x80_0000);
    }
    let mag: i64 = if e == 255 {
        FX_LIM
    } else {
        let mant: u64 = if e == 0 {
            m as u64
        } else {
            (m as u64) + 0x80_0000
        };
        let ee: u32 = if e == 0 {
            1
        } else {
            e
        };
        if ee >= 150 {
            let mut v: u128 = (mant as u128) * 1000;
            let mut k: u32 = ee - 150;
            proof {
                vstd::arithmetic::power2::lemma2_to64();
            }
            while k > 0 && v <= (FX_LIM as u128)
                invariant
                    v <= 0x1_0000_0000_0000_0000u128,
                    (mant as int) * 1000 * pow2(((ee - 150) as nat)) == (v as int) * pow2(
                        k as nat,
                    ),
                    ee >= 150,
                    k <= ee - 150,
                decreases k,
            {
                proof {
                    lemma_pow2_unfold(k as nat);
                    lemma_pow2_pos((k - 1) as nat);
                    assert((v as int) * (2 * pow2((k - 1) as nat)) == (2 * (v as int)) * pow2(
                        (k - 1) as nat,
                    )) by (nonlinear_arith);
                }
                v = v * 2;
                k = k - 1;
            }
            proof {
                lemma_pow2_pos(k as nat);
                if v > (FX_LIM as u128) {
                    lemma_mul_le(FX_LIM + 1, 1, v as int, pow2(k as nat) as int);
                }
                if k == 0 {
                    vstd::arithmetic::power2::lemma2_to64();
                    assert((v as int) * pow2(k as nat) == v as int) by (nonlinear_arith)
                        requires
                            pow2(k as nat) == 1,
                    ;
                }
            }
            if v > (FX_LIM as u128) {
                proof {
                    assert(FX_LIM as int == fx_clamped(
                        ((m as int) + 0x80_0000) * 1000 * pow2(((e - 150) as nat)),
                    ));
                }
                FX_LIM
            } else {
                proof {
                    assert(v as int == fx_clamped(
                        ((m as int) + 0x80_0000) * 1000 * pow2(((e - 150) as nat)),
                    ));
                }
                v as i64
            }
        } else {
            let mut v: u64 = mant * 1000;
            let mut k: u32 = 150 - ee;
            proof {
                vstd::arithmetic::power2::lemma2_to64();
            }
            while k > 0
                invariant
                    (mant as int) * 1000 / pow2(((150 - ee) as nat)) as int == (v as int) / pow2(
                        k as nat,
                    ) as int,
                    ee < 150,
                    k <= 150 - ee,
                decreases k,
            {
                proof {
                    lemma_pow2_unfold(k as nat);
                    lemma_pow2_pos((k - 1) as nat);
                    lemma_div_denominator(v as int, 2, pow2((k - 1) as nat) as int);
                }
                v = v / 2;
                k = k - 1;
            }
            proof {
                vstd::arithmetic::power2::lemma2_to64();
                vstd::arithmetic::div_mod::lemma_div_basics(v as int);
            }
            if v > (FX_LIM as u64) {
                proof {
                    assert(FX_LIM as int == fx_clamped(
                        (mant as int) * 1000 / pow2(((150 - ee) as nat)) as int,
                    ));
                }
                FX_LIM
            } else {
                proof {
                    assert(v as int == fx_clamped(
                        (mant as int) * 1000 / pow2(((150 - ee) as nat)) as int,
                    ));
                }
                v as i64
            }
        }
    };
    if s == 1 {
        -mag
    } else {
        mag
    }
}

/// A binary32 field at `off`, as fixed-point.
pub open spec fn spec_fx32(b: Seq<u8>, off: int) -> i64 {
    spec_fx_of_f32_bits(spec_le_u32(b, off)) as i64
}

/// Read a binary32 field into fixed-point.
pub fn fx32_at(b: &[u8], off: usize) -> (r: i64)
    requires
        off + 4 <= b@.len(),
    ensures
        r == spec_fx32(b@, off as int),
{
    fx_of_f32_bits(le_u32_at(b, off))
}

/// Three consecutive binary32 fields at `off`, as a vector.
pub open spec fn spec_vec3_at(b: Seq<u8>, off: int) -> crate::demo::Vector3 {
    crate::demo::Vector3 {
        x: spec_fx32(b, off),
        y: spec_fx32(b, off + 4),
        z: spec_fx32(b, off + 8),
    }
}

/// Read three consecutive binary32 fields as a vector.
pub fn vec3_at(b: &[u8], off: usize) -> (r: crate::demo::Vector3)
    requires
        off + 12 <= b@.len(),
    ensures
        r == spec_vec3_at(b@, off as int),
{
    let _total: usize = b.len();
    crate::demo::Vector3 { x: fx32_at(b, off), y: fx32_at(b, off + 4), z: fx32_at(b, off + 8) }
}

} // verus!
