//! Replay data model: three-component vectors and per-tick player-state
//! samples. Every scalar is saturating fixed-point (see `fx`).

use vstd::prelude::*;
use crate::fx::{
    abs_mag, div_trunc, fx_clamped, fx_mul, isqrt_u128, lemma_mul_le, spec_fx_mul, sqrt_floor,
    FX_LIM,
};

verus! {

/// A point or direction; components are fixed-point world units.
#[derive(Clone, Copy, Debug, PartialEq, Eq, Structural)]
pub struct Vector3 {
    pub x: i64,
    pub y: i64,
    pub z: i64,
}

/// Dot product over all three components.
pub open spec fn spec_dot(a: Vector3, b: Vector3) -> int {
    spec_fx_mul(a.x as int, b.x as int) + spec_fx_mul(a.y as int, b.y as int) + spec_fx_mul(
        a.z as int,
        b.z as int,
    )
}

/// Planar (xy) length before saturation.
pub open spec fn spec_len2_raw(v: Vector3) -> int {
    sqrt_floor(((v.x as int) * (v.x as int) + (v.y as int) * (v.y as int)) as nat) as int
}

/// Planar (xy) length, saturated.
pub open spec fn spec_length(v: Vector3) -> int {
    fx_clamped(spec_len2_raw(v))
}

/// Full length, saturated.
pub open spec fn spec_length_3d(v: Vector3) -> int {
    fx_clamped(
        sqrt_floor(
            ((v.x as int) * (v.x as int) + (v.y as int) * (v.y as int) + (v.z as int) * (
            v.z as int)) as nat,
        ) as int,
    )
}

/// Scale every component by `1000 / l`, the division truncating toward
/// zero and the result saturated.
pub open spec fn spec_scaled_by_inv(v: Vector3, l: int) -> Vector3 {
    Vector3 {
        x: fx_clamped(div_trunc((v.x as int) * 1000, l)) as i64,
        y: fx_clamped(div_trunc((v.y as int) * 1000, l)) as i64,
        z: fx_clamped(div_trunc((v.z as int) * 1000, l)) as i64,
    }
}

/// Normalization against the planar length; a zero-length vector maps
/// to the zero vector.
pub open spec fn spec_normalize(v: Vector3) -> Vector3 {
    let l = spec_len2_raw(v);
    if l == 0 {
        Vector3 { x: 0, y: 0, z: 0 }
    } else {
        spec_scaled_by_inv(v, l)
    }
}

proof fn lemma_square_abs(c: i64, m: u64)
    requires
        m as int == vstd::math::abs(c as int),
    ensures
        (m as int) * (m as int) == (c as int) * (c as int),
        (m as int) * (m as int) <= 0x4000_0000_0000_0000_0000_0000_0000_0000int,
{
    assert((m as int) * (m as int) == (c as int) * (c as int)) by (nonlinear_arith)
        requires
            (c >= 0 ==> m as int == c as int),
            (c < 0 ==> m as int == -(c as int)),
    ;
    lemma_mul_le(m as int, m as int, 0x8000_0000_0000_0000int, 0x8000_0000_0000_0000int);
}

/// Division of `c * 1000` by the positive length `l`, truncated toward
/// zero and saturated.
pub(crate) fn scale_div(c: i64, l: u64) -> (r: i64)
    requires
        l > 0,
    ensures
        r as int == fx_clamped(div_trunc((c as int) * 1000, l as int)),
{
    let neg: bool = c < 0;
    let m: u64 = abs_mag(c);
    let num: u128 = (m as u128) * 1000;
    let dq: u128 = num / (l as u128);
    if dq > (FX_LIM as u128) {
        if neg {
            -FX_LIM
        } else {
            FX_LIM
        }
    } else {
        let qi: i64 = dq as i64;
        if neg {
            -qi
        } else {
            qi
        }
    }
}

impl Vector3 {
    /// Dot product of all three components.
    pub fn dot(&self, other: Vector3) -> (r: i64)
        ensures
            r as int == spec_dot(*self, other),
            -3 * (FX_LIM as int) <= r as int <= 3 * (FX_LIM as int),
    {
        let t1: i64 = fx_mul(self.x, other.x);
        let t2: i64 = fx_mul(self.y, other.y);
        let t3: i64 = fx_mul(self.z, other.z);
        t1 + t2 + t3
    }

    /// Planar (xy) length.
    pub fn length(&self) -> (r: i64)
        ensures
            r as int == spec_length(*self),
            0 <= r <= FX_LIM,
    {
        let mx: u64 = abs_mag(self.x);
        let my: u64 = abs_mag(self.y);
        proof {
            lemma_square_abs(self.x, mx);
            lemma_square_abs(self.y, my);
        }
        let s: u128 = (mx as u128) * (mx as u128) + (my as u128) * (my as u128);
        let q: u64 = isqrt_u128(s);
        if q > 0x4000_0000u64 {
            FX_LIM
        } else {
            q as i64
        }
    }

    /// Full three-dimensional length.
    pub fn length_3d(&self) -> (r: i64)
        ensures
            r as int == spec_length_3d(*self),
            0 <= r <= FX_LIM,
    {
        let mx: u64 = abs_mag(self.x);
        let my: u64 = abs_mag(self.y);
        let mz: u64 = abs_mag(self.z);
        proof {
            lemma_square_abs(self.x, mx);
            lemma_square_abs(self.y, my);
            lemma_square_abs(self.z, mz);
        }
        let s: u128 = (mx as u128) * (mx as u128) + (my as u128) * (my as u128) + (mz as u128) * (
        mz as u128);
        let q: u64 = isqrt_u128(s);
        if q > 0x4000_0000u64 {
            FX_LIM
        } else {
            q as i64
        }
    }

    /// Normalization against the planar length; a zero-length vector
    /// yields the zero vector, never a division by zero.
    pub fn normalize(&self) -> (r: Vector3)
        ensures
            r == spec_normalize(*self),
            spec_len2_raw(*self) == 0 ==> r == (Vector3 { x: 0, y: 0, z: 0 }),
            -1000 <= r.x <= 1000,
            -1000 <= r.y <= 1000,
    {
        let mx: u64 = abs_mag(self.x);
        let my: u64 = abs_mag(self.y);
        proof {
            lemma_square_abs(self.x, mx);
            lemma_square_abs(self.y, my);
        }
        let s: u128 = (mx as u128) * (mx as u128) + (my as u128) * (my as u128);
        let q: u64 = isqrt_u128(s);
        if q == 0 {
            Vector3 { x: 0, y: 0, z: 0 }
        } else {
            let rx: i64 = scale_div(self.x, q);
            let ry: i64 = scale_div(self.y, q);
            let rz: i64 = scale_div(self.z, q);
            proof {
                crate::fx::lemma_sqrt_floor(s as nat);
                assert(mx <= q) by (nonlinear_arith)
                    requires
                        0 <= mx as int,
                        0 <= q as int,
                        (mx as int) * (mx as int) < ((q as int) + 1) * ((q as int) + 1),
                ;
                assert(my <= q) by (nonlinear_arith)
                    requires
                        0 <= my as int,
                        0 <= q as int,
                        (my as int) * (my as int) < ((q as int) + 1) * ((q as int) + 1),
                ;
                assert((mx as int) * 1000 <= (q as int) * 1000);
                vstd::arithmetic::div_mod::lemma_div_is_ordered(
                    (mx as int) * 1000,
                    (q as int) * 1000,
                    q as int,
                );
                vstd::arithmetic::div_mod::lemma_div_multiples_vanish(1000, q as int);
                vstd::arithmetic::div_mod::lemma_div_is_ordered(
                    (my as int) * 1000,
                    (q as int) * 1000,
                    q as int,
                );
            }
            Vector3 { x: rx, y: ry, z: rz }
        }
    }
}

/// One tick of recorded player state. Fixed-point fields carry 1000
/// steps per unit; angles are degrees.
#[derive(Debug, Clone)]
pub struct DemoFrame {
    /// Tick number as recorded in the replay.
    pub frame: i32,
    /// Elapsed time.
    pub time: i64,
    /// Camera origin.
    pub vieworg: Vector3,
    /// View angles: pitch, yaw, roll, in degrees.
    pub viewangle: Vector3,
    /// Duration of this tick.
    pub frametime: i64,
    /// Whether the player rests on a walkable surface.
    pub onground: bool,
    /// Velocity.
    pub simvel: Vector3,
    /// Position.
    pub simorg: Vector3,
    /// Eye offset above the origin.
    pub viewheight: Vector3,
    /// Milliseconds the tick covers.
    pub msec: u8,
    /// Gravity constant in effect.
    pub gravity: i64,
    /// Ground acceleration constant in effect.
    pub accelerate: i64,
    /// Air acceleration constant in effect.
    pub airaccelerate: i64,
    /// Friction constant in effect.
    pub friction: i64,
    /// Edge-friction multiplier in effect.
    pub edgefriction: i64,
    /// Overall velocity cap in effect.
    pub maxvelocity: i64,
    /// Maximum ground wish-speed in effect.
    pub maxspeed: i64,
    /// Input-command tokens observed on this tick.
    pub command: Vec<String>,
    /// Forward movement-input axis.
    pub forwardmove: i64,
    /// Sideways movement-input axis.
    pub sidemove: i64,
    /// Vertical movement-input axis.
    pub upmove: i64,
    /// Recorded forward basis vector.
    pub forward: Vector3,
    /// Recorded right basis vector.
    pub right: Vector3,
    /// Recorded up basis vector.
    pub up: Vector3,
}

} // verus!
