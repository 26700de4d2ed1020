//! The collision query and the per-tick kinematics: point containment
//! against a clip hull, view-angle basis vectors, air and ground
//! acceleration, friction, and the strafe-angle optimizer.

use vstd::prelude::*;
use crate::bspfile::{BspData, DClipNode, DPlane};
use crate::demo::{
    spec_dot, spec_length, spec_normalize, DemoFrame, Vector3,
};
use crate::fx::{
    cos_fx, cos_quarter, fx_add, fx_mul, sin_fx, sin_quarter, spec_cos_fx, spec_fx_add,
    spec_fx_mul, spec_sin_fx, FX_LIM,
};

verus! {

/// The content kind a leaf marker of a clip hull names.
#[derive(Clone, Copy, Debug, PartialEq, Eq, Structural)]
pub enum LeafContents {
    /// Open space: the queried point is not blocked.
    Empty,
    /// Solid matter.
    Solid,
    /// Any other content kind, with its raw marker.
    Other(i32),
}

/// Decode a leaf marker: `-1` names open space and `-2` solid matter;
/// every other marker is an uncommon content kind, kept raw.
pub open spec fn spec_contents_of(marker: i32) -> LeafContents {
    if marker == -1 {
        LeafContents::Empty
    } else if marker == -2 {
        LeafContents::Solid
    } else {
        LeafContents::Other(marker)
    }
}

/// Decode a leaf marker to its content kind.
pub fn contents_of(marker: i32) -> (r: LeafContents)
    ensures
        r == spec_contents_of(marker),
{
    if marker == -1 {
        LeafContents::Empty
    } else if marker == -2 {
        LeafContents::Solid
    } else {
        LeafContents::Other(marker)
    }
}

/// Containment from a given node reference, with fuel bounding the walk.
/// Every malformed reference — a node or plane index out of range, or a
/// walk longer than the node count, which can only mean a cycle — fails
/// closed and counts as blocked.
pub open spec fn spec_clip_from(bsp: &BspData, point: Vector3, node_ref: int, fuel: nat) -> bool
    decreases fuel,
{
    if node_ref < 0 {
        !(spec_contents_of(node_ref as i32) == LeafContents::Empty)
    } else if fuel == 0 {
        true
    } else if node_ref >= bsp.clipnodes@.len() {
        true
    } else {
        let node = bsp.clipnodes@[node_ref];
        if node.planenum < 0 || node.planenum >= bsp.planes@.len() {
            true
        } else {
            let plane = bsp.planes@[node.planenum as int];
            if spec_dot(plane.normal, point) >= plane.dist {
                spec_clip_from(bsp, point, node.children[0] as int, (fuel - 1) as nat)
            } else {
                spec_clip_from(bsp, point, node.children[1] as int, (fuel - 1) as nat)
            }
        }
    }
}

/// Whether a point is blocked by the level's player hull: the walk
/// starts at hull 1 of model 0. A level with no models fails closed.
pub open spec fn spec_is_clipped(bsp: &BspData, point: Vector3) -> bool {
    if bsp.models@.len() == 0 {
        true
    } else {
        spec_clip_from(
            bsp,
            point,
            bsp.models@[0].headnode[1] as int,
            (bsp.clipnodes@.len() + 1) as nat,
        )
    }
}

/// Walk the player clip hull from its root and report whether `point`
/// sits in anything other than open space. Malformed geometry fails
/// closed: the query answers "blocked" rather than faulting.
pub fn is_clipped(point: Vector3, bsp: &BspData) -> (r: bool)
    ensures
        r == spec_is_clipped(bsp, point),
{
    if bsp.models.len() == 0 {
        return true;
    }
    let mut node_index: i32 = bsp.models[0].headnode[1];
    let mut fuel: u128 = (bsp.clipnodes.len() as u128) + 1;
    loop
        invariant
            spec_clip_from(bsp, point, node_index as int, fuel as nat) == spec_is_clipped(
                bsp,
                point,
            ),
        decreases fuel,
    {
        if node_index < 0 {
            let c: LeafContents = contents_of(node_index);
            return !(c == LeafContents::Empty);
        }
        if fuel == 0 {
            return true;
        }
        let ni: usize = node_index as usize;
        if ni >= bsp.clipnodes.len() {
            return true;
        }
        let node = bsp.clipnodes[ni];
        if node.planenum < 0 || node.planenum as usize >= bsp.planes.len() {
            return true;
        }
        let plane = bsp.planes[node.planenum as usize];
        let d: i64 = plane.normal.dot(point);
        let side_child: i16 = if d >= plane.dist {
            node.children[0]
        } else {
            node.children[1]
        };
        node_index = side_child as i32;
        fuel = fuel - 1;
    }
}

/// For a trivial level of one open cuboid room bounded by solid walls
/// — six chained clip nodes, each testing one axis-aligned unit plane
/// — the containment query answers exactly "outside the open box":
/// false for any point strictly inside the room, true for any point
/// outside its bounds.
pub proof fn lemma_room_query(
    bsp: &BspData,
    p: Vector3,
    xmin: i64,
    xmax: i64,
    ymin: i64,
    ymax: i64,
    zmin: i64,
    zmax: i64,
)
    requires
        bsp.models@.len() == 1,
        bsp.models@[0].headnode[1] == 0,
        bsp.clipnodes@.len() == 6,
        bsp.clipnodes@[0] == (DClipNode { planenum: 0, children: [1i16, -2i16] }),
        bsp.clipnodes@[1] == (DClipNode { planenum: 1, children: [-2i16, 2i16] }),
        bsp.clipnodes@[2] == (DClipNode { planenum: 2, children: [3i16, -2i16] }),
        bsp.clipnodes@[3] == (DClipNode { planenum: 3, children: [-2i16, 4i16] }),
        bsp.clipnodes@[4] == (DClipNode { planenum: 4, children: [5i16, -2i16] }),
        bsp.clipnodes@[5] == (DClipNode { planenum: 5, children: [-2i16, -1i16] }),
        bsp.planes@.len() == 6,
        bsp.planes@[0] == (DPlane {
            normal: Vector3 { x: 1000, y: 0, z: 0 },
            dist: xmin,
            type_: 0,
        }),
        bsp.planes@[1] == (DPlane {
            normal: Vector3 { x: 1000, y: 0, z: 0 },
            dist: xmax,
            type_: 0,
        }),
        bsp.planes@[2] == (DPlane {
            normal: Vector3 { x: 0, y: 1000, z: 0 },
            dist: ymin,
            type_: 1,
        }),
        bsp.planes@[3] == (DPlane {
            normal: Vector3 { x: 0, y: 1000, z: 0 },
            dist: ymax,
            type_: 1,
        }),
        bsp.planes@[4] == (DPlane {
            normal: Vector3 { x: 0, y: 0, z: 1000 },
            dist: zmin,
            type_: 2,
        }),
        bsp.planes@[5] == (DPlane {
            normal: Vector3 { x: 0, y: 0, z: 1000 },
            dist: zmax,
            type_: 2,
        }),
        -FX_LIM <= p.x <= FX_LIM,
        -FX_LIM <= p.y <= FX_LIM,
        -FX_LIM <= p.z <= FX_LIM,
    ensures
        spec_is_clipped(bsp, p) == !(xmin <= p.x && p.x < xmax && ymin <= p.y && p.y < ymax
            && zmin <= p.z && p.z < zmax),
{
    crate::fx::lemma_fx_mul_unit(p.x);
    crate::fx::lemma_fx_mul_unit(p.y);
    crate::fx::lemma_fx_mul_unit(p.z);
    assert(spec_dot(bsp.planes@[0].normal, p) == p.x);
    assert(spec_dot(bsp.planes@[1].normal, p) == p.x);
    assert(spec_dot(bsp.planes@[2].normal, p) == p.y);
    assert(spec_dot(bsp.planes@[3].normal, p) == p.y);
    assert(spec_dot(bsp.planes@[4].normal, p) == p.z);
    assert(spec_dot(bsp.planes@[5].normal, p) == p.z);
    reveal_with_fuel(spec_clip_from, 8);
}

/// Forward basis vector of view angles (pitch, yaw, roll in degrees).
pub open spec fn spec_forward(angle: Vector3) -> Vector3 {
    let sy = spec_sin_fx(angle.y as int);
    let cy = spec_cos_fx(angle.y as int);
    let sp = spec_sin_fx(angle.x as int);
    let cp = spec_cos_fx(angle.x as int);
    Vector3 { x: spec_fx_mul(cp, cy) as i64, y: spec_fx_mul(cp, sy) as i64, z: (-sp) as i64 }
}

/// Right basis vector, with the roll-combined cross terms.
pub open spec fn spec_right(angle: Vector3) -> Vector3 {
    let sy = spec_sin_fx(angle.y as int);
    let cy = spec_cos_fx(angle.y as int);
    let sp = spec_sin_fx(angle.x as int);
    let sr = spec_sin_fx(angle.z as int);
    let cr = spec_cos_fx(angle.z as int);
    Vector3 {
        x: (spec_fx_mul(spec_fx_mul(-sr, sp), cy) - spec_fx_mul(cr, -sy)) as i64,
        y: (spec_fx_mul(spec_fx_mul(-sr, sp), sy) - spec_fx_mul(cr, cy)) as i64,
        z: spec_fx_mul(-sr, spec_cos_fx(angle.x as int)) as i64,
    }
}

/// Up basis vector, with the roll-combined cross terms.
pub open spec fn spec_up(angle: Vector3) -> Vector3 {
    let sy = spec_sin_fx(angle.y as int);
    let cy = spec_cos_fx(angle.y as int);
    let sp = spec_sin_fx(angle.x as int);
    let cp = spec_cos_fx(angle.x as int);
    let sr = spec_sin_fx(angle.z as int);
    let cr = spec_cos_fx(angle.z as int);
    Vector3 {
        x: (spec_fx_mul(spec_fx_mul(cr, sp), cy) - spec_fx_mul(sr, -sy)) as i64,
        y: (spec_fx_mul(spec_fx_mul(cr, sp), sy) - spec_fx_mul(sr, cy)) as i64,
        z: spec_fx_mul(cr, cp) as i64,
    }
}

/// The orthonormal basis (forward, right, up) of a view-angle triple,
/// degrees converted through the fixed-point sine and cosine.
pub fn angle_vectors(angle: &Vector3) -> (r: (Vector3, Vector3, Vector3))
    ensures
        r.0 == spec_forward(*angle),
        r.1 == spec_right(*angle),
        r.2 == spec_up(*angle),
{
    let sy: i64 = sin_fx(angle.y);
    let cy: i64 = cos_fx(angle.y);
    let sp: i64 = sin_fx(angle.x);
    let cp: i64 = cos_fx(angle.x);
    let sr: i64 = sin_fx(angle.z);
    let cr: i64 = cos_fx(angle.z);
    let fwd = Vector3 { x: fx_mul(cp, cy), y: fx_mul(cp, sy), z: -sp };
    let right = Vector3 {
        x: fx_mul(fx_mul(-sr, sp), cy) - fx_mul(cr, -sy),
        y: fx_mul(fx_mul(-sr, sp), sy) - fx_mul(cr, cy),
        z: fx_mul(-sr, cp),
    };
    let up = Vector3 {
        x: fx_mul(fx_mul(cr, sp), cy) - fx_mul(sr, -sy),
        y: fx_mul(fx_mul(cr, sp), sy) - fx_mul(sr, cy),
        z: fx_mul(cr, cp),
    };
    (fwd, right, up)
}

/// At zero pitch, yaw and roll the basis is exactly the world basis:
/// forward along +x, right along -y, up along +z.
pub proof fn lemma_basis_identity()
    ensures
        spec_forward(Vector3 { x: 0, y: 0, z: 0 }) == (Vector3 { x: 1000, y: 0, z: 0 }),
        spec_right(Vector3 { x: 0, y: 0, z: 0 }) == (Vector3 { x: 0, y: -1000i64, z: 0 }),
        spec_up(Vector3 { x: 0, y: 0, z: 0 }) == (Vector3 { x: 0, y: 0, z: 1000 }),
{
    vstd::arithmetic::div_mod::lemma_small_mod(0nat, 360000nat);
    assert(spec_sin_fx(0) == sin_quarter(0));
    assert(spec_cos_fx(0) == cos_quarter(0));
    vstd::arithmetic::div_mod::lemma_div_of0(360000);
    vstd::arithmetic::div_mod::lemma_div_of0(6000000);
    vstd::arithmetic::div_mod::lemma_div_of0(120000000000000);
    vstd::arithmetic::div_mod::lemma_div_of0(2000);
    vstd::arithmetic::div_mod::lemma_div_of0(24000000000);
    vstd::arithmetic::div_mod::lemma_div_of0(720000000000000000);
    assert(sin_quarter(0) == 0);
    assert(cos_quarter(0) == 1000);
    vstd::arithmetic::div_mod::lemma_fundamental_div_mod_converse(1000000, 1000, 1000, 0);
    assert(spec_fx_mul(1000, 1000) == 1000);
    vstd::arithmetic::div_mod::lemma_div_of0(1000);
    assert(spec_fx_mul(1000, 0) == 0);
    assert(spec_fx_mul(0, 1000) == 0);
    assert(0int * 0int == 0int);
    assert(crate::fx::div_trunc(0int, 1000int) == 0int);
    assert(crate::fx::fx_clamped(0int) == 0int);
    assert(spec_fx_mul(0, 0) == 0);
    assert(spec_fx_mul(-1000, 0) == 0);
    assert(spec_fx_mul(spec_fx_mul(0, 0), 1000) == 0);
}

/// Whether each component sits inside the fixed-point range.
pub open spec fn vec_bounded(v: Vector3) -> bool {
    &&& -FX_LIM <= v.x <= FX_LIM
    &&& -FX_LIM <= v.y <= FX_LIM
    &&& -FX_LIM <= v.z <= FX_LIM
}

/// Wish velocity the movement input asks for in the air: forward and
/// right scaled by the input axes, the up axis ignored, evaluated as if
/// the sample's yaw were `yaw`.
pub open spec fn spec_air_wishvel(state: DemoFrame, yaw: i64) -> Vector3 {
    let ang = Vector3 { x: state.viewangle.x, y: yaw, z: state.viewangle.z };
    let f = spec_forward(ang);
    let r = spec_right(ang);
    Vector3 {
        x: spec_fx_add(
            spec_fx_mul(f.x as int, state.forwardmove as int),
            spec_fx_mul(r.x as int, state.sidemove as int),
        ) as i64,
        y: spec_fx_add(
            spec_fx_mul(f.y as int, state.forwardmove as int),
            spec_fx_mul(r.y as int, state.sidemove as int),
        ) as i64,
        z: spec_fx_add(
            spec_fx_mul(f.z as int, state.forwardmove as int),
            spec_fx_mul(r.z as int, state.sidemove as int),
        ) as i64,
    }
}

/// One tick of air acceleration, evaluated as if the sample's yaw were
/// `yaw`: a grounded sample gains nothing; otherwise the wish speed is
/// capped at 30 units, the projection of the current velocity on the
/// wish direction is subtracted, and the gain is capped by the
/// air-acceleration constant times the frame time times the wish
/// velocity's length.
pub open spec fn spec_airaccelerate_at(state: DemoFrame, yaw: i64) -> Vector3 {
    if state.onground {
        Vector3 { x: 0, y: 0, z: 0 }
    } else {
        let wishvel = spec_air_wishvel(state, yaw);
        let wishlen = spec_length(wishvel);
        let wishspd = if wishlen > 30000 {
            30000int
        } else {
            wishlen
        };
        let wishdir = spec_normalize(wishvel);
        let currentspeed = spec_dot(state.simvel, wishdir);
        let addspeed = if wishspd - currentspeed <= 0 {
            0int
        } else {
            wishspd - currentspeed
        };
        let accel0 = spec_fx_mul(
            spec_fx_mul(state.airaccelerate as int, state.frametime as int),
            wishlen,
        );
        let accelspeed = if accel0 > addspeed {
            addspeed
        } else {
            accel0
        };
        Vector3 {
            x: spec_fx_add(state.simvel.x as int, spec_fx_mul(accelspeed, wishdir.x as int)) as i64,
            y: spec_fx_add(state.simvel.y as int, spec_fx_mul(accelspeed, wishdir.y as int)) as i64,
            z: spec_fx_add(state.simvel.z as int, spec_fx_mul(accelspeed, wishdir.z as int)) as i64,
        }
    }
}

/// Air acceleration at the sample's own yaw.
pub open spec fn spec_airaccelerate(state: DemoFrame) -> Vector3 {
    spec_airaccelerate_at(state, state.viewangle.y)
}

/// Air acceleration with the sample's yaw replaced by `yaw`.
pub(crate) fn airaccelerate_at(state: &DemoFrame, yaw: i64) -> (r: Vector3)
    ensures
        r == spec_airaccelerate_at(*state, yaw),
{
    if state.onground {
        return Vector3 { x: 0, y: 0, z: 0 };
    }
    let ang = Vector3 { x: state.viewangle.x, y: yaw, z: state.viewangle.z };
    let basis: (Vector3, Vector3, Vector3) = angle_vectors(&ang);
    let f: Vector3 = basis.0;
    let rt: Vector3 = basis.1;
    let wishvel = Vector3 {
        x: fx_add(fx_mul(f.x, state.forwardmove), fx_mul(rt.x, state.sidemove)),
        y: fx_add(fx_mul(f.y, state.forwardmove), fx_mul(rt.y, state.sidemove)),
        z: fx_add(fx_mul(f.z, state.forwardmove), fx_mul(rt.z, state.sidemove)),
    };
    let wishlen: i64 = wishvel.length();
    let wishspd: i64 = if wishlen > 30000 {
        30000
    } else {
        wishlen
    };
    let wishdir: Vector3 = wishvel.normalize();
    let currentspeed: i64 = state.simvel.dot(wishdir);
    let diff: i64 = wishspd - currentspeed;
    let addspeed: i64 = if diff <= 0 {
        0
    } else {
        diff
    };
    let accel0: i64 = fx_mul(fx_mul(state.airaccelerate, state.frametime), wishlen);
    let accelspeed: i64 = if accel0 > addspeed {
        addspeed
    } else {
        accel0
    };
    Vector3 {
        x: fx_add(state.simvel.x, fx_mul(accelspeed, wishdir.x)),
        y: fx_add(state.simvel.y, fx_mul(accelspeed, wishdir.y)),
        z: fx_add(state.simvel.z, fx_mul(accelspeed, wishdir.z)),
    }
}

/// A grounded sample gains no air acceleration, whatever the input.
pub proof fn lemma_airaccelerate_grounded(state: DemoFrame, yaw: i64)
    requires
        state.onground,
    ensures
        spec_airaccelerate_at(state, yaw) == (Vector3 { x: 0, y: 0, z: 0 }),
{
}

/// An airborne sample with zero movement-input axes keeps its velocity
/// unchanged, as long as the velocity sits in the fixed-point range.
pub proof fn lemma_airaccelerate_zero_input(state: DemoFrame, yaw: i64)
    requires
        !state.onground,
        state.forwardmove == 0,
        state.sidemove == 0,
        vec_bounded(state.simvel),
    ensures
        spec_airaccelerate_at(state, yaw) == state.simvel,
{
    vstd::arithmetic::div_mod::lemma_div_of0(1000);
    let ang = Vector3 { x: state.viewangle.x, y: yaw, z: state.viewangle.z };
    let f = spec_forward(ang);
    let rt = spec_right(ang);
    assert(spec_fx_mul(f.x as int, 0) == 0);
    assert(spec_fx_mul(f.y as int, 0) == 0);
    assert(spec_fx_mul(f.z as int, 0) == 0);
    assert(spec_fx_mul(rt.x as int, 0) == 0);
    assert(spec_fx_mul(rt.y as int, 0) == 0);
    assert(spec_fx_mul(rt.z as int, 0) == 0);
    let wishvel = spec_air_wishvel(state, yaw);
    assert(wishvel == (Vector3 { x: 0, y: 0, z: 0 }));
    assert(crate::fx::sqrt_floor(0nat) == 0);
    assert(spec_length(wishvel) == 0);
    assert(crate::demo::spec_len2_raw(wishvel) == 0);
    let wishdir = spec_normalize(wishvel);
    assert(wishdir == (Vector3 { x: 0, y: 0, z: 0 }));
    assert(spec_fx_mul(state.simvel.x as int, 0) == 0);
    assert(spec_fx_mul(state.simvel.y as int, 0) == 0);
    assert(spec_fx_mul(state.simvel.z as int, 0) == 0);
    assert(spec_dot(state.simvel, wishdir) == 0);
    let accel0 = spec_fx_mul(
        spec_fx_mul(state.airaccelerate as int, state.frametime as int),
        0,
    );
    assert(accel0 == 0);
    assert(0int * 0int == 0int);
    assert(crate::fx::div_trunc(0int, 1000int) == 0int);
    assert(crate::fx::fx_clamped(0int) == 0int);
    assert(spec_fx_mul(0, 0) == 0);
    assert(spec_fx_add(state.simvel.x as int, 0) == state.simvel.x as int);
    assert(spec_fx_add(state.simvel.y as int, 0) == state.simvel.y as int);
    assert(spec_fx_add(state.simvel.z as int, 0) == state.simvel.z as int);
}

/// One tick of air acceleration at the sample's own yaw. Grounded
/// samples return the zero vector; airborne samples with no movement
/// input keep their velocity exactly.
pub fn airaccelerate(state: &DemoFrame) -> (r: Vector3)
    ensures
        r == spec_airaccelerate(*state),
        state.onground ==> r == (Vector3 { x: 0, y: 0, z: 0 }),
        (!state.onground && state.forwardmove == 0 && state.sidemove == 0 && vec_bounded(
            state.simvel,
        )) ==> r == state.simvel,
{
    let r = airaccelerate_at(state, state.viewangle.y);
    proof {
        if !state.onground && state.forwardmove == 0 && state.sidemove == 0 && vec_bounded(
            state.simvel,
        ) {
            lemma_airaccelerate_zero_input(*state, state.viewangle.y);
        }
    }
    r
}

/// Wish velocity of grounded movement: all three basis vectors scaled
/// by their input axes.
pub open spec fn spec_ground_wishvel(state: DemoFrame) -> Vector3 {
    let f = spec_forward(state.viewangle);
    let r = spec_right(state.viewangle);
    let u = spec_up(state.viewangle);
    Vector3 {
        x: spec_fx_add(
            spec_fx_add(
                spec_fx_mul(f.x as int, state.forwardmove as int),
                spec_fx_mul(r.x as int, state.sidemove as int),
            ),
            spec_fx_mul(u.x as int, state.upmove as int),
        ) as i64,
        y: spec_fx_add(
            spec_fx_add(
                spec_fx_mul(f.y as int, state.forwardmove as int),
                spec_fx_mul(r.y as int, state.sidemove as int),
            ),
            spec_fx_mul(u.y as int, state.upmove as int),
        ) as i64,
        z: spec_fx_add(
            spec_fx_add(
                spec_fx_mul(f.z as int, state.forwardmove as int),
                spec_fx_mul(r.z as int, state.sidemove as int),
            ),
            spec_fx_mul(u.z as int, state.upmove as int),
        ) as i64,
    }
}

/// One tick of ground acceleration: an airborne sample gains nothing;
/// otherwise the wish speed is capped at the sample's maximum ground
/// speed and the gain is capped by the acceleration constant times the
/// frame time times the wish speed.
pub open spec fn spec_accelerate(state: DemoFrame) -> Vector3 {
    if !state.onground {
        Vector3 { x: 0, y: 0, z: 0 }
    } else {
        let wishvel = spec_ground_wishvel(state);
        let wishlen = spec_length(wishvel);
        let cap = crate::fx::fx_clamped(state.maxspeed as int);
        let wishspd = if wishlen > cap {
            cap
        } else {
            wishlen
        };
        let wishdir = spec_normalize(wishvel);
        let addspeed = wishspd - spec_dot(state.simvel, wishdir);
        let accel0 = spec_fx_mul(
            spec_fx_mul(state.accelerate as int, state.frametime as int),
            wishspd,
        );
        let accelspeed = if accel0 > addspeed {
            addspeed
        } else {
            accel0
        };
        Vector3 {
            x: spec_fx_add(state.simvel.x as int, spec_fx_mul(accelspeed, wishdir.x as int)) as i64,
            y: spec_fx_add(state.simvel.y as int, spec_fx_mul(accelspeed, wishdir.y as int)) as i64,
            z: spec_fx_add(state.simvel.z as int, spec_fx_mul(accelspeed, wishdir.z as int)) as i64,
        }
    }
}

/// One tick of ground acceleration. An airborne sample returns the
/// zero vector.
pub fn accelerate(state: &DemoFrame) -> (r: Vector3)
    ensures
        r == spec_accelerate(*state),
        !state.onground ==> r == (Vector3 { x: 0, y: 0, z: 0 }),
{
    if !state.onground {
        return Vector3 { x: 0, y: 0, z: 0 };
    }
    let basis: (Vector3, Vector3, Vector3) = angle_vectors(&state.viewangle);
    let f: Vector3 = basis.0;
    let rt: Vector3 = basis.1;
    let u: Vector3 = basis.2;
    let wishvel = Vector3 {
        x: fx_add(
            fx_add(fx_mul(f.x, state.forwardmove), fx_mul(rt.x, state.sidemove)),
            fx_mul(u.x, state.upmove),
        ),
        y: fx_add(
            fx_add(fx_mul(f.y, state.forwardmove), fx_mul(rt.y, state.sidemove)),
            fx_mul(u.y, state.upmove),
        ),
        z: fx_add(
            fx_add(fx_mul(f.z, state.forwardmove), fx_mul(rt.z, state.sidemove)),
            fx_mul(u.z, state.upmove),
        ),
    };
    let wishlen: i64 = wishvel.length();
    let cap: i64 = crate::fx::fx_clamp(state.maxspeed);
    let wishspd: i64 = if wishlen > cap {
        cap
    } else {
        wishlen
    };
    let wishdir: Vector3 = wishvel.normalize();
    let currentspeed: i64 = state.simvel.dot(wishdir);
    let addspeed: i64 = wishspd - currentspeed;
    let accel0: i64 = fx_mul(fx_mul(state.accelerate, state.frametime), wishspd);
    let accelspeed: i64 = if accel0 > addspeed {
        addspeed
    } else {
        accel0
    };
    Vector3 {
        x: fx_add(state.simvel.x, fx_mul(accelspeed, wishdir.x)),
        y: fx_add(state.simvel.y, fx_mul(accelspeed, wishdir.y)),
        z: fx_add(state.simvel.z, fx_mul(accelspeed, wishdir.z)),
    }
}

/// The point the ground trace samples: 16 units ahead of the origin
/// along the flattened view direction and 106 units below it.
pub open spec fn spec_trace_point(state: DemoFrame) -> Vector3 {
    let f = spec_forward(state.viewangle);
    let dir = spec_normalize(Vector3 { x: f.x, y: f.y, z: 0 });
    Vector3 {
        x: spec_fx_add(state.simorg.x as int, spec_fx_mul(dir.x as int, 16000)) as i64,
        y: spec_fx_add(state.simorg.y as int, spec_fx_mul(dir.y as int, 16000)) as i64,
        z: spec_fx_add(state.simorg.z as int, -106000) as i64,
    }
}

/// Sample the point 16 units ahead of the player and 106 units below
/// it, and report whether that point is open air (a ledge ahead) along
/// with the sampled point itself.
pub fn pm_player_trace(state: &DemoFrame, map_data: &BspData) -> (r: (bool, Vector3))
    ensures
        r.1 == spec_trace_point(*state),
        r.0 == !spec_is_clipped(map_data, spec_trace_point(*state)),
{
    let basis: (Vector3, Vector3, Vector3) = angle_vectors(&state.viewangle);
    let f: Vector3 = basis.0;
    let dir: Vector3 = Vector3 { x: f.x, y: f.y, z: 0 }.normalize();
    let sample_point = Vector3 {
        x: fx_add(state.simorg.x, fx_mul(dir.x, 16000)),
        y: fx_add(state.simorg.y, fx_mul(dir.y, 16000)),
        z: fx_add(state.simorg.z, -106000),
    };
    let clipped: bool = is_clipped(sample_point, map_data);
    (!clipped, sample_point)
}

/// One tick of ground friction: speed decays by the friction constant
/// times the frame time times the speed, floored at zero, with the
/// edge-friction multiplier applied when the trace point ahead of and
/// below the player is open air. An airborne sample returns the zero
/// vector; a sample at rest keeps its velocity.
pub open spec fn spec_pm_friction(state: DemoFrame, bsp: &BspData) -> Vector3 {
    if !state.onground {
        Vector3 { x: 0, y: 0, z: 0 }
    } else {
        let speed = spec_length(state.simvel);
        if speed == 0 {
            state.simvel
        } else {
            let edge = !spec_is_clipped(bsp, spec_trace_point(state));
            let fric = if edge {
                spec_fx_mul(state.friction as int, state.edgefriction as int)
            } else {
                state.friction as int
            };
            let decay = spec_fx_mul(spec_fx_mul(fric, state.frametime as int), speed);
            let newspeed = if speed - decay < 0 {
                0int
            } else {
                speed - decay
            };
            let scale = crate::fx::fx_clamped(crate::fx::div_trunc(newspeed * 1000, speed));
            Vector3 {
                x: spec_fx_mul(state.simvel.x as int, scale) as i64,
                y: spec_fx_mul(state.simvel.y as int, scale) as i64,
                z: spec_fx_mul(state.simvel.z as int, scale) as i64,
            }
        }
    }
}

/// Apply one tick of ground friction to the sample's velocity,
/// consulting the collision index for the edge-friction trace.
pub fn pm_friction(state: &DemoFrame, map_data: &BspData) -> (r: Vector3)
    ensures
        r == spec_pm_friction(*state, map_data),
        !state.onground ==> r == (Vector3 { x: 0, y: 0, z: 0 }),
{
    if !state.onground {
        return Vector3 { x: 0, y: 0, z: 0 };
    }
    let speed: i64 = state.simvel.length();
    if speed == 0 {
        return state.simvel;
    }
    let trace: (bool, Vector3) = pm_player_trace(state, map_data);
    let fric: i64 = if trace.0 {
        fx_mul(state.friction, state.edgefriction)
    } else {
        state.friction
    };
    let decay: i64 = fx_mul(fx_mul(fric, state.frametime), speed);
    let newspeed: i64 = if speed - decay < 0 {
        0
    } else {
        speed - decay
    };
    let scale: i64 = crate::demo::scale_div(newspeed, speed as u64);
    Vector3 {
        x: fx_mul(state.simvel.x, scale),
        y: fx_mul(state.simvel.y, scale),
        z: fx_mul(state.simvel.z, scale),
    }
}

/// Horizontal speed after one tick of air acceleration at `yaw`.
pub open spec fn spec_air_speed_at(state: DemoFrame, yaw: i64) -> int {
    spec_length(spec_airaccelerate_at(state, yaw))
}

/// Wrap a window bound that fell outside a full turn back into range by
/// a single add or subtract of 360 degrees.
pub open spec fn spec_wrap_bound(b: int) -> int {
    if b >= 360000 {
        b - 360000
    } else if b < 0 {
        b + 360000
    } else {
        b
    }
}

/// How many candidate angles a window holds, stepping a tenth of a
/// degree from `lower` up to but not including `upper`.
pub open spec fn spec_cand_count(lower: int, upper: int) -> nat {
    if lower >= upper {
        0
    } else {
        ((upper - lower + 99) / 100) as nat
    }
}

/// Best (speed, yaw) among the first `k` candidates, scanned in
/// ascending order from `lower` in steps of a tenth of a degree; only a
/// strictly greater speed displaces the best, so the first strict
/// improvement wins ties, starting from a zero speed at a zero yaw.
pub open spec fn spec_scan(state: DemoFrame, lower: int, k: nat) -> (int, int)
    decreases k,
{
    if k == 0 {
        (0int, 0int)
    } else {
        let prev = spec_scan(state, lower, (k - 1) as nat);
        let cand = lower + 100 * (k - 1);
        let sp = spec_air_speed_at(state, cand as i64);
        if sp > prev.0 {
            (sp, cand)
        } else {
            prev
        }
    }
}

/// The optimizer's scan over the ±3-degree window around the sample's
/// yaw (saturated into fixed-point range), both bounds wrapped once.
pub open spec fn spec_strafe_scan(state: DemoFrame) -> (int, int) {
    let base = crate::fx::fx_clamped(state.viewangle.y as int);
    let lower = spec_wrap_bound(base - 3000);
    let upper = spec_wrap_bound(base + 3000);
    spec_scan(state, lower, spec_cand_count(lower, upper))
}

/// The optimizer's result: the best speed, and the sample's view-angle
/// triple with only the yaw replaced by the best candidate.
pub open spec fn spec_strafe_optimize(state: DemoFrame) -> (int, Vector3) {
    let best = spec_strafe_scan(state);
    (
        best.0,
        Vector3 { x: state.viewangle.x, y: best.1 as i64, z: state.viewangle.z },
    )
}

/// Horizontal speed after one tick of air acceleration with the
/// sample's yaw replaced by `yaw`.
fn air_speed_at(state: &DemoFrame, yaw: i64) -> (r: i64)
    ensures
        r as int == spec_air_speed_at(*state, yaw),
        0 <= r <= FX_LIM,
{
    let v: Vector3 = airaccelerate_at(state, yaw);
    v.length()
}

/// Scan candidate yaws across a ±3-degree window around the sample's
/// yaw in steps of a tenth of a degree, each bound wrapped back into a
/// full turn by a single add or subtract, and return the greatest
/// horizontal speed one tick of air acceleration can reach together
/// with the view angles that reach it (only the yaw replaced). The
/// first strict improvement wins ties.
pub fn strafe_optimize(state: &DemoFrame) -> (r: (i64, Vector3))
    ensures
        r.0 as int == spec_strafe_optimize(*state).0,
        r.1 == spec_strafe_optimize(*state).1,
{
    let base: i64 = crate::fx::fx_clamp(state.viewangle.y);
    let mut lower: i64 = base - 3000;
    let mut upper: i64 = base + 3000;
    if lower >= 360000 {
        lower = lower - 360000;
    } else if lower < 0 {
        lower = lower + 360000;
    }
    if upper >= 360000 {
        upper = upper - 360000;
    } else if upper < 0 {
        upper = upper + 360000;
    }
    let count: u64 = if lower < upper {
        ((upper - lower + 99) as u64) / 100
    } else {
        0
    };
    proof {
        assert(count as nat == spec_cand_count(lower as int, upper as int));
        assert(count <= 61) by {
            if lower < upper {
                vstd::arithmetic::div_mod::lemma_div_is_ordered(
                    (upper - lower + 99) as int,
                    6099,
                    100,
                );
                vstd::arithmetic::div_mod::lemma_fundamental_div_mod_converse(6099, 100, 60, 99);
            }
        }
    }
    let mut best_speed: i64 = 0;
    let mut best_yaw: i64 = 0;
    let mut k: u64 = 0;
    while k < count
        invariant
            k <= count,
            count <= 61,
            -(FX_LIM as int) - 363000 <= lower as int <= (FX_LIM as int) + 363000,
            best_speed as int == spec_scan(*state, lower as int, k as nat).0,
            best_yaw as int == spec_scan(*state, lower as int, k as nat).1,
        decreases count - k,
    {
        let cand: i64 = lower + (k as i64) * 100;
        let sp: i64 = air_speed_at(state, cand);
        if sp > best_speed {
            best_speed = sp;
            best_yaw = cand;
        }
        k = k + 1;
    }
    (
        best_speed,
        Vector3 { x: state.viewangle.x, y: best_yaw, z: state.viewangle.z },
    )
}

/// Helper for the optimizer law: the scan's best speed is at least the
/// speed of any candidate it visited.
pub proof fn lemma_scan_dominates(state: DemoFrame, lower: int, k: nat, j: nat)
    requires
        j < k,
    ensures
        spec_scan(state, lower, k).0 >= spec_air_speed_at(state, (lower + 100 * j) as i64),
    decreases k,
{
    if j + 1 == k {
    } else {
        lemma_scan_dominates(state, lower, (k - 1) as nat, j);
    }
}

/// Wherever the ±3-degree window needs no wrap-around, the optimizer
/// never returns a speed lower than air acceleration evaluated at the
/// sample's own unmodified yaw, which the scan visits as a candidate.
pub proof fn lemma_optimize_at_least_current(state: DemoFrame)
    requires
        3000 <= state.viewangle.y,
        state.viewangle.y + 3000 < 360000,
    ensures
        spec_strafe_optimize(state).0 >= spec_length(spec_airaccelerate(state)),
{
    let y: int = state.viewangle.y as int;
    let base = crate::fx::fx_clamped(y);
    assert(base == y);
    let lower = spec_wrap_bound(base - 3000);
    let upper = spec_wrap_bound(base + 3000);
    assert(lower == y - 3000);
    assert(upper == y + 3000);
    vstd::arithmetic::div_mod::lemma_fundamental_div_mod_converse(6099, 100, 60, 99);
    assert(spec_cand_count(lower, upper) == 60);
    lemma_scan_dominates(state, lower, 60, 30);
    assert(lower + 100 * 30 == y);
    assert((lower + 100 * 30) as i64 == state.viewangle.y);
}

} // verus!
