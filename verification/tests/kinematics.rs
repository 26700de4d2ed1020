use jumpscan::analyze::{accelerate, airaccelerate, angle_vectors, pm_friction, pm_player_trace};
use jumpscan::bspfile::{BspData, DClipNode, DModel, DPlane};
use jumpscan::demo::{DemoFrame, Vector3};

fn v(x: i64, y: i64, z: i64) -> Vector3 {
    Vector3 { x, y, z }
}

fn base_frame() -> DemoFrame {
    DemoFrame {
        frame: 0,
        time: 0,
        vieworg: v(0, 0, 0),
        viewangle: v(0, 0, 0),
        frametime: 10,
        onground: false,
        simvel: v(0, 0, 0),
        simorg: v(0, 0, 0),
        viewheight: v(0, 0, 17000),
        msec: 10,
        gravity: 800000,
        accelerate: 5000,
        airaccelerate: 10000,
        friction: 4000,
        edgefriction: 2000,
        maxvelocity: 2000000,
        maxspeed: 320000,
        command: Vec::new(),
        forwardmove: 0,
        sidemove: 0,
        upmove: 0,
        forward: v(1000, 0, 0),
        right: v(0, -1000, 0),
        up: v(0, 0, 1000),
    }
}

fn open_bsp() -> BspData {
    // A single always-open leaf: every point is open air.
    BspData {
        entities: Vec::new(),
        planes: vec![DPlane { normal: v(1000, 0, 0), dist: 0, type_: 0 }],
        texinfo: Vec::new(),
        faces: Vec::new(),
        nodes: Vec::new(),
        leafs: Vec::new(),
        leaffaces: Vec::new(),
        leafbrushes: Vec::new(),
        models: vec![DModel {
            mins: [0, 0, 0],
            maxs: [0, 0, 0],
            origin: [0, 0, 0],
            headnode: [0, 0, 0, 0],
            visleafs: 0,
            firstface: 0,
            numfaces: 0,
        }],
        brushes: Vec::new(),
        brushsides: Vec::new(),
        vertexes: Vec::new(),
        edges: Vec::new(),
        surfedges: Vec::new(),
        visdata: Vec::new(),
        clipnodes: vec![DClipNode { planenum: 0, children: [-1, -1] }],
        lightmaps: Vec::new(),
    }
}

#[test]
fn basis_at_zero_angles_is_world_basis() {
    let f = angle_vectors(&v(0, 0, 0));
    assert_eq!(f.0, v(1000, 0, 0));
    assert_eq!(f.1, v(0, -1000, 0));
    assert_eq!(f.2, v(0, 0, 1000));
}

#[test]
fn basis_at_quarter_yaw() {
    // Yaw 90 degrees: forward along +y.
    let f = angle_vectors(&v(0, 90000, 0));
    assert_eq!(f.0, v(0, 1000, 0));
    assert_eq!(f.1, v(1000, 0, 0));
    assert_eq!(f.2, v(0, 0, 1000));
}

#[test]
fn air_accelerate_on_grounded_sample_is_zero() {
    let mut s = base_frame();
    s.onground = true;
    s.forwardmove = 250000;
    s.sidemove = 100000;
    s.simvel = v(100000, 50000, -3000);
    assert_eq!(airaccelerate(&s), v(0, 0, 0));
}

#[test]
fn air_accelerate_without_input_keeps_velocity() {
    let mut s = base_frame();
    s.simvel = v(123456, -654321, 42);
    assert_eq!(airaccelerate(&s), s.simvel);
}

#[test]
fn air_accelerate_gains_speed_forward() {
    let mut s = base_frame();
    s.forwardmove = 250000;
    let r = airaccelerate(&s);
    // Wish direction is +x; the gain is capped by the wish speed of 30
    // units: accelspeed = min(30000 - 0, 10 * 0.01 * 250) = 25000.
    assert_eq!(r, v(25000, 0, 0));
}

#[test]
fn air_accelerate_caps_at_wishspeed() {
    let mut s = base_frame();
    s.forwardmove = 250000;
    s.simvel = v(20000, 0, 0);
    let r = airaccelerate(&s);
    // addspeed = 30000 - 20000 = 10000 < 25000, so the gain is 10000.
    assert_eq!(r, v(30000, 0, 0));
}

#[test]
fn ground_accelerate_on_airborne_sample_is_zero() {
    let mut s = base_frame();
    s.forwardmove = 250000;
    assert_eq!(accelerate(&s), v(0, 0, 0));
}

#[test]
fn ground_accelerate_gains_along_wish_direction() {
    let mut s = base_frame();
    s.onground = true;
    s.forwardmove = 100000;
    let r = accelerate(&s);
    // wishspeed = min(100, 320) = 100; accelspeed = min(100 - 0,
    // 5 * 0.01 * 100) = 5 units.
    assert_eq!(r, v(5000, 0, 0));
}

#[test]
fn trace_point_sits_ahead_and_below() {
    let s = base_frame();
    let bsp = open_bsp();
    let (is_edge, point) = pm_player_trace(&s, &bsp);
    assert!(is_edge);
    assert_eq!(point, v(16000, 0, -106000));
}

#[test]
fn friction_on_airborne_sample_is_zero() {
    let mut s = base_frame();
    s.simvel = v(100000, 0, 0);
    assert_eq!(pm_friction(&s, &open_bsp()), v(0, 0, 0));
}

#[test]
fn friction_decays_grounded_speed() {
    let mut s = base_frame();
    s.onground = true;
    s.simvel = v(100000, 0, 0);
    let r = pm_friction(&s, &open_bsp());
    // Over open air the edge multiplier doubles the friction: drop =
    // (4 * 2) * 0.01 * 100 = 8 units, so 92% of the speed remains.
    assert_eq!(r, v(92000, 0, 0));
}

#[test]
fn friction_keeps_a_resting_sample() {
    let mut s = base_frame();
    s.onground = true;
    assert_eq!(pm_friction(&s, &open_bsp()), v(0, 0, 0));
}
