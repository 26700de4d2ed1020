use jumpscan::analyze::strafe_optimize;
use jumpscan::bspfile::BspData;
use jumpscan::demo::{DemoFrame, Vector3};
use jumpscan::segments::extract_jump_segments;

fn v(x: i64, y: i64, z: i64) -> Vector3 {
    Vector3 { x, y, z }
}

fn tick(n: i32, onground: bool, commands: Vec<String>) -> DemoFrame {
    DemoFrame {
        frame: n,
        time: n as i64 * 10,
        vieworg: v(0, 0, 64000),
        viewangle: v(0, 45000, 0),
        frametime: 10,
        onground,
        simvel: v(250000, 0, 0),
        simorg: v(n as i64 * 2500, 0, 64000),
        viewheight: v(0, 0, 17000),
        msec: 10,
        gravity: 800000,
        accelerate: 5000,
        airaccelerate: 10000,
        friction: 4000,
        edgefriction: 2000,
        maxvelocity: 2000000,
        maxspeed: 320000,
        command: commands,
        forwardmove: 0,
        sidemove: 100000,
        upmove: 0,
        forward: v(1000, 0, 0),
        right: v(0, -1000, 0),
        up: v(0, 0, 1000),
    }
}

fn empty_bsp() -> BspData {
    BspData {
        entities: Vec::new(),
        planes: Vec::new(),
        texinfo: Vec::new(),
        faces: Vec::new(),
        nodes: Vec::new(),
        leafs: Vec::new(),
        leaffaces: Vec::new(),
        leafbrushes: Vec::new(),
        models: Vec::new(),
        brushes: Vec::new(),
        brushsides: Vec::new(),
        vertexes: Vec::new(),
        edges: Vec::new(),
        surfedges: Vec::new(),
        visdata: Vec::new(),
        clipnodes: Vec::new(),
        lightmaps: Vec::new(),
    }
}

/// The synthetic forty-tick sequence: ticks 0 through 9 grounded, the
/// jump token pressed at the end of the run-up (ticks 8 and 9), ticks
/// 10 through 25 airborne, grounded from tick 26 on.
fn synthetic_jump() -> Vec<DemoFrame> {
    let mut frames = Vec::new();
    for n in 0..40i32 {
        let grounded = n <= 9 || n >= 26;
        let cmds = if n == 8 || n == 9 {
            vec!["+jump".to_string()]
        } else {
            Vec::new()
        };
        frames.push(tick(n, grounded, cmds));
    }
    frames
}

#[test]
fn synthetic_jump_yields_one_segment() {
    let frames = synthetic_jump();
    let segments = extract_jump_segments(&frames, &empty_bsp());
    assert_eq!(segments.len(), 1);
    assert!(segments[0].start_index <= 9);
    assert!(segments[0].end_index >= 24 && segments[0].end_index <= 25);
    assert_eq!(
        segments[0].frames.len(),
        segments[0].end_index - segments[0].start_index + 1
    );
    assert_eq!(segments[0].frames[0].frame, segments[0].start_index as i32);
}

#[test]
fn duck_token_two_ticks_back_opens_a_segment() {
    let mut frames = Vec::new();
    for n in 0..40i32 {
        let grounded = n <= 9 || n >= 26;
        let cmds = if n == 8 {
            vec!["+duck".to_string()]
        } else {
            Vec::new()
        };
        frames.push(tick(n, grounded, cmds));
    }
    let segments = extract_jump_segments(&frames, &empty_bsp());
    assert_eq!(segments.len(), 1);
    assert!(segments[0].start_index <= 8);
    assert_eq!(segments[0].end_index, 24);
}

#[test]
fn extraction_is_deterministic() {
    let frames = synthetic_jump();
    let first = extract_jump_segments(&frames, &empty_bsp());
    let second = extract_jump_segments(&frames, &empty_bsp());
    assert_eq!(first.len(), second.len());
    for (a, b) in first.iter().zip(second.iter()) {
        assert_eq!(a.start_index, b.start_index);
        assert_eq!(a.end_index, b.end_index);
    }
}

#[test]
fn no_tokens_no_segments() {
    let mut frames = Vec::new();
    for n in 0..60i32 {
        let grounded = (n / 7) % 2 == 0;
        frames.push(tick(n, grounded, vec!["+attack".to_string()]));
    }
    let segments = extract_jump_segments(&frames, &empty_bsp());
    assert_eq!(segments.len(), 0);
}

#[test]
fn empty_sequence_yields_no_segments() {
    let frames: Vec<DemoFrame> = Vec::new();
    let segments = extract_jump_segments(&frames, &empty_bsp());
    assert_eq!(segments.len(), 0);
}

#[test]
fn open_technique_closes_at_end_of_sequence() {
    // Run-up, a jump, and the ticks run out while still airborne.
    let mut frames = Vec::new();
    for n in 0..20i32 {
        let grounded = n <= 9;
        let cmds = if n == 9 {
            vec!["+jump".to_string()]
        } else {
            Vec::new()
        };
        frames.push(tick(n, grounded, cmds));
    }
    let segments = extract_jump_segments(&frames, &empty_bsp());
    assert_eq!(segments.len(), 1);
    assert_eq!(segments[0].end_index, 19);
}

#[test]
fn two_separated_jumps_yield_two_ordered_segments() {
    let mut frames = Vec::new();
    for n in 0..80i32 {
        let grounded = !(10..=25).contains(&n) && !(50..=65).contains(&n);
        let cmds = if n == 9 || n == 49 {
            vec!["+jump".to_string()]
        } else {
            Vec::new()
        };
        frames.push(tick(n, grounded, cmds));
    }
    let segments = extract_jump_segments(&frames, &empty_bsp());
    assert_eq!(segments.len(), 2);
    assert!(segments[0].end_index < segments[1].start_index);
    assert!(segments[0].start_index <= 9);
    assert!(segments[1].start_index >= 26);
}

#[test]
fn optimizer_at_least_own_yaw() {
    // The optimizer's best speed is at least the speed at the sample's
    // own yaw, which sits inside the unwrapped window.
    let frames = synthetic_jump();
    let airborne = &frames[15];
    let (best, angles) = strafe_optimize(airborne);
    let own = jumpscan::analyze::airaccelerate(airborne);
    let own_speed = own.length();
    assert!(best >= own_speed, "best {best} own {own_speed}");
    assert_eq!(angles.x, airborne.viewangle.x);
    assert_eq!(angles.z, airborne.viewangle.z);
}

#[test]
fn optimizer_wrapped_window_is_empty() {
    // A yaw so close to zero that the window's lower bound wraps: the
    // wrapped bounds leave nothing to scan, so nothing improves on the
    // initial zero speed and yaw.
    let mut frames = synthetic_jump();
    frames[15].viewangle.y = 100;
    let (best, angles) = strafe_optimize(&frames[15]);
    assert_eq!(best, 0);
    assert_eq!(angles.y, 0);
}

#[test]
fn optimizer_window_is_three_degrees() {
    let frames = synthetic_jump();
    let airborne = &frames[15];
    let (_best, angles) = strafe_optimize(airborne);
    let yaw = airborne.viewangle.y;
    assert!(angles.y == 0 || (angles.y >= yaw - 3000 && angles.y < yaw + 3000));
}
