use jumpscan::bspfile::{decode_bsp, BspError};
use jumpscan::parse::{parse_demo, DemoError, MsgDataParseMode};

fn push_i32(b: &mut Vec<u8>, v: i32) {
    b.extend_from_slice(&v.to_le_bytes());
}

fn push_f32(b: &mut Vec<u8>, v: f32) {
    b.extend_from_slice(&v.to_bits().to_le_bytes());
}

fn push_i16(b: &mut Vec<u8>, v: i16) {
    b.extend_from_slice(&v.to_le_bytes());
}

/// A minimal level container: version 30, one plane, one clip node,
/// one model, all other lumps empty.
fn tiny_bsp() -> Vec<u8> {
    let mut b = Vec::new();
    push_i32(&mut b, 30);
    // Lump table, patched with real offsets below.
    for _ in 0..15 {
        push_i32(&mut b, 0);
        push_i32(&mut b, 0);
    }
    // Lump 1: one plane (20 bytes).
    let planes_ofs = b.len();
    push_f32(&mut b, 1.0);
    push_f32(&mut b, 0.0);
    push_f32(&mut b, 0.0);
    push_f32(&mut b, 64.0);
    push_i32(&mut b, 0);
    // Lump 4: one clip node (8 bytes).
    let clipnodes_ofs = b.len();
    push_i32(&mut b, 0);
    push_i16(&mut b, -2);
    push_i16(&mut b, -1);
    // Lump 14: one model (64 bytes).
    let models_ofs = b.len();
    for _ in 0..9 {
        push_f32(&mut b, 0.0);
    }
    for hull in [7i32, 0, 0, 0] {
        push_i32(&mut b, hull);
    }
    push_i32(&mut b, 1);
    push_i32(&mut b, 2);
    push_i32(&mut b, 3);
    // Patch the lump table.
    let patch = |b: &mut Vec<u8>, lump: usize, ofs: usize, len: usize| {
        let base = 4 + 8 * lump;
        b[base..base + 4].copy_from_slice(&(ofs as i32).to_le_bytes());
        b[base + 4..base + 8].copy_from_slice(&(len as i32).to_le_bytes());
    };
    patch(&mut b, 1, planes_ofs, 20);
    patch(&mut b, 4, clipnodes_ofs, 8);
    patch(&mut b, 14, models_ofs, 64);
    b
}

#[test]
fn bsp_decodes_records() {
    let d = decode_bsp(&tiny_bsp()).unwrap();
    assert_eq!(d.planes.len(), 1);
    assert_eq!(d.planes[0].normal.x, 1000);
    assert_eq!(d.planes[0].normal.y, 0);
    assert_eq!(d.planes[0].dist, 64000);
    assert_eq!(d.clipnodes.len(), 1);
    assert_eq!(d.clipnodes[0].planenum, 0);
    assert_eq!(d.clipnodes[0].children, [-2, -1]);
    assert_eq!(d.models.len(), 1);
    assert_eq!(d.models[0].headnode, [7, 0, 0, 0]);
    assert_eq!(d.models[0].visleafs, 1);
    assert_eq!(d.models[0].numfaces, 3);
    // The level's clip-node lump doubles as the vis-data range.
    assert_eq!(d.visdata.len(), 8);
    assert_eq!(d.nodes.len(), 0);
    assert_eq!(d.entities.len(), 0);
}

#[test]
fn bsp_short_container_is_truncated() {
    assert!(matches!(decode_bsp(&[]), Err(BspError::Truncated)));
    assert!(matches!(decode_bsp(&[30, 0]), Err(BspError::Truncated)));
    let mut short = Vec::new();
    push_i32(&mut short, 30);
    push_i32(&mut short, 0);
    assert!(matches!(decode_bsp(&short), Err(BspError::Truncated)));
}

#[test]
fn bsp_wrong_version_is_rejected() {
    let mut b = Vec::new();
    push_i32(&mut b, 29);
    for _ in 0..30 {
        push_i32(&mut b, 0);
    }
    assert!(matches!(decode_bsp(&b), Err(BspError::BadVersion)));
}

#[test]
fn bsp_lump_past_end_is_rejected() {
    let mut b = tiny_bsp();
    let huge = (b.len() as i32) + 100;
    b[8..12].copy_from_slice(&huge.to_le_bytes());
    assert!(matches!(decode_bsp(&b), Err(BspError::BadLump)));
    let mut b2 = tiny_bsp();
    b2[8..12].copy_from_slice(&(-5i32).to_le_bytes());
    assert!(matches!(decode_bsp(&b2), Err(BspError::BadLump)));
}

/// A replay container: header, a two-entry directory, one command
/// record on tick 3, one type-1 sample on tick 3, and the end marker.
fn tiny_demo() -> Vec<u8> {
    let mut b = Vec::new();
    b.extend_from_slice(b"HLDEMO\0\0");
    push_i32(&mut b, 5);
    push_i32(&mut b, 1);
    b.extend_from_slice(&[0u8; 260]);
    b.extend_from_slice(&[0u8; 260]);
    push_i32(&mut b, 0);
    let dir_ofs_pos = b.len();
    push_i32(&mut b, 0);
    assert_eq!(b.len(), 544);
    // Frame stream.
    let frames_ofs = b.len();
    // Type 3: a console command on tick 3.
    b.push(3);
    push_f32(&mut b, 0.1);
    push_i32(&mut b, 3);
    let mut cmd = [0u8; 64];
    cmd[..5].copy_from_slice(b"+jump");
    b.extend_from_slice(&cmd);
    // Type 1: the sample of tick 3.
    b.push(1);
    push_f32(&mut b, 0.1);
    push_i32(&mut b, 3);
    let payload_start = b.len();
    b.extend_from_slice(&[0u8; 468]);
    let put_f32 = |b: &mut Vec<u8>, off: usize, v: f32| {
        let p = payload_start + off;
        b[p..p + 4].copy_from_slice(&v.to_bits().to_le_bytes());
    };
    let put_i32 = |b: &mut Vec<u8>, off: usize, v: i32| {
        let p = payload_start + off;
        b[p..p + 4].copy_from_slice(&v.to_le_bytes());
    };
    put_f32(&mut b, 16, 10.0);  // viewangle pitch
    put_f32(&mut b, 20, 45.0);  // viewangle yaw
    put_i32(&mut b, 84, 1);  // onground
    put_f32(&mut b, 92, 250.0);  // simvel x
    put_f32(&mut b, 104, 33.0);  // simorg x
    b[payload_start + 238] = 10;  // msec
    put_f32(&mut b, 252, 200.0);  // forwardmove
    put_f32(&mut b, 288, 800.0);  // gravity
    put_f32(&mut b, 296, 320.0);  // maxspeed
    put_f32(&mut b, 308, 10.0);  // airaccelerate
    put_f32(&mut b, 64, 0.5);  // frametime
    // msglength 0 sits at offset 464 of the payload, already zero.
    // Type 5: end of the replay.
    b.push(5);
    push_f32(&mut b, 0.2);
    push_i32(&mut b, 4);
    // Directory: two entries; entry 1 points at the frame stream.
    let dir = b.len();
    push_i32(&mut b, 2);
    for entry in 0..2 {
        push_i32(&mut b, entry);
        b.extend_from_slice(&[0u8; 64]);
        push_i32(&mut b, 0);
        push_i32(&mut b, 0);
        push_f32(&mut b, 0.0);
        push_i32(&mut b, 0);
        push_i32(&mut b, if entry == 1 { frames_ofs as i32 } else { 0 });
        push_i32(&mut b, 0);
    }
    b[dir_ofs_pos..dir_ofs_pos + 4].copy_from_slice(&(dir as i32).to_le_bytes());
    b
}

#[test]
fn demo_decodes_sample_and_attaches_command() {
    let d = parse_demo(&tiny_demo(), MsgDataParseMode::Parse).unwrap();
    assert_eq!(d.frames.len(), 1);
    let f = &d.frames[0];
    assert_eq!(f.frame, 3);
    assert!(f.onground);
    assert_eq!(f.viewangle.x, 10000);
    assert_eq!(f.viewangle.y, 45000);
    assert_eq!(f.simvel.x, 250000);
    assert_eq!(f.simorg.x, 33000);
    assert_eq!(f.msec, 10);
    assert_eq!(f.forwardmove, 200000);
    assert_eq!(f.gravity, 800000);
    assert_eq!(f.maxspeed, 320000);
    assert_eq!(f.airaccelerate, 10000);
    assert_eq!(f.frametime, 500);
    assert_eq!(f.command, vec!["+jump".to_string()]);
}

#[test]
fn demo_raw_mode_keeps_full_token_width() {
    let d = parse_demo(&tiny_demo(), MsgDataParseMode::Raw).unwrap();
    assert_eq!(d.frames[0].command.len(), 1);
    assert_eq!(d.frames[0].command[0].len(), 64);
    assert!(d.frames[0].command[0].starts_with("+jump"));
}

#[test]
fn demo_ignore_mode_drops_tokens() {
    let d = parse_demo(&tiny_demo(), MsgDataParseMode::Ignore).unwrap();
    assert_eq!(d.frames[0].command.len(), 0);
}

#[test]
fn demo_bad_magic_is_rejected() {
    let mut b = tiny_demo();
    b[0] = b'X';
    assert!(matches!(
        parse_demo(&b, MsgDataParseMode::Parse),
        Err(DemoError::BadMagic)
    ));
}

#[test]
fn demo_bad_version_is_rejected() {
    let mut b = tiny_demo();
    b[8..12].copy_from_slice(&4i32.to_le_bytes());
    assert!(matches!(
        parse_demo(&b, MsgDataParseMode::Parse),
        Err(DemoError::BadVersion)
    ));
}

#[test]
fn demo_short_container_is_truncated() {
    assert!(matches!(
        parse_demo(b"HLD", MsgDataParseMode::Parse),
        Err(DemoError::Truncated)
    ));
}

#[test]
fn demo_one_entry_directory_is_rejected() {
    let mut b = tiny_demo();
    let dir = i32::from_le_bytes([b[540], b[541], b[542], b[543]]) as usize;
    b[dir..dir + 4].copy_from_slice(&1i32.to_le_bytes());
    assert!(matches!(
        parse_demo(&b, MsgDataParseMode::Parse),
        Err(DemoError::BadDirectory)
    ));
}

#[test]
fn demo_truncated_sample_is_rejected() {
    // A container whose frame stream holds only the nine-byte head of
    // a type-1 record: the promised payload is missing.
    let mut b = Vec::new();
    b.extend_from_slice(b"HLDEMO\0\0");
    push_i32(&mut b, 5);
    push_i32(&mut b, 1);
    b.extend_from_slice(&[0u8; 260]);
    b.extend_from_slice(&[0u8; 260]);
    push_i32(&mut b, 0);
    push_i32(&mut b, 544);
    let dir = b.len();
    assert_eq!(dir, 544);
    push_i32(&mut b, 2);
    let frames_ofs = dir + 4 + 2 * 92;
    for entry in 0..2 {
        push_i32(&mut b, entry);
        b.extend_from_slice(&[0u8; 64]);
        push_i32(&mut b, 0);
        push_i32(&mut b, 0);
        push_f32(&mut b, 0.0);
        push_i32(&mut b, 0);
        push_i32(&mut b, if entry == 1 { frames_ofs as i32 } else { 0 });
        push_i32(&mut b, 0);
    }
    b.push(1);
    push_f32(&mut b, 0.1);
    push_i32(&mut b, 0);
    assert!(matches!(
        parse_demo(&b, MsgDataParseMode::Parse),
        Err(DemoError::Truncated)
    ));
}
