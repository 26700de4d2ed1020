//! The replay container decoder: header and directory checks, then one
//! pass over the typed frame records, collecting per-tick samples and
//! attaching console-command tokens to the tick they were recorded on.

use vstd::prelude::*;
use crate::bytes::{fx32_at, le_i32_at, spec_fx32, spec_le_i32, spec_vec3_at, vec3_at};
use crate::demo::{DemoFrame, Vector3};

verus! {

/// How the per-tick command records are handled: decoded and trimmed
/// at their terminator, kept raw at full width, or dropped.
#[derive(Clone, Copy, Debug, PartialEq, Eq, Structural)]
pub enum MsgDataParseMode {
    /// Attach each command token, trimmed at the first NUL.
    Parse,
    /// Attach each command token untrimmed, all 64 characters.
    Raw,
    /// Attach no command tokens.
    Ignore,
}

/// A decoded replay: the tick samples in recorded order.
pub struct Demo {
    pub frames: Vec<DemoFrame>,
}

/// Why a replay container was rejected.
#[derive(Clone, Copy, Debug, PartialEq, Eq, Structural)]
pub enum DemoError {
    /// The container does not begin with the replay magic.
    BadMagic,
    /// The container's version word is not the supported one.
    BadVersion,
    /// The directory holds fewer than two entries, so there is no
    /// frame-stream entry to follow.
    BadDirectory,
    /// The container ends before a field or buffer it promises.
    Truncated,
}

/// The ghost image of one tick sample: every scalar field, with the
/// command tokens as character sequences.
pub struct FrameV {
    pub frame: i32,
    pub time: i64,
    pub vieworg: Vector3,
    pub viewangle: Vector3,
    pub frametime: i64,
    pub onground: bool,
    pub simvel: Vector3,
    pub simorg: Vector3,
    pub viewheight: Vector3,
    pub msec: u8,
    pub gravity: i64,
    pub accelerate: i64,
    pub airaccelerate: i64,
    pub friction: i64,
    pub edgefriction: i64,
    pub maxvelocity: i64,
    pub maxspeed: i64,
    pub command: Seq<Seq<char>>,
    pub forwardmove: i64,
    pub sidemove: i64,
    pub upmove: i64,
    pub forward: Vector3,
    pub right: Vector3,
    pub up: Vector3,
}

/// The ghost image of a sample.
pub open spec fn frame_view(f: DemoFrame) -> FrameV {
    FrameV {
        frame: f.frame,
        time: f.time,
        vieworg: f.vieworg,
        viewangle: f.viewangle,
        frametime: f.frametime,
        onground: f.onground,
        simvel: f.simvel,
        simorg: f.simorg,
        viewheight: f.viewheight,
        msec: f.msec,
        gravity: f.gravity,
        accelerate: f.accelerate,
        airaccelerate: f.airaccelerate,
        friction: f.friction,
        edgefriction: f.edgefriction,
        maxvelocity: f.maxvelocity,
        maxspeed: f.maxspeed,
        command: f.command@.map_values(|c: String| c@),
        forwardmove: f.forwardmove,
        sidemove: f.sidemove,
        upmove: f.upmove,
        forward: f.forward,
        right: f.right,
        up: f.up,
    }
}

/// The ghost images of a sample list.
pub open spec fn frames_view(fs: Seq<DemoFrame>) -> Seq<FrameV> {
    fs.map_values(|f: DemoFrame| frame_view(f))
}

/// Each byte as one character.
pub open spec fn chars_of(b: Seq<u8>) -> Seq<char> {
    b.map_values(|x: u8| x as char)
}

/// The index of the first NUL byte, or the length if there is none.
pub open spec fn first_nul(b: Seq<u8>) -> int
    decreases b.len(),
{
    if b.len() == 0 {
        0
    } else if b[0] == 0 {
        0
    } else {
        1 + first_nul(b.drop_first())
    }
}

/// The text up to the first NUL byte.
pub open spec fn cstr_chars(b: Seq<u8>) -> Seq<char> {
    chars_of(b.take(first_nul(b)))
}

/// The first NUL's index is in range, nothing before it is NUL, and it
/// points at a NUL when it is in range.
pub proof fn lemma_first_nul(b: Seq<u8>)
    ensures
        0 <= first_nul(b) <= b.len(),
        forall|j: int| 0 <= j < first_nul(b) ==> b[j] != 0,
        first_nul(b) < b.len() ==> b[first_nul(b)] == 0,
    decreases b.len(),
{
    if b.len() > 0 && b[0] != 0 {
        lemma_first_nul(b.drop_first());
        assert forall|j: int| 0 <= j < first_nul(b) implies b[j] != 0 by {
            if j > 0 {
                assert(b.drop_first()[j - 1] == b[j]);
            }
        }
        if first_nul(b) < b.len() {
            assert(b.drop_first()[first_nul(b) - 1] == b[first_nul(b)]);
        }
    }
}

/// Any index with the three properties above is the first NUL's index.
proof fn lemma_first_nul_unique(b: Seq<u8>, j: int)
    requires
        0 <= j <= b.len(),
        forall|jj: int| 0 <= jj < j ==> b[jj] != 0,
        j < b.len() ==> b[j] == 0,
    ensures
        j == first_nul(b),
{
    lemma_first_nul(b);
    let f = first_nul(b);
    if j < f {
        assert(b[j] != 0);
    }
    if f < j {
        assert(b[f] != 0);
    }
}

/// Relies on `String::push`: appends exactly the one character.
#[verifier::external_body]
fn push_char(s: &mut String, c: char)
    ensures
        final(s)@ == old(s)@.push(c),
{
    s.push(c);
}

/// The characters of a byte slice, one per byte.
fn string_of_bytes(b: &[u8]) -> (r: String)
    ensures
        r@ == chars_of(b@),
{
    let n: usize = b.len();
    let mut s: String = String::new();
    let mut j: usize = 0;
    while j < n
        invariant
            j <= n,
            n == b@.len(),
            s@ == chars_of(b@.take(j as int)),
        decreases n - j,
    {
        let c: char = b[j] as char;
        push_char(&mut s, c);
        proof {
            assert(s@ =~= chars_of(b@.take(j + 1)));
        }
        j = j + 1;
    }
    proof {
        assert(b@.take(n as int) =~= b@);
    }
    s
}

/// The text of a fixed-width token record: trimmed at the first NUL.
fn cstr_of_bytes(b: &[u8]) -> (r: String)
    ensures
        r@ == cstr_chars(b@),
{
    let n: usize = b.len();
    let mut j: usize = 0;
    while j < n && b[j] != 0
        invariant
            j <= n,
            n == b@.len(),
            forall|jj: int| 0 <= jj < j ==> b@[jj] != 0,
        decreases n - j,
    {
        j = j + 1;
    }
    proof {
        lemma_first_nul_unique(b@, j as int);
    }
    let prefix: &[u8] = vstd::slice::slice_subrange(b, 0, j);
    let r: String = string_of_bytes(prefix);
    proof {
        assert(b@.subrange(0, j as int) =~= b@.take(j as int));
    }
    r
}

/// The tokens among the pending command records that belong to tick
/// `fr`, in recorded order.
pub open spec fn sel_cmds(p: Seq<(int, Seq<char>)>, fr: int) -> Seq<Seq<char>>
    decreases p.len(),
{
    if p.len() == 0 {
        Seq::empty()
    } else {
        let rest = sel_cmds(p.drop_last(), fr);
        if p.last().0 == fr {
            rest.push(p.last().1)
        } else {
            rest
        }
    }
}

/// The pending command records that do not belong to tick `fr`.
pub open spec fn sel_rest(p: Seq<(int, Seq<char>)>, fr: int) -> Seq<(int, Seq<char>)>
    decreases p.len(),
{
    if p.len() == 0 {
        Seq::empty()
    } else {
        let rest = sel_rest(p.drop_last(), fr);
        if p.last().0 == fr {
            rest
        } else {
            rest.push(p.last())
        }
    }
}

/// The ghost image of the pending command records.
pub open spec fn pend_view(p: Seq<(i32, String)>) -> Seq<(int, Seq<char>)> {
    p.map_values(|e: (i32, String)| (e.0 as int, e.1@))
}

/// Split the pending command records into the tokens of tick `fr` and
/// the records that stay pending.
fn take_cmds(pending: &Vec<(i32, String)>, fr: i32) -> (r: (Vec<String>, Vec<(i32, String)>))
    ensures
        r.0@.map_values(|c: String| c@) == sel_cmds(pend_view(pending@), fr as int),
        pend_view(r.1@) == sel_rest(pend_view(pending@), fr as int),
{
    let n: usize = pending.len();
    let mut cmds: Vec<String> = Vec::new();
    let mut rest: Vec<(i32, String)> = Vec::new();
    let mut j: usize = 0;
    while j < n
        invariant
            j <= n,
            n == pending@.len(),
            cmds@.map_values(|c: String| c@) == sel_cmds(pend_view(pending@.take(j as int)), fr as int),
            pend_view(rest@) == sel_rest(pend_view(pending@.take(j as int)), fr as int),
        decreases n - j,
    {
        let entry_frame: i32 = pending[j].0;
        let entry_cmd: String = pending[j].1.clone();
        proof {
            assert(pend_view(pending@.take(j + 1)).drop_last() =~= pend_view(
                pending@.take(j as int),
            ));
            assert(pend_view(pending@.take(j + 1)).last() == (
                pending@[j as int].0 as int,
                pending@[j as int].1@,
            ));
        }
        if entry_frame == fr {
            cmds.push(entry_cmd);
            proof {
                assert(cmds@.map_values(|c: String| c@) =~= sel_cmds(
                    pend_view(pending@.take(j + 1)),
                    fr as int,
                ));
            }
        } else {
            rest.push((entry_frame, entry_cmd));
            proof {
                assert(pend_view(rest@) =~= sel_rest(pend_view(pending@.take(j + 1)), fr as int));
            }
        }
        proof {
            assert(cmds@.map_values(|c: String| c@) =~= sel_cmds(
                pend_view(pending@.take(j + 1)),
                fr as int,
            ));
            assert(pend_view(rest@) =~= sel_rest(pend_view(pending@.take(j + 1)), fr as int));
        }
        j = j + 1;
    }
    proof {
        assert(pending@.take(n as int) =~= pending@);
    }
    (cmds, rest)
}

} // verus!

verus! {

/// The sample a type-1 record holds, its fields at their fixed offsets
/// behind the nine-byte record head, with the given command tokens.
#[verifier::opaque]
pub open spec fn spec_frame_at(b: Seq<u8>, pos: int, cmds: Seq<Seq<char>>) -> FrameV {
    let p = pos + 9;
    FrameV {
        frame: spec_le_i32(b, pos + 5) as i32,
        time: spec_fx32(b, pos + 1),
        vieworg: spec_vec3_at(b, p + 4),
        viewangle: spec_vec3_at(b, p + 16),
        frametime: spec_fx32(b, p + 64),
        onground: spec_le_i32(b, p + 84) != 0,
        simvel: spec_vec3_at(b, p + 92),
        simorg: spec_vec3_at(b, p + 104),
        viewheight: spec_vec3_at(b, p + 116),
        msec: b[p + 238],
        gravity: spec_fx32(b, p + 288),
        accelerate: spec_fx32(b, p + 304),
        airaccelerate: spec_fx32(b, p + 308),
        friction: spec_fx32(b, p + 316),
        edgefriction: spec_fx32(b, p + 320),
        maxvelocity: spec_fx32(b, p + 340),
        maxspeed: spec_fx32(b, p + 296),
        command: cmds,
        forwardmove: spec_fx32(b, p + 252),
        sidemove: spec_fx32(b, p + 256),
        upmove: spec_fx32(b, p + 260),
        forward: spec_vec3_at(b, p + 28),
        right: spec_vec3_at(b, p + 40),
        up: spec_vec3_at(b, p + 52),
    }
}

/// A token record's text: raw keeps all 64 characters, otherwise the
/// text is trimmed at the first NUL.
pub open spec fn token_chars(b: Seq<u8>, off: int, mode: MsgDataParseMode) -> Seq<char> {
    if mode is Raw {
        chars_of(b.subrange(off, off + 64))
    } else {
        cstr_chars(b.subrange(off, off + 64))
    }
}

/// A skip target, stopped at the end of the container.
pub open spec fn clamp_len(p: int, n: int) -> int {
    if p > n {
        n
    } else {
        p
    }
}

/// The scan over the typed frame records from `pos`: type 1 emits a
/// sample and takes the pending tokens of its tick; type 3 records a
/// token; type 5 ends the replay; the other types skip their fixed or
/// length-prefixed payloads. Running out of records ends the replay;
/// a record whose promised payload runs past the end is truncation.
pub open spec fn spec_scan_records(
    b: Seq<u8>,
    pos: int,
    mode: MsgDataParseMode,
    pending: Seq<(int, Seq<char>)>,
    acc: Seq<FrameV>,
) -> Result<Seq<FrameV>, DemoError>
    decreases b.len() - pos,
{
    let n = b.len() as int;
    if pos < 0 || pos >= n {
        Ok(acc)
    } else if pos + 9 > n {
        Err(DemoError::Truncated)
    } else {
        let t = b[pos];
        let fr = spec_le_i32(b, pos + 5);
        if t == 1 {
            if pos + 477 > n {
                Err(DemoError::Truncated)
            } else {
                let ml = spec_le_i32(b, pos + 473);
                if ml < 0 {
                    Err(DemoError::Truncated)
                } else if pos + 477 + ml > n {
                    Err(DemoError::Truncated)
                } else {
                    spec_scan_records(
                        b,
                        pos + 477 + ml,
                        mode,
                        sel_rest(pending, fr),
                        acc.push(spec_frame_at(b, pos, sel_cmds(pending, fr))),
                    )
                }
            }
        } else if t == 2 {
            spec_scan_records(b, pos + 9, mode, pending, acc)
        } else if t == 3 {
            if pos + 73 > n {
                Err(DemoError::Truncated)
            } else {
                let pending2 = if mode is Ignore {
                    pending
                } else {
                    pending.push((fr, token_chars(b, pos + 9, mode)))
                };
                spec_scan_records(b, pos + 73, mode, pending2, acc)
            }
        } else if t == 4 {
            spec_scan_records(b, clamp_len(pos + 41, n), mode, pending, acc)
        } else if t == 5 {
            Ok(acc)
        } else if t == 6 {
            spec_scan_records(b, clamp_len(pos + 93, n), mode, pending, acc)
        } else if t == 7 {
            spec_scan_records(b, clamp_len(pos + 17, n), mode, pending, acc)
        } else if t == 8 {
            if pos + 17 > n {
                Err(DemoError::Truncated)
            } else {
                let sl = spec_le_i32(b, pos + 13);
                if sl < 0 {
                    Err(DemoError::Truncated)
                } else if pos + 33 + sl > n {
                    Err(DemoError::Truncated)
                } else {
                    spec_scan_records(b, pos + 33 + sl, mode, pending, acc)
                }
            }
        } else if t == 9 {
            if pos + 13 > n {
                Err(DemoError::Truncated)
            } else {
                let l = spec_le_i32(b, pos + 9);
                if l < 0 {
                    Err(DemoError::Truncated)
                } else if pos + 13 + l > n {
                    Err(DemoError::Truncated)
                } else {
                    spec_scan_records(b, pos + 13 + l, mode, pending, acc)
                }
            }
        } else {
            spec_scan_records(b, clamp_len(pos + 13, n), mode, pending, acc)
        }
    }
}

/// The whole decode: the magic, the version word, the directory, then
/// the frame-stream scan from the second directory entry's offset. An
/// offset pointing outside the container starts the scan at the end,
/// which yields an empty replay, as following a bad offset would.
pub open spec fn spec_parse_demo(b: Seq<u8>, mode: MsgDataParseMode) -> Result<
    Seq<FrameV>,
    DemoError,
> {
    let n = b.len() as int;
    if n < 8 {
        Err(DemoError::Truncated)
    } else if !(b[0] == 72 && b[1] == 76 && b[2] == 68 && b[3] == 69 && b[4] == 77 && b[5] == 79) {
        Err(DemoError::BadMagic)
    } else if n < 12 {
        Err(DemoError::Truncated)
    } else if spec_le_i32(b, 8) != 5 {
        Err(DemoError::BadVersion)
    } else if n < 544 {
        Err(DemoError::Truncated)
    } else {
        let diro = spec_le_i32(b, 540);
        if diro < 0 || diro + 4 > n {
            Err(DemoError::Truncated)
        } else {
            let count = spec_le_i32(b, diro);
            if count < 2 {
                Err(DemoError::BadDirectory)
            } else if diro + 4 + 92 * count > n {
                Err(DemoError::Truncated)
            } else {
                let off1 = spec_le_i32(b, diro + 180);
                let start = if off1 < 0 || off1 > n {
                    n
                } else {
                    off1
                };
                spec_scan_records(b, start, mode, Seq::empty(), Seq::empty())
            }
        }
    }
}

/// Decode the type-1 sample at `pos` with the given command tokens.
fn decode_frame(b: &[u8], pos: usize, cmds: Vec<String>) -> (r: DemoFrame)
    requires
        pos + 477 <= b@.len(),
    ensures
        frame_view(r) == spec_frame_at(b@, pos as int, cmds@.map_values(|c: String| c@)),
{
    proof {
        reveal(spec_frame_at);
    }
    let _total: usize = b.len();
    let p: usize = pos + 9;
    DemoFrame {
        frame: le_i32_at(b, pos + 5),
        time: fx32_at(b, pos + 1),
        vieworg: vec3_at(b, p + 4),
        viewangle: vec3_at(b, p + 16),
        frametime: fx32_at(b, p + 64),
        onground: le_i32_at(b, p + 84) != 0,
        simvel: vec3_at(b, p + 92),
        simorg: vec3_at(b, p + 104),
        viewheight: vec3_at(b, p + 116),
        msec: b[p + 238],
        gravity: fx32_at(b, p + 288),
        accelerate: fx32_at(b, p + 304),
        airaccelerate: fx32_at(b, p + 308),
        friction: fx32_at(b, p + 316),
        edgefriction: fx32_at(b, p + 320),
        maxvelocity: fx32_at(b, p + 340),
        maxspeed: fx32_at(b, p + 296),
        command: cmds,
        forwardmove: fx32_at(b, p + 252),
        sidemove: fx32_at(b, p + 256),
        upmove: fx32_at(b, p + 260),
        forward: vec3_at(b, p + 28),
        right: vec3_at(b, p + 40),
        up: vec3_at(b, p + 52),
    }
}

/// Decode a replay container into its tick samples. The header checks
/// come in the order the fields sit in the container, and each error
/// is returned exactly when its condition holds; a well-formed
/// container yields the samples of `spec_parse_demo`.
#[verifier::rlimit(100)]
#[verifier::spinoff_prover]
pub fn parse_demo(i: &[u8], parse_mode: MsgDataParseMode) -> (r: Result<Demo, DemoError>)
    ensures
        (spec_parse_demo(i@, parse_mode) matches Err(e) ==> r == Err::<Demo, DemoError>(e)),
        (spec_parse_demo(i@, parse_mode) matches Ok(fvs) ==> (r matches Ok(d) && frames_view(
            d.frames@,
        ) == fvs)),
{
    let total: usize = i.len();
    let total64: u64 = total as u64;
    if total < 8 {
        return Err(DemoError::Truncated);
    }
    if !(i[0] == 72 && i[1] == 76 && i[2] == 68 && i[3] == 69 && i[4] == 77 && i[5] == 79) {
        return Err(DemoError::BadMagic);
    }
    if total < 12 {
        return Err(DemoError::Truncated);
    }
    if le_i32_at(i, 8) != 5 {
        return Err(DemoError::BadVersion);
    }
    if total < 544 {
        return Err(DemoError::Truncated);
    }
    let diro: i32 = le_i32_at(i, 540);
    if diro < 0 || (diro as u64) + 4 > total64 {
        return Err(DemoError::Truncated);
    }
    let dir: usize = diro as usize;
    let count: i32 = le_i32_at(i, dir);
    if count < 2 {
        return Err(DemoError::BadDirectory);
    }
    if (dir as u64) + 4 + 92 * (count as u64) > total64 {
        return Err(DemoError::Truncated);
    }
    let off1: i32 = le_i32_at(i, dir + 180);
    let start: usize = if off1 < 0 || (off1 as u64) > total64 {
        total
    } else {
        off1 as usize
    };
    let ghost start_scan: Result<Seq<FrameV>, DemoError> = spec_scan_records(
        i@,
        start as int,
        parse_mode,
        Seq::empty(),
        Seq::empty(),
    );
    proof {
        assert(spec_parse_demo(i@, parse_mode) == start_scan);
    }
    let mut pos: usize = start;
    let mut pending: Vec<(i32, String)> = Vec::new();
    let mut frames: Vec<DemoFrame> = Vec::new();
    proof {
        assert(pend_view(pending@) =~= Seq::<(int, Seq<char>)>::empty());
        assert(frames_view(frames@) =~= Seq::<FrameV>::empty());
    }
    loop
        invariant
            pos <= total,
            total == i@.len(),
            total64 == total as u64,
            spec_parse_demo(i@, parse_mode) == start_scan,
            spec_scan_records(
                i@,
                pos as int,
                parse_mode,
                pend_view(pending@),
                frames_view(frames@),
            ) == start_scan,
        decreases total - pos,
    {
        if pos >= total {
            return Ok(Demo { frames });
        }
        if (pos as u128) + 9 > (total as u128) {
            return Err(DemoError::Truncated);
        }
        let t: u8 = i[pos];
        let fr: i32 = le_i32_at(i, pos + 5);
        if t == 1 {
            if (pos as u128) + 477 > (total as u128) {
                return Err(DemoError::Truncated);
            }
            let ml: i32 = le_i32_at(i, pos + 473);
            if ml < 0 {
                return Err(DemoError::Truncated);
            }
            if (pos as u128) + 477 + (ml as u128) > (total as u128) {
                return Err(DemoError::Truncated);
            }
            let ghost pre_pending: Seq<(i32, String)> = pending@;
            let ghost pre_frames: Seq<DemoFrame> = frames@;
            let split: (Vec<String>, Vec<(i32, String)>) = take_cmds(&pending, fr);
            let f: DemoFrame = decode_frame(i, pos, split.0);
            frames.push(f);
            pending = split.1;
            proof {
                assert(frames_view(frames@) =~= frames_view(pre_frames).push(frame_view(f)));
            }
            pos = pos + 477 + (ml as usize);
        } else if t == 2 {
            pos = pos + 9;
        } else if t == 3 {
            if (pos as u128) + 73 > (total as u128) {
                return Err(DemoError::Truncated);
            }
            match parse_mode {
                MsgDataParseMode::Ignore => {},
                MsgDataParseMode::Raw => {
                    let ghost pre_pending: Seq<(i32, String)> = pending@;
                    let tok_bytes: &[u8] = vstd::slice::slice_subrange(i, pos + 9, pos + 73);
                    let tok: String = string_of_bytes(tok_bytes);
                    pending.push((fr, tok));
                    proof {
                        assert(pend_view(pending@) =~= pend_view(pre_pending).push(
                            (fr as int, token_chars(i@, pos + 9, parse_mode)),
                        ));
                    }
                },
                MsgDataParseMode::Parse => {
                    let ghost pre_pending: Seq<(i32, String)> = pending@;
                    let tok_bytes: &[u8] = vstd::slice::slice_subrange(i, pos + 9, pos + 73);
                    let tok: String = cstr_of_bytes(tok_bytes);
                    pending.push((fr, tok));
                    proof {
                        assert(pend_view(pending@) =~= pend_view(pre_pending).push(
                            (fr as int, token_chars(i@, pos + 9, parse_mode)),
                        ));
                    }
                },
            }
            pos = pos + 73;
        } else if t == 4 {
            let nxt: u128 = (pos as u128) + 41;
            pos = if nxt > (total as u128) {
                total
            } else {
                nxt as usize
            };
        } else if t == 5 {
            return Ok(Demo { frames });
        } else if t == 6 {
            let nxt: u128 = (pos as u128) + 93;
            pos = if nxt > (total as u128) {
                total
            } else {
                nxt as usize
            };
        } else if t == 7 {
            let nxt: u128 = (pos as u128) + 17;
            pos = if nxt > (total as u128) {
                total
            } else {
                nxt as usize
            };
        } else if t == 8 {
            if (pos as u128) + 17 > (total as u128) {
                return Err(DemoError::Truncated);
            }
            let sl: i32 = le_i32_at(i, pos + 13);
            if sl < 0 {
                return Err(DemoError::Truncated);
            }
            if (pos as u128) + 33 + (sl as u128) > (total as u128) {
                return Err(DemoError::Truncated);
            }
            pos = pos + 33 + (sl as usize);
        } else if t == 9 {
            if (pos as u128) + 13 > (total as u128) {
                return Err(DemoError::Truncated);
            }
            let l: i32 = le_i32_at(i, pos + 9);
            if l < 0 {
                return Err(DemoError::Truncated);
            }
            if (pos as u128) + 13 + (l as u128) > (total as u128) {
                return Err(DemoError::Truncated);
            }
            pos = pos + 13 + (l as usize);
        } else {
            let nxt: u128 = (pos as u128) + 13;
            pos = if nxt > (total as u128) {
                total
            } else {
                nxt as usize
            };
        }
    }
}

} // verus!
