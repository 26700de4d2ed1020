//! The segment extractor: one forward scan over the tick sequence that
//! detects duck/jump inputs at their fixed lags, extends each technique
//! backward over its grounded run-up, tolerates up to ten grounded
//! ticks inside a technique, and emits the technique's tick range.

use vstd::prelude::*;
use crate::analyze::{pm_friction, strafe_optimize};
use crate::bspfile::BspData;
use crate::demo::{DemoFrame, Vector3};
use vstd::slice::slice_subrange;

verus! {

/// A detected input: 0 for duck, 1 for jump, with the tick number it
/// was observed on. Diagnostic only.
#[derive(Clone, Copy, Debug, PartialEq, Eq, Structural)]
pub struct MovementData {
    pub movement_type: u8,
    pub frame: i32,
}

/// One jump technique: an inclusive tick range of the source sequence
/// and a view into the samples it spans. The samples stay owned by the
/// caller; a segment never copies them.
#[derive(Debug)]
pub struct JumpSegment<'a> {
    pub start_index: usize,
    pub end_index: usize,
    pub frames: &'a [DemoFrame],
}

/// The scan's state: outside any technique, or inside one with its
/// start tick, the grounded ticks seen since the last airborne tick,
/// the last airborne tick that kept it open, and the inputs seen.
pub enum ScanState {
    Idle,
    Sequenced { start: int, grounded_streak: int, last_touched: int, events: Seq<MovementData> },
}

/// Whether a tick's command set holds the given token.
pub open spec fn has_token(f: DemoFrame, tok: Seq<char>) -> bool {
    exists|j: int| 0 <= j < f.command@.len() && (#[trigger] f.command@[j])@ == tok
}

/// Duck detection at tick `i`: the tick two back was grounded and
/// carried a duck token. Reading before the sequence start counts as
/// false, never as a fault.
pub open spec fn duck_cond(frames: Seq<DemoFrame>, i: int) -> bool {
    i >= 2 && frames[i - 2].onground && has_token(frames[i - 2], "+duck"@)
}

/// Jump detection at tick `i`: the previous tick was grounded and
/// carried a jump token.
pub open spec fn jump_cond(frames: Seq<DemoFrame>, i: int) -> bool {
    i >= 1 && frames[i - 1].onground && has_token(frames[i - 1], "+jump"@)
}

/// Backward run-up scan from tick `t`: walk back while ticks remain
/// grounded, at most `fuel` steps, and return the earliest tick found.
pub open spec fn spec_runup(frames: Seq<DemoFrame>, t: int, fuel: nat) -> int
    decreases fuel,
{
    if fuel == 0 || t <= 0 {
        t
    } else if frames[t - 1].onground {
        spec_runup(frames, t - 1, (fuel - 1) as nat)
    } else {
        t
    }
}

/// The run-up scan moves only backward, never below zero, and only
/// over grounded ticks.
pub proof fn lemma_runup(frames: Seq<DemoFrame>, t: int, fuel: nat)
    ensures
        spec_runup(frames, t, fuel) <= t,
        t >= 0 ==> spec_runup(frames, t, fuel) >= 0,
        t - spec_runup(frames, t, fuel) <= fuel,
        forall|j: int|
            spec_runup(frames, t, fuel) <= j < t ==> (#[trigger] frames[j]).onground,
    decreases fuel,
{
    if fuel == 0 || t <= 0 {
    } else if frames[t - 1].onground {
        lemma_runup(frames, t - 1, (fuel - 1) as nat);
    }
}

/// A detected input applied to the state: from idle it opens a
/// technique whose start is the run-up scan from the triggering tick;
/// inside a technique the run-up scan from the earlier of the trigger
/// and the current start may only pull the start earlier. Either way
/// the input is recorded with the triggering tick's own tick number.
pub open spec fn apply_event(
    frames: Seq<DemoFrame>,
    i: int,
    trigger: int,
    kind: u8,
    st: ScanState,
) -> ScanState {
    let ev = MovementData { movement_type: kind, frame: frames[trigger].frame };
    match st {
        ScanState::Idle => ScanState::Sequenced {
            start: spec_runup(frames, trigger, 15),
            grounded_streak: 0,
            last_touched: i,
            events: Seq::empty().push(ev),
        },
        ScanState::Sequenced { start, grounded_streak, last_touched, events } => {
            let base = if trigger <= start {
                trigger
            } else {
                start
            };
            ScanState::Sequenced {
                start: spec_runup(frames, base, 15),
                grounded_streak,
                last_touched,
                events: events.push(ev),
            }
        },
    }
}

/// One grounded tick: inside a technique the grounded streak grows,
/// and past ten ticks the technique closes, its end the tick before
/// the last airborne touch (never before its start).
pub open spec fn step_grounded(st: ScanState, segs: Seq<(int, int)>) -> (ScanState, Seq<
    (int, int),
>) {
    match st {
        ScanState::Idle => (ScanState::Idle, segs),
        ScanState::Sequenced { start, grounded_streak, last_touched, events } => {
            let streak = grounded_streak + 1;
            if streak > 10 {
                let seg_end = if last_touched - 1 >= start {
                    last_touched - 1
                } else {
                    start
                };
                (ScanState::Idle, segs.push((start, seg_end)))
            } else {
                (
                    ScanState::Sequenced {
                        start,
                        grounded_streak: streak,
                        last_touched,
                        events,
                    },
                    segs,
                )
            }
        },
    }
}

/// One airborne tick: the grounded streak resets, the two lag
/// conditions fire in duck-then-jump order, and an open technique is
/// touched so it stays open through airborne time.
pub open spec fn step_airborne(frames: Seq<DemoFrame>, i: int, st: ScanState) -> ScanState {
    let st0 = match st {
        ScanState::Idle => ScanState::Idle,
        ScanState::Sequenced { start, grounded_streak, last_touched, events } => {
            ScanState::Sequenced { start, grounded_streak: 0, last_touched, events }
        },
    };
    let st1 = if duck_cond(frames, i) {
        apply_event(frames, i, i - 2, 0, st0)
    } else {
        st0
    };
    let st2 = if jump_cond(frames, i) {
        apply_event(frames, i, i - 1, 1, st1)
    } else {
        st1
    };
    match st2 {
        ScanState::Idle => ScanState::Idle,
        ScanState::Sequenced { start, grounded_streak, last_touched, events } => {
            ScanState::Sequenced { start, grounded_streak, last_touched: i, events }
        },
    }
}

/// One tick of the scan.
pub open spec fn spec_step(frames: Seq<DemoFrame>, i: int, st: ScanState, segs: Seq<(int, int)>)
    -> (ScanState, Seq<(int, int)>) {
    if frames[i].onground {
        step_grounded(st, segs)
    } else {
        (step_airborne(frames, i, st), segs)
    }
}

/// The scan after the first `n` ticks, started idle with no segments.
pub open spec fn spec_scan_ticks(frames: Seq<DemoFrame>, n: int) -> (ScanState, Seq<(int, int)>)
    decreases n,
{
    if n <= 0 {
        (ScanState::Idle, Seq::empty())
    } else {
        let prev = spec_scan_ticks(frames, n - 1);
        spec_step(frames, n - 1, prev.0, prev.1)
    }
}

/// The emitted segments: the full scan, plus the final segment of a
/// technique still open when the ticks run out.
pub open spec fn spec_segments(frames: Seq<DemoFrame>) -> Seq<(int, int)> {
    let end = spec_scan_ticks(frames, frames.len() as int);
    match end.0 {
        ScanState::Idle => end.1,
        ScanState::Sequenced { start, grounded_streak, last_touched, events } => {
            let seg_end = if last_touched >= start {
                last_touched
            } else {
                start
            };
            end.1.push((start, seg_end))
        },
    }
}

/// The (start, end) pairs of emitted segments.
pub open spec fn seg_pairs<'a>(segs: Seq<JumpSegment<'a>>) -> Seq<(int, int)> {
    segs.map_values(|s: JumpSegment<'a>| (s.start_index as int, s.end_index as int))
}

/// What the scan maintains, with `b` the barrier tick: every emitted
/// range is in bounds, ordered and disjoint, and ends at or before the
/// barrier; the barrier was airborne and lies at least twelve ticks
/// back; an open technique starts after the barrier, on a grounded
/// tick, and was last touched on an airborne tick before `n`.
pub open spec fn scan_inv_at(
    frames: Seq<DemoFrame>,
    n: int,
    st: ScanState,
    segs: Seq<(int, int)>,
    b: int,
) -> bool {
    &&& -1 <= b < n
    &&& (b >= 0 ==> !frames[b].onground && b <= n - 12)
    &&& (b == -1 ==> segs.len() == 0)
    &&& forall|k: int| 0 <= k < segs.len() ==> 0 <= (#[trigger] segs[k]).0 <= segs[k].1 <= b
    &&& forall|k1: int, k2: int|
        0 <= k1 < k2 < segs.len() ==> (#[trigger] segs[k1]).1 < (#[trigger] segs[k2]).0
    &&& match st {
        ScanState::Idle => true,
        ScanState::Sequenced { start, grounded_streak, last_touched, events } => {
            &&& b < start
            &&& 0 <= start < last_touched < n
            &&& !frames[last_touched].onground
            &&& frames[start].onground
            &&& 0 <= grounded_streak <= 10
            &&& last_touched + grounded_streak <= n - 1
        },
    }
}

/// The scan's state and output after `n` ticks satisfy the invariant
/// for some barrier.
pub open spec fn scan_inv(frames: Seq<DemoFrame>, n: int) -> bool {
    exists|b: int|
        scan_inv_at(frames, n, spec_scan_ticks(frames, n).0, spec_scan_ticks(frames, n).1, b)
}

proof fn lemma_event_after_barrier(
    frames: Seq<DemoFrame>,
    n: int,
    i: int,
    trigger: int,
    kind: u8,
    st: ScanState,
    segs: Seq<(int, int)>,
    b: int,
)
    requires
        scan_inv_at(frames, n, st, segs, b),
        i == n,
        n < frames.len(),
        !frames[i].onground,
        trigger == i - 1 || trigger == i - 2,
        trigger >= 0,
        frames[trigger].onground,
        st is Sequenced ==> st->Sequenced_grounded_streak == 0,
    ensures
        scan_inv_at(
            frames,
            n + 1,
            touch_at(apply_event(frames, i, trigger, kind, st), i),
            segs,
            b,
        ),
{
    match st {
        ScanState::Idle => {
            let r = spec_runup(frames, trigger, 15);
            lemma_runup(frames, trigger, 15);
            if b >= 0 && r <= b {
                assert(frames[b].onground);
            }
            assert(r > b);
        },
        ScanState::Sequenced { start, grounded_streak, last_touched, events } => {
            let base = if trigger <= start {
                trigger
            } else {
                start
            };
            let r = spec_runup(frames, base, 15);
            lemma_runup(frames, base, 15);
            assert(frames[base].onground);
            if b >= 0 && r <= b {
                assert(frames[b].onground);
            }
            assert(r > b);
        },
    }
}

/// An open technique's state after the airborne touch at tick `i`.
pub open spec fn touch_at(st: ScanState, i: int) -> ScanState {
    match st {
        ScanState::Idle => ScanState::Idle,
        ScanState::Sequenced { start, grounded_streak, last_touched, events } => {
            ScanState::Sequenced { start, grounded_streak, last_touched: i, events }
        },
    }
}

/// The scan's invariant holds after any number of ticks.
pub proof fn lemma_scan_inv(frames: Seq<DemoFrame>, n: int)
    requires
        0 <= n <= frames.len(),
    ensures
        scan_inv(frames, n),
    decreases n,
{
    if n == 0 {
        assert(scan_inv_at(frames, 0, spec_scan_ticks(frames, 0).0, spec_scan_ticks(frames, 0).1, -1));
    } else {
        lemma_scan_inv(frames, n - 1);
        let i = n - 1;
        let st = spec_scan_ticks(frames, i).0;
        let segs = spec_scan_ticks(frames, i).1;
        let b = choose|b: int| scan_inv_at(frames, i, st, segs, b);
        if frames[i].onground {
            match st {
                ScanState::Idle => {
                    assert(spec_scan_ticks(frames, n).0 == st);
                    assert(spec_scan_ticks(frames, n).1 == segs);
                    assert(scan_inv_at(
                        frames,
                        n,
                        spec_scan_ticks(frames, n).0,
                        spec_scan_ticks(frames, n).1,
                        b,
                    ));
                },
                ScanState::Sequenced { start, grounded_streak, last_touched, events } => {
                    if grounded_streak + 1 > 10 {
                        let seg_end = if last_touched - 1 >= start {
                            last_touched - 1
                        } else {
                            start
                        };
                        let segs2 = segs.push((start, seg_end));
                        assert(seg_end == last_touched - 1);
                        assert(forall|k: int|
                            0 <= k < segs2.len() ==> 0 <= (#[trigger] segs2[k]).0 <= segs2[k].1
                                <= last_touched);
                        assert(scan_inv_at(frames, n, ScanState::Idle, segs2, last_touched));
                        assert(spec_scan_ticks(frames, n).0 == ScanState::Idle);
                        assert(spec_scan_ticks(frames, n).1 == segs2);
                        assert(scan_inv_at(
                            frames,
                            n,
                            spec_scan_ticks(frames, n).0,
                            spec_scan_ticks(frames, n).1,
                            last_touched,
                        ));
                    } else {
                        assert(scan_inv_at(
                            frames,
                            n,
                            ScanState::Sequenced {
                                start,
                                grounded_streak: grounded_streak + 1,
                                last_touched,
                                events,
                            },
                            segs,
                            b,
                        ));
                        assert(spec_scan_ticks(frames, n).0 == (ScanState::Sequenced {
                            start,
                            grounded_streak: grounded_streak + 1,
                            last_touched,
                            events,
                        }));
                        assert(spec_scan_ticks(frames, n).1 == segs);
                        assert(scan_inv_at(
                            frames,
                            n,
                            spec_scan_ticks(frames, n).0,
                            spec_scan_ticks(frames, n).1,
                            b,
                        ));
                    }
                },
            }
        } else {
            let st0 = step_cleared(st);
            assert(scan_inv_at(frames, i, st0, segs, b));
            let st1 = if duck_cond(frames, i) {
                apply_event(frames, i, i - 2, 0, st0)
            } else {
                st0
            };
            let st2 = if jump_cond(frames, i) {
                apply_event(frames, i, i - 1, 1, st1)
            } else {
                st1
            };
            if duck_cond(frames, i) {
                lemma_event_after_barrier(frames, i, i, i - 2, 0, st0, segs, b);
            }
            if jump_cond(frames, i) {
                match st1 {
                    ScanState::Idle => {
                        lemma_event_after_barrier(frames, i, i, i - 1, 1, st1, segs, b);
                    },
                    ScanState::Sequenced { start, grounded_streak, last_touched, events } => {
                        if duck_cond(frames, i) {
                            assert(scan_inv_at(frames, n, touch_at(st1, i), segs, b));
                            let base = if i - 1 <= start {
                                i - 1
                            } else {
                                start
                            };
                            let r = spec_runup(frames, base, 15);
                            lemma_runup(frames, base, 15);
                            assert(frames[base].onground);
                            if b >= 0 && r <= b {
                                assert(frames[b].onground);
                            }
                            assert(r > b);
                        } else {
                            lemma_event_after_barrier(frames, i, i, i - 1, 1, st1, segs, b);
                        }
                    },
                }
            }
            assert(spec_step(frames, i, st, segs).0 == touch_at(st2, i));
            assert(scan_inv_at(frames, n, touch_at(st2, i), segs, b));
            assert(spec_scan_ticks(frames, n).0 == touch_at(st2, i));
            assert(spec_scan_ticks(frames, n).1 == segs);
            assert(scan_inv_at(
                frames,
                n,
                spec_scan_ticks(frames, n).0,
                spec_scan_ticks(frames, n).1,
                b,
            ));
        }
    }
}

/// Every emitted pair is an in-bounds, ordered range, and the pairs
/// are emitted in strictly increasing, non-overlapping order.
pub proof fn lemma_segments_wf(frames: Seq<DemoFrame>)
    ensures
        forall|k: int|
            0 <= k < spec_segments(frames).len() ==> {
                &&& 0 <= (#[trigger] spec_segments(frames)[k]).0
                &&& spec_segments(frames)[k].0 <= spec_segments(frames)[k].1
                &&& spec_segments(frames)[k].1 < frames.len()
            },
        forall|k1: int, k2: int|
            0 <= k1 < k2 < spec_segments(frames).len() ==> (#[trigger] spec_segments(
                frames,
            )[k1]).1 < (#[trigger] spec_segments(frames)[k2]).0,
{
    let n = frames.len() as int;
    lemma_scan_inv(frames, n);
    let st = spec_scan_ticks(frames, n).0;
    let segs = spec_scan_ticks(frames, n).1;
    let b = choose|b: int| scan_inv_at(frames, n, st, segs, b);
    match st {
        ScanState::Idle => {
        },
        ScanState::Sequenced { start, grounded_streak, last_touched, events } => {
            assert(spec_segments(frames) == segs.push((start, last_touched)));
        },
    }
}

/// Whether one of the tick's command tokens equals `tok`.
fn has_cmd(f: &DemoFrame, tok: &str) -> (r: bool)
    ensures
        r == has_token(*f, tok@),
{
    let t: String = tok.to_owned();
    let n: usize = f.command.len();
    let mut j: usize = 0;
    while j < n
        invariant
            n == f.command@.len(),
            j <= n,
            t@ == tok@,
            forall|jj: int| 0 <= jj < j ==> (#[trigger] f.command@[jj])@ != tok@,
        decreases n - j,
    {
        let cj: &String = &f.command[j];
        if cj.eq(&t) {
            return true;
        }
        j = j + 1;
    }
    false
}

/// Backward run-up scan: from tick `t`, walk back over grounded ticks,
/// at most fifteen steps, and return the earliest tick reached.
fn runup_scan(frames: &[DemoFrame], t: usize) -> (r: usize)
    requires
        t < frames@.len(),
    ensures
        r as int == spec_runup(frames@, t as int, 15),
        r <= t,
{
    let mut r: usize = t;
    let mut fuel: usize = 15;
    loop
        invariant
            r <= t < frames@.len(),
            fuel <= 15,
            spec_runup(frames@, t as int, 15) == spec_runup(frames@, r as int, fuel as nat),
        decreases fuel,
    {
        if fuel == 0 || r == 0 {
            return r;
        }
        if !frames[r - 1].onground {
            return r;
        }
        r = r - 1;
        fuel = fuel - 1;
    }
}

/// Scan the tick sequence once, in order, and emit every jump
/// technique as an inclusive tick range with a view into the samples
/// it spans. Friction and strafe-optimization are evaluated along the
/// way for observability only and do not affect the result.
pub fn extract_jump_segments<'a>(frames: &'a [DemoFrame], map_data: &BspData) -> (segments: Vec<
    JumpSegment<'a>,
>)
    ensures
        seg_pairs(segments@) == spec_segments(frames@),
        segments_bounded(segments@, frames@),
        forall|k1: int, k2: int|
            0 <= k1 < k2 < segments@.len() ==> (#[trigger] segments@[k1]).end_index < (
            #[trigger] segments@[k2]).start_index,
{
    let ghost gframes: Seq<DemoFrame> = frames@;
    let mut segments: Vec<JumpSegment<'a>> = Vec::new();
    let mut movements: Vec<MovementData> = Vec::new();
    let mut is_sequenced: bool = false;
    let mut frames_on_ground: u8 = 0;
    let mut current_segment_start: usize = 0;
    let mut last_segment_index: usize = 0;
    let mut i: usize = 0;
    while i < frames.len()
        invariant
            i <= gframes.len(),
            gframes == frames@,
            state_matches(
                gframes,
                i as int,
                is_sequenced,
                frames_on_ground,
                current_segment_start,
                last_segment_index,
                movements@,
            ),
            seg_pairs(segments@) == spec_scan_ticks(gframes, i as int).1,
            segments_bounded(segments@, gframes),
            !is_sequenced ==> movements@.len() == 0,
        decreases gframes.len() - i,
    {
        let ghost pre = spec_scan_ticks(gframes, i as int);
        proof {
            lemma_scan_inv(gframes, i as int);
            assert(spec_scan_ticks(gframes, i + 1) == spec_step(gframes, i as int, pre.0, pre.1));
        }
        let ghost barrier = choose|bb: int| scan_inv_at(gframes, i as int, pre.0, pre.1, bb);
        let _diag_opt: (i64, Vector3) = strafe_optimize(&frames[i]);
        if frames[i].onground {
            let _diag_fric: Vector3 = pm_friction(&frames[i], map_data);
            if is_sequenced {
                frames_on_ground = frames_on_ground + 1;
                if frames_on_ground > 10 {
                    let seg_end: usize = if last_segment_index > current_segment_start {
                        last_segment_index - 1
                    } else {
                        current_segment_start
                    };
                    let sl: &[DemoFrame] = slice_subrange(frames, current_segment_start, seg_end
                        + 1);
                    segments.push(
                        JumpSegment {
                            start_index: current_segment_start,
                            end_index: seg_end,
                            frames: sl,
                        },
                    );
                    is_sequenced = false;
                    frames_on_ground = 0;
                    movements.clear();
                    current_segment_start = 0;
                    proof {
                        assert(spec_scan_ticks(gframes, i + 1).0 == ScanState::Idle);
                        assert(seg_pairs(segments@) =~= spec_scan_ticks(gframes, i + 1).1);
                    }
                } else {
                    proof {
                        assert(spec_scan_ticks(gframes, i + 1).0 == (ScanState::Sequenced {
                            start: current_segment_start as int,
                            grounded_streak: frames_on_ground as int,
                            last_touched: last_segment_index as int,
                            events: movements@,
                        }));
                        assert(spec_scan_ticks(gframes, i + 1).1 == pre.1);
                    }
                }
            } else {
                proof {
                    assert(spec_scan_ticks(gframes, i + 1).0 == ScanState::Idle);
                    assert(spec_scan_ticks(gframes, i + 1).1 == pre.1);
                }
            }
            i = i + 1;
            continue ;
        }
        frames_on_ground = 0;
        let ghost st0 = step_cleared(pre.0);
        proof {
            assert(vars_match(
                st0,
                is_sequenced,
                frames_on_ground,
                current_segment_start,
                last_segment_index,
                movements@,
            ));
        }
        let duck_fired: bool = i >= 2 && frames[i - 2].onground && has_cmd(
            &frames[i - 2],
            "+duck",
        );
        if duck_fired {
            proof {
                assert(duck_cond(gframes, i as int));
            }
            let mv = MovementData { movement_type: 0, frame: frames[i - 2].frame };
            if !is_sequenced {
                is_sequenced = true;
                current_segment_start = runup_scan(frames, i - 2);
                last_segment_index = i;
                movements.push(mv);
                proof {
                    assert(movements@ =~= Seq::<MovementData>::empty().push(mv));
                }
            } else {
                let base: usize = if i - 2 <= current_segment_start {
                    i - 2
                } else {
                    current_segment_start
                };
                current_segment_start = runup_scan(frames, base);
                movements.push(mv);
            }
        } else {
            proof {
                assert(!duck_cond(gframes, i as int));
            }
        }
        let ghost st1 = if duck_cond(gframes, i as int) {
            apply_event(gframes, i as int, i - 2, 0, st0)
        } else {
            st0
        };
        proof {
            assert(vars_match(
                st1,
                is_sequenced,
                frames_on_ground,
                current_segment_start,
                last_segment_index,
                movements@,
            ));
        }
        let jump_fired: bool = i >= 1 && frames[i - 1].onground && has_cmd(
            &frames[i - 1],
            "+jump",
        );
        if jump_fired {
            proof {
                assert(jump_cond(gframes, i as int));
            }
            let mv = MovementData { movement_type: 1, frame: frames[i - 1].frame };
            if !is_sequenced {
                is_sequenced = true;
                current_segment_start = runup_scan(frames, i - 1);
                last_segment_index = i;
                movements.push(mv);
                proof {
                    assert(movements@ =~= Seq::<MovementData>::empty().push(mv));
                }
            } else {
                let base: usize = if i - 1 <= current_segment_start {
                    i - 1
                } else {
                    current_segment_start
                };
                current_segment_start = runup_scan(frames, base);
                movements.push(mv);
            }
        } else {
            proof {
                assert(!jump_cond(gframes, i as int));
            }
        }
        let ghost st2 = if jump_cond(gframes, i as int) {
            apply_event(gframes, i as int, i - 1, 1, st1)
        } else {
            st1
        };
        proof {
            assert(vars_match(
                st2,
                is_sequenced,
                frames_on_ground,
                current_segment_start,
                last_segment_index,
                movements@,
            ));
        }
        if is_sequenced {
            last_segment_index = i;
        }
        proof {
            assert(step_airborne(gframes, i as int, pre.0) == touch_at(st2, i as int));
            assert(spec_scan_ticks(gframes, i + 1).0 == touch_at(st2, i as int));
            assert(spec_scan_ticks(gframes, i + 1).1 == pre.1);
            assert(vars_match(
                touch_at(st2, i as int),
                is_sequenced,
                frames_on_ground,
                current_segment_start,
                last_segment_index,
                movements@,
            ));
        }
        i = i + 1;
    }
    if is_sequenced {
        proof {
            lemma_scan_inv(gframes, i as int);
        }
        let seg_end: usize = if last_segment_index > current_segment_start {
            last_segment_index
        } else {
            current_segment_start
        };
        let sl: &[DemoFrame] = slice_subrange(frames, current_segment_start, seg_end + 1);
        segments.push(
            JumpSegment {
                start_index: current_segment_start,
                end_index: seg_end,
                frames: sl,
            },
        );
        proof {
            assert(seg_pairs(segments@) =~= spec_segments(gframes));
        }
    }
    proof {
        lemma_segments_wf(gframes);
        assert forall|k1: int, k2: int|
            0 <= k1 < k2 < segments@.len() implies (#[trigger] segments@[k1]).end_index < (
        #[trigger] segments@[k2]).start_index by {
            assert(seg_pairs(segments@)[k1] == (
                segments@[k1].start_index as int,
                segments@[k1].end_index as int,
            ));
            assert(seg_pairs(segments@)[k2] == (
                segments@[k2].start_index as int,
                segments@[k2].end_index as int,
            ));
        }
    }
    segments
}

/// A scan over ticks none of which carries a duck or jump token stays
/// idle and emits nothing.
proof fn lemma_no_tokens_scan(frames: Seq<DemoFrame>, n: int)
    requires
        0 <= n <= frames.len(),
        forall|i: int|
            0 <= i < frames.len() ==> !has_token(#[trigger] frames[i], "+duck"@) && !has_token(
                frames[i],
                "+jump"@,
            ),
    ensures
        spec_scan_ticks(frames, n).0 == ScanState::Idle,
        spec_scan_ticks(frames, n).1 == Seq::<(int, int)>::empty(),
    decreases n,
{
    if n > 0 {
        lemma_no_tokens_scan(frames, n - 1);
        let i = n - 1;
        if !frames[i].onground {
            assert(!duck_cond(frames, i));
            assert(!jump_cond(frames, i));
        }
    }
}

/// A sequence containing no duck or jump command token anywhere yields
/// zero segments.
pub proof fn lemma_no_tokens_no_segments(frames: Seq<DemoFrame>)
    requires
        forall|i: int|
            0 <= i < frames.len() ==> !has_token(#[trigger] frames[i], "+duck"@) && !has_token(
                frames[i],
                "+jump"@,
            ),
    ensures
        spec_segments(frames).len() == 0,
{
    lemma_no_tokens_scan(frames, frames.len() as int);
}

/// The extractor is deterministic: its contract pins the emitted
/// ranges to `spec_segments` of the input alone, so any two runs over
/// the same immutable sequence produce identical segment lists.
pub proof fn lemma_extract_deterministic<'a, 'b>(
    frames: Seq<DemoFrame>,
    r1: Seq<JumpSegment<'a>>,
    r2: Seq<JumpSegment<'b>>,
)
    requires
        seg_pairs(r1) == spec_segments(frames),
        seg_pairs(r2) == spec_segments(frames),
    ensures
        seg_pairs(r1) == seg_pairs(r2),
{
}

/// The exec scan variables as a mid-tick state value.
pub open spec fn vars_match(
    st: ScanState,
    is_sequenced: bool,
    frames_on_ground: u8,
    current_segment_start: usize,
    last_segment_index: usize,
    movements: Seq<MovementData>,
) -> bool {
    match st {
        ScanState::Idle => !is_sequenced,
        ScanState::Sequenced { start, grounded_streak, last_touched, events } => {
            &&& is_sequenced
            &&& start == current_segment_start as int
            &&& grounded_streak == frames_on_ground as int
            &&& last_touched == last_segment_index as int
            &&& events == movements
        },
    }
}

/// The state a tick's airborne branch starts from: the grounded streak
/// cleared, everything else kept.
pub open spec fn step_cleared(st: ScanState) -> ScanState {
    match st {
        ScanState::Idle => ScanState::Idle,
        ScanState::Sequenced { start, grounded_streak, last_touched, events } => {
            ScanState::Sequenced { start, grounded_streak: 0, last_touched, events }
        },
    }
}

/// The exec scan variables as the state they stand for.
pub open spec fn state_matches(
    frames: Seq<DemoFrame>,
    n: int,
    is_sequenced: bool,
    frames_on_ground: u8,
    current_segment_start: usize,
    last_segment_index: usize,
    movements: Seq<MovementData>,
) -> bool {
    if is_sequenced {
        spec_scan_ticks(frames, n).0 == (ScanState::Sequenced {
            start: current_segment_start as int,
            grounded_streak: frames_on_ground as int,
            last_touched: last_segment_index as int,
            events: movements,
        })
    } else {
        spec_scan_ticks(frames, n).0 == ScanState::Idle
    }
}

/// Every emitted segment's view is the matching subrange of the source.
pub open spec fn segments_bounded<'a>(segs: Seq<JumpSegment<'a>>, frames: Seq<DemoFrame>) -> bool {
    forall|k: int|
        0 <= k < segs.len() ==> {
            &&& (#[trigger] segs[k]).start_index <= segs[k].end_index
            &&& segs[k].end_index < frames.len()
            &&& segs[k].frames@ == frames.subrange(
                segs[k].start_index as int,
                segs[k].end_index as int + 1,
            )
        }
}

} // verus!
