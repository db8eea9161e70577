//! The shrinking machinery.
//!
//! A shrink attempt installs a candidate value into a snapshot of the
//! recording, re-runs the predicate in the shrinking phase over that
//! snapshot, and keeps the candidate exactly when the predicate still
//! fails. For entries of a nested recording, the candidate is first folded
//! outward: each enclosing derived entry replays its plan over its own
//! nested snapshot to recompose the composite value that the top-level
//! recording sees.

use vstd::prelude::*;

use crate::context::is_replay_start;
use crate::context::Maat;
use crate::context::UsageError;
use crate::generators::plan_replay;
use crate::generators::run_plan_replay;
use crate::generators::Plan;
use crate::record::entries_le;
use crate::record::entries_log;
use crate::record::entry_le;
use crate::record::log_upd;
use crate::record::log_view;
use crate::record::log_with;
use crate::record::rec_view;
use crate::record::seq_mass;
use crate::record::shr_height;
use crate::record::shr_le;
use crate::record::shr_mass;
use crate::record::snapshot_log;
use crate::record::wf_entries;
use crate::record::wf_entry;
use crate::record::wf_shr;
use crate::record::Entry;
use crate::record::LogEntry;
use crate::record::LogEntryV;
use crate::record::Reducer;
use crate::record::Shrinkable;
use crate::value::Value;
use crate::value::ValueV;

verus! {

broadcast use vstd::std_specs::vec::group_vec_axioms;

/// A predicate the driver may hand a context to, as often as it needs.
pub open(crate) spec fn callable<F: Fn(Maat) -> (Maat, bool)>(f: F) -> bool {
    forall|m: Maat| #[trigger] f.requires((m,))
}

/// Some run of the predicate over a shrinking context on this log returned
/// `false`: the recorded values still exhibit the failure.
pub open(crate) spec fn some_run_false<F: Fn(Maat) -> (Maat, bool)>(
    f: F,
    log: Seq<LogEntryV>,
) -> bool {
    exists|m: Maat, out: (Maat, bool)|
        is_replay_start(m@, log) && #[trigger] f.ensures((m,), out) && out.1 == false
}

/// Some run of the predicate over a shrinking context on this log returned
/// `true`: the candidate behind this log was tried and rejected.
pub open(crate) spec fn some_run_true<F: Fn(Maat) -> (Maat, bool)>(
    f: F,
    log: Seq<LogEntryV>,
) -> bool {
    exists|m: Maat, out: (Maat, bool)|
        is_replay_start(m@, log) && #[trigger] f.ensures((m,), out) && out.1 == true
}

/// Some shrinking-phase run of the predicate handed back a context that
/// carried exactly this usage error.
pub open(crate) spec fn err_witness<F: Fn(Maat) -> (Maat, bool)>(
    f: F,
    e: crate::context::UsageErrorV,
) -> bool {
    exists|m: Maat, out: (Maat, bool)|
        m@.phase is Shrinking && #[trigger] f.ensures((m,), out) && out.0@.err == Some(e)
}

/// One level of recomposition context for a value being shrunk inside a
/// nested recording: the plan of the enclosing derived entry, a snapshot of
/// its sibling entries, and the position being varied.
pub(crate) struct Frame {
    pub(crate) plan: Plan,
    pub(crate) log: Vec<LogEntry>,
    pub(crate) idx: usize,
}

/// The shape of a [`Frame`].
pub struct FrameV {
    pub plan: Plan,
    pub log: Seq<LogEntryV>,
    pub idx: usize,
}

pub open(crate) spec fn frame_view(fr: Frame) -> FrameV {
    FrameV { plan: fr.plan, log: log_view(fr.log@), idx: fr.idx }
}

pub open(crate) spec fn frames_view(s: Seq<Frame>) -> Seq<FrameV> {
    Seq::new(
        s.len(),
        |i: int|
            if 0 <= i < s.len() {
                frame_view(s[i])
            } else {
                FrameV { plan: arbitrary(), log: Seq::empty(), idx: 0 }
            },
    )
}

pub open(crate) spec fn wf_frames(fs: Seq<FrameV>) -> bool {
    forall|k: int| 0 <= k < fs.len() ==> (#[trigger] fs[k]).idx < fs[k].log.len()
}

/// The top-level log that results from installing value `v` at the spot the
/// frames describe: each frame, innermost last, replays its plan over its
/// sibling snapshot with the value substituted, and the outcome replaces
/// the entry `at` of the base log. `None` when some replay fails.
pub open(crate) spec fn compose_log(
    base: Seq<LogEntryV>,
    at: int,
    frames: Seq<FrameV>,
    v: ValueV,
) -> Option<Seq<LogEntryV>>
    decreases frames.len(),
{
    if frames.len() == 0 {
        Some(log_upd(base, at, v))
    } else {
        let fr = frames.last();
        match plan_replay(fr.plan, log_upd(fr.log, fr.idx as int, v)) {
            Some(v2) => compose_log(base, at, frames.drop_last(), v2),
            None => None,
        }
    }
}

/// The candidate `v`, composed outward through the frames, yields a log on
/// which some run of the predicate still failed.
pub open(crate) spec fn composed_witness<F: Fn(Maat) -> (Maat, bool)>(
    f: F,
    base: Seq<LogEntryV>,
    at: int,
    frames: Seq<FrameV>,
    v: ValueV,
) -> bool {
    match compose_log(base, at, frames, v) {
        Some(l) => some_run_false(f, l),
        None => false,
    }
}

/// The candidate `v`, composed outward through the frames, was refused:
/// either its recomposition fails outright, or some run of the predicate
/// passed on the composed log.
pub open(crate) spec fn rejected_step<F: Fn(Maat) -> (Maat, bool)>(
    f: F,
    base: Seq<LogEntryV>,
    at: int,
    frames: Seq<FrameV>,
    v: ValueV,
) -> bool {
    match compose_log(base, at, frames, v) {
        Some(l) => some_run_true(f, l),
        None => true,
    }
}

/// Minimality of a shrinkable standing at `at` under the given frames:
/// either the value sits at its reducer's floor, or the first candidate of
/// every reduction pass — the logarithmic, the halving and the unit
/// candidate for numeric values, the one-step candidate for characters —
/// was tried against it and rejected; for a nested recording, the same
/// holds of every nested entry. This is the fixpoint condition of the
/// shrinking phase: one more reducer invocation would change nothing.
pub open(crate) spec fn shr_minimal<F: Fn(Maat) -> (Maat, bool)>(
    f: F,
    base: Seq<LogEntryV>,
    at: int,
    frames: Seq<FrameV>,
    s: crate::record::ShrinkableV,
) -> bool
    decreases s,
{
    match s.reducer {
        crate::record::ReducerV::NoShrink => true,
        crate::record::ReducerV::NumI64 { min } => s.value matches ValueV::I64(n) && (n == min || {
            &&& rejected_step(
                f,
                base,
                at,
                frames,
                ValueV::I64((min + spec_ilog10((n - min) as nat)) as i64),
            )
            &&& rejected_step(f, base, at, frames, ValueV::I64((min + (n - min) / 2) as i64))
            &&& rejected_step(f, base, at, frames, ValueV::I64((n - 1) as i64))
        }),
        crate::record::ReducerV::NumUsize { min } => s.value matches ValueV::Usize(n) && (n == min
            || {
            &&& rejected_step(
                f,
                base,
                at,
                frames,
                ValueV::Usize((min + spec_ilog10((n - min) as nat)) as usize),
            )
            &&& rejected_step(f, base, at, frames, ValueV::Usize((min + (n - min) / 2) as usize))
            &&& rejected_step(f, base, at, frames, ValueV::Usize((n - 1) as usize))
        }),
        crate::record::ReducerV::AlnumToX => s.value matches ValueV::Char(c) && (c == 120 || (c
            > 120 && rejected_step(f, base, at, frames, ValueV::Char((c - 1) as u8))) || (c < 120
            && rejected_step(f, base, at, frames, ValueV::Char((c + 1) as u8)))),
        crate::record::ReducerV::Nested { plan, entries } => nested_minimal(
            f,
            base,
            at,
            frames,
            plan,
            entries,
            entries.len() as int,
        ),
    }
}

/// One-step minimality of the first `upto` entries of a nested recording,
/// each under the frames extended with its own position.
pub open(crate) spec fn nested_minimal<F: Fn(Maat) -> (Maat, bool)>(
    f: F,
    base: Seq<LogEntryV>,
    at: int,
    frames: Seq<FrameV>,
    plan: Plan,
    entries: Seq<crate::record::EntryV>,
    upto: int,
) -> bool
    decreases entries,
{
    forall|j: int|
        0 <= j < upto && j < entries.len() ==> shr_minimal(
            f,
            base,
            at,
            frames.push(FrameV { plan, log: entries_log(entries), idx: j as usize }),
            (#[trigger] entries[j]).shr,
        )
}

/// One-step minimality of every entry of a whole recording against its own
/// replay snapshot.
pub open(crate) spec fn rec_minimal<F: Fn(Maat) -> (Maat, bool)>(
    f: F,
    base: Seq<LogEntryV>,
    rec: Seq<crate::record::EntryV>,
) -> bool {
    forall|j: int|
        0 <= j < rec.len() ==> shr_minimal(
            f,
            base,
            j,
            Seq::<FrameV>::empty(),
            (#[trigger] rec[j]).shr,
        )
}

/// Installs the candidate at the position the frames describe, re-runs the
/// predicate over the composed log, and accepts exactly when the predicate
/// still fails and replay raised no usage error. A rejection without a
/// usage error means the candidate's composed log failed to recompose, or
/// a run of the predicate passed on it; a usage error is kept in `err` and
/// aborts the whole shrink.
#[verifier::loop_isolation(false)]
pub(crate) fn check_candidate<F: Fn(Maat) -> (Maat, bool)>(
    f: &F,
    base: &Vec<LogEntry>,
    at: usize,
    frames: &Vec<Frame>,
    cand: &Value,
    err: &mut Option<UsageError>,
) -> (accept: bool)
    requires
        callable(*f),
        at < base@.len(),
        wf_frames(frames_view(frames@)),
        (*old(err)) is None,
    ensures
        accept ==> composed_witness(*f, log_view(base@), at as int, frames_view(frames@), cand@)
            && (*final(err)) is None,
        !accept && (*final(err)) is None ==> rejected_step(
            *f,
            log_view(base@),
            at as int,
            frames_view(frames@),
            cand@,
        ),
        (*final(err)) matches Some(e) ==> err_witness(*f, e@),
{
    let ghost fsv = frames_view(frames@);
    let mut v: Value = cand.duplicate();
    let mut k: usize = frames.len();
    proof {
        assert(fsv.subrange(0, k as int) =~= fsv);
    }
    while k > 0
        invariant
            compose_log(log_view(base@), at as int, fsv.subrange(0, k as int), v@) == compose_log(
                log_view(base@),
                at as int,
                fsv,
                cand@,
            ),
            k <= frames@.len(),
        decreases k,
    {
        k -= 1;
        let fr = &frames[k];
        proof {
            assert(fsv[k as int] == frame_view(frames@[k as int]));
            assert(fsv[k as int].idx < fsv[k as int].log.len());
        }
        let sub = log_with(&fr.log, fr.idx, &v);
        let rep = run_plan_replay(&fr.plan, &sub);
        match rep {
            Some(v2) => {
                proof {
                    let pre = fsv.subrange(0, k as int + 1);
                    assert(pre.last() == fsv[k as int]);
                    assert(pre.drop_last() =~= fsv.subrange(0, k as int));
                    assert(log_view(sub@) == log_upd(
                        fsv[k as int].log,
                        fsv[k as int].idx as int,
                        v@,
                    ));
                }
                v = v2;
            },
            None => {
                proof {
                    let pre = fsv.subrange(0, k as int + 1);
                    assert(pre.last() == fsv[k as int]);
                    assert(log_view(sub@) == log_upd(
                        fsv[k as int].log,
                        fsv[k as int].idx as int,
                        v@,
                    ));
                    assert(compose_log(log_view(base@), at as int, pre, v@) is None);
                }
                return false;
            },
        }
    }
    let top = log_with(base, at, &v);
    let ghost topv = log_view(top@);
    proof {
        assert(fsv.subrange(0, 0) =~= Seq::<FrameV>::empty());
        assert(compose_log(log_view(base@), at as int, fsv, cand@) == Some(topv));
    }
    let m = Maat::shrinking(top);
    let ghost m0 = m;
    let out = f(m);
    let (m2, pass) = out;
    let ghost gm2 = m2;
    if m2.err.is_some() {
        *err = m2.err;
        proof {
            assert(f.ensures((m0,), (gm2, pass)));
            assert(m0@.phase is Shrinking);
        }
        return false;
    }
    if !pass {
        proof {
            assert(is_replay_start(m0@, topv));
            assert(f.ensures((m0,), (m2, pass)));
            assert(some_run_false(*f, topv));
        }
        true
    } else {
        proof {
            assert(is_replay_start(m0@, topv));
            assert(f.ensures((m0,), (m2, pass)));
            assert(some_run_true(*f, topv));
        }
        false
    }
}

/// Powers of ten.
pub open spec fn pow10(e: nat) -> nat
    decreases e,
{
    if e == 0 {
        1
    } else {
        10 * pow10((e - 1) as nat)
    }
}

proof fn lemma_below_pow10(e: nat)
    ensures
        e < pow10(e),
    decreases e,
{
    if e > 0 {
        lemma_below_pow10((e - 1) as nat);
    }
}

/// The number of decimal digits of a number, less one.
pub open spec fn spec_ilog10(w: nat) -> nat
    decreases w,
{
    if w < 10 {
        0
    } else {
        1 + spec_ilog10(w / 10)
    }
}

/// The number of decimal digits of `x`, less one; the coarsest reduction
/// step of the numeric reducers.
fn ilog10(x: u128) -> (r: u128)
    requires
        x >= 1,
    ensures
        r < x,
        r == spec_ilog10(x as nat),
{
    let mut n: u128 = x;
    let mut d: u128 = 0;
    proof {
        assert(pow10(0) == 1);
    }
    while n >= 10
        invariant
            1 <= n,
            n * pow10(d as nat) <= x,
            spec_ilog10(x as nat) == d + spec_ilog10(n as nat),
        decreases n,
    {
        proof {
            lemma_pow10_pos(d as nat);
            assert(pow10((d + 1) as nat) == 10 * pow10(d as nat));
            assert((n / 10) * 10 <= n) by (nonlinear_arith)
                requires
                    n >= 10,
            ;
            assert((n / 10) * (10 * pow10(d as nat)) <= n * pow10(d as nat)) by (nonlinear_arith)
                requires
                    (n / 10) * 10 <= n,
                    pow10(d as nat) >= 1,
            ;
            assert(pow10(d as nat) <= n * pow10(d as nat)) by (nonlinear_arith)
                requires
                    n >= 1,
                    pow10(d as nat) >= 1,
            ;
            lemma_below_pow10(d as nat);
            assert(d < x);
        }
        n = n / 10;
        d = d + 1;
    }
    proof {
        lemma_pow10_pos(d as nat);
        assert(pow10(d as nat) <= n * pow10(d as nat)) by (nonlinear_arith)
            requires
                n >= 1,
                pow10(d as nat) >= 1,
        ;
        lemma_below_pow10(d as nat);
    }
    d
}

proof fn lemma_pow10_pos(e: nat)
    ensures
        pow10(e) >= 1,
    decreases e,
{
    if e > 0 {
        lemma_pow10_pos((e - 1) as nat);
    }
}

/// One reducer invocation for a 64-bit integer with lower bound `min`:
/// a coarse logarithmic pass, a halving pass and a unit pass, each pass
/// repeating while its candidate is accepted. The result never leaves
/// `[min, v0]`, any change is backed by a run of the predicate that failed
/// on the composed log, and an invocation that changes nothing, unless a
/// usage error aborted it, leaves the value minimal: at the floor, or with
/// all three of its pass candidates tried and rejected.
#[verifier::loop_isolation(false)]
fn reduce_num_i64<F: Fn(Maat) -> (Maat, bool)>(
    f: &F,
    base: &Vec<LogEntry>,
    at: usize,
    frames: &Vec<Frame>,
    min: i64,
    v0: i64,
    err: &mut Option<UsageError>,
) -> (r: i64)
    requires
        callable(*f),
        at < base@.len(),
        wf_frames(frames_view(frames@)),
        (*old(err)) is None,
        min <= v0,
    ensures
        min <= r <= v0,
        r != v0 ==> composed_witness(
            *f,
            log_view(base@),
            at as int,
            frames_view(frames@),
            ValueV::I64(r),
        ),
        (*final(err)) is None && r == v0 ==> r == min || {
            &&& rejected_step(
                *f,
                log_view(base@),
                at as int,
                frames_view(frames@),
                ValueV::I64((min + spec_ilog10((r - min) as nat)) as i64),
            )
            &&& rejected_step(
                *f,
                log_view(base@),
                at as int,
                frames_view(frames@),
                ValueV::I64((min + (r - min) / 2) as i64),
            )
            &&& rejected_step(
                *f,
                log_view(base@),
                at as int,
                frames_view(frames@),
                ValueV::I64((r - 1) as i64),
            )
        },
        (*final(err)) matches Some(e) ==> err_witness(*f, e@),
{
    let ghost basev = log_view(base@);
    let ghost fsv = frames_view(frames@);
    let ghost logc = ValueV::I64((min + spec_ilog10((v0 - min) as nat)) as i64);
    let ghost halfc = ValueV::I64((min + (v0 - min) / 2) as i64);
    let mut v: i64 = v0;
    // logarithmic pass
    let mut go = true;
    while go
        invariant
            min <= v <= v0,
            go ==> (*err) is None,
            (*err) matches Some(e) ==> err_witness(*f, e@),
            v != v0 ==> composed_witness(*f, basev, at as int, fsv, ValueV::I64(v)),
            !go && v == v0 && v0 > min ==> (*err) is Some || rejected_step(
                *f,
                basev,
                at as int,
                fsv,
                logc,
            ),
        decreases v - min, (if go { 1int } else { 0int }),
    {
        if !(v > min) {
            go = false;
        } else {
            let w: i128 = v as i128 - min as i128;
            let d = ilog10(w as u128);
            let cand: i64 = ((min as i128) + (d as i128)) as i64;
            proof {
                if v == v0 {
                    assert(cand as int == min + spec_ilog10((v0 - min) as nat));
                    assert(ValueV::I64(cand) == logc);
                }
            }
            let acc = check_candidate(f, base, at, frames, &Value::I64(cand), err);
            if acc {
                v = cand;
            } else {
                go = false;
            }
        }
    }
    if err.is_some() {
        return v;
    }
    // halving pass
    go = true;
    while go
        invariant
            min <= v <= v0,
            go ==> (*err) is None,
            (*err) matches Some(e) ==> err_witness(*f, e@),
            v != v0 ==> composed_witness(*f, basev, at as int, fsv, ValueV::I64(v)),
            v == v0 && v0 > min ==> (*err) is Some || rejected_step(
                *f,
                basev,
                at as int,
                fsv,
                logc,
            ),
            !go && v == v0 && v0 > min ==> (*err) is Some || rejected_step(
                *f,
                basev,
                at as int,
                fsv,
                halfc,
            ),
        decreases v - min, (if go { 1int } else { 0int }),
    {
        if !(v > min) {
            go = false;
        } else {
            let w: i128 = v as i128 - min as i128;
            let cand: i64 = ((min as i128) + w / 2) as i64;
            proof {
                if v == v0 {
                    assert(cand as int == min + (v0 - min) / 2);
                    assert(ValueV::I64(cand) == halfc);
                }
            }
            let acc = check_candidate(f, base, at, frames, &Value::I64(cand), err);
            if acc {
                v = cand;
            } else {
                go = false;
            }
        }
    }
    if err.is_some() {
        return v;
    }
    // unit pass
    go = true;
    while go
        invariant
            min <= v <= v0,
            go ==> (*err) is None,
            (*err) matches Some(e) ==> err_witness(*f, e@),
            v != v0 ==> composed_witness(*f, basev, at as int, fsv, ValueV::I64(v)),
            v == v0 && v0 > min ==> (*err) is Some || (rejected_step(
                *f,
                basev,
                at as int,
                fsv,
                logc,
            ) && rejected_step(*f, basev, at as int, fsv, halfc)),
            !go && v == v0 && v0 > min ==> (*err) is Some || rejected_step(
                *f,
                basev,
                at as int,
                fsv,
                ValueV::I64((v0 - 1) as i64),
            ),
        decreases v - min, (if go { 1int } else { 0int }),
    {
        if !(v > min) {
            go = false;
        } else {
            let cand: i64 = v - 1;
            let acc = check_candidate(f, base, at, frames, &Value::I64(cand), err);
            if acc {
                v = cand;
            } else {
                go = false;
            }
        }
    }
    v
}

/// One reducer invocation for an index-sized integer; the same three
/// passes and the same promises as the 64-bit reducer.
#[verifier::loop_isolation(false)]
fn reduce_num_usize<F: Fn(Maat) -> (Maat, bool)>(
    f: &F,
    base: &Vec<LogEntry>,
    at: usize,
    frames: &Vec<Frame>,
    min: usize,
    v0: usize,
    err: &mut Option<UsageError>,
) -> (r: usize)
    requires
        callable(*f),
        at < base@.len(),
        wf_frames(frames_view(frames@)),
        (*old(err)) is None,
        min <= v0,
    ensures
        min <= r <= v0,
        r != v0 ==> composed_witness(
            *f,
            log_view(base@),
            at as int,
            frames_view(frames@),
            ValueV::Usize(r),
        ),
        (*final(err)) is None && r == v0 ==> r == min || {
            &&& rejected_step(
                *f,
                log_view(base@),
                at as int,
                frames_view(frames@),
                ValueV::Usize((min + spec_ilog10((r - min) as nat)) as usize),
            )
            &&& rejected_step(
                *f,
                log_view(base@),
                at as int,
                frames_view(frames@),
                ValueV::Usize((min + (r - min) / 2) as usize),
            )
            &&& rejected_step(
                *f,
                log_view(base@),
                at as int,
                frames_view(frames@),
                ValueV::Usize((r - 1) as usize),
            )
        },
        (*final(err)) matches Some(e) ==> err_witness(*f, e@),
{
    let ghost basev = log_view(base@);
    let ghost fsv = frames_view(frames@);
    let ghost logc = ValueV::Usize((min + spec_ilog10((v0 - min) as nat)) as usize);
    let ghost halfc = ValueV::Usize((min + (v0 - min) / 2) as usize);
    let mut v: usize = v0;
    // logarithmic pass
    let mut go = true;
    while go
        invariant
            min <= v <= v0,
            go ==> (*err) is None,
            (*err) matches Some(e) ==> err_witness(*f, e@),
            v != v0 ==> composed_witness(*f, basev, at as int, fsv, ValueV::Usize(v)),
            !go && v == v0 && v0 > min ==> (*err) is Some || rejected_step(
                *f,
                basev,
                at as int,
                fsv,
                logc,
            ),
        decreases v - min, (if go { 1int } else { 0int }),
    {
        if !(v > min) {
            go = false;
        } else {
            let w: usize = v - min;
            let d = ilog10(w as u128);
            let cand: usize = min + (d as usize);
            proof {
                if v == v0 {
                    assert(cand as int == min + spec_ilog10((v0 - min) as nat));
                    assert(ValueV::Usize(cand) == logc);
                }
            }
            let acc = check_candidate(f, base, at, frames, &Value::Usize(cand), err);
            if acc {
                v = cand;
            } else {
                go = false;
            }
        }
    }
    if err.is_some() {
        return v;
    }
    // halving pass
    go = true;
    while go
        invariant
            min <= v <= v0,
            go ==> (*err) is None,
            (*err) matches Some(e) ==> err_witness(*f, e@),
            v != v0 ==> composed_witness(*f, basev, at as int, fsv, ValueV::Usize(v)),
            v == v0 && v0 > min ==> (*err) is Some || rejected_step(
                *f,
                basev,
                at as int,
                fsv,
                logc,
            ),
            !go && v == v0 && v0 > min ==> (*err) is Some || rejected_step(
                *f,
                basev,
                at as int,
                fsv,
                halfc,
            ),
        decreases v - min, (if go { 1int } else { 0int }),
    {
        if !(v > min) {
            go = false;
        } else {
            let w: usize = v - min;
            let cand: usize = min + w / 2;
            proof {
                if v == v0 {
                    assert(cand as int == min + (v0 - min) / 2);
                    assert(ValueV::Usize(cand) == halfc);
                }
            }
            let acc = check_candidate(f, base, at, frames, &Value::Usize(cand), err);
            if acc {
                v = cand;
            } else {
                go = false;
            }
        }
    }
    if err.is_some() {
        return v;
    }
    // unit pass
    go = true;
    while go
        invariant
            min <= v <= v0,
            go ==> (*err) is None,
            (*err) matches Some(e) ==> err_witness(*f, e@),
            v != v0 ==> composed_witness(*f, basev, at as int, fsv, ValueV::Usize(v)),
            v == v0 && v0 > min ==> (*err) is Some || (rejected_step(
                *f,
                basev,
                at as int,
                fsv,
                logc,
            ) && rejected_step(*f, basev, at as int, fsv, halfc)),
            !go && v == v0 && v0 > min ==> (*err) is Some || rejected_step(
                *f,
                basev,
                at as int,
                fsv,
                ValueV::Usize((v0 - 1) as usize),
            ),
        decreases v - min, (if go { 1int } else { 0int }),
    {
        if !(v > min) {
            go = false;
        } else {
            let cand: usize = v - 1;
            let acc = check_candidate(f, base, at, frames, &Value::Usize(cand), err);
            if acc {
                v = cand;
            } else {
                go = false;
            }
        }
    }
    v
}

/// One reducer invocation for an ASCII character: steps toward the letter
/// `x` one code at a time, from above and then from below. Unless a usage
/// error aborted the attempt, the result is at the target, or its one-step
/// candidate toward the target was tried and rejected.
#[verifier::loop_isolation(false)]
fn reduce_char<F: Fn(Maat) -> (Maat, bool)>(
    f: &F,
    base: &Vec<LogEntry>,
    at: usize,
    frames: &Vec<Frame>,
    c0: u8,
    err: &mut Option<UsageError>,
) -> (r: u8)
    requires
        callable(*f),
        at < base@.len(),
        wf_frames(frames_view(frames@)),
        (*old(err)) is None,
        c0 < 128,
    ensures
        r < 128,
        c0 >= 120 ==> 120 <= r <= c0,
        c0 < 120 ==> c0 <= r <= 120,
        r != c0 ==> composed_witness(
            *f,
            log_view(base@),
            at as int,
            frames_view(frames@),
            ValueV::Char(r),
        ),
        (*final(err)) is None ==> r == 120 || (r > 120 && rejected_step(
            *f,
            log_view(base@),
            at as int,
            frames_view(frames@),
            ValueV::Char((r - 1) as u8),
        )) || (r < 120 && rejected_step(
            *f,
            log_view(base@),
            at as int,
            frames_view(frames@),
            ValueV::Char((r + 1) as u8),
        )),
        (*final(err)) matches Some(e) ==> err_witness(*f, e@),
{
    let mut c: u8 = c0;
    // toward the target from above
    let mut go = true;
    while go
        invariant
            c < 128,
            c0 >= 120 ==> 120 <= c <= c0,
            c0 < 120 ==> c0 <= c <= 120,
            go ==> (*err) is None,
            (*err) matches Some(e) ==> err_witness(*f, e@),
            !go ==> c <= 120 || (*err) is Some || rejected_step(
                *f,
                log_view(base@),
                at as int,
                frames_view(frames@),
                ValueV::Char((c - 1) as u8),
            ),
            c != c0 ==> composed_witness(
                *f,
                log_view(base@),
                at as int,
                frames_view(frames@),
                ValueV::Char(c),
            ),
        decreases c, (if go { 1int } else { 0int }),
    {
        if !(c > 120) {
            go = false;
        } else {
            let cand: u8 = c - 1;
            let acc = check_candidate(f, base, at, frames, &Value::Char(cand), err);
            if acc {
                c = cand;
            } else {
                go = false;
            }
        }
    }
    if err.is_some() {
        return c;
    }
    // toward the target from below
    go = true;
    while go
        invariant
            c < 128,
            c0 >= 120 ==> 120 <= c <= c0,
            c0 < 120 ==> c0 <= c <= 120,
            go ==> (*err) is None,
            (*err) matches Some(e) ==> err_witness(*f, e@),
            c > 120 ==> (*err) is Some || rejected_step(
                *f,
                log_view(base@),
                at as int,
                frames_view(frames@),
                ValueV::Char((c - 1) as u8),
            ),
            !go ==> c >= 120 || (*err) is Some || rejected_step(
                *f,
                log_view(base@),
                at as int,
                frames_view(frames@),
                ValueV::Char((c + 1) as u8),
            ),
            c != c0 ==> composed_witness(
                *f,
                log_view(base@),
                at as int,
                frames_view(frames@),
                ValueV::Char(c),
            ),
        decreases 120 - c, (if go { 1int } else { 0int }),
    {
        if !(c < 120) {
            go = false;
        } else {
            let cand: u8 = c + 1;
            let acc = check_candidate(f, base, at, frames, &Value::Char(cand), err);
            if acc {
                c = cand;
            } else {
                go = false;
            }
        }
    }
    c
}

/// An exact copy of a snapshot list.
#[verifier::loop_isolation(false)]
fn dup_log(l: &Vec<LogEntry>) -> (r: Vec<LogEntry>)
    ensures
        log_view(r@) =~= log_view(l@),
{
    let mut out: Vec<LogEntry> = Vec::new();
    let n = l.len();
    let mut i: usize = 0;
    while i < n
        invariant
            i <= n,
            out@.len() == i,
            forall|k: int| 0 <= k < i ==> out@[k]@ == l@[k]@,
        decreases n - i,
    {
        out.push(l[i].duplicate());
        i += 1;
    }
    out
}

/// An exact copy of a recomposition stack.
#[verifier::loop_isolation(false)]
fn duplicate_frames(fs: &Vec<Frame>) -> (r: Vec<Frame>)
    ensures
        frames_view(r@) =~= frames_view(fs@),
{
    let mut out: Vec<Frame> = Vec::new();
    let n = fs.len();
    let mut i: usize = 0;
    while i < n
        invariant
            i <= n,
            out@.len() == i,
            forall|k: int| 0 <= k < i ==> frame_view(out@[k]) == frame_view(fs@[k]),
        decreases n - i,
    {
        let fr = &fs[i];
        out.push(Frame { plan: fr.plan.duplicate(), log: dup_log(&fr.log), idx: fr.idx });
        proof {
            assert(log_view(out@[i as int].log@) =~= log_view(fs@[i as int].log@));
        }
        i += 1;
    }
    out
}

/// One reducer invocation on a shrinkable standing at position `at` of the
/// base log, inside the given recomposition stack. Returns the reduced
/// shrinkable and whether anything changed. A change strictly lowers the
/// mass, keeps the reducer ordering, and is backed by a failing run of the
/// predicate on the composed log of the final value.
#[verifier::loop_isolation(false)]
#[verifier::rlimit(60)]
pub(crate) fn reduce_shrinkable<F: Fn(Maat) -> (Maat, bool)>(
    f: &F,
    base: &Vec<LogEntry>,
    at: usize,
    frames: &Vec<Frame>,
    s: Shrinkable,
    err: &mut Option<UsageError>,
) -> (out: (Shrinkable, bool))
    requires
        callable(*f),
        at < base@.len(),
        wf_frames(frames_view(frames@)),
        wf_shr(s@),
        (*old(err)) is None,
    ensures
        wf_shr(out.0@),
        shr_le(out.0@, s@),
        !out.1 ==> out.0@ == s@,
        out.1 ==> shr_mass(out.0@) < shr_mass(s@),
        out.1 ==> composed_witness(
            *f,
            log_view(base@),
            at as int,
            frames_view(frames@),
            out.0@.value,
        ),
        !out.1 && (*final(err)) is None ==> shr_minimal(
            *f,
            log_view(base@),
            at as int,
            frames_view(frames@),
            out.0@,
        ),
        (*final(err)) matches Some(e) ==> err_witness(*f, e@),
    decreases shr_height(s@),
{
    let ghost s0 = s;
    let Shrinkable { value, reducer } = s;
    match reducer {
        Reducer::NoShrink => (Shrinkable { value, reducer: Reducer::NoShrink }, false),
        Reducer::NumI64 { min } => {
            match value {
                Value::I64(v0) => {
                    let r = reduce_num_i64(f, base, at, frames, min, v0, err);
                    let ch = r != v0;
                    (Shrinkable { value: Value::I64(r), reducer: Reducer::NumI64 { min } }, ch)
                },
                other => {
                    proof {
                        assert(false);
                    }
                    (Shrinkable { value: other, reducer: Reducer::NumI64 { min } }, false)
                },
            }
        },
        Reducer::NumUsize { min } => {
            match value {
                Value::Usize(v0) => {
                    let r = reduce_num_usize(f, base, at, frames, min, v0, err);
                    let ch = r != v0;
                    (Shrinkable { value: Value::Usize(r), reducer: Reducer::NumUsize { min } }, ch)
                },
                other => {
                    proof {
                        assert(false);
                    }
                    (Shrinkable { value: other, reducer: Reducer::NumUsize { min } }, false)
                },
            }
        },
        Reducer::AlnumToX => {
            match value {
                Value::Char(c0) => {
                    let r = reduce_char(f, base, at, frames, c0, err);
                    let ch = r != c0;
                    (Shrinkable { value: Value::Char(r), reducer: Reducer::AlnumToX }, ch)
                },
                other => {
                    proof {
                        assert(false);
                    }
                    (Shrinkable { value: other, reducer: Reducer::AlnumToX }, false)
                },
            }
        },
        Reducer::Nested { plan, mut entries } => {
            let ghost entries0 = rec_view(entries@);
            let ghost basev = log_view(base@);
            let ghost fsv = frames_view(frames@);
            proof {
                assert(s0@.reducer->Nested_entries =~= entries0);
                assert(plan_replay(plan, entries_log(entries0)) == Some(s0@.value));
                assert(wf_entries(entries0));
                assert(shr_height(s0@) == 1 + crate::record::seq_height(entries0));
                assert forall|k: int| 0 <= k < entries0.len() implies entry_le(
                    #[trigger] entries0[k],
                    entries0[k],
                ) by {
                    crate::record::lemma_shr_le_refl(entries0[k].shr);
                }
            }
            let mut ever = false;
            let mut progress = true;
            while progress
                invariant
                    entries@.len() == entries0.len(),
                    wf_entries(rec_view(entries@)),
                    entries_le(rec_view(entries@), entries0),
                    !ever ==> rec_view(entries@) == entries0,
                    ever ==> seq_mass(rec_view(entries@)) < seq_mass(entries0),
                    (ever || progress) ==> plan_replay(
                        plan,
                        entries_log(rec_view(entries@)),
                    ) is Some,
                    ever ==> composed_witness(
                        *f,
                        basev,
                        at as int,
                        fsv,
                        plan_replay(plan, entries_log(rec_view(entries@)))->Some_0,
                    ),
                    (*err) matches Some(e) ==> err_witness(*f, e@),
                    !progress && (*err) is None ==> nested_minimal(
                        *f,
                        basev,
                        at as int,
                        fsv,
                        plan,
                        rec_view(entries@),
                        entries@.len() as int,
                    ),
                decreases seq_mass(rec_view(entries@)) + (if progress {
                    1int
                } else {
                    0int
                }),
            {
                proof {
                    crate::record::lemma_seq_mass_nonneg(rec_view(entries@));
                }
                progress = false;
                let ghost sweep0 = rec_view(entries@);
                let n = entries.len();
                let mut j: usize = 0;
                while j < n
                    invariant
                        j <= n,
                        n == entries@.len(),
                        entries@.len() == entries0.len(),
                        wf_entries(rec_view(entries@)),
                        entries_le(rec_view(entries@), entries0),
                        !progress ==> rec_view(entries@) == sweep0,
                        progress ==> seq_mass(rec_view(entries@)) < seq_mass(sweep0),
                        (ever || progress) ==> plan_replay(
                            plan,
                            entries_log(rec_view(entries@)),
                        ) is Some,
                        (ever || progress) ==> composed_witness(
                            *f,
                            basev,
                            at as int,
                            fsv,
                            plan_replay(plan, entries_log(rec_view(entries@)))->Some_0,
                        ),
                        (*err) matches Some(e) ==> err_witness(*f, e@),
                        !progress && (*err) is None ==> nested_minimal(
                            *f,
                            basev,
                            at as int,
                            fsv,
                            plan,
                            rec_view(entries@),
                            j as int,
                        ),
                    decreases n - j,
                {
                    if err.is_some() {
                        j = n;
                    } else {
                        let ghost pre = rec_view(entries@);
                        let ghost preq = entries@;
                        let sib = snapshot_log(&entries);
                        let ghost sibv = log_view(sib@);
                        let mut frames2 = duplicate_frames(frames);
                        frames2.push(Frame { plan: plan.duplicate(), log: sib, idx: j });
                        let ghost fsv2 = frames_view(frames2@);
                        proof {
                            assert(sibv == entries_log(pre));
                            assert(fsv2.len() == fsv.len() + 1);
                            assert forall|k: int| 0 <= k < fsv.len() implies fsv2[k] == fsv[k] by {}
                            assert(fsv2.drop_last() =~= fsv);
                            assert(fsv2.last() == (FrameV {
                                plan: plan,
                                log: entries_log(pre),
                                idx: j,
                            }));
                            assert(fsv2 =~= fsv.push(
                                FrameV { plan: plan, log: entries_log(pre), idx: j },
                            ));
                            assert(wf_frames(fsv2));
                        }
                        let e = entries.remove(j);
                        let Entry { name: ename, shr: mut eshr } = e;
                        let ghost eshr0 = eshr@;
                        let ghost ename0 = ename@;
                        proof {
                            assert(preq[j as int] == e);
                            assert(pre[j as int].shr == eshr0);
                            assert(pre[j as int].name == ename0);
                            crate::record::lemma_mass_nonneg(pre[j as int]);
                        }
                        proof {
                            assert(wf_entry(pre[j as int]));
                            crate::record::lemma_shr_le_refl(eshr0);
                        }
                        let mut changed_j = false;
                        let mut go = true;
                        while go
                            invariant
                                wf_shr(eshr@),
                                shr_le(eshr@, eshr0),
                                go ==> (*err) is None,
                                !changed_j ==> eshr@ == eshr0,
                                changed_j ==> shr_mass(eshr@) < shr_mass(eshr0),
                                changed_j ==> composed_witness(
                                    *f,
                                    basev,
                                    at as int,
                                    fsv2,
                                    eshr@.value,
                                ),
                                (*err) matches Some(e) ==> err_witness(*f, e@),
                                !go && (*err) is None ==> shr_minimal(
                                    *f,
                                    basev,
                                    at as int,
                                    fsv2,
                                    eshr@,
                                ),
                            decreases shr_mass(eshr@) + (if go {
                                1int
                            } else {
                                0int
                            }),
                        {
                            proof {
                                crate::record::lemma_shr_mass_nonneg(eshr@);
                                crate::record::lemma_shr_le_height(eshr@, eshr0);
                                crate::record::lemma_height_element(pre, j as int);
                                crate::record::lemma_seq_height_pointwise(pre, entries0);
                                assert(shr_height(eshr@) < shr_height(s0@));
                            }
                            let ghost prev = eshr@;
                            let pair = reduce_shrinkable(f, base, at, &frames2, eshr, err);
                            let ch = pair.1;
                            eshr = pair.0;
                            proof {
                                if ch {
                                    crate::record::lemma_shr_le_trans(eshr@, prev, eshr0);
                                } else {
                                    assert(eshr@ == prev);
                                }
                            }
                            if ch {
                                changed_j = true;
                            }
                            if err.is_some() {
                                go = false;
                            } else if !ch {
                                go = false;
                            }
                            proof {
                                crate::record::lemma_shr_mass_nonneg(eshr@);
                            }
                        }
                        let ne = Entry { name: ename, shr: eshr };
                        let ghost nev = ne@;
                        entries.insert(j, ne);
                        proof {
                            let cur = rec_view(entries@);
                            preq.remove_ensures(j as int);
                            preq.remove(j as int).insert_ensures(j as int, ne);
                            assert(entries@ == preq.remove(j as int).insert(j as int, ne));
                            assert forall|k: int| 0 <= k < cur.len() implies cur[k] == (if k == j {
                                nev
                            } else {
                                pre[k]
                            }) by {
                                if k < j {
                                    assert(entries@[k] == preq[k]);
                                } else if k > j {
                                    assert(preq.remove(j as int)[k - 1] == preq[k]);
                                    assert(entries@[k] == preq[k]);
                                } else {
                                    assert(entries@[k] == ne);
                                }
                            }
                            assert(cur =~= pre.update(j as int, nev));
                            assert(nev.name == ename0 && nev.shr == eshr@);
                            if !changed_j {
                                assert(nev == pre[j as int]);
                                assert(cur =~= pre);
                                assert(cur == pre);
                                if !progress && (*err) is None {
                                    assert(fsv.push(
                                        FrameV { plan: plan, log: entries_log(cur), idx: j },
                                    ) =~= fsv2);
                                    assert(shr_minimal(*f, basev, at as int, fsv2, eshr@));
                                    assert forall|jj: int|
                                        0 <= jj < j + 1 && jj < cur.len() implies shr_minimal(
                                        *f,
                                        basev,
                                        at as int,
                                        fsv.push(
                                            FrameV {
                                                plan: plan,
                                                log: entries_log(cur),
                                                idx: jj as usize,
                                            },
                                        ),
                                        (#[trigger] cur[jj]).shr,
                                    ) by {
                                        if jj == j {
                                            assert(cur[jj].shr == eshr@);
                                        }
                                    }
                                    assert(nested_minimal(
                                        *f,
                                        basev,
                                        at as int,
                                        fsv,
                                        plan,
                                        cur,
                                        j + 1,
                                    ));
                                }
                            } else {
                                crate::record::lemma_seq_mass_update(pre, j as int, nev);
                                crate::record::lemma_shr_le_kind(eshr@, eshr0);
                                assert(entries_log(cur) =~= log_upd(
                                    entries_log(pre),
                                    j as int,
                                    eshr@.value,
                                ));
                                assert(compose_log(basev, at as int, fsv2, eshr@.value)
                                    == (match plan_replay(plan, entries_log(cur)) {
                                    Some(v2) => compose_log(basev, at as int, fsv, v2),
                                    None => None::<Seq<LogEntryV>>,
                                }));
                                assert(plan_replay(plan, entries_log(cur)) is Some);
                                let v2 = plan_replay(plan, entries_log(cur))->Some_0;
                                assert(compose_log(basev, at as int, fsv, v2) is Some);
                                assert(composed_witness(*f, basev, at as int, fsv, v2));
                                assert forall|k: int| 0 <= k < cur.len() implies entry_le(
                                    #[trigger] cur[k],
                                    entries0[k],
                                ) by {
                                    if k == j {
                                        assert(entry_le(pre[k], entries0[k]));
                                        crate::record::lemma_shr_le_trans(
                                            eshr@,
                                            eshr0,
                                            entries0[k].shr,
                                        );
                                    }
                                }
                                assert forall|k: int| 0 <= k < cur.len() implies wf_entry(
                                    #[trigger] cur[k],
                                ) by {}
                            }
                        }
                        if changed_j {
                            progress = true;
                        }
                        j += 1;
                    }
                }
                if progress {
                    ever = true;
                }
                proof {
                    crate::record::lemma_seq_mass_nonneg(rec_view(entries@));
                }
            }
            let ghost cur = rec_view(entries@);
            if ever {
                let lg = snapshot_log(&entries);
                proof {
                    assert(log_view(lg@) == entries_log(cur));
                }
                let rep = run_plan_replay(&plan, &lg);
                let v2 = match rep {
                    Some(v2) => v2,
                    None => {
                        proof {
                            assert(false);
                        }
                        value
                    },
                };
                let out = Shrinkable { value: v2, reducer: Reducer::Nested { plan, entries } };
                proof {
                    assert(out@.reducer->Nested_entries =~= cur);
                    assert(plan_replay(plan, entries_log(cur)) == Some(v2@));
                    assert(v2@ is List);
                    assert(s0@.value is List) by {
                        assert(plan_replay(plan, entries_log(entries0)) == Some(s0@.value));
                    }
                    assert(shr_le(out@, s0@));
                    assert(wf_shr(out@));
                }
                (out, true)
            } else {
                let out = Shrinkable { value, reducer: Reducer::Nested { plan, entries } };
                proof {
                    assert(out@.reducer->Nested_entries =~= entries0);
                    assert(out@ == s0@);
                    crate::record::lemma_shr_le_refl(out@);
                }
                (out, false)
            }
        },
    }
}

impl Shrinkable {
    /// One reducer invocation on this shrinkable, which stands at entry
    /// `at` of the base snapshot. The attached reducer proposes candidates;
    /// each is installed at `at`, the predicate is re-run over the
    /// substituted snapshot, and the candidate is kept exactly when the
    /// predicate still fails. Returns whether the value changed; any change
    /// strictly lowers the remaining mass and is backed by a failing run on
    /// the substituted snapshot. An invocation that changes nothing leaves
    /// the shrinkable minimal against the base snapshot, unless a replay
    /// mismatch aborted it: at its reducer's floor, or with every pass's
    /// first candidate tried and rejected, nested entries included. A
    /// replay mismatch is kept in `err`, stops the attempt, and was
    /// carried by the context some shrinking run handed back.
    pub fn shrink<F: Fn(Maat) -> (Maat, bool)>(
        &mut self,
        f: &F,
        base: &Vec<LogEntry>,
        at: usize,
        err: &mut Option<UsageError>,
    ) -> (changed: bool)
        requires
            callable(*f),
            at < base@.len(),
            wf_shr(old(self)@),
            (*old(err)) is None,
        ensures
            wf_shr(final(self)@),
            shr_le(final(self)@, old(self)@),
            !changed ==> final(self)@ == old(self)@,
            changed ==> shr_mass(final(self)@) < shr_mass(old(self)@),
            changed ==> some_run_false(
                *f,
                log_upd(log_view(base@), at as int, final(self)@.value),
            ),
            !changed && (*final(err)) is None ==> shr_minimal(
                *f,
                log_view(base@),
                at as int,
                Seq::<FrameV>::empty(),
                final(self)@,
            ),
            (*final(err)) matches Some(e) ==> err_witness(*f, e@),
    {
        let mut tmp = Shrinkable { value: Value::Bool(false), reducer: Reducer::NoShrink };
        core::mem::swap(self, &mut tmp);
        let frames: Vec<Frame> = Vec::new();
        proof {
            assert(frames_view(frames@) =~= Seq::<FrameV>::empty());
        }
        let (out, ch) = reduce_shrinkable(f, base, at, &frames, tmp, err);
        proof {
            assert(frames_view(frames@) == Seq::<FrameV>::empty());
            if ch {
                assert(compose_log(log_view(base@), at as int, frames_view(frames@), out@.value)
                    == Some(log_upd(log_view(base@), at as int, out@.value)));
            }
        }
        *self = out;
        ch
    }
}

/// One shrink attempt on entry `at` of a recording. Entries other than
/// `at` are never touched: their shapes after the call are exactly their
/// shapes before it. The entry itself keeps its name and the kind of its
/// value, and moves down the reducer ordering; an attempt that changes
/// nothing, and was not aborted by a usage error, leaves the entry minimal
/// against the recording's snapshot.
#[verifier::loop_isolation(false)]
#[verifier::rlimit(80)]
pub fn shrink_entry_at<F: Fn(Maat) -> (Maat, bool)>(
    f: &F,
    rec: &mut Vec<Entry>,
    at: usize,
    err: &mut Option<UsageError>,
) -> (changed: bool)
    requires
        callable(*f),
        at < old(rec)@.len(),
        wf_entries(rec_view(old(rec)@)),
        (*old(err)) is None,
    ensures
        final(rec)@.len() == old(rec)@.len(),
        forall|j: int|
            0 <= j < old(rec)@.len() && j != at ==> rec_view(final(rec)@)[j] == rec_view(
                old(rec)@,
            )[j],
        entry_le(rec_view(final(rec)@)[at as int], rec_view(old(rec)@)[at as int]),
        wf_entries(rec_view(final(rec)@)),
        !changed ==> rec_view(final(rec)@) == rec_view(old(rec)@),
        changed ==> seq_mass(rec_view(final(rec)@)) < seq_mass(rec_view(old(rec)@)),
        changed ==> some_run_false(*f, entries_log(rec_view(final(rec)@))),
        !changed && (*final(err)) is None ==> shr_minimal(
            *f,
            entries_log(rec_view(old(rec)@)),
            at as int,
            Seq::<FrameV>::empty(),
            rec_view(final(rec)@)[at as int].shr,
        ),
        (*final(err)) matches Some(e) ==> err_witness(*f, e@),
{
    let ghost pre = rec_view(rec@);
    let ghost preq = rec@;
    let base = snapshot_log(rec);
    proof {
        assert(log_view(base@).len() == base@.len());
        assert(entries_log(pre).len() == pre.len());
        assert(base@.len() == pre.len());
    }
    let e = rec.remove(at);
    let Entry { name: ename, shr: mut eshr } = e;
    let ghost eshr0 = eshr@;
    let ghost ename0 = ename@;
    proof {
        assert(pre[at as int].shr == eshr0);
        assert(pre[at as int].name == ename0);
        assert(wf_entry(pre[at as int]));
    }
    let ch = eshr.shrink(f, &base, at, err);
    let ne = Entry { name: ename, shr: eshr };
    let ghost nev = ne@;
    rec.insert(at, ne);
    proof {
        let cur = rec_view(rec@);
        preq.remove_ensures(at as int);
        preq.remove(at as int).insert_ensures(at as int, ne);
        assert forall|k: int| 0 <= k < cur.len() implies cur[k] == (if k == at {
            nev
        } else {
            pre[k]
        }) by {
            if k < at {
                assert(rec@[k] == preq[k]);
            } else if k > at {
                assert(preq.remove(at as int)[k - 1] == preq[k]);
                assert(rec@[k] == preq[k]);
            } else {
                assert(rec@[k] == ne);
            }
        }
        assert(cur =~= pre.update(at as int, nev));
        if !ch {
            assert(nev == pre[at as int]);
            assert(cur =~= pre);
        } else {
            crate::record::lemma_seq_mass_update(pre, at as int, nev);
            crate::record::lemma_shr_le_kind(eshr@, eshr0);
            assert(entries_log(cur) =~= log_upd(log_view(base@), at as int, eshr@.value));
        }
    }
    ch
}

/// The shrink fixpoint. Entries are reduced in declaration order, each
/// until it no longer shrinks, and the sweep repeats until a whole pass
/// changes nothing: shrinking one entry can unlock further shrinks in an
/// earlier one. The result is pointwise below the original recording under
/// the reducer ordering; either nothing ever shrank and the recording is
/// returned unchanged, or some run of the predicate has failed on the
/// final recording's replay snapshot; and unless a usage error aborted the
/// fixpoint, the result is at a fixpoint indeed: every entry, nested ones
/// included, sits at its reducer's floor or had every reduction pass's
/// first candidate tried against the final snapshot and rejected.
#[verifier::loop_isolation(false)]
pub fn shrink_recording<F: Fn(Maat) -> (Maat, bool)>(
    f: &F,
    rec: Vec<Entry>,
    err: &mut Option<UsageError>,
) -> (out: Vec<Entry>)
    requires
        callable(*f),
        wf_entries(rec_view(rec@)),
        (*old(err)) is None,
    ensures
        out@.len() == rec@.len(),
        entries_le(rec_view(out@), rec_view(rec@)),
        wf_entries(rec_view(out@)),
        rec_view(out@) == rec_view(rec@) || some_run_false(*f, entries_log(rec_view(out@))),
        (*final(err)) is None ==> rec_minimal(*f, entries_log(rec_view(out@)), rec_view(out@)),
        (*final(err)) matches Some(e) ==> err_witness(*f, e@),
{
    let ghost orig = rec_view(rec@);
    let mut rec = rec;
    proof {
        assert forall|k: int| 0 <= k < orig.len() implies entry_le(
            #[trigger] orig[k],
            orig[k],
        ) by {
            crate::record::lemma_shr_le_refl(orig[k].shr);
        }
        crate::record::lemma_seq_mass_nonneg(orig);
    }
    let mut ever = false;
    let mut progress = true;
    while progress
        invariant
            rec@.len() == orig.len(),
            wf_entries(rec_view(rec@)),
            entries_le(rec_view(rec@), orig),
            !ever ==> rec_view(rec@) == orig,
            ever ==> some_run_false(*f, entries_log(rec_view(rec@))),
            (*err) matches Some(e) ==> err_witness(*f, e@),
            !progress && (*err) is None ==> rec_minimal(
                *f,
                entries_log(rec_view(rec@)),
                rec_view(rec@),
            ),
        decreases seq_mass(rec_view(rec@)) + (if progress {
            1int
        } else {
            0int
        }),
    {
        proof {
            crate::record::lemma_seq_mass_nonneg(rec_view(rec@));
        }
        progress = false;
        let ghost sweep0 = rec_view(rec@);
        let n = rec.len();
        let mut j: usize = 0;
        while j < n
            invariant
                j <= n,
                n == rec@.len(),
                rec@.len() == orig.len(),
                wf_entries(rec_view(rec@)),
                entries_le(rec_view(rec@), orig),
                !progress ==> rec_view(rec@) == sweep0,
                progress ==> seq_mass(rec_view(rec@)) < seq_mass(sweep0),
                (ever || progress) ==> some_run_false(*f, entries_log(rec_view(rec@))),
                (*err) matches Some(e) ==> err_witness(*f, e@),
                !progress && (*err) is None ==> forall|jj: int|
                    0 <= jj < j ==> shr_minimal(
                        *f,
                        entries_log(rec_view(rec@)),
                        jj,
                        Seq::<FrameV>::empty(),
                        (#[trigger] rec_view(rec@)[jj]).shr,
                    ),
            decreases n - j,
        {
            if err.is_some() {
                j = n;
            } else {
                let mut go = true;
                while go
                    invariant
                        j < n,
                        n == rec@.len(),
                        rec@.len() == orig.len(),
                        wf_entries(rec_view(rec@)),
                        entries_le(rec_view(rec@), orig),
                        go ==> (*err) is None,
                        !progress ==> rec_view(rec@) == sweep0,
                        progress ==> seq_mass(rec_view(rec@)) < seq_mass(sweep0),
                        (ever || progress) ==> some_run_false(
                            *f,
                            entries_log(rec_view(rec@)),
                        ),
                        (*err) matches Some(e) ==> err_witness(*f, e@),
                        !progress && (*err) is None ==> forall|jj: int|
                            0 <= jj < j ==> shr_minimal(
                                *f,
                                entries_log(rec_view(rec@)),
                                jj,
                                Seq::<FrameV>::empty(),
                                (#[trigger] rec_view(rec@)[jj]).shr,
                            ),
                        !go && (*err) is None ==> shr_minimal(
                            *f,
                            entries_log(rec_view(rec@)),
                            j as int,
                            Seq::<FrameV>::empty(),
                            rec_view(rec@)[j as int].shr,
                        ),
                    decreases seq_mass(rec_view(rec@)) + (if go {
                        1int
                    } else {
                        0int
                    }),
                {
                    proof {
                        crate::record::lemma_seq_mass_nonneg(rec_view(rec@));
                    }
                    let ghost before = rec_view(rec@);
                    let ch = shrink_entry_at(f, &mut rec, j, err);
                    proof {
                        if ch {
                            let cur = rec_view(rec@);
                            assert forall|k: int| 0 <= k < cur.len() implies entry_le(
                                #[trigger] cur[k],
                                orig[k],
                            ) by {
                                if k == j {
                                    assert(entry_le(cur[k], before[k]));
                                    assert(entry_le(before[k], orig[k]));
                                    crate::record::lemma_shr_le_trans(
                                        cur[k].shr,
                                        before[k].shr,
                                        orig[k].shr,
                                    );
                                }
                            }
                        }
                    }
                    if ch {
                        progress = true;
                    }
                    if err.is_some() {
                        go = false;
                    } else if !ch {
                        go = false;
                    }
                    proof {
                        crate::record::lemma_seq_mass_nonneg(rec_view(rec@));
                    }
                }
                j += 1;
            }
        }
        if progress {
            ever = true;
        }
        proof {
            crate::record::lemma_seq_mass_nonneg(rec_view(rec@));
        }
    }
    rec
}

} // verus!
