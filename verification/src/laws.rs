//! The engine's stated laws, as proved facts about the public contracts.
//!
//! The shrinking machinery's contracts speak of witnesses: runs of the
//! predicate that the engine actually performed. The laws here turn those
//! witnesses into the engine's promises about its reports.

use vstd::prelude::*;

use crate::context::is_replay_start;
use crate::context::Maat;
use crate::driver::falsified_sound;
use crate::record::entries_le;
use crate::record::entries_log;
use crate::record::entry_le;
use crate::record::lemma_shr_le_kind;
use crate::record::EntryV;
use crate::record::LogEntryV;
use crate::record::ReducerV;
use crate::shrink::some_run_false;
use crate::shrink::some_run_true;

verus! {

/// A deterministic predicate: any two runs given contexts of the same
/// shape return the same verdict. This is the engine's standing assumption
/// about user predicates; the driver detects its failure at run time and
/// reports it instead of shrinking.
pub open(crate) spec fn replay_deterministic<F: Fn(Maat) -> (Maat, bool)>(f: F) -> bool {
    forall|m1: Maat, m2: Maat, o1: (Maat, bool), o2: (Maat, bool)|
        #[trigger] f.ensures((m1,), o1) && #[trigger] f.ensures((m2,), o2) && m1@ == m2@
            ==> o1.1 == o2.1
}

/// Law: a shrunk value still fails. Whenever the engine reports a log on
/// which some run of a deterministic predicate failed, every replay of
/// that log from the start returns `false` again.
pub proof fn shrunk_value_still_fails<F: Fn(Maat) -> (Maat, bool)>(
    f: F,
    log: Seq<LogEntryV>,
    m: Maat,
    out: (Maat, bool),
)
    requires
        replay_deterministic(f),
        some_run_false(f, log),
        is_replay_start(m@, log),
        f.ensures((m,), out),
    ensures
        out.1 == false,
{
    let (m0, o0) = choose|m0: Maat, o0: (Maat, bool)|
        is_replay_start(m0@, log) && #[trigger] f.ensures((m0,), o0) && o0.1 == false;
    assert(m0@ == m@);
}

/// Law: the determinism invariant of a falsified report. The engine ran
/// the unmutated recording once in the shrinking phase and kept the
/// failing run as a witness; for a deterministic predicate, every further
/// replay of the reported original snapshot fails as well — and likewise
/// for the shrunk snapshot, through [`shrunk_value_still_fails`].
pub proof fn reported_failure_replays_false<F: Fn(Maat) -> (Maat, bool)>(
    f: F,
    original: Seq<LogEntryV>,
    shrunk: Seq<LogEntryV>,
    m: Maat,
    out: (Maat, bool),
)
    requires
        replay_deterministic(f),
        falsified_sound(f, original, shrunk),
        is_replay_start(m@, original),
        f.ensures((m,), out),
    ensures
        out.1 == false,
{
    let (ro, rs) = choose|ro: Seq<EntryV>, rs: Seq<EntryV>|
        {
            &&& #[trigger] entries_le(rs, ro)
            &&& crate::record::wf_entries(rs)
            &&& crate::record::wf_entries(ro)
            &&& crate::driver::recording_of(f, ro)
            &&& original == entries_log(ro)
            &&& shrunk == entries_log(rs)
            &&& some_run_false(f, original)
            &&& some_run_false(f, shrunk)
            &&& crate::shrink::rec_minimal(f, shrunk, rs)
        };
    shrunk_value_still_fails(f, original, m, out);
}

/// Law: a rejected candidate stays rejected. Whenever the engine recorded
/// that some run of a deterministic predicate passed on a candidate's log
/// — which is what marks a shrunk entry as one-step minimal — every replay
/// of that log from the start passes again: the candidate genuinely does
/// not exhibit the failure.
pub proof fn rejected_candidate_passes<F: Fn(Maat) -> (Maat, bool)>(
    f: F,
    log: Seq<LogEntryV>,
    m: Maat,
    out: (Maat, bool),
)
    requires
        replay_deterministic(f),
        some_run_true(f, log),
        is_replay_start(m@, log),
        f.ensures((m,), out),
    ensures
        out.1 == true,
{
    let (m0, o0) = choose|m0: Maat, o0: (Maat, bool)|
        is_replay_start(m0@, log) && #[trigger] f.ensures((m0,), o0) && o0.1 == true;
    assert(m0@ == m@);
}

/// Law: reducer termination. The candidates a numeric reducer accepts for
/// one entry form a strictly descending chain bounded below by the
/// generator's lower bound, so on a value `v` the reducer accepts at most
/// `v - min` candidates.
pub proof fn reducer_termination(chain: Seq<int>, min: int)
    requires
        chain.len() > 0,
        forall|i: int| 0 <= i < chain.len() ==> min <= #[trigger] chain[i],
        forall|i: int| 0 <= i < chain.len() - 1 ==> #[trigger] chain[i + 1] < chain[i],
    ensures
        chain.len() <= chain[0] - min + 1,
    decreases chain.len(),
{
    if chain.len() > 1 {
        let rest = chain.drop_first();
        assert forall|i: int| 0 <= i < rest.len() - 1 implies #[trigger] rest[i + 1]
            < rest[i] by {
            assert(rest[i + 1] == chain[i + 2]);
            assert(rest[i] == chain[i + 1]);
            assert(chain[i + 1 + 1] < chain[i + 1]);
        }
        assert(forall|i: int| 0 <= i < rest.len() ==> min <= #[trigger] rest[i]);
        reducer_termination(rest, min);
        assert(chain[0int + 1] < chain[0int]);
    }
}

/// Reduction keeps an entry's name and the kind of its value, and can only
/// lower a numeric value toward its bound.
pub proof fn lemma_entry_le_log(a: EntryV, b: EntryV)
    requires
        entry_le(a, b),
        crate::record::wf_entry(b),
    ensures
        a.name == b.name,
        crate::value::kind_of(a.shr.value) == crate::value::kind_of(b.shr.value),
        b.shr.value is I64 ==> a.shr.value is I64 && a.shr.value->I64_0 <= b.shr.value->I64_0,
        b.shr.value is Usize ==> a.shr.value is Usize && a.shr.value->Usize_0
            <= b.shr.value->Usize_0,
{
    lemma_shr_le_kind(a.shr, b.shr);
    match (a.shr.reducer, b.shr.reducer) {
        (ReducerV::NoShrink, ReducerV::NoShrink) => {},
        (ReducerV::NumI64 { .. }, ReducerV::NumI64 { .. }) => {},
        (ReducerV::NumUsize { .. }, ReducerV::NumUsize { .. }) => {},
        (ReducerV::AlnumToX, ReducerV::AlnumToX) => {},
        (ReducerV::Nested { .. }, ReducerV::Nested { .. }) => {
            assert(b.shr.value is List);
        },
        _ => {},
    }
}

/// Law: shrink monotonicity, read off a falsified report. The shrunk
/// snapshot has the same length, names and kinds as the original, entry by
/// entry, and numeric values have not grown.
pub proof fn falsified_report_monotonic<F: Fn(Maat) -> (Maat, bool)>(
    f: F,
    original: Seq<LogEntryV>,
    shrunk: Seq<LogEntryV>,
)
    requires
        falsified_sound(f, original, shrunk),
    ensures
        shrunk.len() == original.len(),
        forall|i: int|
            0 <= i < original.len() ==> (#[trigger] shrunk[i]).name == original[i].name
                && shrunk[i].kind == original[i].kind,
        forall|i: int|
            0 <= i < original.len() ==> ((#[trigger] original[i]).value is I64 ==> shrunk[i].value
                is I64 && shrunk[i].value->I64_0 <= original[i].value->I64_0),
        forall|i: int|
            0 <= i < original.len() ==> ((#[trigger] original[i]).value is Usize ==> shrunk[i].value
                is Usize && shrunk[i].value->Usize_0 <= original[i].value->Usize_0),
{
    let (ro, rs) = choose|ro: Seq<EntryV>, rs: Seq<EntryV>|
        {
            &&& #[trigger] entries_le(rs, ro)
            &&& crate::record::wf_entries(rs)
            &&& crate::record::wf_entries(ro)
            &&& original == entries_log(ro)
            &&& shrunk == entries_log(rs)
            &&& (rs == ro || some_run_false(f, shrunk))
        };
    assert forall|i: int| 0 <= i < original.len() implies (#[trigger] shrunk[i]).name
        == original[i].name && shrunk[i].kind == original[i].kind && ((original[i].value is I64
        ==> shrunk[i].value is I64 && shrunk[i].value->I64_0 <= original[i].value->I64_0) && (
    original[i].value is Usize ==> shrunk[i].value is Usize && shrunk[i].value->Usize_0
        <= original[i].value->Usize_0)) by {
        assert(entry_le(rs[i], ro[i]));
        lemma_entry_le_log(rs[i], ro[i]);
    }
}

} // verus!
