//! The driver: runs the predicate, detects a failure, records it, shrinks
//! the recording, and reports.
//!
//! A predicate is any callable of type `Fn(Maat) -> (Maat, bool)`: it takes
//! the context by value, draws what it needs, and returns the context
//! together with its verdict. The driver runs it for the configured number
//! of rounds in the testing phase; on the first `false` it replays the
//! round's random stream in the recording phase, checks that the failure
//! reproduces, shrinks the recording to a minimal failing case, and
//! returns a structured [`Report`].

use vstd::prelude::*;

use crate::context::is_record_start;
use crate::context::is_replay_start;
use crate::context::Maat;
use crate::context::UsageError;
use crate::context::UsageErrorV;
use crate::record::check_wf_entries;
use crate::record::entries_le;
use crate::record::entries_log;
use crate::record::log_view;
use crate::record::rec_view;
use crate::record::snapshot_log;
use crate::record::wf_entries;
use crate::record::Entry;
use crate::record::EntryV;
use crate::record::LogEntry;
use crate::record::LogEntryV;
use crate::rng::Prng;
use crate::shrink::callable;
use crate::shrink::err_witness;
use crate::shrink::rec_minimal;
use crate::shrink::shrink_recording;
use crate::shrink::some_run_false;
use crate::text::dec_digits;
use crate::text::kind_text;
use crate::text::log_text;
use crate::text::render_log;
use crate::text::u128_to_string;
use crate::text::u64_to_string;

verus! {

broadcast use vstd::std_specs::vec::group_vec_axioms;

/// The instant type of the standard library, declared so the driver can
/// hold the moment a run started. The engine never looks inside.
#[verifier::external_type_specification]
#[verifier::external_body]
pub struct ExInstant(std::time::Instant);

/// Relies on `std::time::Instant::now`: the current moment.
#[verifier::external_body]
fn clock_now() -> (r: std::time::Instant) {
    std::time::Instant::now()
}

/// Relies on `std::time::Instant::elapsed`: the time since that moment.
#[verifier::external_body]
fn clock_elapsed(t: &std::time::Instant) -> (r: std::time::Duration) {
    t.elapsed()
}

/// Relies on `std::time::Duration::as_millis`: the duration in whole
/// milliseconds.
#[verifier::external_body]
fn duration_millis(d: &std::time::Duration) -> (r: u64) {
    d.as_millis() as u64
}

/// How many rounds the testing phase runs.
pub struct Config {
    pub(crate) iterations: usize,
}

impl Config {
    /// The number of rounds this configuration asks for.
    pub open(crate) spec fn spec_iterations(&self) -> usize {
        self.iterations
    }

    /// The number of rounds this configuration asks for.
    pub fn iterations(&self) -> (r: usize)
        ensures
            r == self.spec_iterations(),
    {
        self.iterations
    }
}

impl Default for Config {
    /// The default configuration: one hundred rounds.
    fn default() -> (r: Config)
        ensures
            r.spec_iterations() == 100,
    {
        Config { iterations: 100 }
    }
}

/// What one run of the driver found.
pub enum Report {
    /// Every round passed.
    Passed { iterations: usize, elapsed_ms: u64 },
    /// A counterexample was found, recorded and shrunk: both the original
    /// and the shrunk recording are carried as replay snapshots.
    Falsified { original: Vec<LogEntry>, shrunk: Vec<LogEntry> },
    /// A failure was found but did not reproduce when the same random
    /// stream was replayed for recording: the predicate is not a function
    /// of its `generate` calls.
    NonDeterministic,
    /// While shrinking, the predicate asked for something other than what
    /// it asked for when the recording was made.
    MalformedReplay { error: UsageError },
}

/// The recording a failing recording-phase run of the predicate produced:
/// some run from a fresh recording context returned `false` and handed
/// back a context whose record is exactly this one.
pub open(crate) spec fn recording_of<F: Fn(Maat) -> (Maat, bool)>(
    f: F,
    ro: Seq<EntryV>,
) -> bool {
    exists|m: Maat, m2: Maat|
        is_record_start(m@) && #[trigger] f.ensures((m,), (m2, false)) && m2@.record == ro
}

/// What a `Falsified` report promises: the original snapshot is the record
/// of an actual failing recording-phase run, and replaying it unmutated in
/// the shrinking phase failed again — the determinism invariant, checked
/// by running it; both snapshots come from well-formed recordings; the
/// shrunk one lies pointwise below the original under the reducer
/// ordering; some run of the predicate failed on the shrunk snapshot; and
/// the shrunk recording is at the shrink fixpoint: no entry can shrink one
/// more step against it.
pub open(crate) spec fn falsified_sound<F: Fn(Maat) -> (Maat, bool)>(
    f: F,
    original: Seq<LogEntryV>,
    shrunk: Seq<LogEntryV>,
) -> bool {
    exists|ro: Seq<EntryV>, rs: Seq<EntryV>|
        {
            &&& #[trigger] entries_le(rs, ro)
            &&& wf_entries(rs)
            &&& wf_entries(ro)
            &&& recording_of(f, ro)
            &&& original == entries_log(ro)
            &&& shrunk == entries_log(rs)
            &&& some_run_false(f, original)
            &&& some_run_false(f, shrunk)
            &&& rec_minimal(f, shrunk, rs)
        }
}

/// What a `NonDeterministic` report promises: some recording-phase run of
/// the predicate passed, or handed back a context whose recording is not
/// one the engine's own `generate` builds, or produced a recording whose
/// unmutated replay passed — in each shape, the predicate disagreed with
/// the failure it was supposed to reproduce.
pub open(crate) spec fn nondet_witness<F: Fn(Maat) -> (Maat, bool)>(f: F) -> bool {
    (exists|m: Maat, m2: Maat, b: bool|
        is_record_start(m@) && #[trigger] f.ensures((m,), (m2, b)) && (b || !wf_entries(
            m2@.record,
        ))) || (exists|ro: Seq<EntryV>|
        #[trigger] recording_of(f, ro) && crate::shrink::some_run_true(f, entries_log(ro)))
}

/// Replays the failing round's random stream against the predicate in the
/// recording phase. A pass on this second run means the predicate is not
/// deterministic; so does a recording that the engine's own bookkeeping
/// could not have produced.
fn make_recording<F: Fn(Maat) -> (Maat, bool)>(test: &F, rng: Prng) -> (r: Result<
    Vec<Entry>,
    Report,
>)
    requires
        callable(*test),
    ensures
        r matches Ok(rec) ==> wf_entries(rec_view(rec@)) && recording_of(*test, rec_view(rec@)),
        r matches Err(rep) ==> rep is NonDeterministic && nondet_witness(*test),
        (forall|m: Maat, out: (Maat, bool)|
            is_record_start(m@) && #[trigger] test.ensures((m,), out) ==> out.1) ==> r is Err,
{
    let m = Maat::recording(rng);
    let ghost m0 = m;
    let out = test(m);
    let (m2, passed) = out;
    if passed {
        proof {
            assert(is_record_start(m0@));
            assert(test.ensures((m0,), (m2, true)));
        }
        return Err(Report::NonDeterministic);
    }
    let ghost gm2 = m2;
    let rec = m2.record;
    if !check_wf_entries(&rec) {
        proof {
            assert(test.ensures((m0,), (gm2, false)));
        }
        return Err(Report::NonDeterministic);
    }
    proof {
        assert(is_record_start(m0@));
        assert(test.ensures((m0,), (gm2, false)));
        assert(gm2@.record == rec_view(rec@));
    }
    Ok(rec)
}

/// Failure handling: record the failure, shrink the recording, and build
/// the report with both the shrunk and the original snapshots.
fn handle_failure<F: Fn(Maat) -> (Maat, bool)>(test: &F, seed: Prng) -> (r: Report)
    requires
        callable(*test),
    ensures
        !(r is Passed),
        r matches Report::Falsified { original, shrunk } ==> falsified_sound(
            *test,
            log_view(original@),
            log_view(shrunk@),
        ),
        r is NonDeterministic ==> nondet_witness(*test),
        r matches Report::MalformedReplay { error } ==> err_witness(*test, error@),
        (forall|m: Maat, out: (Maat, bool)|
            is_record_start(m@) && #[trigger] test.ensures((m,), out) ==> out.1)
            ==> r is NonDeterministic,
{
    let rec = match make_recording(test, seed) {
        Ok(rec) => rec,
        Err(rep) => {
            return rep;
        },
    };
    let ghost ro = rec_view(rec@);
    let original = snapshot_log(&rec);
    // the determinism invariant, checked by running it: the unmutated
    // recording must fail again when replayed in the shrinking phase
    let replay_log = snapshot_log(&rec);
    let m = Maat::shrinking(replay_log);
    let ghost m0 = m;
    let out = test(m);
    let (m2, replay_passed) = out;
    let ghost gm2 = m2;
    match m2.err {
        Some(e) => {
            proof {
                assert(m0@.phase is Shrinking);
                assert(test.ensures((m0,), (gm2, replay_passed)));
                assert(gm2@.err == Some(e@));
            }
            return Report::MalformedReplay { error: e };
        },
        None => {},
    }
    proof {
        assert(is_replay_start(m0@, entries_log(ro)));
        assert(test.ensures((m0,), (gm2, replay_passed)));
    }
    if replay_passed {
        proof {
            assert(crate::shrink::some_run_true(*test, entries_log(ro)));
        }
        return Report::NonDeterministic;
    }
    proof {
        assert(some_run_false(*test, entries_log(ro)));
    }
    let mut err: Option<UsageError> = None;
    let shrunk_rec = shrink_recording(test, rec, &mut err);
    match err {
        Some(e) => Report::MalformedReplay { error: e },
        None => {
            let shrunk = snapshot_log(&shrunk_rec);
            let ghost rs = rec_view(shrunk_rec@);
            proof {
                if rs == ro {
                } else {
                    assert(some_run_false(*test, entries_log(rs)));
                }
                assert(falsified_sound(*test, log_view(original@), log_view(shrunk@)));
            }
            Report::Falsified { original, shrunk }
        },
    }
}

/// Runs the predicate under the given configuration.
///
/// Each round snapshots the random stream, runs the predicate in the
/// testing phase, and on a failure hands the snapshot to failure handling;
/// the driver then does not test further. A predicate that can only return
/// `true` always yields a `Passed` report; one that can only return
/// `false` never does, whatever the random stream drew.
pub fn property_cfg<F: Fn(Maat) -> (Maat, bool)>(test: F, cfg: &Config) -> (r: Report)
    requires
        callable(test),
    ensures
        (forall|m: Maat, out: (Maat, bool)| #[trigger] test.ensures((m,), out) ==> out.1) ==> (r
            matches Report::Passed { iterations, elapsed_ms } && iterations
            == cfg.spec_iterations()),
        cfg.spec_iterations() > 0 && (forall|m: Maat, out: (Maat, bool)|
            #[trigger] test.ensures((m,), out) ==> !out.1) ==> !(r is Passed),
        r matches Report::Falsified { original, shrunk } ==> falsified_sound(
            test,
            log_view(original@),
            log_view(shrunk@),
        ),
        r is NonDeterministic ==> nondet_witness(test),
        r matches Report::MalformedReplay { error } ==> err_witness(test, error@),
        (forall|m: Maat, out: (Maat, bool)|
            is_record_start(m@) && #[trigger] test.ensures((m,), out) ==> out.1) ==> (r is Passed
            || r is NonDeterministic),
{
    let start = clock_now();
    let mut rng = Prng::from_entropy();
    let total = cfg.iterations();
    let mut i: usize = 0;
    while i < total
        invariant
            callable(test),
            total > 0 && (forall|m: Maat, out: (Maat, bool)|
                #[trigger] test.ensures((m,), out) ==> !out.1) ==> i == 0,
        decreases total - i,
    {
        let seed = rng.snapshot();
        let m = Maat::testing(rng);
        let ghost gm = m;
        let out = test(m);
        let ghost gout = out;
        let (m2, ok) = out;
        if !ok {
            return handle_failure(&test, seed);
        }
        proof {
            assert(test.ensures((gm,), gout));
            assert(gout.1 == true);
        }
        rng = match m2.rng {
            Some(r) => r,
            None => seed,
        };
        i += 1;
    }
    let elapsed = clock_elapsed(&start);
    let ms = duration_millis(&elapsed);
    Report::Passed { iterations: total, elapsed_ms: ms }
}

/// Runs the predicate under the default configuration.
pub fn property<F: Fn(Maat) -> (Maat, bool)>(test: F) -> (r: Report)
    requires
        callable(test),
    ensures
        (forall|m: Maat, out: (Maat, bool)| #[trigger] test.ensures((m,), out) ==> out.1) ==> (r
            matches Report::Passed { iterations, elapsed_ms } && iterations == 100),
        (forall|m: Maat, out: (Maat, bool)| #[trigger] test.ensures((m,), out) ==> !out.1)
            ==> !(r is Passed),
        r matches Report::Falsified { original, shrunk } ==> falsified_sound(
            test,
            log_view(original@),
            log_view(shrunk@),
        ),
        r is NonDeterministic ==> nondet_witness(test),
        r matches Report::MalformedReplay { error } ==> err_witness(test, error@),
        (forall|m: Maat, out: (Maat, bool)|
            is_record_start(m@) && #[trigger] test.ensures((m,), out) ==> out.1) ==> (r is Passed
            || r is NonDeterministic),
{
    let cfg = Config::default();
    property_cfg(test, &cfg)
}

/// The rounds per second the summary reports, from whole milliseconds; a
/// run under one millisecond counts as one millisecond.
pub open spec fn rate_of(n: nat, ms: nat) -> nat {
    if ms == 0 {
        n * 1000
    } else {
        n * 1000 / ms
    }
}

/// The success summary.
pub open spec fn success_text(n: nat, ms: nat) -> Seq<char> {
    "[maat] OK, passed "@ + dec_digits(n) + " tests ("@ + dec_digits(rate_of(n, ms))
        + " iterations/sec)"@
}

/// The line reported for a predicate that did not reproduce its failure.
pub open spec fn nondet_text() -> Seq<char> {
    "[maat] Non-deterministic test function: found a failure but was unable to reproduce it."@
}

/// The line reported for a replay mismatch.
pub open spec fn usage_text(e: UsageErrorV) -> Seq<char> {
    match e {
        UsageErrorV::NameMismatch { at, expected, actual } => {
            "[maat] Usage error: while shrinking, got a different name for value "@ + dec_digits(
                at as nat,
            ) + ": was "@ + expected + ", is "@ + actual
        },
        UsageErrorV::KindMismatch { at, expected, actual } => {
            "[maat] Usage error: while shrinking, got a different type for generated value "@
                + dec_digits(at as nat) + ": was "@ + kind_text(expected) + ", is "@ + kind_text(
                actual,
            )
        },
        UsageErrorV::PastEnd { at } => {
            "[maat] Usage error: while shrinking, ran out of recorded values at index "@
                + dec_digits(at as nat)
        },
    }
}

/// The two-block failure message: first the shrunk recording, then the
/// original.
pub open(crate) spec fn failure_text(original: Seq<LogEntryV>, shrunk: Seq<LogEntryV>) -> Seq<
    char,
> {
    "\n[maat] Falsified property with values:\n"@ + log_text(shrunk)
        + "\n[maat] Original failing values were:\n"@ + log_text(original) + "\n"@
}

/// The full report text.
pub open(crate) spec fn report_text(r: Report) -> Seq<char> {
    match r {
        Report::Passed { iterations, elapsed_ms } => success_text(
            iterations as nat,
            elapsed_ms as nat,
        ),
        Report::Falsified { original, shrunk } => failure_text(
            log_view(original@),
            log_view(shrunk@),
        ),
        Report::NonDeterministic => nondet_text(),
        Report::MalformedReplay { error } => usage_text(error@),
    }
}

impl UsageError {
    /// Renders the usage-error line.
    pub fn render(&self) -> (r: String)
        ensures
            r@ == usage_text(self@),
    {
        match self {
            UsageError::NameMismatch { at, expected, actual } => {
                let mut s: String =
                    "[maat] Usage error: while shrinking, got a different name for value "
                    .to_owned();
                let n = u64_to_string(*at as u64);
                s.append(n.as_str());
                s.append(": was ");
                s.append(expected.as_str());
                s.append(", is ");
                s.append(actual.as_str());
                proof {
                    assert(s@ =~= usage_text(self@));
                }
                s
            },
            UsageError::KindMismatch { at, expected, actual } => {
                let mut s: String =
                    "[maat] Usage error: while shrinking, got a different type for generated value "
                    .to_owned();
                let n = u64_to_string(*at as u64);
                s.append(n.as_str());
                s.append(": was ");
                s.append(crate::text::kind_label(*expected));
                s.append(", is ");
                s.append(crate::text::kind_label(*actual));
                proof {
                    assert(s@ =~= usage_text(self@));
                }
                s
            },
            UsageError::PastEnd { at } => {
                let mut s: String =
                    "[maat] Usage error: while shrinking, ran out of recorded values at index "
                    .to_owned();
                let n = u64_to_string(*at as u64);
                s.append(n.as_str());
                proof {
                    assert(s@ =~= usage_text(self@));
                }
                s
            },
        }
    }
}

impl Report {
    /// Renders the report as the engine's message text.
    pub fn render(&self) -> (r: String)
        ensures
            r@ == report_text(*self),
    {
        match self {
            Report::Passed { iterations, elapsed_ms } => {
                let mut s: String = "[maat] OK, passed ".to_owned();
                let n = u64_to_string(*iterations as u64);
                s.append(n.as_str());
                s.append(" tests (");
                let prod: u128 = (*iterations as u128) * 1000;
                let rate: u128 = if *elapsed_ms == 0 {
                    prod
                } else {
                    prod / (*elapsed_ms as u128)
                };
                let rs = u128_to_string(rate);
                s.append(rs.as_str());
                s.append(" iterations/sec)");
                proof {
                    assert(rate as nat == rate_of(*iterations as nat, *elapsed_ms as nat));
                    assert(s@ =~= success_text(*iterations as nat, *elapsed_ms as nat));
                }
                s
            },
            Report::Falsified { original, shrunk } => {
                let mut s: String = "\n[maat] Falsified property with values:\n".to_owned();
                let st = render_log(shrunk);
                s.append(st.as_str());
                s.append("\n[maat] Original failing values were:\n");
                let ot = render_log(original);
                s.append(ot.as_str());
                s.append("\n");
                proof {
                    assert(s@ =~= failure_text(log_view(original@), log_view(shrunk@)));
                }
                s
            },
            Report::NonDeterministic => {
                let s: String =
                    "[maat] Non-deterministic test function: found a failure but was unable to reproduce it."
                    .to_owned();
                s
            },
            Report::MalformedReplay { error } => error.render(),
        }
    }
}

} // verus!
