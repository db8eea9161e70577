//! The context handed to the user's predicate.
//!
//! A [`Maat`] is in one of three phases. In the testing phase `generate`
//! draws straight from the random stream. In the recording phase it also
//! logs each drawn value with its reducer. In the shrinking phase it
//! consults the recorded log instead of drawing: the requested name and
//! kind must match the entry under the cursor, and a mismatch is kept as a
//! usage error for the driver to report.

use vstd::prelude::*;

use crate::generators::draw;
use crate::generators::draw_shrinkable;
use crate::generators::gen_can_produce;
use crate::generators::gen_kind;
use crate::generators::gen_wf;
use crate::generators::kind_eq;
use crate::generators::kind_of_gen;
use crate::generators::name_is;
use crate::generators::red_matches;
use crate::generators::Generator;
use crate::record::log_view;
use crate::record::rec_view;
use crate::record::wf_entry;
use crate::record::Entry;
use crate::record::EntryV;
use crate::record::LogEntry;
use crate::record::LogEntryV;
use crate::rng::Prng;
use crate::value::default_value;
use crate::value::kind_of;
use crate::value::Kind;
use crate::value::Value;
use crate::value::ValueV;

verus! {

broadcast use vstd::std_specs::vec::group_vec_axioms;

/// Which of the three execution phases a context is in.
#[derive(Clone, Copy, Debug, PartialEq, Eq, Structural)]
pub enum Phase {
    Testing,
    Recording,
    Shrinking,
}

/// A usage error found while replaying a recording: the predicate asked
/// for something other than what the recording holds at the cursor, which
/// means it is not a deterministic function of its `generate` calls.
pub enum UsageError {
    /// The requested name differs from the recorded one.
    NameMismatch { at: usize, expected: String, actual: String },
    /// The requested kind of value differs from the recorded one.
    KindMismatch { at: usize, expected: Kind, actual: Kind },
    /// The predicate asked for more values than the recording holds.
    PastEnd { at: usize },
}

/// The shape of a [`UsageError`].
pub enum UsageErrorV {
    NameMismatch { at: usize, expected: Seq<char>, actual: Seq<char> },
    KindMismatch { at: usize, expected: Kind, actual: Kind },
    PastEnd { at: usize },
}

impl View for UsageError {
    type V = UsageErrorV;

    open spec fn view(&self) -> UsageErrorV {
        match self {
            UsageError::NameMismatch { at, expected, actual } => UsageErrorV::NameMismatch {
                at: *at,
                expected: expected@,
                actual: actual@,
            },
            UsageError::KindMismatch { at, expected, actual } => UsageErrorV::KindMismatch {
                at: *at,
                expected: *expected,
                actual: *actual,
            },
            UsageError::PastEnd { at } => UsageErrorV::PastEnd { at: *at },
        }
    }
}

/// The context a predicate draws values from.
pub struct Maat {
    pub(crate) phase: Phase,
    pub(crate) rng: Option<Prng>,
    pub(crate) record: Vec<Entry>,
    pub(crate) log: Vec<LogEntry>,
    pub(crate) cursor: usize,
    pub(crate) err: Option<UsageError>,
}

/// The shape of a [`Maat`]: its phase, what it has recorded, what it
/// replays, and the first usage error found, if any.
pub struct MaatV {
    pub phase: Phase,
    pub record: Seq<EntryV>,
    pub log: Seq<LogEntryV>,
    pub cursor: usize,
    pub err: Option<UsageErrorV>,
}

impl View for Maat {
    type V = MaatV;

    open(crate) spec fn view(&self) -> MaatV {
        MaatV {
            phase: self.phase,
            record: rec_view(self.record@),
            log: log_view(self.log@),
            cursor: self.cursor,
            err: match self.err {
                Option::None => Option::None,
                Option::Some(e) => Option::Some(e@),
            },
        }
    }
}

impl Maat {
    /// A context holds a random source exactly while its phase draws from
    /// one.
    pub open(crate) spec fn inv(&self) -> bool {
        (self.phase is Testing || self.phase is Recording) ==> self.rng is Some
    }

    pub(crate) fn testing(rng: Prng) -> (m: Maat)
        ensures
            m.inv(),
            m@.phase is Testing,
            m@.record =~= Seq::<EntryV>::empty(),
            m@.log =~= Seq::<LogEntryV>::empty(),
            m@.cursor == 0,
            m@.err is None,
    {
        Maat {
            phase: Phase::Testing,
            rng: Some(rng),
            record: Vec::new(),
            log: Vec::new(),
            cursor: 0,
            err: None,
        }
    }

    pub(crate) fn recording(rng: Prng) -> (m: Maat)
        ensures
            m.inv(),
            m@.phase is Recording,
            m@.record =~= Seq::<EntryV>::empty(),
            m@.log =~= Seq::<LogEntryV>::empty(),
            m@.cursor == 0,
            m@.err is None,
    {
        Maat {
            phase: Phase::Recording,
            rng: Some(rng),
            record: Vec::new(),
            log: Vec::new(),
            cursor: 0,
            err: None,
        }
    }

    pub(crate) fn shrinking(log: Vec<LogEntry>) -> (m: Maat)
        ensures
            m.inv(),
            m@.phase is Shrinking,
            m@.record =~= Seq::<EntryV>::empty(),
            m@.log == log_view(log@),
            m@.cursor == 0,
            m@.err is None,
    {
        Maat { phase: Phase::Shrinking, rng: None, record: Vec::new(), log, cursor: 0, err: None }
    }

    /// Draws a value with the given name from the given generator; the one
    /// operation a predicate may perform on its context.
    ///
    /// In the testing phase the value comes from the random stream with no
    /// bookkeeping; in the recording phase it is also logged together with
    /// its reducer; in the shrinking phase it is read back from the log,
    /// checked by name and kind.
    pub fn generate(&mut self, name: &str, g: &Generator) -> (v: Value)
        requires
            old(self).inv(),
            gen_wf(*g),
        ensures
            final(self).inv(),
            final(self)@.phase == old(self)@.phase,
            final(self)@.log == old(self)@.log,
            old(self)@.phase is Testing ==> {
                &&& final(self)@.record == old(self)@.record
                &&& final(self)@.cursor == old(self)@.cursor
                &&& final(self)@.err == old(self)@.err
                &&& gen_can_produce(*g, v@)
            },
            old(self)@.phase is Recording ==> {
                &&& final(self)@.cursor == old(self)@.cursor
                &&& final(self)@.err == old(self)@.err
                &&& final(self)@.record =~= old(self)@.record.push(
                    final(self)@.record.last(),
                )
                &&& final(self)@.record.last().name == name@
                &&& final(self)@.record.last().shr.value == v@
                &&& wf_entry(final(self)@.record.last())
                &&& red_matches(*g, final(self)@.record.last().shr.reducer)
                &&& gen_can_produce(*g, v@)
                &&& kind_of(v@) == gen_kind(*g)
            },
            old(self)@.phase is Shrinking ==> shrink_step(
                old(self)@,
                final(self)@,
                name@,
                gen_kind(*g),
                v@,
            ),
    {
        match self.phase {
            Phase::Testing => {
                let rng = self.rng.take();
                match rng {
                    Some(mut r) => {
                        let v = draw(g, &mut r);
                        self.rng = Some(r);
                        v
                    },
                    None => {
                        // never reached: the invariant ties a random source
                        // to this phase
                        default_value(kind_of_gen(g))
                    },
                }
            },
            Phase::Recording => {
                let rng = self.rng.take();
                match rng {
                    Some(mut r) => {
                        let shr = draw_shrinkable(g, &mut r);
                        self.rng = Some(r);
                        let v = shr.value.duplicate();
                        let ghost rec0 = rec_view(self.record@);
                        self.record.push(Entry { name: name.to_owned(), shr });
                        proof {
                            let rec1 = rec_view(self.record@);
                            assert(rec1 =~= rec0.push(rec1.last()));
                        }
                        v
                    },
                    None => {
                        // never reached, as above
                        default_value(kind_of_gen(g))
                    },
                }
            },
            Phase::Shrinking => {
                let gk = kind_of_gen(g);
                if self.err.is_some() {
                    return default_value(gk);
                }
                let at = self.cursor;
                if at >= self.log.len() {
                    self.err = Some(UsageError::PastEnd { at });
                    return default_value(gk);
                }
                let e = &self.log[at];
                proof {
                    assert(log_view(self.log@)[at as int] == self.log@[at as int]@);
                }
                if !name_is(&e.name, name) {
                    let expected = e.name.clone();
                    self.err = Some(
                        UsageError::NameMismatch { at, expected, actual: name.to_owned() },
                    );
                    return default_value(gk);
                }
                if !kind_eq(e.kind, gk) {
                    let expected = e.kind;
                    self.err = Some(UsageError::KindMismatch { at, expected, actual: gk });
                    return default_value(gk);
                }
                let v = e.value.duplicate();
                self.cursor = at + 1;
                v
            },
        }
    }

    /// Whether this context is fit to draw from: the one fact a verified
    /// caller outside the engine needs before calling `generate`. Contexts
    /// the engine hands out always are.
    pub fn ready(&self) -> (b: bool)
        ensures
            b == self.inv(),
    {
        match self.phase {
            Phase::Testing => self.rng.is_some(),
            Phase::Recording => self.rng.is_some(),
            Phase::Shrinking => true,
        }
    }

    /// The first usage error found while replaying, if any.
    pub fn usage_error(&self) -> (r: &Option<UsageError>)
        ensures
            r is Some <==> self@.err is Some,
            r matches Some(e) ==> self@.err == Some(e@),
    {
        &self.err
    }
}

/// What one `generate` call does to a shrinking-phase context: with no
/// prior error and a matching entry under the cursor it yields the recorded
/// value and advances; otherwise it records the precise mismatch. The log
/// itself never changes.
pub open(crate) spec fn shrink_step(
    m0: MaatV,
    m1: MaatV,
    name: Seq<char>,
    k: Kind,
    v: ValueV,
) -> bool {
    if m0.err is Some {
        m1 == m0
    } else if m0.cursor >= m0.log.len() {
        m1 == (MaatV { err: Some(UsageErrorV::PastEnd { at: m0.cursor }), ..m0 })
    } else if m0.log[m0.cursor as int].name != name {
        m1 == (MaatV {
            err: Some(
                UsageErrorV::NameMismatch {
                    at: m0.cursor,
                    expected: m0.log[m0.cursor as int].name,
                    actual: name,
                },
            ),
            ..m0
        })
    } else if m0.log[m0.cursor as int].kind != k {
        m1 == (MaatV {
            err: Some(
                UsageErrorV::KindMismatch {
                    at: m0.cursor,
                    expected: m0.log[m0.cursor as int].kind,
                    actual: k,
                },
            ),
            ..m0
        })
    } else {
        m1 == (MaatV { cursor: (m0.cursor + 1) as usize, ..m0 }) && v == m0.log[m0.cursor as int].value
    }
}

/// A context about to record a fresh run: the recording phase, with
/// nothing recorded yet and nothing to replay.
pub open(crate) spec fn is_record_start(m: MaatV) -> bool {
    m.phase is Recording && m.record.len() == 0 && m.log.len() == 0 && m.cursor == 0
        && m.err is None
}

/// A context about to replay the given log from the start, as the driver
/// builds one: nothing recorded, cursor at the first entry, no error.
pub open(crate) spec fn is_replay_start(m: MaatV, log: Seq<LogEntryV>) -> bool {
    m.phase is Shrinking && m.log == log && m.cursor == 0 && m.err is None && m.record
        == Seq::<EntryV>::empty()
}

} // verus!
