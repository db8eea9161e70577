//! Recordings: the ordered log of named, drawn values from one failing run.
//!
//! Each entry pairs a name with a [`Shrinkable`]: the drawn value together
//! with the reducer that proposes smaller candidates for it. A recording is
//! replayed through a plain list of [`LogEntry`] snapshots, which carry only
//! what replay needs: name, kind and value.

use vstd::prelude::*;

use crate::generators::plan_replay;
use crate::generators::Plan;
use crate::value::kind_of;
use crate::value::Kind;
use crate::value::Value;
use crate::value::ValueV;

verus! {

broadcast use vstd::std_specs::vec::group_vec_axioms;

/// One replayable snapshot of a recording entry: its name, the kind of the
/// stored value, and the value itself.
pub struct LogEntry {
    pub(crate) name: String,
    pub(crate) kind: Kind,
    pub(crate) value: Value,
}

/// The shape of a [`LogEntry`].
pub struct LogEntryV {
    pub name: Seq<char>,
    pub kind: Kind,
    pub value: ValueV,
}

impl View for LogEntry {
    type V = LogEntryV;

    open(crate) spec fn view(&self) -> LogEntryV {
        LogEntryV { name: self.name@, kind: self.kind, value: self.value@ }
    }
}

/// The shape of a list of snapshots.
pub open(crate) spec fn log_view(l: Seq<LogEntry>) -> Seq<LogEntryV> {
    Seq::new(l.len(), |i: int| if 0 <= i < l.len() { l[i]@ } else { arbitrary_log_entry() })
}

pub open spec fn arbitrary_log_entry() -> LogEntryV {
    LogEntryV { name: Seq::empty(), kind: Kind::Bool, value: ValueV::Bool(false) }
}

impl LogEntry {
    /// The entry's name, as supplied at `generate` time.
    pub fn name(&self) -> (r: &String)
        ensures
            r@ == self@.name,
    {
        &self.name
    }

    /// The kind recorded for the entry.
    pub fn kind(&self) -> (r: Kind)
        ensures
            r == self@.kind,
    {
        self.kind
    }

    /// The recorded value.
    pub fn value(&self) -> (r: &Value)
        ensures
            r@ == self@.value,
    {
        &self.value
    }

    /// An exact copy of this snapshot.
    pub fn duplicate(&self) -> (r: LogEntry)
        ensures
            r@ == self@,
    {
        LogEntry { name: self.name.clone(), kind: self.kind, value: self.value.duplicate() }
    }
}

/// The log with the value at index `at` replaced and everything else kept;
/// the entry keeps its name and its recorded kind.
pub open spec fn log_upd(l: Seq<LogEntryV>, at: int, v: ValueV) -> Seq<LogEntryV> {
    l.update(at, LogEntryV { name: l[at].name, kind: l[at].kind, value: v })
}

/// Builds the updated snapshot list that [`log_upd`] describes.
#[verifier::loop_isolation(false)]
pub(crate) fn log_with(base: &Vec<LogEntry>, at: usize, v: &Value) -> (r: Vec<LogEntry>)
    requires
        at < base@.len(),
    ensures
        log_view(r@) =~= log_upd(log_view(base@), at as int, v@),
{
    let mut out: Vec<LogEntry> = Vec::new();
    let n = base.len();
    let mut i: usize = 0;
    while i < n
        invariant
            i <= n,
            out@.len() == i,
            forall|k: int|
                0 <= k < i && k != at ==> out@[k]@ == base@[k]@,
            forall|k: int|
                0 <= k < i && k == at ==> out@[k]@ == (LogEntryV {
                    name: base@[k]@.name,
                    kind: base@[k]@.kind,
                    value: v@,
                }),
        decreases n - i,
    {
        let e = &base[i];
        if i == at {
            out.push(LogEntry { name: e.name.clone(), kind: e.kind, value: v.duplicate() });
        } else {
            out.push(e.duplicate());
        }
        i += 1;
    }
    out
}

/// A drawn value paired with the reducer that proposes smaller candidates
/// for it.
pub struct Shrinkable {
    pub(crate) value: Value,
    pub(crate) reducer: Reducer,
}

/// The reduction strategy attached to one drawn value. Reducers carry the
/// state they were created with: the lower bound for numeric values, or the
/// nested recording for derived values.
pub(crate) enum Reducer {
    /// Never proposes anything; used where no sensible reduction exists.
    NoShrink,
    /// Reduces a 64-bit integer toward `min`.
    NumI64 { min: i64 },
    /// Reduces an index-sized integer toward `min`.
    NumUsize { min: usize },
    /// Reduces an ASCII character code toward `'x'`.
    AlnumToX,
    /// Replays `plan` over an owned nested recording and reduces the nested
    /// entries one by one.
    Nested { plan: Plan, entries: Vec<Entry> },
}

/// A named entry of a recording.
pub struct Entry {
    pub(crate) name: String,
    pub(crate) shr: Shrinkable,
}

/// The shape of a [`Shrinkable`].
pub struct ShrinkableV {
    pub value: ValueV,
    pub reducer: ReducerV,
}

/// The shape of a [`Reducer`].
pub enum ReducerV {
    NoShrink,
    NumI64 { min: i64 },
    NumUsize { min: usize },
    AlnumToX,
    Nested { plan: Plan, entries: Seq<EntryV> },
}

/// The shape of an [`Entry`].
pub struct EntryV {
    pub name: Seq<char>,
    pub shr: ShrinkableV,
}

pub open(crate) spec fn ent_view(e: Entry) -> EntryV
    decreases e,
{
    EntryV { name: e.name@, shr: shr_view(e.shr) }
}

pub open(crate) spec fn shr_view(s: Shrinkable) -> ShrinkableV
    decreases s,
{
    ShrinkableV { value: s.value@, reducer: red_view(s.reducer) }
}

pub open(crate) spec fn red_view(r: Reducer) -> ReducerV
    decreases r,
{
    match r {
        Reducer::NoShrink => ReducerV::NoShrink,
        Reducer::NumI64 { min } => ReducerV::NumI64 { min },
        Reducer::NumUsize { min } => ReducerV::NumUsize { min },
        Reducer::AlnumToX => ReducerV::AlnumToX,
        Reducer::Nested { plan, entries } => ReducerV::Nested {
            plan,
            entries: Seq::new(
                entries@.len(),
                |i: int|
                    if 0 <= i < entries@.len() {
                        ent_view(entries@[i])
                    } else {
                        arbitrary_entry()
                    },
            ),
        },
    }
}

pub open spec fn arbitrary_entry() -> EntryV {
    EntryV {
        name: Seq::empty(),
        shr: ShrinkableV { value: ValueV::Bool(false), reducer: ReducerV::NoShrink },
    }
}

impl View for Entry {
    type V = EntryV;

    open(crate) spec fn view(&self) -> EntryV {
        ent_view(*self)
    }
}

impl View for Shrinkable {
    type V = ShrinkableV;

    open(crate) spec fn view(&self) -> ShrinkableV {
        shr_view(*self)
    }
}

/// The shape of a whole recording.
pub open(crate) spec fn rec_view(r: Seq<Entry>) -> Seq<EntryV> {
    Seq::new(r.len(), |i: int| if 0 <= i < r.len() { ent_view(r[i]) } else { arbitrary_entry() })
}

/// The replay snapshot a sequence of entries stands for: each entry reduced
/// to its name, the kind of its current value, and that value.
pub open spec fn entries_log(s: Seq<EntryV>) -> Seq<LogEntryV> {
    Seq::new(
        s.len(),
        |i: int|
            if 0 <= i < s.len() {
                LogEntryV {
                    name: s[i].name,
                    kind: kind_of(s[i].shr.value),
                    value: s[i].shr.value,
                }
            } else {
                arbitrary_log_entry()
            },
    )
}

/// Builds the snapshot list that [`entries_log`] describes.
#[verifier::loop_isolation(false)]
pub(crate) fn snapshot_log(rec: &Vec<Entry>) -> (r: Vec<LogEntry>)
    ensures
        log_view(r@) =~= entries_log(rec_view(rec@)),
{
    let mut out: Vec<LogEntry> = Vec::new();
    let n = rec.len();
    let mut i: usize = 0;
    while i < n
        invariant
            i <= n,
            out@.len() == i,
            forall|k: int|
                0 <= k < i ==> out@[k]@ == (LogEntryV {
                    name: rec@[k]@.name,
                    kind: kind_of(rec@[k]@.shr.value),
                    value: rec@[k]@.shr.value,
                }),
        decreases n - i,
    {
        let e = &rec[i];
        out.push(
            LogEntry {
                name: e.name.clone(),
                kind: e.shr.value.kind(),
                value: e.shr.value.duplicate(),
            },
        );
        i += 1;
    }
    out
}

/// Well-formedness of a shrinkable: the stored value fits the reducer, and
/// a nested recording always replays to the current composite value.
pub open spec fn wf_shr(s: ShrinkableV) -> bool
    decreases s,
{
    match s.reducer {
        ReducerV::NoShrink => true,
        ReducerV::NumI64 { min } => s.value matches ValueV::I64(n) && n >= min,
        ReducerV::NumUsize { min } => s.value matches ValueV::Usize(n) && n >= min,
        ReducerV::AlnumToX => s.value matches ValueV::Char(c) && c < 128,
        ReducerV::Nested { plan, entries } => {
            &&& forall|i: int| 0 <= i < entries.len() ==> wf_entry(#[trigger] entries[i])
            &&& plan_replay(plan, entries_log(entries)) == Some(s.value)
        },
    }
}

/// Well-formedness of one entry.
pub open spec fn wf_entry(e: EntryV) -> bool
    decreases e,
{
    wf_shr(e.shr)
}

pub open spec fn wf_entries(s: Seq<EntryV>) -> bool {
    forall|i: int| 0 <= i < s.len() ==> wf_entry(#[trigger] s[i])
}

/// How far a shrinkable still is from its smallest form; every accepted
/// shrink strictly decreases it, which bounds the shrinking fixpoint.
pub open spec fn shr_mass(s: ShrinkableV) -> int
    decreases s,
{
    match s.reducer {
        ReducerV::NoShrink => 0,
        ReducerV::NumI64 { min } => match s.value {
            ValueV::I64(n) => n - min,
            _ => 0,
        },
        ReducerV::NumUsize { min } => match s.value {
            ValueV::Usize(n) => n - min,
            _ => 0,
        },
        ReducerV::AlnumToX => match s.value {
            ValueV::Char(c) => if c >= 120 {
                c - 120
            } else {
                120 - c
            },
            _ => 0,
        },
        ReducerV::Nested { plan, entries } => seq_mass(entries),
    }
}

/// The mass of one entry.
pub open spec fn ent_mass(e: EntryV) -> int
    decreases e,
{
    shr_mass(e.shr)
}

pub open spec fn seq_mass(s: Seq<EntryV>) -> int
    decreases s,
{
    if s.len() == 0 {
        0
    } else {
        seq_mass(s.drop_last()) + ent_mass(s.last())
    }
}

/// A well-formed entry has non-negative mass.
pub proof fn lemma_mass_nonneg(e: EntryV)
    requires
        wf_entry(e),
    ensures
        ent_mass(e) >= 0,
    decreases e,
{
    match e.shr.reducer {
        ReducerV::Nested { plan, entries } => {
            lemma_seq_mass_nonneg(entries);
        },
        _ => {},
    }
}

/// A well-formed shrinkable has non-negative mass.
pub proof fn lemma_shr_mass_nonneg(s: ShrinkableV)
    requires
        wf_shr(s),
    ensures
        shr_mass(s) >= 0,
{
    let e = EntryV { name: Seq::empty(), shr: s };
    lemma_mass_nonneg(e);
}

pub proof fn lemma_seq_mass_nonneg(s: Seq<EntryV>)
    requires
        wf_entries(s),
    ensures
        seq_mass(s) >= 0,
    decreases s,
{
    if s.len() > 0 {
        assert(wf_entries(s.drop_last()));
        lemma_seq_mass_nonneg(s.drop_last());
        lemma_mass_nonneg(s.last());
    }
}

/// Mass of a sequence, seen one element at a time: replacing one entry
/// changes the total by exactly the difference at that position.
pub proof fn lemma_seq_mass_update(s: Seq<EntryV>, i: int, e: EntryV)
    requires
        0 <= i < s.len(),
    ensures
        seq_mass(s.update(i, e)) == seq_mass(s) - ent_mass(s[i]) + ent_mass(e),
    decreases s.len(),
{
    let t = s.update(i, e);
    if i == s.len() - 1 {
        assert(t.drop_last() =~= s.drop_last());
        assert(t.last() == e);
    } else {
        assert(t.drop_last() =~= s.drop_last().update(i, e));
        assert(t.last() == s.last());
        lemma_seq_mass_update(s.drop_last(), i, e);
    }
}

/// The structural height of a shrinkable; shrinking never changes it.
pub open spec fn shr_height(s: ShrinkableV) -> nat
    decreases s,
{
    match s.reducer {
        ReducerV::Nested { plan, entries } => 1 + seq_height(entries),
        _ => 0,
    }
}

/// The height of one entry.
pub open spec fn ent_height(e: EntryV) -> nat
    decreases e,
{
    shr_height(e.shr)
}

pub open spec fn seq_height(s: Seq<EntryV>) -> nat
    decreases s,
{
    if s.len() == 0 {
        0
    } else {
        seq_height(s.drop_last()) + ent_height(s.last())
    }
}

pub proof fn lemma_height_element(s: Seq<EntryV>, i: int)
    requires
        0 <= i < s.len(),
    ensures
        ent_height(s[i]) <= seq_height(s),
    decreases s.len(),
{
    if i == s.len() - 1 {
    } else {
        lemma_height_element(s.drop_last(), i);
    }
}

/// The reducer ordering: `shr_le(a, b)` says `a` is what `b` can become
/// through accepted reductions. Numeric values sit between their lower
/// bound and the old value; characters sit between the old value and the
/// letter `x`; nested recordings are ordered entry by entry. The shape of
/// the reducer, and the kind of the value, never change.
pub open spec fn shr_le(a: ShrinkableV, b: ShrinkableV) -> bool
    decreases b,
{
    match (a.reducer, b.reducer) {
        (ReducerV::NoShrink, ReducerV::NoShrink) => a.value == b.value,
        (ReducerV::NumI64 { min: m1 }, ReducerV::NumI64 { min: m2 }) => m1 == m2 && (a.value
            matches ValueV::I64(x)) && (b.value matches ValueV::I64(y)) && m1 <= a.value->I64_0
            <= b.value->I64_0,
        (ReducerV::NumUsize { min: m1 }, ReducerV::NumUsize { min: m2 }) => m1 == m2 && (a.value
            matches ValueV::Usize(x)) && (b.value matches ValueV::Usize(y)) && m1
            <= a.value->Usize_0 <= b.value->Usize_0,
        (ReducerV::AlnumToX, ReducerV::AlnumToX) => (a.value matches ValueV::Char(x)) && (b.value
            matches ValueV::Char(y)) && (if b.value->Char_0 >= 120 {
            120 <= a.value->Char_0 <= b.value->Char_0
        } else {
            b.value->Char_0 <= a.value->Char_0 <= 120
        }),
        (
            ReducerV::Nested { plan: p1, entries: e1 },
            ReducerV::Nested { plan: p2, entries: e2 },
        ) => p1 == p2 && e1.len() == e2.len() && (forall|i: int|
            0 <= i < e1.len() ==> entry_le(#[trigger] e1[i], e2[i])) && kind_of(a.value) == kind_of(
            b.value,
        ),
        _ => false,
    }
}

/// Entry ordering: the name is kept and the shrinkable is ordered.
pub open spec fn entry_le(a: EntryV, b: EntryV) -> bool
    decreases b,
{
    a.name == b.name && shr_le(a.shr, b.shr)
}

/// Pointwise ordering of whole recordings.
pub open spec fn entries_le(a: Seq<EntryV>, b: Seq<EntryV>) -> bool {
    a.len() == b.len() && (forall|i: int| 0 <= i < a.len() ==> entry_le(#[trigger] a[i], b[i]))
}

/// The ordering is reflexive on well-formed shrinkables.
pub proof fn lemma_shr_le_refl(a: ShrinkableV)
    requires
        wf_shr(a),
    ensures
        shr_le(a, a),
    decreases a,
{
    match a.reducer {
        ReducerV::Nested { plan, entries } => {
            assert forall|i: int| 0 <= i < entries.len() implies entry_le(
                #[trigger] entries[i],
                entries[i],
            ) by {
                lemma_shr_le_refl(entries[i].shr);
            }
        },
        _ => {},
    }
}

/// The ordering is transitive.
pub proof fn lemma_shr_le_trans(a: ShrinkableV, b: ShrinkableV, c: ShrinkableV)
    requires
        shr_le(a, b),
        shr_le(b, c),
    ensures
        shr_le(a, c),
    decreases c,
{
    match c.reducer {
        ReducerV::Nested { plan, entries } => {
            let e1 = a.reducer->Nested_entries;
            let e2 = b.reducer->Nested_entries;
            assert forall|i: int| 0 <= i < e1.len() implies entry_le(
                #[trigger] e1[i],
                entries[i],
            ) by {
                assert(entry_le(e1[i], e2[i]));
                assert(entry_le(e2[i], entries[i]));
                lemma_shr_le_trans(e1[i].shr, e2[i].shr, entries[i].shr);
            }
        },
        _ => {},
    }
}

/// Reduction never changes the structural height.
pub proof fn lemma_shr_le_height(a: ShrinkableV, b: ShrinkableV)
    requires
        shr_le(a, b),
    ensures
        shr_height(a) == shr_height(b),
    decreases b,
{
    match b.reducer {
        ReducerV::Nested { plan, entries } => {
            let e1 = a.reducer->Nested_entries;
            lemma_seq_height_pointwise(e1, entries);
        },
        _ => {},
    }
}

pub proof fn lemma_seq_height_pointwise(a: Seq<EntryV>, b: Seq<EntryV>)
    requires
        a.len() == b.len(),
        forall|i: int| 0 <= i < a.len() ==> entry_le(#[trigger] a[i], b[i]),
    ensures
        seq_height(a) == seq_height(b),
    decreases b,
{
    if b.len() > 0 {
        assert(forall|i: int|
            0 <= i < a.len() - 1 ==> entry_le(#[trigger] a.drop_last()[i], b.drop_last()[i]));
        lemma_seq_height_pointwise(a.drop_last(), b.drop_last());
        assert(entry_le(a[a.len() - 1], b[b.len() - 1]));
        lemma_shr_le_height(a.last().shr, b.last().shr);
        assert(ent_height(a.last()) == ent_height(b.last()));
    }
}

/// Reduction never changes the kind of the stored value.
pub proof fn lemma_shr_le_kind(a: ShrinkableV, b: ShrinkableV)
    requires
        shr_le(a, b),
    ensures
        kind_of(a.value) == kind_of(b.value),
{
}

impl Shrinkable {
    /// Decides well-formedness at run time; the driver applies it to the
    /// recording a predicate hands back, since nothing else ties an
    /// arbitrary callable to the context it was given.
    #[verifier::loop_isolation(false)]
    pub(crate) fn check_wf(&self) -> (r: bool)
        ensures
            r == wf_shr(self@),
        decreases self,
    {
        match &self.reducer {
            Reducer::NoShrink => true,
            Reducer::NumI64 { min } => match &self.value {
                Value::I64(n) => *n >= *min,
                _ => false,
            },
            Reducer::NumUsize { min } => match &self.value {
                Value::Usize(n) => *n >= *min,
                _ => false,
            },
            Reducer::AlnumToX => match &self.value {
                Value::Char(c) => *c < 128,
                _ => false,
            },
            Reducer::Nested { plan, entries } => {
                let ghost ev = self@.reducer->Nested_entries;
                proof {
                    assert(ev =~= rec_view(entries@));
                }
                let n = entries.len();
                let mut i: usize = 0;
                while i < n
                    invariant
                        i <= n,
                        n == entries@.len(),
                        forall|k: int| 0 <= k < i ==> wf_entry(#[trigger] rec_view(entries@)[k]),
                    decreases n - i,
                {
                    let e = &entries[i];
                    proof {
                        assert(decreases_to!(*self => self.reducer));
                        assert(decreases_to!(self.reducer => self.reducer->Nested_entries));
                        assert(decreases_to!(self.reducer->Nested_entries
                            => self.reducer->Nested_entries@));
                        assert(decreases_to!(self.reducer->Nested_entries@
                            => self.reducer->Nested_entries@[i as int]));
                        assert(decreases_to!(*self => entries@[i as int]));
                    }
                    if !e.check_wf() {
                        proof {
                            assert(!wf_entry(rec_view(entries@)[i as int]));
                        }
                        return false;
                    }
                    i += 1;
                }
                let lg = snapshot_log(entries);
                let rep = crate::generators::run_plan_replay(plan, &lg);
                proof {
                    assert(log_view(lg@) == entries_log(rec_view(entries@)));
                    assert(entries_log(ev) =~= entries_log(rec_view(entries@)));
                }
                match rep {
                    Some(v) => crate::value::value_eq(&v, &self.value),
                    None => false,
                }
            },
        }
    }
}

impl Entry {
    /// Decides well-formedness of one entry at run time.
    pub(crate) fn check_wf(&self) -> (r: bool)
        ensures
            r == wf_entry(self@),
        decreases self,
    {
        proof {
            assert(decreases_to!(*self => self.shr));
        }
        self.shr.check_wf()
    }
}

/// Decides well-formedness of a whole recording at run time.
#[verifier::loop_isolation(false)]
pub(crate) fn check_wf_entries(rec: &Vec<Entry>) -> (r: bool)
    ensures
        r == wf_entries(rec_view(rec@)),
{
    let n = rec.len();
    let mut i: usize = 0;
    while i < n
        invariant
            i <= n,
            forall|k: int| 0 <= k < i ==> wf_entry(#[trigger] rec_view(rec@)[k]),
        decreases n - i,
    {
        if !rec[i].check_wf() {
            proof {
                assert(!wf_entry(rec_view(rec@)[i as int]));
            }
            return false;
        }
        i += 1;
    }
    true
}

} // verus!
