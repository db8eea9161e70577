//! The generator library: strategies for drawing one value, together with
//! the reduction each strategy offers for an already-drawn value.
//!
//! Every generator is a value of the closed [`Generator`] type, built by
//! one of the public constructors. A generator knows two operations: the
//! fast draw used in the testing phase, and the recording draw that also
//! attaches a reducer so the value can later be shrunk.

use vstd::prelude::*;

use crate::record::entries_log;
use crate::record::log_view;
use crate::record::rec_view;
use crate::record::wf_entries;
use crate::record::wf_entry;
use crate::record::wf_shr;
use crate::record::Entry;
use crate::record::LogEntry;
use crate::record::LogEntryV;
use crate::record::Reducer;
use crate::record::ReducerV;
use crate::record::Shrinkable;
use crate::rng::is_alphanumeric_code;
use crate::rng::Prng;
use crate::text::push_char;
use crate::value::kind_of;
use crate::value::Kind;
use crate::value::Value;
use crate::value::ValueV;

verus! {

broadcast use vstd::std_specs::vec::group_vec_axioms;

/// A strategy for drawing one value. Built by the public constructors
/// below; the engine inspects it, user code only passes it around.
pub struct Generator {
    pub(crate) g: GenForm,
}

pub(crate) enum GenForm {
    UniformI64 { min: i64, max: i64 },
    UniformUsize { min: usize, max: usize },
    Alphanumeric,
    StrRand { min_len: usize, max_len: usize },
    StrAlnum { len: usize },
    Placeholder { kind: Kind },
    Derived { plan: Box<Plan> },
}

/// The shape of the user function a derived generator runs: draw a length,
/// then that many elements. This is the engine's compositional form; nested
/// plans build nested recordings of their own, to any depth.
///
/// A plan is deliberately narrower than an arbitrary callable: the engine's
/// values live in the closed [`Value`] universe and its reducers are data,
/// so a compound of differently-typed named fields has no plan form —
/// vectors of any element generator, nested vectors included, do.
pub struct Plan {
    pub(crate) elem: Box<Generator>,
    pub(crate) min_len: usize,
    pub(crate) max_len: usize,
}

/// Validity of a generator: numeric and length ranges must be non-empty.
pub open(crate) spec fn gen_wf(g: Generator) -> bool
    decreases g,
{
    match g.g {
        GenForm::UniformI64 { min, max } => min < max,
        GenForm::UniformUsize { min, max } => min < max,
        GenForm::Alphanumeric => true,
        GenForm::StrRand { min_len, max_len } => min_len <= max_len,
        GenForm::StrAlnum { len } => true,
        GenForm::Placeholder { kind } => true,
        GenForm::Derived { plan } => plan_wf(*plan),
    }
}

pub open(crate) spec fn plan_wf(p: Plan) -> bool
    decreases p,
{
    p.min_len < p.max_len && gen_wf(*p.elem)
}

/// The kind of value a generator draws.
pub open(crate) spec fn gen_kind(g: Generator) -> Kind {
    match g.g {
        GenForm::UniformI64 { .. } => Kind::I64,
        GenForm::UniformUsize { .. } => Kind::Usize,
        GenForm::Alphanumeric => Kind::Char,
        GenForm::StrRand { .. } => Kind::Str,
        GenForm::StrAlnum { .. } => Kind::Str,
        GenForm::Placeholder { kind } => kind,
        GenForm::Derived { .. } => Kind::List,
    }
}

/// The values a generator can draw.
pub open(crate) spec fn gen_can_produce(g: Generator, v: ValueV) -> bool
    decreases g,
{
    match g.g {
        GenForm::UniformI64 { min, max } => v matches ValueV::I64(n) && min <= n < max,
        GenForm::UniformUsize { min, max } => v matches ValueV::Usize(n) && min <= n < max,
        GenForm::Alphanumeric => v matches ValueV::Char(c) && is_alphanumeric_code(c),
        GenForm::StrRand { min_len, max_len } => v matches ValueV::Str(s) && min_len <= s.len()
            <= max_len,
        GenForm::StrAlnum { len } => v matches ValueV::Str(s) && s.len() == len,
        GenForm::Placeholder { kind } => kind_of(v) == kind && match v {
            ValueV::Str(s) => s.len() == 0,
            ValueV::List(items) => items.len() == 0,
            ValueV::Char(c) => c < 128,
            _ => true,
        },
        GenForm::Derived { plan } => plan_can_produce(*plan, v),
    }
}

pub open(crate) spec fn plan_can_produce(p: Plan, v: ValueV) -> bool
    decreases p,
{
    v matches ValueV::List(items) && p.min_len <= items.len() < p.max_len && (forall|i: int|
        0 <= i < items.len() ==> gen_can_produce(*p.elem, #[trigger] items[i]))
}

/// What replaying a plan over a recorded log yields: the recorded length
/// followed by that many recorded elements, every entry checked by name and
/// kind exactly as shrinking-phase replay checks them.
pub open(crate) spec fn plan_replay(p: Plan, log: Seq<LogEntryV>) -> Option<ValueV> {
    if log.len() >= 1 && log[0].name == "length"@ && log[0].kind == Kind::Usize && log[0].value
        is Usize {
        let n = log[0].value->Usize_0;
        if n + 1 <= log.len() && (forall|i: int|
            1 <= i <= n ==> (#[trigger] log[i]).name == "element"@ && log[i].kind == gen_kind(
                *p.elem,
            )) {
            Some(
                ValueV::List(
                    Seq::new(
                        n as nat,
                        |i: int|
                            if 0 <= i < n {
                                log[i + 1].value
                            } else {
                                ValueV::Bool(false)
                            },
                    ),
                ),
            )
        } else {
            None
        }
    } else {
        None
    }
}

impl Generator {
    /// An exact copy of this generator.
    pub fn duplicate(&self) -> (r: Generator)
        ensures
            r == *self,
        decreases self,
    {
        match &self.g {
            GenForm::UniformI64 { min, max } => Generator {
                g: GenForm::UniformI64 { min: *min, max: *max },
            },
            GenForm::UniformUsize { min, max } => Generator {
                g: GenForm::UniformUsize { min: *min, max: *max },
            },
            GenForm::Alphanumeric => Generator { g: GenForm::Alphanumeric },
            GenForm::StrRand { min_len, max_len } => Generator {
                g: GenForm::StrRand { min_len: *min_len, max_len: *max_len },
            },
            GenForm::StrAlnum { len } => Generator { g: GenForm::StrAlnum { len: *len } },
            GenForm::Placeholder { kind } => Generator { g: GenForm::Placeholder { kind: *kind } },
            GenForm::Derived { plan } => {
                proof {
                    assert(decreases_to!(*self => self.g));
                    assert(decreases_to!(self.g => self.g->Derived_plan));
                }
                Generator { g: GenForm::Derived { plan: Box::new(plan.duplicate()) } }
            },
        }
    }
}

impl Plan {
    /// An exact copy of this plan.
    pub fn duplicate(&self) -> (r: Plan)
        ensures
            r == *self,
        decreases self,
    {
        proof {
            assert(decreases_to!(*self => self.elem));
        }
        Plan {
            elem: Box::new(self.elem.duplicate()),
            min_len: self.min_len,
            max_len: self.max_len,
        }
    }
}

/// Uniformly distributed 64-bit integers in `[min, max)`, shrinking toward
/// `min`.
pub fn uniform_i64(min: i64, max: i64) -> (r: Generator)
    requires
        min < max,
    ensures
        gen_wf(r),
        gen_kind(r) == Kind::I64,
        forall|v: ValueV|
            gen_can_produce(r, v) <==> (v matches ValueV::I64(n) && min <= n < max),
        forall|red: ReducerV| #[trigger] red_matches(r, red) ==> red == (ReducerV::NumI64 { min }),
{
    Generator { g: GenForm::UniformI64 { min, max } }
}

/// Uniformly distributed index-sized integers in `[min, max)`, shrinking
/// toward `min`.
pub fn uniform_usize(min: usize, max: usize) -> (r: Generator)
    requires
        min < max,
    ensures
        gen_wf(r),
        gen_kind(r) == Kind::Usize,
        forall|v: ValueV|
            gen_can_produce(r, v) <==> (v matches ValueV::Usize(n) && min <= n < max),
        forall|red: ReducerV| #[trigger] red_matches(r, red) ==> red == (ReducerV::NumUsize {
            min,
        }),
{
    Generator { g: GenForm::UniformUsize { min, max } }
}

/// Uniformly distributed letters and digits, as ASCII codes, shrinking
/// toward the letter `x`.
pub fn alphanumeric() -> (r: Generator)
    ensures
        gen_wf(r),
        gen_kind(r) == Kind::Char,
        forall|v: ValueV|
            gen_can_produce(r, v) <==> (v matches ValueV::Char(c) && is_alphanumeric_code(c)),
        forall|red: ReducerV| #[trigger] red_matches(r, red) ==> red == ReducerV::AlnumToX,
{
    Generator { g: GenForm::Alphanumeric }
}

/// Strings whose length is drawn uniformly from `[min_len, max_len]` and
/// whose characters are drawn uniformly from all characters. Offers no
/// reduction: the recorded reducer never proposes a candidate.
pub fn string(min_len: usize, max_len: usize) -> (r: Generator)
    requires
        min_len <= max_len,
    ensures
        gen_wf(r),
        gen_kind(r) == Kind::Str,
        forall|v: ValueV|
            gen_can_produce(r, v) <==> (v matches ValueV::Str(s) && min_len <= s.len() <= max_len),
        forall|red: ReducerV| #[trigger] red_matches(r, red) ==> red == ReducerV::NoShrink,
{
    Generator { g: GenForm::StrRand { min_len, max_len } }
}

/// Strings of exactly `len` letters and digits. Offers no reduction: the
/// recorded reducer never proposes a candidate.
pub fn string_alphanumeric(len: usize) -> (r: Generator)
    ensures
        gen_wf(r),
        gen_kind(r) == Kind::Str,
        forall|v: ValueV| gen_can_produce(r, v) <==> (v matches ValueV::Str(s) && s.len() == len),
        forall|red: ReducerV| #[trigger] red_matches(r, red) ==> red == ReducerV::NoShrink,
{
    Generator { g: GenForm::StrAlnum { len } }
}

/// An arbitrary value of the given kind, for inputs a predicate needs but
/// does not depend on. Never shrinks: the recorded reducer never proposes
/// a candidate. For the text and list kinds the drawn value is the empty
/// one.
pub fn placeholder(kind: Kind) -> (r: Generator)
    ensures
        gen_wf(r),
        gen_kind(r) == kind,
        forall|red: ReducerV| #[trigger] red_matches(r, red) ==> red == ReducerV::NoShrink,
{
    Generator { g: GenForm::Placeholder { kind } }
}

/// A compound generator: draws a length from `[min_len, max_len)`, then
/// that many values of `elem`, and shrinks the parts through a nested
/// recording of its own.
pub fn vec_of(elem: Generator, min_len: usize, max_len: usize) -> (r: Plan)
    requires
        min_len < max_len,
        gen_wf(elem),
    ensures
        plan_wf(r),
        forall|v: ValueV|
            plan_can_produce(r, v) <==> (v matches ValueV::List(items) && min_len <= items.len()
                < max_len && (forall|i: int|
                0 <= i < items.len() ==> gen_can_produce(elem, #[trigger] items[i]))),
{
    Plan { elem: Box::new(elem), min_len, max_len }
}

/// The generator a derivation plan describes.
pub fn derive(plan: Plan) -> (r: Generator)
    requires
        plan_wf(plan),
    ensures
        gen_wf(r),
        gen_kind(r) == Kind::List,
        forall|v: ValueV| gen_can_produce(r, v) <==> plan_can_produce(plan, v),
        forall|red: ReducerV| #[trigger] red_matches(r, red) ==> (red
            matches ReducerV::Nested { plan: p, entries } && p == plan),
{
    Generator { g: GenForm::Derived { plan: Box::new(plan) } }
}

/// The fast path: draw one value, with no bookkeeping.
#[verifier::loop_isolation(false)]
pub(crate) fn draw(g: &Generator, rng: &mut Prng) -> (v: Value)
    requires
        gen_wf(*g),
    ensures
        gen_can_produce(*g, v@),
        kind_of(v@) == gen_kind(*g),
    decreases *g,
{
    match &g.g {
        GenForm::UniformI64 { min, max } => Value::I64(rng.draw_i64(*min, *max)),
        GenForm::UniformUsize { min, max } => Value::Usize(rng.draw_usize(*min, *max)),
        GenForm::Alphanumeric => Value::Char(rng.draw_alphanumeric()),
        GenForm::StrRand { min_len, max_len } => {
            let len = rng.draw_usize_inclusive(*min_len, *max_len);
            Value::Str(draw_text(rng, len, false))
        },
        GenForm::StrAlnum { len } => Value::Str(draw_text(rng, *len, true)),
        GenForm::Placeholder { kind } => draw_placeholder(*kind, rng),
        GenForm::Derived { plan } => {
            proof {
                assert(decreases_to!(*g => g.g));
                assert(decreases_to!(g.g => g.g->Derived_plan));
            }
            let n = rng.draw_usize(plan.min_len, plan.max_len);
            let mut items: Vec<Value> = Vec::new();
            let mut i: usize = 0;
            while i < n
                invariant
                    gen_wf(*plan.elem),
                    i <= n,
                    items@.len() == i,
                    forall|k: int|
                        0 <= k < i ==> gen_can_produce(*plan.elem, #[trigger] items@[k]@),
                decreases n - i,
            {
                proof {
                    assert(decreases_to!(*g => g.g));
                    assert(decreases_to!(g.g => g.g->Derived_plan));
                    assert(decreases_to!(**plan => plan.elem));
                }
                let item = draw(&plan.elem, rng);
                items.push(item);
                i += 1;
            }
            let out = Value::List(items);
            proof {
                let s = out@->List_0;
                assert(s.len() == n);
                assert forall|k: int| 0 <= k < s.len() implies gen_can_produce(
                    *plan.elem,
                    #[trigger] s[k],
                ) by {
                    assert(s[k] == items@[k]@);
                }
                assert(plan_can_produce(**plan, out@));
            }
            out
        },
    }
}

/// Draws `len` characters: letters and digits when `alnum` is set, all
/// characters otherwise.
#[verifier::loop_isolation(false)]
fn draw_text(rng: &mut Prng, len: usize, alnum: bool) -> (s: String)
    ensures
        s@.len() == len,
{
    let mut s = String::new();
    let mut i: usize = 0;
    while i < len
        invariant
            i <= len,
            s@.len() == i,
        decreases len - i,
    {
        if alnum {
            let code = rng.draw_alphanumeric();
            push_char(&mut s, code as char);
        } else {
            let c = rng.draw_char();
            push_char(&mut s, c);
        }
        i += 1;
    }
    s
}

fn draw_placeholder(kind: Kind, rng: &mut Prng) -> (v: Value)
    ensures
        kind_of(v@) == kind,
        match v@ {
            ValueV::Str(s) => s.len() == 0,
            ValueV::List(items) => items.len() == 0,
            ValueV::Char(c) => c < 128,
            _ => true,
        },
{
    match kind {
        Kind::I64 => Value::I64(rng.next_u64() as i64),
        Kind::Usize => Value::Usize(rng.next_u64() as usize),
        Kind::Bool => Value::Bool(rng.draw_bool()),
        Kind::Char => {
            let w = rng.next_u64();
            Value::Char((w % 128) as u8)
        },
        Kind::Str => Value::Str(String::new()),
        Kind::List => Value::List(Vec::new()),
    }
}

/// The reducer each generator attaches to a freshly drawn value.
pub open(crate) spec fn red_matches(g: Generator, r: ReducerV) -> bool {
    match g.g {
        GenForm::UniformI64 { min, max } => r == (ReducerV::NumI64 { min }),
        GenForm::UniformUsize { min, max } => r == (ReducerV::NumUsize { min }),
        GenForm::Alphanumeric => r == ReducerV::AlnumToX,
        GenForm::StrRand { .. } => r == ReducerV::NoShrink,
        GenForm::StrAlnum { .. } => r == ReducerV::NoShrink,
        GenForm::Placeholder { .. } => r == ReducerV::NoShrink,
        GenForm::Derived { plan } => r matches ReducerV::Nested { plan: p, entries } && p == *plan,
    }
}

/// The kind of value a generator draws.
pub(crate) fn kind_of_gen(g: &Generator) -> (k: Kind)
    ensures
        k == gen_kind(*g),
{
    match &g.g {
        GenForm::UniformI64 { .. } => Kind::I64,
        GenForm::UniformUsize { .. } => Kind::Usize,
        GenForm::Alphanumeric => Kind::Char,
        GenForm::StrRand { .. } => Kind::Str,
        GenForm::StrAlnum { .. } => Kind::Str,
        GenForm::Placeholder { kind } => *kind,
        GenForm::Derived { .. } => Kind::List,
    }
}

/// The recording path: draw one value and attach its reducer, so that the
/// value can be shrunk later.
#[verifier::loop_isolation(false)]
pub(crate) fn draw_shrinkable(g: &Generator, rng: &mut Prng) -> (s: Shrinkable)
    requires
        gen_wf(*g),
    ensures
        wf_shr(s@),
        gen_can_produce(*g, s@.value),
        kind_of(s@.value) == gen_kind(*g),
        red_matches(*g, s@.reducer),
    decreases *g,
{
    match &g.g {
        GenForm::UniformI64 { min, max } => {
            let v = rng.draw_i64(*min, *max);
            Shrinkable { value: Value::I64(v), reducer: Reducer::NumI64 { min: *min } }
        },
        GenForm::UniformUsize { min, max } => {
            let v = rng.draw_usize(*min, *max);
            Shrinkable { value: Value::Usize(v), reducer: Reducer::NumUsize { min: *min } }
        },
        GenForm::Alphanumeric => {
            let c = rng.draw_alphanumeric();
            Shrinkable { value: Value::Char(c), reducer: Reducer::AlnumToX }
        },
        GenForm::StrRand { min_len, max_len } => {
            let len = rng.draw_usize_inclusive(*min_len, *max_len);
            Shrinkable { value: Value::Str(draw_text(rng, len, false)), reducer: Reducer::NoShrink }
        },
        GenForm::StrAlnum { len } => {
            Shrinkable { value: Value::Str(draw_text(rng, *len, true)), reducer: Reducer::NoShrink }
        },
        GenForm::Placeholder { kind } => {
            Shrinkable { value: draw_placeholder(*kind, rng), reducer: Reducer::NoShrink }
        },
        GenForm::Derived { plan } => {
            proof {
                assert(decreases_to!(*g => g.g));
                assert(decreases_to!(g.g => g.g->Derived_plan));
            }
            let (v, entries) = run_plan_record(plan, rng);
            let ghost ev = rec_view(entries@);
            let shr = Shrinkable {
                value: v,
                reducer: Reducer::Nested { plan: plan.duplicate(), entries },
            };
            proof {
                let rv = shr@.reducer->Nested_entries;
                assert(rv =~= ev);
            }
            shr
        },
    }
}

/// Runs a plan against a recording context of its own: draws the length and
/// the elements, logging each as a named nested entry. The nested recording
/// always replays to the composite value that is returned.
#[verifier::loop_isolation(false)]
pub(crate) fn run_plan_record(p: &Plan, rng: &mut Prng) -> (r: (Value, Vec<Entry>))
    requires
        plan_wf(*p),
    ensures
        plan_can_produce(*p, r.0@),
        wf_entries(rec_view(r.1@)),
        plan_replay(*p, entries_log(rec_view(r.1@))) == Some(r.0@),
    decreases *p,
{
    let n = rng.draw_usize(p.min_len, p.max_len);
    let mut entries: Vec<Entry> = Vec::new();
    entries.push(
        Entry {
            name: "length".to_owned(),
            shr: Shrinkable { value: Value::Usize(n), reducer: Reducer::NumUsize { min: p.min_len } },
        },
    );
    let mut items: Vec<Value> = Vec::new();
    let mut i: usize = 0;
    while i < n
        invariant
            i <= n,
            items@.len() == i,
            entries@.len() == i + 1,
            entries@[0]@.name == "length"@,
            entries@[0]@.shr.value == ValueV::Usize(n),
            entries@[0]@.shr.reducer == (ReducerV::NumUsize { min: p.min_len }),
            forall|k: int|
                1 <= k <= i ==> (#[trigger] entries@[k]@).name == "element"@,
            forall|k: int|
                1 <= k <= i ==> kind_of((#[trigger] entries@[k]@).shr.value) == gen_kind(*p.elem),
            forall|k: int|
                1 <= k <= i ==> (#[trigger] entries@[k]@).shr.value == items@[k - 1]@,
            forall|k: int|
                1 <= k <= i ==> wf_shr((#[trigger] entries@[k]@).shr),
            forall|k: int|
                1 <= k <= i ==> gen_can_produce(*p.elem, (#[trigger] entries@[k]@).shr.value),
        decreases n - i,
    {
        proof {
            assert(decreases_to!(*p => p.elem));
        }
        let shr = draw_shrinkable(&p.elem, rng);
        items.push(shr.value.duplicate());
        entries.push(Entry { name: "element".to_owned(), shr });
        i += 1;
    }
    let out = Value::List(items);
    proof {
        let ev = rec_view(entries@);
        let lg = entries_log(ev);
        let s = out@->List_0;
        assert(s.len() == n);
        assert forall|k: int| 0 <= k < s.len() implies gen_can_produce(
            *p.elem,
            #[trigger] s[k],
        ) by {
            assert(s[k] == items@[k]@);
            assert(entries@[k + 1]@.shr.value == items@[k]@);
        }
        assert(plan_can_produce(*p, out@));
        assert(ev[0] == entries@[0]@);
        assert(lg[0].name == "length"@);
        assert(lg[0].kind == Kind::Usize);
        assert(lg[0].value == ValueV::Usize(n));
        assert forall|k: int| 1 <= k <= n implies (#[trigger] lg[k]).name == "element"@
            && lg[k].kind == gen_kind(*p.elem) by {
            assert(ev[k] == entries@[k]@);
            assert(lg[k].name == entries@[k]@.name);
            assert(lg[k].kind == kind_of(entries@[k]@.shr.value));
        }
        let rep = plan_replay(*p, lg);
        assert(rep is Some);
        assert forall|k: int| 0 <= k < n implies rep->Some_0->List_0[k] == s[k] by {
            assert(ev[k + 1] == entries@[k + 1]@);
            assert(lg[k + 1].value == entries@[k + 1]@.shr.value);
            assert(entries@[k + 1]@.shr.value == items@[k]@);
            assert(s[k] == items@[k]@);
        }
        assert(rep->Some_0->List_0 =~= s);
        assert(rep == Some(out@));
        assert forall|k: int| 0 <= k < ev.len() implies wf_entry(#[trigger] ev[k]) by {
            assert(ev[k] == entries@[k]@);
            if k == 0 {
                assert(wf_shr(entries@[0]@.shr));
            } else {
                assert(wf_shr(entries@[k]@.shr));
            }
        }
        assert(wf_entries(ev));
    }
    (out, entries)
}

/// Replays a plan over a recorded nested log, checking each consulted entry
/// by name and kind; yields the composite value, or nothing on a mismatch.
#[verifier::loop_isolation(false)]
pub(crate) fn run_plan_replay(p: &Plan, log: &Vec<LogEntry>) -> (r: Option<Value>)
    ensures
        r is Some <==> plan_replay(*p, log_view(log@)) is Some,
        r matches Some(v) ==> plan_replay(*p, log_view(log@)) == Some(v@),
{
    let ghost lg = log_view(log@);
    if log.len() == 0 {
        return None;
    }
    let head = &log[0];
    proof {
        assert(lg[0] == log@[0]@);
    }
    if !name_is(&head.name, "length") {
        return None;
    }
    if !matches!(head.kind, Kind::Usize) {
        return None;
    }
    let n = match head.value.as_usize() {
        Some(n) => n,
        None => {
            return None;
        },
    };
    if n >= log.len() {
        return None;
    }
    let elem_kind = kind_of_gen(&p.elem);
    let mut items: Vec<Value> = Vec::new();
    let mut i: usize = 1;
    while i <= n
        invariant
            1 <= i <= n + 1,
            items@.len() == i - 1,
            forall|k: int|
                1 <= k < i ==> (#[trigger] lg[k]).name == "element"@ && lg[k].kind == gen_kind(
                    *p.elem,
                ),
            forall|k: int| 0 <= k < i - 1 ==> (#[trigger] items@[k]@) == lg[k + 1].value,
        decreases n + 1 - i,
    {
        let e = &log[i];
        proof {
            assert(lg[i as int] == log@[i as int]@);
        }
        if !name_is(&e.name, "element") {
            return None;
        }
        if !kind_eq(e.kind, elem_kind) {
            return None;
        }
        items.push(e.value.duplicate());
        i += 1;
    }
    let out = Value::List(items);
    proof {
        let rep = plan_replay(*p, lg);
        assert(rep is Some);
        let s = out@->List_0;
        assert forall|k: int| 0 <= k < n implies s[k] == rep->Some_0->List_0[k] by {
            assert(s[k] == items@[k]@);
        }
        assert(rep->Some_0->List_0 =~= s);
    }
    Some(out)
}

/// Whether a stored name equals the given literal.
pub(crate) fn name_is(s: &String, lit: &str) -> (r: bool)
    ensures
        r == (s@ == lit@),
{
    let o: String = lit.to_owned();
    *s == o
}

/// Whether two kinds are the same.
pub(crate) fn kind_eq(a: Kind, b: Kind) -> (r: bool)
    ensures
        r == (a == b),
{
    a == b
}

} // verus!
