//! Drawn values and their kinds.
//!
//! Entries of one recording hold values of differing types, so the engine
//! stores every drawn value in one sum type and keeps a `Kind` beside it as
//! the substitute for type identity during replay checks.

use vstd::prelude::*;

verus! {

broadcast use vstd::std_specs::vec::group_vec_axioms;

/// The kind of a generated value; replay compares the kind a generator
/// produces with the kind stored in the recording.
#[derive(Clone, Copy, Debug, PartialEq, Eq, Structural)]
pub enum Kind {
    I64,
    Usize,
    Bool,
    Char,
    Str,
    List,
}

/// A drawn value. Characters are stored as their ASCII code, which is all
/// the alphanumeric generator produces.
#[derive(Debug, PartialEq, Eq)]
pub enum Value {
    I64(i64),
    Usize(usize),
    Bool(bool),
    Char(u8),
    Str(String),
    List(Vec<Value>),
}

/// The mathematical shape of a [`Value`]: strings become sequences of
/// characters and lists become sequences of shapes.
pub enum ValueV {
    I64(i64),
    Usize(usize),
    Bool(bool),
    Char(u8),
    Str(Seq<char>),
    List(Seq<ValueV>),
}

/// The shape of one drawn value.
pub open spec fn val_view(v: Value) -> ValueV
    decreases v,
{
    match v {
        Value::I64(n) => ValueV::I64(n),
        Value::Usize(n) => ValueV::Usize(n),
        Value::Bool(b) => ValueV::Bool(b),
        Value::Char(c) => ValueV::Char(c),
        Value::Str(s) => ValueV::Str(s@),
        Value::List(items) => ValueV::List(
            Seq::new(
                items@.len(),
                |i: int|
                    if 0 <= i < items@.len() {
                        val_view(items@[i])
                    } else {
                        ValueV::Bool(false)
                    },
            ),
        ),
    }
}

impl View for Value {
    type V = ValueV;

    open spec fn view(&self) -> ValueV {
        val_view(*self)
    }
}

/// The kind of a value shape.
pub open spec fn kind_of(v: ValueV) -> Kind {
    match v {
        ValueV::I64(_) => Kind::I64,
        ValueV::Usize(_) => Kind::Usize,
        ValueV::Bool(_) => Kind::Bool,
        ValueV::Char(_) => Kind::Char,
        ValueV::Str(_) => Kind::Str,
        ValueV::List(_) => Kind::List,
    }
}

impl Value {
    /// The kind of this value.
    pub fn kind(&self) -> (k: Kind)
        ensures
            k == kind_of(self@),
    {
        match self {
            Value::I64(_) => Kind::I64,
            Value::Usize(_) => Kind::Usize,
            Value::Bool(_) => Kind::Bool,
            Value::Char(_) => Kind::Char,
            Value::Str(_) => Kind::Str,
            Value::List(_) => Kind::List,
        }
    }

    /// An exact copy of this value.
    #[verifier::loop_isolation(false)]
    pub fn duplicate(&self) -> (r: Value)
        ensures
            r@ == self@,
        decreases self,
    {
        match self {
            Value::I64(n) => Value::I64(*n),
            Value::Usize(n) => Value::Usize(*n),
            Value::Bool(b) => Value::Bool(*b),
            Value::Char(c) => Value::Char(*c),
            Value::Str(s) => Value::Str(s.clone()),
            Value::List(items) => {
                let mut out: Vec<Value> = Vec::new();
                let n = items.len();
                let mut i: usize = 0;
                while i < n
                    invariant
                        n == items@.len(),
                        i <= n,
                        out@.len() == i,
                        forall|k: int| 0 <= k < i ==> out@[k]@ == items@[k]@,
                    decreases n - i,
                {
                    let e = &items[i];
                    proof {
                        assert(decreases_to!(*self => self->List_0));
                        assert(decreases_to!(self->List_0 => self->List_0@));
                        assert(decreases_to!(self->List_0@ => self->List_0@[i as int]));
                        assert(decreases_to!(*self => items@[i as int]));
                    }
                    out.push(e.duplicate());
                    i += 1;
                }
                proof {
                    let lhs = match Value::List(out)@ {
                        ValueV::List(s) => s,
                        _ => Seq::empty(),
                    };
                    let rhs = match self@ {
                        ValueV::List(s) => s,
                        _ => Seq::empty(),
                    };
                    assert(lhs =~= rhs);
                }
                Value::List(out)
            },
        }
    }

    /// The held number, when this is an `I64` value.
    pub fn as_i64(&self) -> (r: Option<i64>)
        ensures
            match self@ {
                ValueV::I64(n) => r == Some(n),
                _ => r is None,
            },
    {
        match self {
            Value::I64(n) => Some(*n),
            _ => None,
        }
    }

    /// The held number, when this is a `Usize` value.
    pub fn as_usize(&self) -> (r: Option<usize>)
        ensures
            match self@ {
                ValueV::Usize(n) => r == Some(n),
                _ => r is None,
            },
    {
        match self {
            Value::Usize(n) => Some(*n),
            _ => None,
        }
    }

    /// The held truth value, when this is a `Bool` value.
    pub fn as_bool(&self) -> (r: Option<bool>)
        ensures
            match self@ {
                ValueV::Bool(b) => r == Some(b),
                _ => r is None,
            },
    {
        match self {
            Value::Bool(b) => Some(*b),
            _ => None,
        }
    }

    /// The held character code, when this is a `Char` value.
    pub fn as_char(&self) -> (r: Option<u8>)
        ensures
            match self@ {
                ValueV::Char(c) => r == Some(c),
                _ => r is None,
            },
    {
        match self {
            Value::Char(c) => Some(*c),
            _ => None,
        }
    }

    /// The held text, when this is a `Str` value.
    pub fn as_str(&self) -> (r: Option<&String>)
        ensures
            match self@ {
                ValueV::Str(s) => r is Some && r->Some_0@ == s,
                _ => r is None,
            },
    {
        match self {
            Value::Str(s) => Some(s),
            _ => None,
        }
    }

    /// The held items, when this is a `List` value.
    pub fn as_list(&self) -> (r: Option<&Vec<Value>>)
        ensures
            match self@ {
                ValueV::List(s) => {
                    &&& r is Some
                    &&& r->Some_0@.len() == s.len()
                    &&& forall|i: int| 0 <= i < s.len() ==> r->Some_0@[i]@ == s[i]
                },
                _ => r is None,
            },
    {
        match self {
            Value::List(items) => Some(items),
            _ => None,
        }
    }
}

/// The value replay hands back when it cannot satisfy a request; its only
/// role is to keep replay total after a usage error has been reported.
pub fn default_value(k: Kind) -> (r: Value)
    ensures
        kind_of(r@) == k,
{
    match k {
        Kind::I64 => Value::I64(0),
        Kind::Usize => Value::Usize(0),
        Kind::Bool => Value::Bool(false),
        Kind::Char => Value::Char(120),
        Kind::Str => Value::Str(String::new()),
        Kind::List => Value::List(Vec::new()),
    }
}

/// Whether two values are the same, decided structurally.
#[verifier::loop_isolation(false)]
pub fn value_eq(a: &Value, b: &Value) -> (r: bool)
    ensures
        r == (a@ == b@),
    decreases a,
{
    match (a, b) {
        (Value::I64(x), Value::I64(y)) => *x == *y,
        (Value::Usize(x), Value::Usize(y)) => *x == *y,
        (Value::Bool(x), Value::Bool(y)) => *x == *y,
        (Value::Char(x), Value::Char(y)) => *x == *y,
        (Value::Str(x), Value::Str(y)) => *x == *y,
        (Value::List(xs), Value::List(ys)) => {
            let n = xs.len();
            if n != ys.len() {
                proof {
                    assert(a@->List_0.len() != b@->List_0.len());
                }
                return false;
            }
            let mut i: usize = 0;
            while i < n
                invariant
                    i <= n,
                    n == xs@.len() == ys@.len(),
                    forall|k: int| 0 <= k < i ==> xs@[k]@ == ys@[k]@,
                decreases n - i,
            {
                proof {
                    assert(decreases_to!(*a => a->List_0));
                    assert(decreases_to!(a->List_0 => a->List_0@));
                    assert(decreases_to!(a->List_0@ => a->List_0@[i as int]));
                    assert(decreases_to!(*a => xs@[i as int]));
                }
                if !value_eq(&xs[i], &ys[i]) {
                    proof {
                        assert(a@->List_0[i as int] != b@->List_0[i as int]);
                    }
                    return false;
                }
                i += 1;
            }
            proof {
                assert(a@->List_0 =~= b@->List_0);
            }
            true
        },
        _ => {
            proof {
                assert(kind_of(a@) != kind_of(b@));
            }
            false
        },
    }
}

} // verus!
