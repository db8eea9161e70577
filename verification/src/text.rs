//! Building the text the engine reports.
//!
//! Every rendering function is specified against a sequence-of-characters
//! description of its output, so the reports the driver returns are pinned
//! down exactly.

use vstd::prelude::*;
use vstd::string::StrSliceExecFns;

use crate::record::LogEntry;
use crate::record::LogEntryV;
use crate::value::Kind;
use crate::value::Value;
use crate::value::ValueV;

verus! {

broadcast use vstd::std_specs::vec::group_vec_axioms;

/// Relies on `String::push`: appends exactly the given character.
#[verifier::external_body]
pub(crate) fn push_char(s: &mut String, c: char)
    ensures
        final(s)@ == old(s)@.push(c),
{
    s.push(c)
}

/// The escaped form of one character inside a quoted rendering: the
/// backslash, the line and tab controls and both quote characters appear
/// as two-character escapes, so one rendered entry always stays one line.
pub open spec fn escaped_char(c: char) -> Seq<char> {
    if c as u32 == 92 {
        seq!['\\', '\\']
    } else if c as u32 == 10 {
        seq!['\\', 'n']
    } else if c as u32 == 13 {
        seq!['\\', 'r']
    } else if c as u32 == 9 {
        seq!['\\', 't']
    } else if c as u32 == 34 {
        seq!['\\', '"']
    } else if c as u32 == 39 {
        seq!['\\', '\'']
    } else {
        seq![c]
    }
}

/// The escaped form of a whole text.
pub open spec fn escaped_text(s: Seq<char>) -> Seq<char>
    decreases s.len(),
{
    if s.len() == 0 {
        Seq::empty()
    } else {
        escaped_char(s[0]) + escaped_text(s.drop_first())
    }
}

/// Appends the escaped form of one character.
fn push_escaped(s: &mut String, c: char)
    ensures
        final(s)@ == old(s)@ + escaped_char(c),
{
    let u = c as u32;
    if u == 92 {
        push_char(s, '\\');
        push_char(s, '\\');
    } else if u == 10 {
        push_char(s, '\\');
        push_char(s, 'n');
    } else if u == 13 {
        push_char(s, '\\');
        push_char(s, 'r');
    } else if u == 9 {
        push_char(s, '\\');
        push_char(s, 't');
    } else if u == 34 {
        push_char(s, '\\');
        push_char(s, '"');
    } else if u == 39 {
        push_char(s, '\\');
        push_char(s, '\'');
    } else {
        push_char(s, c);
    }
    proof {
        assert(s@ =~= old(s)@ + escaped_char(c));
    }
}

/// The decimal digits of `n`, most significant first.
pub open spec fn dec_digits(n: nat) -> Seq<char>
    decreases n,
{
    if n < 10 {
        seq![digit_char(n)]
    } else {
        dec_digits(n / 10).push(digit_char(n % 10))
    }
}

/// The character for one decimal digit.
pub open spec fn digit_char(d: nat) -> char {
    ((48 + d) as u8) as char
}

/// The decimal rendering of a signed number: a minus sign for negative
/// values, then the digits of the magnitude.
pub open spec fn int_digits(v: int) -> Seq<char> {
    if v < 0 {
        seq!['-'] + dec_digits((-v) as nat)
    } else {
        dec_digits(v as nat)
    }
}

/// Renders an unsigned number in decimal.
pub fn u64_to_string(n: u64) -> (r: String)
    ensures
        r@ == dec_digits(n as nat),
    decreases n,
{
    if n < 10 {
        let mut s = String::new();
        let d: u8 = 48 + (n as u8);
        push_char(&mut s, d as char);
        proof {
            assert(s@ =~= seq![digit_char(n as nat)]);
        }
        s
    } else {
        let mut s = u64_to_string(n / 10);
        let d: u8 = 48 + ((n % 10) as u8);
        push_char(&mut s, d as char);
        proof {
            assert(s@ =~= dec_digits((n / 10) as nat).push(digit_char((n % 10) as nat)));
        }
        s
    }
}

/// Renders a signed number in decimal.
pub fn i64_to_string(v: i64) -> (r: String)
    ensures
        r@ == int_digits(v as int),
{
    if v >= 0 {
        u64_to_string(v as u64)
    } else {
        let mag: u64 = if v == i64::MIN {
            9223372036854775808u64
        } else {
            (-v) as u64
        };
        let digits = u64_to_string(mag);
        let mut s = String::new();
        push_char(&mut s, '-');
        s.append(digits.as_str());
        proof {
            assert(s@ =~= seq!['-'] + dec_digits((-(v as int)) as nat));
        }
        s
    }
}

/// The rendering of one value: numbers in decimal, truth values spelled
/// out, characters and text quoted, lists bracketed with comma-separated
/// items.
pub open spec fn value_text(v: ValueV) -> Seq<char>
    decreases v, 0int,
{
    match v {
        ValueV::I64(n) => int_digits(n as int),
        ValueV::Usize(n) => dec_digits(n as nat),
        ValueV::Bool(b) => if b {
            "true"@
        } else {
            "false"@
        },
        ValueV::Char(c) => seq!['\''] + escaped_char(c as char) + seq!['\''],
        ValueV::Str(s) => seq!['"'] + escaped_text(s) + seq!['"'],
        ValueV::List(items) => seq!['['] + items_text(items) + seq![']'],
    }
}

/// The comma-separated renderings of a sequence of values.
pub open spec fn items_text(items: Seq<ValueV>) -> Seq<char>
    decreases items, items.len() + 1, 0int,
{
    if items.len() == 0 {
        Seq::empty()
    } else if items.len() == 1 {
        value_text(items[0])
    } else {
        value_text(items[0]) + ", "@ + items_text(items.drop_first())
    }
}

/// Renders one value.
pub fn render_value(v: &Value) -> (r: String)
    ensures
        r@ == value_text(v@),
    decreases v, 0int,
{
    match v {
        Value::I64(n) => i64_to_string(*n),
        Value::Usize(n) => u64_to_string(*n as u64),
        Value::Bool(b) => {
            if *b {
                let s: String = "true".to_owned();
                s
            } else {
                let s: String = "false".to_owned();
                s
            }
        },
        Value::Char(c) => {
            let mut s = String::new();
            push_char(&mut s, '\'');
            push_escaped(&mut s, *c as char);
            push_char(&mut s, '\'');
            proof {
                assert(s@ =~= seq!['\''] + escaped_char((c as u8) as char) + seq!['\'']);
            }
            s
        },
        Value::Str(inner) => {
            let mut s = String::new();
            push_char(&mut s, '"');
            let text = inner.as_str();
            let n = text.unicode_len();
            proof {
                assert(inner@.subrange(0, n as int) =~= inner@);
            }
            let mut i: usize = 0;
            while i < n
                invariant
                    i <= n,
                    n == inner@.len(),
                    text@ == inner@,
                    s@ + escaped_text(inner@.subrange(i as int, n as int)) =~= seq!['"']
                        + escaped_text(inner@),
                decreases n - i,
            {
                let ch = text.get_char(i);
                push_escaped(&mut s, ch);
                proof {
                    let rest = inner@.subrange(i as int, n as int);
                    assert(rest[0] == inner@[i as int]);
                    assert(rest.drop_first() =~= inner@.subrange(i as int + 1, n as int));
                }
                i += 1;
            }
            push_char(&mut s, '"');
            proof {
                assert(inner@.subrange(n as int, n as int) =~= Seq::<char>::empty());
                assert(s@ =~= seq!['"'] + escaped_text(inner@) + seq!['"']);
            }
            s
        },
        Value::List(items) => {
            let mut s = String::new();
            push_char(&mut s, '[');
            let tail = render_items(items, 0);
            s.append(tail.as_str());
            push_char(&mut s, ']');
            proof {
                let vs = v@->List_0;
                assert(vs =~= views_of(items@).subrange(0, items@.len() as int));
                assert(s@ =~= seq!['['] + items_text(vs) + seq![']']);
            }
            s
        },
    }
}

/// The shapes of a list of values.
pub open spec fn views_of(items: Seq<Value>) -> Seq<ValueV> {
    Seq::new(
        items.len(),
        |i: int|
            if 0 <= i < items.len() {
                items[i]@
            } else {
                ValueV::Bool(false)
            },
    )
}

/// Renders the items of a list from position `i` on.
fn render_items(items: &Vec<Value>, i: usize) -> (r: String)
    requires
        i <= items@.len(),
    ensures
        r@ == items_text(views_of(items@).subrange(i as int, items@.len() as int)),
    decreases items@, items@.len() - i, 1int,
{
    let ghost sub = views_of(items@).subrange(i as int, items@.len() as int);
    let n = items.len();
    if i >= n {
        proof {
            assert(sub.len() == 0);
        }
        String::new()
    } else {
        proof {
            assert(decreases_to!(items@ => items@[i as int]));
            assert(sub[0] == items@[i as int]@);
        }
        let head = render_value(&items[i]);
        if i + 1 == n {
            proof {
                assert(sub.len() == 1);
            }
            head
        } else {
            let mut s = head;
            s.append(", ");
            let tail = render_items(items, i + 1);
            s.append(tail.as_str());
            proof {
                assert(sub.drop_first() =~= views_of(items@).subrange(
                    i as int + 1,
                    items@.len() as int,
                ));
                assert(s@ =~= value_text(sub[0]) + ", "@ + items_text(sub.drop_first()));
            }
            s
        }
    }
}

/// The label the reports use for each kind of value.
pub open spec fn kind_text(k: Kind) -> Seq<char> {
    match k {
        Kind::I64 => "i64"@,
        Kind::Usize => "usize"@,
        Kind::Bool => "bool"@,
        Kind::Char => "char"@,
        Kind::Str => "String"@,
        Kind::List => "Vec"@,
    }
}

/// The label for one kind.
pub fn kind_label(k: Kind) -> (r: &'static str)
    ensures
        r@ == kind_text(k),
{
    match k {
        Kind::I64 => "i64",
        Kind::Usize => "usize",
        Kind::Bool => "bool",
        Kind::Char => "char",
        Kind::Str => "String",
        Kind::List => "Vec",
    }
}

/// The rendering of one recorded entry: `name: kind = value`, and a line
/// break.
pub open spec fn line_text(l: LogEntryV) -> Seq<char> {
    l.name + ": "@ + kind_text(l.kind) + " = "@ + value_text(l.value) + seq!['\n']
}

/// Renders one recorded entry as a report line.
pub fn render_line(l: &LogEntry) -> (r: String)
    ensures
        r@ == line_text(l@),
{
    let mut s = l.name().as_str().to_owned();
    s.append(": ");
    s.append(kind_label(l.kind()));
    s.append(" = ");
    let v = render_value(l.value());
    s.append(v.as_str());
    push_char(&mut s, '\n');
    proof {
        assert(s@ =~= line_text(l@));
    }
    s
}

/// The rendering of a whole replay snapshot, one line per entry.
pub open spec fn log_text(l: Seq<LogEntryV>) -> Seq<char>
    decreases l.len(),
{
    if l.len() == 0 {
        Seq::empty()
    } else {
        log_text(l.drop_last()) + line_text(l.last())
    }
}

/// Renders a whole replay snapshot.
#[verifier::loop_isolation(false)]
pub fn render_log(l: &Vec<LogEntry>) -> (r: String)
    ensures
        r@ == log_text(crate::record::log_view(l@)),
{
    let ghost lv = crate::record::log_view(l@);
    let mut s = String::new();
    let n = l.len();
    let mut i: usize = 0;
    while i < n
        invariant
            i <= n,
            s@ == log_text(lv.subrange(0, i as int)),
        decreases n - i,
    {
        let line = render_line(&l[i]);
        s.append(line.as_str());
        proof {
            let pre = lv.subrange(0, i as int + 1);
            assert(pre.drop_last() =~= lv.subrange(0, i as int));
            assert(pre.last() == l@[i as int]@);
        }
        i += 1;
    }
    proof {
        assert(lv.subrange(0, n as int) =~= lv);
    }
    s
}

/// Renders a wide unsigned number in decimal.
pub fn u128_to_string(n: u128) -> (r: String)
    ensures
        r@ == dec_digits(n as nat),
    decreases n,
{
    if n < 10 {
        let mut s = String::new();
        let d: u8 = 48 + (n as u8);
        push_char(&mut s, d as char);
        proof {
            assert(s@ =~= seq![digit_char(n as nat)]);
        }
        s
    } else {
        let mut s = u128_to_string(n / 10);
        let d: u8 = 48 + ((n % 10) as u8);
        push_char(&mut s, d as char);
        proof {
            assert(s@ =~= dec_digits((n / 10) as nat).push(digit_char((n % 10) as nat)));
        }
        s
    }
}

} // verus!
