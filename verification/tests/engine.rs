use maat::placeholder;
use maat::property;
use maat::uniform_i64;
use maat::vec_of;
use maat::Kind;
use maat::Report;
use maat::Value;

fn as_i64(v: &Value) -> i64 {
    v.as_i64().expect("expected a 64-bit integer value")
}

#[test]
pub fn failing() {
    let report = property(|mut m: maat::Maat| {
        let x = as_i64(&m.generate("x", &uniform_i64(0, 100)));
        let y = as_i64(&m.generate("y", &uniform_i64(0, 100)));
        (m, x + y == x + x || x < 10)
    });
    match report {
        Report::Falsified { original, shrunk } => {
            assert_eq!(shrunk.len(), 2);
            assert_eq!(original.len(), 2);
            assert_eq!(shrunk[0].name(), "x");
            assert_eq!(shrunk[1].name(), "y");
            assert_eq!(as_i64(shrunk[0].value()), 10);
            assert_eq!(as_i64(shrunk[1].value()), 0);
        },
        _ => panic!("expected a falsified report"),
    }
}

#[test]
pub fn add_symmetric() {
    let report = property(|mut m: maat::Maat| {
        let x = as_i64(&m.generate("x", &uniform_i64(0, 10000)));
        let y = as_i64(&m.generate("y", &uniform_i64(0, 10000)));
        (m, x + y == y + x)
    });
    match report {
        Report::Passed { iterations, .. } => assert_eq!(iterations, 100),
        _ => panic!("commutativity must pass every round"),
    }
}

#[test]
pub fn test_inner() {
    let gx = maat::generators::derive(vec_of(uniform_i64(0, 100), 0, 10));
    let gy = maat::generators::derive(vec_of(uniform_i64(0, 100), 0, 10));
    let report = property(|mut m: maat::Maat| {
        let x = m.generate("x", &gx);
        let y = m.generate("y", &gy);
        (m, x == y)
    });
    match report {
        Report::Falsified { shrunk, .. } => {
            assert_eq!(shrunk.len(), 2);
            // the shrunk counterexample must still tell the two vectors apart
            assert_ne!(shrunk[0].value(), shrunk[1].value());
        },
        _ => panic!("two independent vectors are almost never equal"),
    }
}

#[test]
fn constant_true_passes() {
    let report = property(|mut m: maat::Maat| {
        let _ = m.generate("x", &uniform_i64(0, 100));
        (m, true)
    });
    match report {
        Report::Passed { iterations, .. } => assert_eq!(iterations, 100),
        _ => panic!("a constantly true predicate must pass"),
    }
}

fn ilog10_floor(w: i64) -> i64 {
    let mut n = w;
    let mut d = 0i64;
    while n >= 10 {
        n /= 10;
        d += 1;
    }
    d
}

#[test]
fn vector_reverse_shrinks() {
    let g = maat::generators::derive(vec_of(uniform_i64(0, 100), 0, 10));
    let report = property(|mut m: maat::Maat| {
        let v = m.generate("v", &g);
        let items = v.as_list().expect("expected a list value");
        let palindrome = items.iter().eq(items.iter().rev());
        (m, palindrome)
    });
    let is_pal = |xs: &[i64]| xs.iter().eq(xs.iter().rev());
    match report {
        Report::Falsified { original, shrunk } => {
            assert_eq!(shrunk.len(), 1);
            let s: Vec<i64> = shrunk[0]
                .value()
                .as_list()
                .expect("expected a list value")
                .iter()
                .map(as_i64)
                .collect();
            let o = original[0].value().as_list().expect("expected a list value");
            // still a counterexample, and no larger than the original
            assert!(!is_pal(&s));
            assert!(s.len() <= o.len());
            // at the shrink fixpoint: every reduction pass's candidate for
            // the length and for each element yields a palindrome
            let len = s.len() as i64;
            for cand in [ilog10_floor(len), len / 2, len - 1] {
                assert!(is_pal(&s[..cand as usize]));
            }
            for i in 0..s.len() {
                let v = s[i];
                if v > 0 {
                    for cand in [ilog10_floor(v), v / 2, v - 1] {
                        let mut t = s.clone();
                        t[i] = cand;
                        assert!(is_pal(&t));
                    }
                }
            }
        },
        _ => panic!("a random vector is almost never a palindrome"),
    }
}

#[test]
fn nondeterministic_detected() {
    // false on the first call, true on every later one
    let count = std::cell::Cell::new(0u32);
    let report = property(move |mut m: maat::Maat| {
        let n = count.get() + 1;
        count.set(n);
        let _ = m.generate("x", &uniform_i64(0, 100));
        (m, n != 1)
    });
    match report {
        Report::NonDeterministic => {},
        _ => panic!("a one-shot failure must be reported as non-deterministic"),
    }
}

#[test]
fn name_switch_detected() {
    // asks for a different name on the failing round, like a predicate
    // whose generate sequence depends on hidden state
    let count = std::cell::Cell::new(0u32);
    let report = property(move |mut m: maat::Maat| {
        let n = count.get() + 1;
        count.set(n);
        if n == 5 {
            let _ = m.generate("y", &uniform_i64(0, 100));
            (m, false)
        } else {
            let _ = m.generate("x", &uniform_i64(0, 100));
            (m, true)
        }
    });
    match report {
        Report::NonDeterministic => {},
        _ => panic!("a predicate that changes shape must be refused"),
    }
}

#[test]
fn always_failing_converges() {
    let report = property(|mut m: maat::Maat| {
        let _ = m.generate("x", &uniform_i64(0, 100));
        let _ = m.generate("y", &uniform_i64(0, 100));
        (m, false)
    });
    match report {
        Report::Falsified { original, shrunk } => {
            assert_eq!(as_i64(shrunk[0].value()), 0);
            assert_eq!(as_i64(shrunk[1].value()), 0);
            assert!(as_i64(shrunk[0].value()) <= as_i64(original[0].value()));
            assert!(as_i64(shrunk[1].value()) <= as_i64(original[1].value()));
        },
        _ => panic!("a constantly false predicate must be falsified"),
    }
}

#[test]
fn placeholder_never_shrinks() {
    let report = property(|mut m: maat::Maat| {
        let _ = m.generate("flag", &placeholder(Kind::Bool));
        let _ = m.generate("x", &uniform_i64(0, 100));
        (m, false)
    });
    match report {
        Report::Falsified { original, shrunk } => {
            // the placeholder keeps whatever the predicate drew
            assert_eq!(shrunk[0].name(), "flag");
            assert_eq!(shrunk[0].value(), original[0].value());
            assert_eq!(as_i64(shrunk[1].value()), 0);
        },
        _ => panic!("a constantly false predicate must be falsified"),
    }
}

#[test]
fn alphanumeric_shrinks_toward_x() {
    let report = property(|mut m: maat::Maat| {
        let _ = m.generate("c", &maat::alphanumeric());
        (m, false)
    });
    match report {
        Report::Falsified { shrunk, .. } => {
            assert_eq!(shrunk[0].value().as_char(), Some(b'x'));
        },
        _ => panic!("a constantly false predicate must be falsified"),
    }
}

#[test]
fn degenerate_range_draws_minimum() {
    let report = property(|mut m: maat::Maat| {
        let x = as_i64(&m.generate("x", &uniform_i64(7, 8)));
        (m, x == 7)
    });
    assert!(matches!(report, Report::Passed { .. }));
}

#[test]
fn string_lengths_in_bounds() {
    let report = property(|mut m: maat::Maat| {
        let s = m.generate("s", &maat::string(2, 5));
        let len = s.as_str().expect("expected a text value").chars().count();
        (m, (2..=5).contains(&len))
    });
    assert!(matches!(report, Report::Passed { .. }));
}

#[test]
fn alphanumeric_string_has_exact_length() {
    let report = property(|mut m: maat::Maat| {
        let s = m.generate("s", &maat::string_alphanumeric(12));
        let ok = match s.as_str() {
            Some(text) => text.len() == 12 && text.bytes().all(|b| b.is_ascii_alphanumeric()),
            None => false,
        };
        (m, ok)
    });
    assert!(matches!(report, Report::Passed { .. }));
}

#[test]
fn placeholder_composite_kinds_are_empty() {
    let report = property(|mut m: maat::Maat| {
        let s = m.generate("s", &placeholder(Kind::Str));
        let l = m.generate("l", &placeholder(Kind::List));
        let ok = s.as_str().map(|t| t.is_empty()).unwrap_or(false)
            && l.as_list().map(|v| v.is_empty()).unwrap_or(false);
        (m, ok)
    });
    assert!(matches!(report, Report::Passed { .. }));
}

#[test]
fn default_configuration_runs() {
    let cfg = maat::Config::default();
    assert_eq!(cfg.iterations(), 100);
    let report = maat::property_cfg(
        |mut m: maat::Maat| {
            let x = as_i64(&m.generate("x", &uniform_i64(0, 10)));
            (m, x < 10)
        },
        &cfg,
    );
    assert!(matches!(report, Report::Passed { iterations: 100, .. }));
}

#[test]
fn replay_name_change_reported() {
    // same shape while testing and recording, a different name once
    // shrinking replays the log
    let count = std::cell::Cell::new(0u32);
    let report = property(move |mut m: maat::Maat| {
        let n = count.get() + 1;
        count.set(n);
        let _ = m.generate("x", &uniform_i64(0, 100));
        let second = if n <= 2 { "y" } else { "q" };
        let _ = m.generate(second, &uniform_i64(0, 100));
        let _ = m.generate("c", &maat::alphanumeric());
        (m, false)
    });
    match report {
        Report::MalformedReplay { error } => {
            assert_eq!(
                error.render(),
                "[maat] Usage error: while shrinking, got a different name for value 1: was y, is q"
            );
        },
        _ => panic!("a name change during replay must be reported"),
    }
}

#[test]
fn replay_kind_change_reported() {
    let count = std::cell::Cell::new(0u32);
    let report = property(move |mut m: maat::Maat| {
        let n = count.get() + 1;
        count.set(n);
        let _ = m.generate("x", &uniform_i64(0, 100));
        if n <= 2 {
            let _ = m.generate("y", &uniform_i64(0, 100));
        } else {
            let _ = m.generate("y", &maat::alphanumeric());
        }
        let _ = m.generate("c", &maat::alphanumeric());
        (m, false)
    });
    match report {
        Report::MalformedReplay { error } => {
            assert_eq!(
                error.render(),
                "[maat] Usage error: while shrinking, got a different type for generated value 1: was i64, is char"
            );
        },
        _ => panic!("a kind change during replay must be reported"),
    }
}

#[test]
fn replay_past_end_reported() {
    let count = std::cell::Cell::new(0u32);
    let report = property(move |mut m: maat::Maat| {
        let n = count.get() + 1;
        count.set(n);
        let _ = m.generate("x", &uniform_i64(0, 100));
        let _ = m.generate("y", &uniform_i64(0, 100));
        let _ = m.generate("c", &maat::alphanumeric());
        if n > 2 {
            let _ = m.generate("extra", &uniform_i64(0, 100));
        }
        (m, false)
    });
    match report {
        Report::MalformedReplay { error } => {
            assert_eq!(
                error.render(),
                "[maat] Usage error: while shrinking, ran out of recorded values at index 3"
            );
        },
        _ => panic!("asking for more values than were recorded must be reported"),
    }
}
