use maat::property;
use maat::uniform_i64;
use maat::Kind;
use maat::Report;
use maat::UsageError;

#[test]
fn success_summary_exact() {
    let report = Report::Passed { iterations: 5, elapsed_ms: 0 };
    assert_eq!(report.render(), "[maat] OK, passed 5 tests (5000 iterations/sec)");
}

#[test]
fn success_summary_rate_division() {
    let report = Report::Passed { iterations: 100, elapsed_ms: 40 };
    assert_eq!(report.render(), "[maat] OK, passed 100 tests (2500 iterations/sec)");
}

#[test]
fn nondeterministic_line_exact() {
    let report = Report::NonDeterministic;
    assert_eq!(
        report.render(),
        "[maat] Non-deterministic test function: found a failure but was unable to reproduce it."
    );
}

#[test]
fn name_mismatch_line_exact() {
    let e = UsageError::NameMismatch {
        at: 1,
        expected: String::from("y"),
        actual: String::from("z"),
    };
    assert_eq!(
        e.render(),
        "[maat] Usage error: while shrinking, got a different name for value 1: was y, is z"
    );
}

#[test]
fn kind_mismatch_line_exact() {
    let e = UsageError::KindMismatch { at: 3, expected: Kind::I64, actual: Kind::Str };
    assert_eq!(
        e.render(),
        "[maat] Usage error: while shrinking, got a different type for generated value 3: was i64, is String"
    );
}

#[test]
fn past_end_line_exact() {
    let e = UsageError::PastEnd { at: 2 };
    assert_eq!(
        e.render(),
        "[maat] Usage error: while shrinking, ran out of recorded values at index 2"
    );
}

#[test]
fn failure_message_shape() {
    let report = property(|mut m: maat::Maat| {
        let _ = m.generate("x", &uniform_i64(0, 100));
        (m, false)
    });
    let text = report.render();
    assert!(text.starts_with(
        "\n[maat] Falsified property with values:\nx: i64 = 0\n\n[maat] Original failing values were:\nx: i64 = "
    ));
    assert!(text.ends_with("\n"));
}

#[test]
fn negative_numbers_render_with_sign() {
    let report = property(|mut m: maat::Maat| {
        let x = m.generate("x", &uniform_i64(-5, -4)).as_i64().unwrap();
        (m, x != -5)
    });
    let text = report.render();
    assert!(text.contains("x: i64 = -5"));
}

#[test]
fn string_values_render_escaped() {
    let v = maat::Value::Str(String::from("a\"b\nc\\d"));
    assert_eq!(maat::text::render_value(&v), "\"a\\\"b\\nc\\\\d\"");
}

#[test]
fn char_values_render_escaped() {
    let v = maat::Value::Char(b'\n');
    assert_eq!(maat::text::render_value(&v), "'\\n'");
    let w = maat::Value::Char(b'\'');
    assert_eq!(maat::text::render_value(&w), "'\\''");
}
