use backtrace::{Backtrace, BacktraceFrame};
use rustassert::{new, Assertion};

#[derive(Debug, PartialEq)]
struct S {
    a: i8,
    b: String,
}

fn logs(assert: &Assertion) -> Vec<String> {
    assert.logs()
}

/// A frame as its function's address and the demangled names (without hash)
/// and lines of its symbols.
fn frame_sum(f: &BacktraceFrame) -> (usize, Vec<(String, u32)>) {
    let symbols = f
        .symbols()
        .iter()
        .map(|s| (s.name().map(|n| format!("{:#}", n)).unwrap_or_default(), s.lineno().unwrap_or(0)))
        .collect();
    (f.symbol_address() as usize, symbols)
}


#[test]
fn assert_eq_should_pass() {
    let mut assert = new();

    let _ = assert.that("a").is_eq("a");
    let _ = assert.that("a").not().is_eq("b");

    let _ = assert.that(String::from("a")).is_eq(String::from("a"));
    let _ = assert.that(String::from("a")).not().is_eq(String::from("b"));

    let _ = assert.that(13).is_eq(13);
    let _ = assert.that(13).not().is_eq(14);

    let _ = assert.that(13).is_eq(&13);
    let _ = assert.that(13).not().is_eq(&14);

    let _ = assert.that(&13).is_eq(&13);
    let _ = assert.that(&13).not().is_eq(&14);

    let _ = assert.that(S { a: 13, b: String::from("A") }).is_eq(S { a: 13, b: String::from("A") });
    let _ = assert.that(S { a: 13, b: String::from("A") }).not().is_eq(S { a: 14, b: String::from("A") });

    let _ = assert.that(S { a: 13, b: String::from("A") }).is_eq(&S { a: 13, b: String::from("A") });
    let _ = assert.that(S { a: 13, b: String::from("A") }).not().is_eq(&S { a: 14, b: String::from("A") });

    let _ = assert.that(&S { a: 13, b: String::from("A") }).is_eq(&S { a: 13, b: String::from("A") });
    let _ = assert.that(&S { a: 13, b: String::from("A") }).not().is_eq(&S { a: 14, b: String::from("A") });

    let _ = assert.that(S { a: 13, b: String::from("A") }).is_eq(Box::new(S { a: 13, b: String::from("A") }));
    let _ = assert.that(S { a: 13, b: String::from("A") }).not().is_eq(Box::new(S { a: 14, b: String::from("A") }));

    let _ = assert.that(vec![1, 2, 3]).is_eq(vec![1, 2, 3]);
    let _ = assert.that(vec![1, 2, 3]).not().is_eq(vec![1, 2, 4]);

    assert_eq!(assert.failure_count(), 0);
}

#[test]
fn assert_eq_should_fail() {
    let mut assert = new();
    let r = assert.that("a").is_eq("b");
    // The frames of this test function and of its callers.
    let here: Vec<(usize, Vec<(String, u32)>)> = Backtrace::new().frames().iter().map(frame_sum).collect();
    assert!(r.is_ok());
    assert_eq!(
        logs(&assert),
        vec![String::from(
            r#"assertion failed: `(actual == expectation)`
     actual: `"a"`
expectation: `"b"`"#
        )]
    );
    let exit = assert.finish(false);
    assert_eq!(exit.reports.len(), 1);
    let bt = &exit.reports[0].bt;
    assert_eq!(bt.len(), 1);
    assert_eq!(frame_sum(&bt[0]).0, here[0].0);
    assert_eq!(frame_sum(&bt[0]).1.iter().map(|s| &s.0).collect::<Vec<_>>(), here[0].1.iter().map(|s| &s.0).collect::<Vec<_>>());
    assert!(exit.raise_sentinel);
}

#[test]
fn assert_eq_should_fail_with_backtrace() {
    let mut assert = new();
    let _ = assert.that("a").with_backtrace().is_eq("b");
    // The frames of this test function and of its callers.
    let here: Vec<(usize, Vec<(String, u32)>)> = Backtrace::new().frames().iter().map(frame_sum).collect();
    assert_eq!(
        logs(&assert),
        vec![String::from(
            r#"assertion failed: `(actual == expectation)`
     actual: `"a"`
expectation: `"b"`"#
        )]
    );
    let exit = assert.finish(false);
    assert_eq!(exit.reports.len(), 1);
    let bt = &exit.reports[0].bt;
    assert!(bt.len() > 1);
    let sums: Vec<(usize, Vec<(String, u32)>)> = bt.iter().map(frame_sum).collect();
    assert_eq!(sums.iter().map(|f| f.0).collect::<Vec<_>>(), here.iter().map(|f| f.0).collect::<Vec<_>>());
    assert!(sums.iter().all(|f| f.1.iter().all(|(name, _)| !name.starts_with("rustassert::") && !name.starts_with("<rustassert::"))));
}

#[test]
fn assert_eq_should_fail_with_negation() {
    let mut assert = new();
    let _ = assert.that("a").not().is_eq("a");
    // The frames of this test function and of its callers.
    let here: Vec<(usize, Vec<(String, u32)>)> = Backtrace::new().frames().iter().map(frame_sum).collect();
    assert_eq!(
        logs(&assert),
        vec![String::from(
            r#"assertion failed: `(actual != expectation)`
     actual: `"a"`
expectation: `"a"`"#
        )]
    );
    let exit = assert.finish(false);
    let bt = &exit.reports[0].bt;
    assert_eq!(bt.len(), 1);
    assert_eq!(frame_sum(&bt[0]).0, here[0].0);
}

#[test]
fn assertion_test_assert_has_len_should_pass() {
    let mut assert = new();
    let a: &[i8] = &[1, 2, 3];
    let _ = assert.that(a).has_len(3);
    let _ = assert.that(vec![1, 2, 3].as_slice()).has_len(3);
    let _ = assert.that(vec![1, 2, 3].as_slice()).not().has_len(1);
    assert_eq!(assert.failure_count(), 0);
}

#[test]
fn assertion_test_assert_has_len_should_fail() {
    let mut assert = new();
    let _ = assert.that(vec![1, 2, 3].as_slice()).has_len(4);
    assert_eq!(
        logs(&assert),
        vec![String::from(
            r#"assertion failed: `(actual.len() == expectation)`
     actual.len(): `3`
expectation: `4`"#
        )]
    );
}

#[test]
fn assertion_test_assert_has_len_should_fail_with_negation() {
    let mut assert = new();
    let _ = assert.that(vec![1, 2, 3].as_slice()).not().has_len(3);
    assert_eq!(
        logs(&assert),
        vec![String::from(
            r#"assertion failed: `(actual.len() != expectation)`
     actual.len(): `3`
expectation: `3`"#
        )]
    );
}

#[test]
fn assertion_test_assert_contains_should_pass() {
    let mut assert = new();
    let a: &[i8] = &[1, 2, 3];
    let _ = assert.that(a).contains(2);
    let _ = assert.that(vec![1, 2, 3].as_slice()).contains(1);
    let _ = assert.that(vec![1, 2, 3].as_slice()).not().contains(0);
    assert_eq!(assert.failure_count(), 0);
}

#[test]
fn assertion_test_assert_contains_should_fail() {
    let mut assert = new();
    let _ = assert.that(vec![1, 2, 3].as_slice()).contains(4);
    assert_eq!(
        logs(&assert),
        vec![String::from(
            r#"assertion failed: `(expectation ∈ actual)`
expectation: `4`"#
        )]
    );
}

#[test]
fn assertion_test_assert_contains_should_fail_with_negation() {
    let mut assert = new();
    let _ = assert.that(vec![1, 2, 3].as_slice()).not().contains(2);
    assert_eq!(
        logs(&assert),
        vec![String::from(
            r#"assertion failed: `(expectation ∉ actual)`
expectation: `2`"#
        )]
    );
}

#[test]
fn failures_are_kept_in_order_until_finish() {
    let mut assert = new();
    let _ = assert.that(1).is_eq(2);
    let _ = assert.that(3).is_eq(3);
    let _ = assert.that(vec![1]).has_len(2);
    let logs = assert.logs();
    assert_eq!(logs.len(), 2);
    assert!(logs[0].starts_with("assertion failed: `(actual == expectation)`"));
    assert!(logs[1].starts_with("assertion failed: `(actual.len() == expectation)`"));
    let exit = assert.finish(false);
    assert_eq!(exit.reports.len(), 2);
    assert_eq!(exit.reports[0].log, logs[0]);
    assert_eq!(exit.reports[1].log, logs[1]);
    assert!(exit.raise_sentinel);
    assert_eq!(assert.failure_count(), 0);
}

#[test]
fn finish_while_unwinding_raises_nothing() {
    let mut assert = new();
    let _ = assert.that(1).is_eq(2);
    let exit = assert.finish(true);
    assert_eq!(exit.reports.len(), 1);
    assert!(!exit.raise_sentinel);
}

#[test]
fn finish_on_empty_or_drained_session_is_silent() {
    let mut assert = new();
    let exit = assert.finish(false);
    assert!(exit.reports.is_empty());
    assert!(!exit.raise_sentinel);

    let _ = assert.that(1).is_eq(2);
    let first = assert.finish(false);
    assert_eq!(first.reports.len(), 1);
    let second = assert.finish(false);
    assert!(second.reports.is_empty());
    assert!(!second.raise_sentinel);
}

#[test]
fn immediate_mode_hands_the_failure_back() {
    let mut assert = new();
    let r = assert.that(1).or_panic().is_eq(2);
    assert_eq!(
        r,
        Err(String::from(
            r#"assertion failed: `(actual == expectation)`
     actual: `1`
expectation: `2`"#
        ))
    );
    assert_eq!(assert.failure_count(), 0);
    assert_eq!(assert.that(1).or_panic().is_eq(1), Ok(()));
}

#[test]
fn immediate_mode_stops_at_the_first_failure() {
    let mut assert = new();
    let r = assert.that(vec![1, 0, 0]).or_panic().eq_each(&[1, 2, 3]);
    assert_eq!(r, Err(String::from("assertion failed: `(expectation[1] = actual[1])`")));
    assert_eq!(assert.failure_count(), 0);
}

#[test]
fn not_twice_toggles_back() {
    let mut assert = new();
    let _ = assert.that(1).not().not().is_eq(1);
    assert_eq!(assert.failure_count(), 0);
    let _ = assert.that(1).not().not().is_eq(2);
    assert_eq!(assert.failure_count(), 1);
}

#[test]
fn has_len_shows_multi_digit_lengths() {
    let mut assert = new();
    let v: Vec<u8> = vec![0; 120];
    let _ = assert.that(v).has_len(7);
    assert_eq!(
        assert.logs(),
        vec![String::from(
            "assertion failed: `(actual.len() == expectation)`\n     actual.len(): `120`\nexpectation: `7`"
        )]
    );
}

