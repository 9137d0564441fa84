use rustassert::{new, SimpleMatcher};

type M<'f> = SimpleMatcher<&'f dyn Fn(&i32) -> bool>;

fn m<'f>(f: &'f dyn Fn(&i32) -> bool, text: &str) -> M<'f> {
    SimpleMatcher::new(f, text)
}

#[test]
fn slice_assertion_test_assert_has_len_should_pass() {
    let mut assert = new();
    let a: &[i8] = &[1, 2, 3];
    let _ = assert.that(a).has_len(3);
    let _ = assert.that(vec![1, 2, 3].as_slice()).has_len(3);
    let _ = assert.that(vec![1, 2, 3].as_slice()).not().has_len(1);
    assert_eq!(assert.failure_count(), 0);
}

#[test]
fn slice_assertion_test_assert_has_len_should_fail() {
    let mut assert = new();
    let _ = assert.that(vec![1, 2, 3].as_slice()).has_len(4);
    assert_eq!(
        assert.logs(),
        vec![String::from(
            r#"assertion failed: `(actual.len() == expectation)`
     actual.len(): `3`
expectation: `4`"#
        )]
    );
}

#[test]
fn slice_assertion_test_assert_has_len_should_fail_with_negation() {
    let mut assert = new();
    let _ = assert.that(vec![1, 2, 3].as_slice()).not().has_len(3);
    assert_eq!(
        assert.logs(),
        vec![String::from(
            r#"assertion failed: `(actual.len() != expectation)`
     actual.len(): `3`
expectation: `3`"#
        )]
    );
}

#[test]
fn slice_assertion_test_assert_contains_should_pass() {
    let mut assert = new();
    let a: &[i8] = &[1, 2, 3];
    let _ = assert.that(a).contains(2);
    let _ = assert.that(vec![1, 2, 3].as_slice()).contains(1);
    let _ = assert.that(vec![1, 2, 3].as_slice()).not().contains(0);
    assert_eq!(assert.failure_count(), 0);
}

#[test]
fn slice_assertion_test_assert_eq_each_should_pass() {
    let mut assert = new();
    let _ = assert.that(vec![1, 2, 3].as_slice()).eq_each(&[1, 2, 3]);
    let _ = assert.that(vec![1, 2, 3].as_slice()).eq_each(&[&1, &2, &3]);
    assert_eq!(assert.failure_count(), 0);
}

#[test]
fn slice_assertion_test_assert_eq_each_should_fail() {
    let mut assert = new();
    let _ = assert.that(vec![1, 0, 3].as_slice()).eq_each(&[1, 2, 3]);
    assert_eq!(assert.logs(), vec![String::from("assertion failed: `(expectation[1] = actual[1])`")]);
}

#[test]
fn slice_assertion_test_assert_eq_each_should_fail_when_different_length() {
    let mut assert = new();
    let _ = assert.that(vec![1, 2].as_slice()).eq_each(&[1, 2, 3]);
    assert_eq!(assert.logs(), vec![String::from("expectation length is different from input length")]);
}

#[test]
fn slice_assertion_test_assert_eq_each_should_prevent_negation() {
    let mut assert = new();
    let _ = assert.that(vec![1, 0, 3].as_slice()).not().eq_each(&[1, 2, 3]);
    assert_eq!(assert.logs(), vec![String::from("eq_each assertion cannot be negated")]);
}

#[test]
fn slice_assertion_test_assert_each_should_pass() {
    let mut assert = new();
    let ms: [M; 3] = [m(&|p| *p > 0, "&(|p| *p > 0)"), m(&|p| *p % 2 == 0, "&(|p| *p % 2 == 0)"), m(&|p| *p == 3, "&(|p| *p == 3)")];
    let _ = assert.that(vec![1, 2, 3].as_slice()).each(&ms);
    assert_eq!(assert.failure_count(), 0);
}

#[test]
fn slice_assertion_test_assert_each_should_fail() {
    let mut assert = new();
    let ms: [M; 3] = [m(&|p| *p > 0, "&(|p| *p > 0)"), m(&|p| *p % 2 == 1, "&(|p| *p % 2 == 1)"), m(&|p| *p == 3, "&(|p| *p == 3)")];
    let _ = assert.that(vec![1, 2, 3].as_slice()).each(&ms);
    assert_eq!(
        assert.logs(),
        vec![String::from("assertion failed: `(matcher \"&(|p| *p % 2 == 1)\" failed)` - at position 1")]
    );
}

#[test]
fn slice_assertion_test_assert_each_should_fail_when_different_length() {
    let mut assert = new();
    let ms: [M; 3] = [m(&|p| *p > 0, "&(|p| *p > 0)"), m(&|p| *p % 2 == 0, "&(|p| *p % 2 == 0)"), m(&|p| *p == 3, "&(|p| *p == 3)")];
    let _ = assert.that(vec![1, 2].as_slice()).each(&ms);
    assert_eq!(assert.logs(), vec![String::from("matchers length is different from input length")]);
}

#[test]
fn slice_assertion_test_assert_each_should_prevent_negation() {
    let mut assert = new();
    let ms: [M; 3] = [m(&|p| *p > 0, "&(|p| *p > 0)"), m(&|p| *p % 2 == 0, "&(|p| *p % 2 == 0)"), m(&|p| *p == 3, "&(|p| *p == 3)")];
    let _ = assert.that(vec![1, 2].as_slice()).not().each(&ms);
    assert_eq!(assert.logs(), vec![String::from("each assertion cannot be negated")]);
}

#[test]
fn slice_assertion_test_assert_all_should_pass() {
    let mut assert = new();
    let empty: Vec<i32> = vec![];
    let _ = assert.that(empty.as_slice()).all(m(&|a| *a > 0, "&(|a: &i32| *a > 0)"));
    let _ = assert.that(vec![1, 2, 3].as_slice()).all(m(&|a| *a > 0, "&(|a| *a > 0)"));
    let _ = assert.that(vec![1, -2, 3].as_slice()).not().all(m(&|a| *a > 0, "&(|a| *a > 0)"));
    let _ = assert.that(vec![-1, -2, -3].as_slice()).not().all(m(&|a| *a > 0, "&(|a| *a > 0)"));
    assert_eq!(assert.failure_count(), 0);
}

#[test]
fn slice_assertion_test_assert_all_should_fail() {
    let mut assert = new();
    let _ = assert.that(vec![1, -2, 3].as_slice()).all(m(&|a| *a > 0, "&(|a| *a > 0)"));
    assert_eq!(
        assert.logs(),
        vec![String::from("assertion failed: `(matcher \"&(|a| *a > 0)\" failed)` - at position 1")]
    );
}

#[test]
fn slice_assertion_test_assert_all_should_fail_with_negation() {
    let mut assert = new();
    let _ = assert.that(vec![1, 2, 3].as_slice()).not().all(m(&|a| *a > 0, "&(|a| *a > 0)"));
    assert_eq!(assert.logs(), vec![String::from("assertion failed: `(matcher succeed for every item)`")]);
}

#[test]
fn slice_assertion_test_assert_any_should_pass() {
    let mut assert = new();
    let empty: Vec<i32> = vec![];
    let _ = assert.that(empty.as_slice()).not().any(m(&|a| *a > 0, "&(|a: &i32| *a > 0)"));
    let _ = assert.that(vec![-1, 2, -3].as_slice()).any(m(&|a| *a > 0, "&(|a| *a > 0)"));
    let _ = assert.that(vec![-1, -2, -3].as_slice()).not().any(m(&|a| *a > 0, "&(|a| *a > 0)"));
    let _ = assert.that(vec![1, 2, 3].as_slice()).any(m(&|a| *a > 0, "&(|a| *a > 0)"));
    assert_eq!(assert.failure_count(), 0);
}

#[test]
fn slice_assertion_test_assert_any_should_fail() {
    let mut assert = new();
    let _ = assert.that(vec![-1, -2, -3].as_slice()).any(m(&|a| *a > 0, "&(|a| *a > 0)"));
    assert_eq!(assert.logs(), vec![String::from("assertion failed: `(matcher failed for every item)`")]);
}

#[test]
fn slice_assertion_test_assert_any_should_fail_with_negation() {
    let mut assert = new();
    let _ = assert.that(vec![-1, 2, -3].as_slice()).not().any(m(&|a| *a > 0, "&(|a| *a > 0)"));
    assert_eq!(
        assert.logs(),
        vec![String::from("assertion failed: `(matcher succeed for item position 1)`")]
    );
}

#[test]
fn slice_assertion_test_assert_single_should_pass() {
    let mut assert = new();
    let _ = assert.that(vec![-1, 2, -3].as_slice()).any(m(&|a| *a > 0, "&(|a| *a > 0)"));
    assert_eq!(assert.failure_count(), 0);
}
