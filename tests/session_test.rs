use rustassert::text::decimal_text;
use rustassert::trace::trim_frames;
use rustassert::{new, FsTestError, SimpleMatcher, TmpTestFolder};
use std::path::PathBuf;

type M<'f> = SimpleMatcher<&'f dyn Fn(&i32) -> bool>;

fn m<'f>(f: &'f dyn Fn(&i32) -> bool, text: &str) -> M<'f> {
    SimpleMatcher::new(f, text)
}

#[test]
fn end_to_end_session() {
    let mut assert = new();
    let _ = assert.that(vec![1, 2, 3]).not().has_len(1);
    assert_eq!(assert.failure_count(), 0);

    let _ = assert.that(vec![1, -2, 3]).all(m(&|a| *a > 0, "&(|a| *a > 0)"));
    let logs = assert.logs();
    assert_eq!(logs.len(), 1);
    assert!(logs[0].ends_with("at position 1"));

    let ms: [M; 3] = [m(&|p| *p > 0, "m1"), m(&|p| *p > 0, "m2"), m(&|p| *p > 0, "m3")];
    let _ = assert.that(vec![1, 2]).each(&ms);
    let logs = assert.logs();
    assert_eq!(logs.len(), 2);
    assert_eq!(logs[1], "matchers length is different from input length");

    let exit = assert.finish(false);
    assert_eq!(exit.reports.len(), 2);
    assert!(exit.raise_sentinel);
}

#[test]
fn is_eq_on_itself_never_fails_and_on_other_fails_once() {
    let mut assert = new();
    for a in [0u64, 1, 42, u64::MAX] {
        let _ = assert.that(a).is_eq(a);
    }
    assert_eq!(assert.failure_count(), 0);
    let _ = assert.that(String::from("x")).is_eq(String::from("y"));
    assert_eq!(assert.failure_count(), 1);
}

#[test]
fn negation_inverts_the_decision() {
    let mut assert = new();
    let _ = assert.that(vec![1, 2]).contains(1);
    let _ = assert.that(vec![1, 2]).not().contains(3);
    let _ = assert.that(vec![1, 2]).has_len(2);
    let _ = assert.that(vec![1, 2]).not().has_len(3);
    assert_eq!(assert.failure_count(), 0);
    let _ = assert.that(vec![1, 2]).not().contains(1);
    let _ = assert.that(vec![1, 2]).contains(3);
    let _ = assert.that(vec![1, 2]).not().has_len(2);
    let _ = assert.that(vec![1, 2]).has_len(3);
    assert_eq!(assert.failure_count(), 4);
}

#[test]
fn negated_eq_each_and_each_always_fail() {
    let mut assert = new();
    let _ = assert.that(vec![1, 2]).not().eq_each(&[1, 2]);
    let _ = assert.that(vec![1, 2]).not().eq_each(&[9]);
    let ms: [M; 2] = [m(&|p| *p > 0, "m1"), m(&|p| *p > 0, "m2")];
    let _ = assert.that(vec![1, 2]).not().each(&ms);
    assert_eq!(
        assert.logs(),
        vec![
            String::from("eq_each assertion cannot be negated"),
            String::from("eq_each assertion cannot be negated"),
            String::from("each assertion cannot be negated"),
        ]
    );
}

#[test]
fn has_len_on_empty() {
    let mut assert = new();
    let empty: Vec<u8> = Vec::new();
    let _ = assert.that(empty).has_len(0);
    assert_eq!(assert.failure_count(), 0);
    let empty: Vec<u8> = Vec::new();
    let _ = assert.that(empty).has_len(1);
    assert_eq!(
        assert.logs(),
        vec![String::from("assertion failed: `(actual.len() == expectation)`\n     actual.len(): `0`\nexpectation: `1`")]
    );
}

#[test]
fn eq_each_on_empty_sequences_passes() {
    let mut assert = new();
    let empty: Vec<i32> = Vec::new();
    let none: [i32; 0] = [];
    let _ = assert.that(empty).eq_each(&none);
    assert_eq!(assert.failure_count(), 0);
}

#[test]
fn all_and_any_on_empty() {
    let mut assert = new();
    let e = || -> Vec<i32> { Vec::new() };
    let _ = assert.that(e()).all(m(&|a| *a > 0, "p"));
    let _ = assert.that(e()).not().any(m(&|a| *a > 0, "p"));
    assert_eq!(assert.failure_count(), 0);
    let _ = assert.that(e()).not().all(m(&|a| *a > 0, "p"));
    let _ = assert.that(e()).any(m(&|a| *a > 0, "p"));
    assert_eq!(
        assert.logs(),
        vec![
            String::from("assertion failed: `(matcher succeed for every item)`"),
            String::from("assertion failed: `(matcher failed for every item)`"),
        ]
    );
}

#[test]
fn decimal_text_renders_numbers() {
    assert_eq!(decimal_text(0), "0");
    assert_eq!(decimal_text(7), "7");
    assert_eq!(decimal_text(10), "10");
    assert_eq!(decimal_text(1203), "1203");
    assert_eq!(decimal_text(usize::MAX), usize::MAX.to_string());
}

#[test]
fn fs_error_messages() {
    assert_eq!(FsTestError::NeedDir.message(), "need directory");
    assert_eq!(FsTestError::NeedFile.message(), "need file");
    let e = FsTestError::from(std::io::Error::new(std::io::ErrorKind::Other, "boom"));
    assert!(matches!(e, FsTestError::IoError(_)));
    assert_eq!(e.message(), "IO error occurred : boom");
}

#[test]
fn tmp_folder_keeps_its_path() {
    let p = PathBuf::from("/tmp/some_folder");
    let f = TmpTestFolder::from_path(p.clone());
    assert_eq!(f.get_path(), &p);
}

fn names(list: &[&[Option<&str>]]) -> Vec<Vec<Option<Vec<u8>>>> {
    list.iter().map(|f| f.iter().map(|n| n.map(|s| s.as_bytes().to_vec())).collect()).collect()
}

#[test]
fn trim_frames_keeps_the_first_caller_frame() {
    let ns = names(&[
        &[Some("backtrace::capture::Backtrace::new")],
        &[Some("rustassert::trace::capture_trace")],
        &[Some("<rustassert::instance::Instance<&str>>::is_eq")],
        &[Some("user::the_test")],
        &[None, Some("std::rt::lang_start")],
    ]);
    let prefix = "rustassert::".as_bytes();
    assert_eq!(trim_frames(vec![0u32, 1, 2, 3, 4], &ns, prefix, false), vec![3]);
    assert_eq!(trim_frames(vec![0u32, 1, 2, 3, 4], &ns, prefix, true), vec![0, 3, 4]);
}

#[test]
fn trim_frames_without_a_caller_frame_is_empty() {
    let prefix = "rustassert::".as_bytes();
    let outside = names(&[&[Some("a::b")], &[Some("c::d")]]);
    assert_eq!(trim_frames(vec![0u32, 1], &outside, prefix, false), Vec::<u32>::new());
    assert_eq!(trim_frames(vec![0u32, 1], &outside, prefix, true), vec![0, 1]);
    let last = names(&[&[Some("a::b")], &[Some("rustassert::x"), Some("user::f")]]);
    assert_eq!(trim_frames(vec![0u32, 1], &last, prefix, false), Vec::<u32>::new());
    assert_eq!(trim_frames(vec![0u32, 1], &last, prefix, true), vec![0]);
}
