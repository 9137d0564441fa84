//! Capture of the call stack at a failure, trimmed to the frames that point
//! at the caller's code rather than at this library's own functions.
use backtrace::BacktraceFrame;
use vstd::prelude::*;
use vstd::string::StringSliceAdditionalSpecFns;

verus! {

#[verifier::external_type_specification]
#[verifier::external_body]
pub struct ExBacktraceFrame(backtrace::BacktraceFrame);

/// The start of the symbol names of this library's own functions.
pub const LIBRARY_PREFIX: &'static str = "rustassert::";

/// Relies on `backtrace::Backtrace::new` and its conversion into its frames:
/// the frames of the current call stack, innermost first, with symbols resolved.
/// What the stack holds depends on the caller and the platform: nothing is stated.
#[verifier::external_body]
fn capture_frames() -> Vec<BacktraceFrame> {
    backtrace::Backtrace::new().into()
}

/// Relies on `BacktraceFrame::symbols` and `BacktraceSymbol::name`: for each
/// symbol resolved at the frame, its demangled name without hash (`{:#}`) as
/// bytes, or `None` where the symbol has no name. Depends on the platform's
/// debug information: nothing is stated.
#[verifier::external_body]
fn symbol_names(frame: &BacktraceFrame) -> Vec<Option<Vec<u8>>> {
    frame.symbols().iter().map(|s| s.name().map(|n| format!("{:#}", n).into_bytes())).collect()
}

/// `p` is a prefix of `s`.
pub open spec fn starts_with(s: Seq<u8>, p: Seq<u8>) -> bool {
    p.len() <= s.len() && s.subrange(0, p.len() as int) == p
}

/// The names of a frame's symbols, as plain byte sequences.
pub open spec fn names_view(names: Seq<Option<Vec<u8>>>) -> Seq<Option<Seq<u8>>> {
    names.map_values(|n: Option<Vec<u8>>| match n {
        Some(v) => Some(v@),
        None => None,
    })
}

/// A symbol name lies in the module `prefix`: the path starts with it,
/// directly or as the type of a method (`<rustassert::x::T>::f`,
/// `<rustassert::x::T as Trait>::f`).
pub open spec fn path_in_module(name: Seq<u8>, prefix: Seq<u8>) -> bool {
    starts_with(name, prefix) || (name.len() > 0 && name[0] == 60u8 && starts_with(
        name.drop_first(),
        prefix,
    ))
}

/// A frame belongs to the library when one of its symbol names lies in the module.
pub open spec fn in_library(names: Seq<Option<Seq<u8>>>, prefix: Seq<u8>) -> bool {
    exists|i: int|
        0 <= i < names.len() && #[trigger] names[i] is Some && path_in_module(names[i]->0, prefix)
}

/// Index of the last (outermost) library frame, if any.
pub open spec fn last_library_frame(flags: Seq<bool>) -> Option<int>
    decreases flags.len(),
{
    if flags.len() == 0 {
        None
    } else if flags.last() {
        Some(flags.len() - 1)
    } else {
        last_library_frame(flags.drop_last())
    }
}

/// The frame just past the outermost library frame, where one follows it.
pub open spec fn caller_frame(flags: Seq<bool>) -> Option<int> {
    match last_library_frame(flags) {
        Some(i) => if i + 1 < flags.len() {
            Some(i + 1)
        } else {
            None
        },
        None => None,
    }
}

/// Which frames a trimmed trace keeps: in full mode every frame outside the
/// library; otherwise only the first caller frame past the library.
pub open spec fn kept_frames(flags: Seq<bool>, full: bool) -> Seq<bool> {
    Seq::new(
        flags.len(),
        |j: int|
            if full {
                !flags[j]
            } else {
                caller_frame(flags) == Some(j)
            },
    )
}

/// The items of `s` whose flag in `keep` is set, in order.
pub open spec fn select<T>(s: Seq<T>, keep: Seq<bool>) -> Seq<T>
    decreases s.len(),
{
    if s.len() == 0 {
        s
    } else {
        let rest = select(s.drop_last(), keep);
        if keep[s.len() - 1] {
            rest.push(s.last())
        } else {
            rest
        }
    }
}

proof fn lemma_select_prefix<T>(s: Seq<T>, keep: Seq<bool>, n: int)
    requires
        0 <= n < s.len(),
    ensures
        select(s.subrange(0, n + 1), keep) == if keep[n] {
            select(s.subrange(0, n), keep).push(s[n])
        } else {
            select(s.subrange(0, n), keep)
        },
{
    assert(s.subrange(0, n + 1).drop_last() =~= s.subrange(0, n));
}

/// Frame attribution: whether any of `names` starts with `prefix`.
pub fn frame_in_module(names: &Vec<Option<Vec<u8>>>, prefix: &[u8]) -> (r: bool)
    ensures
        r == in_library(names_view(names@), prefix@),
{
    let mut i: usize = 0;
    while i < names.len()
        invariant
            0 <= i <= names@.len(),
            forall|k: int|
                0 <= k < i ==> !(#[trigger] names_view(names@)[k] is Some && path_in_module(
                    names_view(names@)[k]->0,
                    prefix@,
                )),
        decreases names@.len() - i,
    {
        if let Some(name) = &names[i] {
            if name_in_module(name, prefix) {
                assert(names_view(names@)[i as int] == Some(name@));
                return true;
            }
        }
        i = i + 1;
    }
    false
}

fn name_in_module(name: &Vec<u8>, prefix: &[u8]) -> (r: bool)
    ensures
        r == path_in_module(name@, prefix@),
{
    if bytes_start_at(name, prefix, 0) {
        assert(name@.subrange(0, name@.len() as int) =~= name@);
        return true;
    }
    assert(name@.subrange(0, name@.len() as int) =~= name@);
    if name.len() > 0 && name[0] == 60u8 {
        assert(name@.subrange(1, name@.len() as int) =~= name@.drop_first());
        bytes_start_at(name, prefix, 1)
    } else {
        false
    }
}

/// Whether `s` from position `off` on starts with `p`.
fn bytes_start_at(s: &Vec<u8>, p: &[u8], off: usize) -> (r: bool)
    requires
        off <= s@.len(),
    ensures
        r == starts_with(s@.subrange(off as int, s@.len() as int), p@),
{
    let ghost t = s@.subrange(off as int, s@.len() as int);
    let n = s.len();
    if p.len() > n - off {
        return false;
    }
    let mut i: usize = 0;
    while i < p.len()
        invariant
            off <= s@.len(),
            t == s@.subrange(off as int, s@.len() as int),
            t.len() == s@.len() - off,
            s@.len() == n,
            p@.len() <= t.len(),
            0 <= i <= p@.len(),
            forall|k: int| 0 <= k < i ==> t[k] == p@[k],
        decreases p@.len() - i,
    {
        if s[off + i] != p[i] {
            assert(t.subrange(0, p@.len() as int)[i as int] != p@[i as int]);
            return false;
        }
        i = i + 1;
    }
    assert(t.subrange(0, p@.len() as int) =~= p@);
    true
}

/// Minimal mode: the index of the one frame past the outermost library frame,
/// or `None` where no library frame is found or none follows it.
pub fn failed_line_index(flags: &Vec<bool>) -> (r: Option<usize>)
    ensures
        match r {
            Some(i) => caller_frame(flags@) == Some(i as int),
            None => caller_frame(flags@) is None,
        },
{
    let mut found = false;
    let mut last: usize = 0;
    let mut i: usize = 0;
    while i < flags.len()
        invariant
            0 <= i <= flags@.len(),
            found ==> last < i,
            last_library_frame(flags@.subrange(0, i as int)) == if found {
                Some(last as int)
            } else {
                None::<int>
            },
        decreases flags@.len() - i,
    {
        assert(flags@.subrange(0, i + 1).drop_last() =~= flags@.subrange(0, i as int));
        if flags[i] {
            found = true;
            last = i;
        }
        i = i + 1;
    }
    assert(flags@.subrange(0, flags@.len() as int) =~= flags@);
    if !found || last + 1 == flags.len() {
        return None;
    }
    Some(last + 1)
}

/// Full mode: flags the frames that lie outside the library.
pub fn outside_library(flags: &Vec<bool>) -> (r: Vec<bool>)
    ensures
        r@ == kept_frames(flags@, true),
{
    let mut keep: Vec<bool> = Vec::new();
    let mut i: usize = 0;
    while i < flags.len()
        invariant
            0 <= i <= flags@.len(),
            keep@ =~= kept_frames(flags@, true).subrange(0, i as int),
        decreases flags@.len() - i,
    {
        keep.push(!flags[i]);
        i = i + 1;
    }
    keep
}

/// Which frames the trace of a failure keeps, in the mode asked for.
pub fn keep_flags(flags: &Vec<bool>, full: bool) -> (r: Vec<bool>)
    ensures
        r@ == kept_frames(flags@, full),
{
    if full {
        return outside_library(flags);
    }
    let target = failed_line_index(flags);
    let mut keep: Vec<bool> = Vec::new();
    let mut i: usize = 0;
    while i < flags.len()
        invariant
            0 <= i <= flags@.len(),
            target is Some ==> caller_frame(flags@) == Some(target->0 as int),
            target is None ==> caller_frame(flags@) is None,
            keep@ =~= kept_frames(flags@, false).subrange(0, i as int),
        decreases flags@.len() - i,
    {
        let hit = match target {
            Some(t) => t == i,
            None => false,
        };
        keep.push(hit);
        i = i + 1;
    }
    keep
}

/// Moves the flagged items of `items` into a new vector, in order.
pub fn select_frames<T>(items: Vec<T>, keep: &Vec<bool>) -> (r: Vec<T>)
    requires
        keep@.len() == items@.len(),
    ensures
        r@ == select(items@, keep@),
{
    let ghost all = items@;
    let mut rest = items;
    let n = rest.len();
    let mut out: Vec<T> = Vec::new();
    let mut i: usize = 0;
    while rest.len() > 0
        invariant
            keep@.len() == all.len(),
            all.len() == n,
            0 <= i <= all.len(),
            i + rest@.len() == all.len(),
            rest@ == all.subrange(i as int, all.len() as int),
            out@ == select(all.subrange(0, i as int), keep@),
        decreases rest@.len(),
    {
        let item = rest.remove(0);
        proof {
            lemma_select_prefix(all, keep@, i as int);
        }
        if keep[i] {
            out.push(item);
        }
        assert(rest@ =~= all.subrange(i + 1, all.len() as int));
        i = i + 1;
    }
    assert(all.subrange(0, all.len() as int) =~= all);
    out
}

proof fn lemma_select_len_one<T>(s: Seq<T>, keep: Seq<bool>, j: int)
    requires
        keep.len() >= s.len(),
        forall|k: int| 0 <= k < keep.len() ==> keep[k] == (k == j),
    ensures
        select(s, keep).len() <= 1,
    decreases s.len(),
{
    if s.len() > 0 {
        if j == s.len() - 1 {
            lemma_select_len_zero(s.drop_last(), keep, j);
        } else {
            lemma_select_len_one(s.drop_last(), keep, j);
        }
    }
}

proof fn lemma_select_len_zero<T>(s: Seq<T>, keep: Seq<bool>, j: int)
    requires
        keep.len() >= s.len(),
        forall|k: int| 0 <= k < keep.len() ==> keep[k] == (k == j),
        j >= s.len(),
    ensures
        select(s, keep).len() == 0,
    decreases s.len(),
{
    if s.len() > 0 {
        lemma_select_len_zero(s.drop_last(), keep, j);
    }
}

/// The symbol names of each frame, as plain byte sequences.
pub open spec fn frames_names_view(names: Seq<Vec<Option<Vec<u8>>>>) -> Seq<Seq<Option<Seq<u8>>>> {
    names.map_values(|v: Vec<Option<Vec<u8>>>| names_view(v@))
}

/// For each frame, whether it belongs to the library.
pub open spec fn library_flags(names: Seq<Seq<Option<Seq<u8>>>>, prefix: Seq<u8>) -> Seq<bool> {
    Seq::new(names.len(), |i: int| in_library(names[i], prefix))
}

/// The trimmed trace of `frames`, where `names[i]` are the symbol names of
/// frame `i`: in full mode every frame outside the module `prefix`, in
/// order; otherwise only the frame just past the outermost one inside it.
pub fn trim_frames<T>(
    frames: Vec<T>,
    names: &Vec<Vec<Option<Vec<u8>>>>,
    prefix: &[u8],
    full: bool,
) -> (r: Vec<T>)
    requires
        names@.len() == frames@.len(),
    ensures
        r@ == select(
            frames@,
            kept_frames(library_flags(frames_names_view(names@), prefix@), full),
        ),
        !full ==> r@.len() <= 1,
{
    let ghost lib = library_flags(frames_names_view(names@), prefix@);
    let mut flags: Vec<bool> = Vec::new();
    let mut i: usize = 0;
    while i < names.len()
        invariant
            0 <= i <= names@.len(),
            lib == library_flags(frames_names_view(names@), prefix@),
            flags@ =~= lib.subrange(0, i as int),
        decreases names@.len() - i,
    {
        flags.push(frame_in_module(&names[i], prefix));
        i = i + 1;
    }
    assert(flags@ =~= lib);
    let keep = keep_flags(&flags, full);
    let ghost all = frames@;
    let r = select_frames(frames, &keep);
    proof {
        if !full {
            match caller_frame(flags@) {
                Some(j) => lemma_select_len_one(all, keep@, j),
                None => lemma_select_len_one(all, keep@, all.len() as int),
            }
        }
    }
    r
}

/// The trace recorded with a failure: the current call stack, trimmed to the
/// frames outside the library (full mode) or to the one caller frame.
pub fn capture_trace(full: bool) -> (r: Vec<BacktraceFrame>)
    ensures
        exists|frames: Seq<BacktraceFrame>, names: Seq<Seq<Option<Seq<u8>>>>|
            {
                &&& names.len() == frames.len()
                &&& r@ == select(
                    frames,
                    kept_frames(library_flags(names, LIBRARY_PREFIX.spec_bytes()), full),
                )
            },
        !full ==> r@.len() <= 1,
{
    let frames = capture_frames();
    let mut names: Vec<Vec<Option<Vec<u8>>>> = Vec::new();
    let mut i: usize = 0;
    while i < frames.len()
        invariant
            0 <= i <= frames@.len(),
            names@.len() == i,
        decreases frames@.len() - i,
    {
        names.push(symbol_names(&frames[i]));
        i = i + 1;
    }
    let ghost all = frames@;
    let r = trim_frames(frames, &names, LIBRARY_PREFIX.as_bytes(), full);
    assert(frames_names_view(names@).len() == all.len());
    r
}

} // verus!
