//! The assertions on sequences, shared by the instances over vectors and
//! over slices.
use crate::assertion::{outcome, settles, Assertion, InstanceConfig};
use crate::instance::Expected;
use crate::matcher::Matcher;
use crate::messages::{
    accepted_at_log, accepted_at_message, all_negated_log, any_log, at_position, at_position_message, contains_log,
    contains_message, each_negated_log, eq_each_negated_log, expectation_len_log, fixed,
    len_log, len_message, matchers_len_log, position_log, position_message,
};
use crate::text::debug_text;
use std::fmt::Debug;
use vstd::prelude::*;
use vstd::std_specs::cmp::PartialEqSpec;

verus! {

/// The failures of the first `n` positions: one for each position `i` where
/// `failing(i)`, with message `msg(i)`, in the order of the positions.
pub open spec fn failures_upto(
    n: nat,
    failing: spec_fn(int) -> bool,
    msg: spec_fn(int) -> Seq<char>,
) -> Seq<Seq<char>>
    decreases n,
{
    if n == 0 {
        seq![]
    } else {
        failures_upto((n - 1) as nat, failing, msg) + if failing(n - 1) {
            seq![msg(n - 1)]
        } else {
            seq![]
        }
    }
}

/// The state of a session part way through an assertion with several
/// failures: those so far are appended (deferred) or none occurred yet (immediate).
pub open spec fn progress(
    config: InstanceConfig,
    before: Seq<Seq<char>>,
    now: Seq<Seq<char>>,
    so_far: Seq<Seq<char>>,
) -> bool {
    if config.panic_immediately {
        now == before && so_far.len() == 0
    } else {
        now == before + so_far
    }
}

/// The failures of a shorter prefix of positions start those of a longer one.
pub proof fn lemma_failures_prefix(
    k: nat,
    n: nat,
    failing: spec_fn(int) -> bool,
    msg: spec_fn(int) -> Seq<char>,
)
    requires
        k <= n,
    ensures
        failures_upto(k, failing, msg).len() <= failures_upto(n, failing, msg).len(),
        failures_upto(n, failing, msg).subrange(0, failures_upto(k, failing, msg).len() as int)
            == failures_upto(k, failing, msg),
    decreases n,
{
    if k < n {
        lemma_failures_prefix(k, (n - 1) as nat, failing, msg);
        let a = failures_upto((n - 1) as nat, failing, msg);
        let b = failures_upto(n, failing, msg);
        let c = failures_upto(k, failing, msg);
        assert(b.subrange(0, a.len() as int) =~= a);
        assert(b.subrange(0, c.len() as int) =~= a.subrange(0, c.len() as int));
    } else {
        let c = failures_upto(k, failing, msg);
        assert(c.subrange(0, c.len() as int) =~= c);
    }
}

/// Failures depend only on which of the first `n` positions fail.
pub proof fn lemma_failures_agree(
    n: nat,
    f1: spec_fn(int) -> bool,
    f2: spec_fn(int) -> bool,
    msg: spec_fn(int) -> Seq<char>,
)
    requires
        forall|k: int| 0 <= k < n ==> #[trigger] f1(k) == f2(k),
    ensures
        failures_upto(n, f1, msg) == failures_upto(n, f2, msg),
    decreases n,
{
    if n > 0 {
        lemma_failures_agree((n - 1) as nat, f1, f2, msg);
    }
}

/// One step of a loop that records the failure of position `i` where it fails.
proof fn lemma_step(
    config: InstanceConfig,
    before: Seq<Seq<char>>,
    now: Seq<Seq<char>>,
    i: nat,
    n: nat,
    failing: spec_fn(int) -> bool,
    msg: spec_fn(int) -> Seq<char>,
)
    requires
        i < n,
        progress(config, before, now, failures_upto(i, failing, msg)),
        failing(i as int),
    ensures
        config.panic_immediately ==> failures_upto(n, failing, msg).len() > 0
            && failures_upto(n, failing, msg)[0] == msg(i as int),
        failures_upto((i + 1) as nat, failing, msg) == failures_upto(i, failing, msg) + seq![
            msg(i as int),
        ],
{
    lemma_failures_prefix((i + 1) as nat, n, failing, msg);
    if config.panic_immediately {
        let s = failures_upto((i + 1) as nat, failing, msg);
        assert(s =~= seq![msg(i as int)]);
        assert(failures_upto(n, failing, msg).subrange(0, 1)[0] == msg(i as int));
    }
}

/// The end of a loop that recorded each position's failure as it came.
proof fn lemma_done(
    config: InstanceConfig,
    before: Seq<Seq<char>>,
    now: Seq<Seq<char>>,
    pending: Seq<Seq<char>>,
)
    requires
        progress(config, before, now, pending),
    ensures
        settles(config, before, now, pending, Ok(())),
{
}

/// `contains`: some element equals `x`.
pub open spec fn contains_spec<A: PartialEq>(s: Seq<A>, x: A) -> bool {
    exists|i: int| 0 <= i < s.len() && #[trigger] x.eq_spec(&s[i])
}

/// `eq_each`: the failures of the positions where the expected value differs.
pub open spec fn mismatch_logs<A: PartialEq, E: Expected<A>>(
    actual: Seq<A>,
    expected: Seq<E>,
) -> Seq<Seq<char>> {
    failures_upto(
        actual.len(),
        |i: int| !expected[i].target().eq_spec(&actual[i]),
        |i: int| position_log(i as nat),
    )
}

/// `eq_each`: the failures of the positions where `failing` holds.
pub open spec fn position_failures(n: nat, failing: spec_fn(int) -> bool) -> Seq<Seq<char>> {
    failures_upto(n, failing, |i: int| position_log(i as nat))
}

/// `eq_each`: everything that one call reports.
pub open spec fn eq_each_pending<A: PartialEq, E: Expected<A>>(
    config: InstanceConfig,
    actual: Seq<A>,
    expected: Seq<E>,
) -> Seq<Seq<char>> {
    if config.negation {
        seq![eq_each_negated_log()]
    } else if actual.len() != expected.len() {
        seq![expectation_len_log()]
    } else {
        mismatch_logs(actual, expected)
    }
}

/// `each`: the failures of the positions whose matcher rejects the element.
pub open spec fn rejected_logs<A, M: Matcher<A>>(actual: Seq<A>, matchers: Seq<M>) -> Seq<
    Seq<char>,
> {
    failures_upto(
        actual.len(),
        |i: int| !matchers[i].accepts(actual[i]),
        |i: int| at_position(matchers[i].failure_text(actual[i]), i as nat),
    )
}

/// `each`: everything that one call reports.
pub open spec fn each_pending<A, M: Matcher<A>>(
    config: InstanceConfig,
    actual: Seq<A>,
    matchers: Seq<M>,
) -> Seq<Seq<char>> {
    if config.negation {
        seq![each_negated_log()]
    } else if actual.len() != matchers.len() {
        seq![matchers_len_log()]
    } else {
        rejected_logs(actual, matchers)
    }
}

/// Every element is accepted by the matcher.
pub open spec fn all_accepted<A, M: Matcher<A>>(matcher: M, actual: Seq<A>) -> bool {
    forall|i: int| 0 <= i < actual.len() ==> #[trigger] matcher.accepts(actual[i])
}

/// `all`: one failure per rejected element; negated, one failure where every
/// element is accepted (an empty sequence included).
pub open spec fn all_pending<A, M: Matcher<A>>(
    config: InstanceConfig,
    matcher: M,
    actual: Seq<A>,
) -> Seq<Seq<char>> {
    if !config.negation {
        failures_upto(
            actual.len(),
            |i: int| !matcher.accepts(actual[i]),
            |i: int| at_position(matcher.failure_text(actual[i]), i as nat),
        )
    } else if all_accepted(matcher, actual) {
        seq![all_negated_log()]
    } else {
        seq![]
    }
}

/// The first element that the matcher accepts, if any.
pub open spec fn first_accepted<A, M: Matcher<A>>(matcher: M, actual: Seq<A>) -> Option<int>
    decreases actual.len(),
{
    if actual.len() == 0 {
        None
    } else {
        match first_accepted(matcher, actual.drop_last()) {
            Some(p) => Some(p),
            None => if matcher.accepts(actual.last()) {
                Some(actual.len() - 1)
            } else {
                None
            },
        }
    }
}

/// `any`: one failure where no element is accepted (an empty sequence
/// included); negated, one failure naming the first accepted element.
pub open spec fn any_pending<A, M: Matcher<A>>(
    config: InstanceConfig,
    matcher: M,
    actual: Seq<A>,
) -> Seq<Seq<char>> {
    match first_accepted(matcher, actual) {
        Some(p) => if config.negation {
            seq![accepted_at_log(p as nat)]
        } else {
            seq![]
        },
        None => if config.negation {
            seq![]
        } else {
            seq![any_log()]
        },
    }
}

/// `has_len` over a slice: passes when the slice has `expected` elements.
pub fn has_len_in<A>(ctx: &mut Assertion, config: InstanceConfig, actual: &[A], expected: usize) -> (r:
    Result<(), String>)
    ensures
        settles(
            config,
            old(ctx)@,
            final(ctx)@,
            outcome(
                config,
                actual@.len() == expected,
                len_log(false, actual@.len(), expected as nat),
                len_log(true, actual@.len(), expected as nat),
            ),
            r,
        ),
{
    let n = actual.len();
    let log = len_message(false, n, expected);
    let nlog = len_message(true, n, expected);
    ctx.handle_execution(config, n == expected, log, nlog)
}

/// `contains` over a slice: passes when some element equals the expected value.
pub fn contains_in<A: PartialEq, E: Expected<A> + Debug>(
    ctx: &mut Assertion,
    config: InstanceConfig,
    actual: &[A],
    expected: &E,
) -> (r: Result<(), String>)
    ensures
        exists|ok: bool, et: Seq<char>|
            {
                &&& A::obeys_eq_spec() ==> ok == contains_spec(actual@, expected.target())
                &&& settles(
                    config,
                    old(ctx)@,
                    final(ctx)@,
                    outcome(config, ok, contains_log(false, et), contains_log(true, et)),
                    r,
                )
            },
{
    let x = expected.target_ref();
    let mut found = false;
    let mut i: usize = 0;
    while i < actual.len()
        invariant
            0 <= i <= actual@.len(),
            A::obeys_eq_spec() ==> (found <==> exists|k: int|
                0 <= k < i && #[trigger] x.eq_spec(&actual@[k])),
        decreases actual@.len() - i,
    {
        if x.eq(&actual[i]) {
            found = true;
        }
        i = i + 1;
    }
    let et = debug_text(expected);
    let log = contains_message(false, et.as_str());
    let nlog = contains_message(true, et.as_str());
    ctx.handle_execution(config, found, log, nlog)
}

/// `eq_each` over a slice: see `eq_each_pending`. Stops at the first failure in immediate mode.
pub fn eq_each_in<A: PartialEq, E: Expected<A>>(
    ctx: &mut Assertion,
    config: InstanceConfig,
    actual: &[A],
    expected: &[E],
) -> (r: Result<(), String>)
    ensures
        A::obeys_eq_spec() || config.negation || actual@.len() != expected@.len() ==> settles(
            config,
            old(ctx)@,
            final(ctx)@,
            eq_each_pending(config, actual@, expected@),
            r,
        ),
        !config.negation && actual@.len() == expected@.len() ==> exists|
            failing: spec_fn(int) -> bool,
        |
            settles(
                config,
                old(ctx)@,
                final(ctx)@,
                #[trigger] position_failures(actual@.len(), failing),
                r,
            ),
{
    if config.negation {
        return ctx.handle_execution(
            config,
            true,
            String::new(),
            fixed("eq_each assertion cannot be negated"),
        );
    }
    if actual.len() != expected.len() {
        return ctx.handle_execution(
            config,
            false,
            fixed("expectation length is different from input length"),
            String::new(),
        );
    }
    let ghost before = old(ctx)@;
    let ghost failing = |i: int| !expected@[i].target().eq_spec(&actual@[i]);
    let ghost msg = |i: int| position_log(i as nat);
    assert(mismatch_logs(actual@, expected@) == failures_upto(actual@.len(), failing, msg));
    let ghost mut oks: Seq<bool> = Seq::empty();
    let mut i: usize = 0;
    while i < actual.len()
        invariant
            !config.negation,
            actual@.len() == expected@.len(),
            oks.len() == i,
            progress(config, before, ctx@, failures_upto(i as nat, |k: int| !oks[k], msg)),
            failing == (|i: int| !expected@[i].target().eq_spec(&actual@[i])),
            msg == (|i: int| position_log(i as nat)),
            before == old(ctx)@,
            eq_each_pending(config, actual@, expected@) == failures_upto(actual@.len(), failing, msg),
            0 <= i <= actual@.len(),
            A::obeys_eq_spec() ==> progress(config, before, ctx@, failures_upto(i as nat, failing, msg)),
        decreases actual@.len() - i,
    {
        let ok = expected[i].target_ref().eq(&actual[i]);
        let ghost seen = |k: int| !oks[k];
        proof {
            oks = oks.push(ok);
        }
        let ghost seen_now = |k: int| !oks[k];
        proof {
            lemma_failures_agree(i as nat, seen, seen_now, msg);
        }
        if !ok {
            proof {
                lemma_step(config, before, ctx@, i as nat, actual@.len(), seen_now, msg);
                if A::obeys_eq_spec() {
                    lemma_step(config, before, ctx@, i as nat, actual@.len(), failing, msg);
                }
            }
            let log = position_message(i);
            assert(log@ == msg(i as int));
            let r = ctx.fail(config, log);
            if r.is_err() {
                assert(position_failures(actual@.len(), seen_now) == failures_upto(actual@.len(), seen_now, msg));
                assert(settles(config, old(ctx)@, ctx@, position_failures(actual@.len(), seen_now), r));
                return r;
            }
            assert(ctx@ =~= before + failures_upto((i + 1) as nat, seen_now, msg));
            proof {
                if A::obeys_eq_spec() {
                    assert(ctx@ =~= before + failures_upto((i + 1) as nat, failing, msg));
                }
            }
        } else {
            assert(failures_upto((i + 1) as nat, seen_now, msg) =~= failures_upto(i as nat, seen_now, msg));
            assert(A::obeys_eq_spec() ==> failures_upto((i + 1) as nat, failing, msg) =~= failures_upto(i as nat, failing, msg));
        }
        i = i + 1;
    }
    proof {
        lemma_done(config, before, ctx@, failures_upto(actual@.len(), |k: int| !oks[k], msg));
        assert(position_failures(actual@.len(), |k: int| !oks[k]) == failures_upto(actual@.len(), |k: int| !oks[k], msg));
        if A::obeys_eq_spec() {
            lemma_done(config, before, ctx@, failures_upto(actual@.len(), failing, msg));
            assert(mismatch_logs(actual@, expected@) == failures_upto(actual@.len(), failing, msg));
        }
    }
    Ok(())
}

/// `each` over a slice: see `each_pending`. Stops at the first failure in immediate mode.
pub fn each_in<A, M: Matcher<A>>(
    ctx: &mut Assertion,
    config: InstanceConfig,
    actual: &[A],
    matchers: &[M],
) -> (r: Result<(), String>)
    requires
        forall|i: int| 0 <= i < matchers@.len() ==> #[trigger] matchers@[i].ready(),
    ensures
        settles(config, old(ctx)@, final(ctx)@, each_pending(config, actual@, matchers@), r),
{
    if config.negation {
        return ctx.handle_execution(
            config,
            true,
            String::new(),
            fixed("each assertion cannot be negated"),
        );
    }
    if actual.len() != matchers.len() {
        return ctx.handle_execution(
            config,
            false,
            fixed("matchers length is different from input length"),
            String::new(),
        );
    }
    let ghost before = old(ctx)@;
    let ghost failing = |i: int| !matchers@[i].accepts(actual@[i]);
    let ghost msg = |i: int| at_position(matchers@[i].failure_text(actual@[i]), i as nat);
    assert(rejected_logs(actual@, matchers@) == failures_upto(actual@.len(), failing, msg));
    let mut i: usize = 0;
    while i < actual.len()
        invariant
            !config.negation,
            actual@.len() == matchers@.len(),
            failing == (|i: int| !matchers@[i].accepts(actual@[i])),
            msg == (|i: int| at_position(matchers@[i].failure_text(actual@[i]), i as nat)),
            before == old(ctx)@,
            each_pending(config, actual@, matchers@) == failures_upto(actual@.len(), failing, msg),
            forall|i: int| 0 <= i < matchers@.len() ==> #[trigger] matchers@[i].ready(),
            0 <= i <= actual@.len(),
            progress(config, before, ctx@, failures_upto(i as nat, failing, msg)),
        decreases actual@.len() - i,
    {
        let ok = matchers[i].test(&actual[i]);
        if !ok {
            proof {
                lemma_step(config, before, ctx@, i as nat, actual@.len(), failing, msg);
            }
            let log = at_position_message(matchers[i].describe_failure(&actual[i]), i);
            assert(log@ == msg(i as int));
            let r = ctx.fail(config, log);
            if r.is_err() {
                return r;
            }
            assert(ctx@ =~= before + failures_upto((i + 1) as nat, failing, msg));
        } else {
            assert(failures_upto((i + 1) as nat, failing, msg) =~= failures_upto(i as nat, failing, msg));
        }
        i = i + 1;
    }
    proof {
        lemma_done(config, before, ctx@, failures_upto(actual@.len(), failing, msg));
        assert(rejected_logs(actual@, matchers@) == failures_upto(actual@.len(), failing, msg));
    }
    Ok(())
}

/// `all` over a slice: see `all_pending`. Stops at the first failure in immediate mode.
pub fn all_in<A, M: Matcher<A>>(
    ctx: &mut Assertion,
    config: InstanceConfig,
    actual: &[A],
    matcher: &M,
) -> (r: Result<(), String>)
    requires
        matcher.ready(),
    ensures
        settles(config, old(ctx)@, final(ctx)@, all_pending(config, *matcher, actual@), r),
{
    let ghost before = old(ctx)@;
    if config.negation {
        let mut i: usize = 0;
        let mut found = false;
        while i < actual.len()
            invariant
                0 <= i <= actual@.len(),
                matcher.ready(),
                found <==> !all_accepted(*matcher, actual@.subrange(0, i as int)),
            decreases actual@.len() - i,
        {
            if !matcher.test(&actual[i]) {
                found = true;
                assert(!matcher.accepts(actual@.subrange(0, i + 1)[i as int]));
            }
            i = i + 1;
            assert(forall|k: int|
                0 <= k < i - 1 ==> actual@.subrange(0, i as int)[k] == actual@.subrange(
                    0,
                    i - 1,
                )[k]);
        }
        assert(actual@.subrange(0, actual@.len() as int) =~= actual@);
        if !found {
            return ctx.handle_execution(
                config,
                true,
                String::new(),
                fixed("assertion failed: `(matcher succeed for every item)`"),
            );
        }
        assert(before + seq![] =~= before);
        return Ok(());
    }
    let ghost failing = |i: int| !matcher.accepts(actual@[i]);
    let ghost msg = |i: int| at_position(matcher.failure_text(actual@[i]), i as nat);
    assert(all_pending(config, *matcher, actual@) == failures_upto(actual@.len(), failing, msg));
    let mut i: usize = 0;
    while i < actual.len()
        invariant
            !config.negation,
            matcher.ready(),
            failing == (|i: int| !matcher.accepts(actual@[i])),
            msg == (|i: int| at_position(matcher.failure_text(actual@[i]), i as nat)),
            before == old(ctx)@,
            all_pending(config, *matcher, actual@) == failures_upto(actual@.len(), failing, msg),
            0 <= i <= actual@.len(),
            progress(config, before, ctx@, failures_upto(i as nat, failing, msg)),
        decreases actual@.len() - i,
    {
        let ok = matcher.test(&actual[i]);
        if !ok {
            proof {
                lemma_step(config, before, ctx@, i as nat, actual@.len(), failing, msg);
            }
            let log = at_position_message(matcher.describe_failure(&actual[i]), i);
            assert(log@ == msg(i as int));
            let r = ctx.fail(config, log);
            if r.is_err() {
                return r;
            }
            assert(ctx@ =~= before + failures_upto((i + 1) as nat, failing, msg));
        } else {
            assert(failures_upto((i + 1) as nat, failing, msg) =~= failures_upto(i as nat, failing, msg));
        }
        i = i + 1;
    }
    proof {
        lemma_done(config, before, ctx@, failures_upto(actual@.len(), failing, msg));
    }
    Ok(())
}

/// `any` over a slice: see `any_pending`.
pub fn any_in<A, M: Matcher<A>>(
    ctx: &mut Assertion,
    config: InstanceConfig,
    actual: &[A],
    matcher: &M,
) -> (r: Result<(), String>)
    requires
        matcher.ready(),
    ensures
        settles(config, old(ctx)@, final(ctx)@, any_pending(config, *matcher, actual@), r),
{
    let mut i: usize = 0;
    let mut first: Option<usize> = None;
    while i < actual.len() && first.is_none()
        invariant
            0 <= i <= actual@.len(),
            matcher.ready(),
            match first {
                Some(p) => first_accepted(*matcher, actual@) == Some(p as int),
                None => first_accepted(*matcher, actual@.subrange(0, i as int)) is None,
            },
        decreases actual@.len() - i,
    {
        assert(actual@.subrange(0, i + 1).drop_last() =~= actual@.subrange(0, i as int));
        if matcher.test(&actual[i]) {
            first = Some(i);
            proof {
                lemma_first_accepted_extends(*matcher, actual@, i as int + 1);
            }
        }
        i = i + 1;
    }
    if first.is_none() {
        assert(actual@.subrange(0, actual@.len() as int) =~= actual@);
    }
    let before = Ghost(old(ctx)@);
    match first {
        Some(p) => {
            if config.negation {
                ctx.handle_execution(config, true, String::new(), accepted_at_message(p))
            } else {
                assert(before@ + seq![] =~= before@);
                Ok(())
            }
        },
        None => {
            if config.negation {
                assert(before@ + seq![] =~= before@);
                Ok(())
            } else {
                ctx.handle_execution(
                    config,
                    false,
                    fixed("assertion failed: `(matcher failed for every item)`"),
                    String::new(),
                )
            }
        },
    }
}

/// A first accepted element found in a prefix stays the first one in the whole sequence.
proof fn lemma_first_accepted_extends<A, M: Matcher<A>>(matcher: M, s: Seq<A>, n: int)
    requires
        0 <= n <= s.len(),
        first_accepted(matcher, s.subrange(0, n)) is Some,
    ensures
        first_accepted(matcher, s) == first_accepted(matcher, s.subrange(0, n)),
    decreases s.len() - n,
{
    if n < s.len() {
        assert(s.subrange(0, n + 1).drop_last() =~= s.subrange(0, n));
        lemma_first_accepted_extends(matcher, s, n + 1);
    } else {
        assert(s.subrange(0, n) =~= s);
    }
}

} // verus!
