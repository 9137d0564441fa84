//! General properties of the assertions, stated over the specifications
//! that their contracts use.
use crate::assertion::{outcome, raises_sentinel, reported, InstanceConfig};
use crate::instance::Expected;
use crate::matcher::Matcher;
use crate::messages::{
    all_negated_log, any_log, at_position, each_negated_log, eq_each_negated_log,
    expectation_len_log, len_log, matchers_len_log,
};
use crate::sequence::{
    all_accepted, all_pending, any_pending, contains_spec, each_pending, eq_each_pending, failures_upto,
    first_accepted, mismatch_logs, rejected_logs,
};
use vstd::laws_eq::obeys_concrete_eq;
use vstd::prelude::*;
use vstd::std_specs::cmp::PartialEqSpec;

verus! {

/// The settings with negation flipped.
pub open spec fn negated(config: InstanceConfig) -> InstanceConfig {
    InstanceConfig { negation: !config.negation, ..config }
}

/// The failing positions among the first `n`, in increasing order.
pub open spec fn failing_positions(n: nat, failing: spec_fn(int) -> bool) -> Seq<int>
    decreases n,
{
    if n == 0 {
        seq![]
    } else {
        failing_positions((n - 1) as nat, failing) + if failing(n - 1) {
            seq![n - 1]
        } else {
            seq![]
        }
    }
}

/// The failures of the first `n` positions are one per failing position, in
/// order, each with that position's message; and the failing positions are
/// exactly those where `failing` holds.
pub proof fn lemma_one_failure_per_position(
    n: nat,
    failing: spec_fn(int) -> bool,
    msg: spec_fn(int) -> Seq<char>,
)
    ensures
        failures_upto(n, failing, msg) == failing_positions(n, failing).map_values(msg),
        forall|i: int|
            #![trigger failing_positions(n, failing).contains(i)]
            #![trigger failing(i)]
            failing_positions(n, failing).contains(i) <==> (0 <= i < n && failing(i)),
        failures_upto(n, failing, msg).len() == 0 <==> forall|i: int|
            0 <= i < n ==> !#[trigger] failing(i),
    decreases n,
{
    if n > 0 {
        lemma_one_failure_per_position((n - 1) as nat, failing, msg);
        let p = failing_positions((n - 1) as nat, failing);
        let q = failing_positions(n, failing);
        let tail: Seq<int> = if failing(n - 1) {
            seq![n - 1]
        } else {
            seq![]
        };
        assert(q == p + tail);
        assert(q.map_values(msg) =~= p.map_values(msg) + if failing(n - 1) {
            seq![msg(n - 1)]
        } else {
            seq![]
        });
        assert forall|i: int|
            #![trigger q.contains(i)]
            #![trigger failing(i)]
            q.contains(i) <==> (0 <= i < n && failing(i)) by {
            if q.contains(i) {
                let k = choose|k: int| 0 <= k < q.len() && q[k] == i;
                if k < p.len() {
                    assert(q[k] == p[k]);
                    assert(p.contains(i));
                } else {
                    assert(q[k] == tail[k - p.len()]);
                }
            }
            if 0 <= i < n - 1 && failing(i) {
                assert(p.contains(i));
                let k = choose|k: int| 0 <= k < p.len() && p[k] == i;
                assert(q[k] == p[k]);
                assert(q.contains(i));
            }
            if i == n - 1 && failing(i) {
                assert(q[q.len() - 1] == i);
                assert(q.contains(i));
            }
        }
        if failures_upto(n, failing, msg).len() == 0 {
            assert forall|i: int| 0 <= i < n implies !#[trigger] failing(i) by {
                if failing(i) {
                    assert(q.contains(i));
                }
            }
        }
    }
}

/// Asserting that a value equals itself records nothing; that it equals a
/// different value records exactly one failure, with the positive message.
pub proof fn lemma_is_eq_law<A: PartialEq>(
    config: InstanceConfig,
    a: A,
    b: A,
    log: Seq<char>,
    nlog: Seq<char>,
)
    requires
        obeys_concrete_eq::<A>(),
        !config.negation,
    ensures
        A::obeys_eq_spec(),
        outcome(config, a.eq_spec(&a), log, nlog) == Seq::<Seq<char>>::empty(),
        a != b ==> outcome(config, a.eq_spec(&b), log, nlog) == seq![log],
{
    reveal(obeys_concrete_eq);
}

/// Negation inverts whether an outcome is reported, and so whether `all` and
/// `any` record anything; `eq_each` and `each` record their one failure
/// whenever negated.
pub proof fn lemma_negation_inverts<A, M: Matcher<A>, B: PartialEq, E: Expected<B>>(
    config: InstanceConfig,
    ok: bool,
    log: Seq<char>,
    nlog: Seq<char>,
    matcher: M,
    actual: Seq<A>,
    matchers: Seq<M>,
    values: Seq<B>,
    expected: Seq<E>,
)
    ensures
        reported(negated(config), ok) == !reported(config, ok),
        outcome(negated(config), ok, log, nlog).len() == 1 - outcome(config, ok, log, nlog).len(),
        (all_pending(negated(config), matcher, actual).len() > 0) == !(all_pending(
            config,
            matcher,
            actual,
        ).len() > 0),
        (any_pending(negated(config), matcher, actual).len() > 0) == !(any_pending(
            config,
            matcher,
            actual,
        ).len() > 0),
        config.negation ==> eq_each_pending(config, values, expected) == seq![eq_each_negated_log()],
        config.negation ==> each_pending(config, actual, matchers) == seq![each_negated_log()],
{
    let failing = |i: int| !matcher.accepts(actual[i]);
    let msg = |i: int| at_position(matcher.failure_text(actual[i]), i as nat);
    lemma_one_failure_per_position(actual.len(), failing, msg);
    let plain = InstanceConfig { negation: false, ..config };
    let neg = InstanceConfig { negation: true, ..config };
    assert(all_pending(plain, matcher, actual) == failures_upto(actual.len(), failing, msg));
    if all_accepted(matcher, actual) {
        assert forall|i: int| 0 <= i < actual.len() implies !#[trigger] failing(i) by {
            assert(matcher.accepts(actual[i]));
        }
    } else {
        let k = choose|k: int| 0 <= k < actual.len() && !matcher.accepts(actual[k]);
        assert(failing(k));
    }
    assert(all_pending(plain, matcher, actual).len() > 0 <==> all_pending(neg, matcher, actual).len() == 0);
}

/// `has_len(n)` on `n` elements records nothing; on `m != n` elements it
/// records one failure that shows both lengths.
pub proof fn lemma_has_len_law(config: InstanceConfig, n: nat, m: nat)
    requires
        !config.negation,
    ensures
        outcome(config, n == n, len_log(false, n, n), len_log(true, n, n)) == Seq::<
            Seq<char>,
        >::empty(),
        m != n ==> outcome(config, m == n, len_log(false, m, n), len_log(true, m, n)) == seq![
            len_log(false, m, n),
        ],
{
}

/// `contains(x)` records nothing exactly when some element equals `x`;
/// negated, exactly when none does.
pub proof fn lemma_contains_law<A: PartialEq>(
    config: InstanceConfig,
    actual: Seq<A>,
    x: A,
    log: Seq<char>,
    nlog: Seq<char>,
)
    ensures
        !config.negation ==> (outcome(config, contains_spec(actual, x), log, nlog).len() == 0
            <==> contains_spec(actual, x)),
        config.negation ==> (outcome(config, contains_spec(actual, x), log, nlog).len() == 0
            <==> !contains_spec(actual, x)),
{
}

/// `eq_each` on sequences of equal length records nothing exactly when they
/// are equal position by position; on different lengths it records the one
/// length failure and nothing per position.
pub proof fn lemma_eq_each_law<A: PartialEq, E: Expected<A>>(
    config: InstanceConfig,
    actual: Seq<A>,
    expected: Seq<E>,
)
    requires
        !config.negation,
    ensures
        actual.len() == expected.len() ==> (eq_each_pending(config, actual, expected).len() == 0
            <==> forall|i: int|
            0 <= i < actual.len() ==> #[trigger] expected[i].target().eq_spec(&actual[i])),
        actual.len() != expected.len() ==> eq_each_pending(config, actual, expected) == seq![
            expectation_len_log(),
        ],
{
    let failing = |i: int| !expected[i].target().eq_spec(&actual[i]);
    let msg = |i: int| crate::messages::position_log(i as nat);
    lemma_one_failure_per_position(actual.len(), failing, msg);
    assert(mismatch_logs(actual, expected) == failures_upto(actual.len(), failing, msg));
    if actual.len() == expected.len() {
        if failures_upto(actual.len(), failing, msg).len() == 0 {
            assert forall|i: int| 0 <= i < actual.len() implies #[trigger] expected[i].target().eq_spec(
                &actual[i],
            ) by {
                assert(!failing(i));
            }
        } else {
            if forall|i: int| 0 <= i < actual.len() ==> #[trigger] expected[i].target().eq_spec(&actual[i]) {
                assert forall|i: int| 0 <= i < actual.len() implies !#[trigger] failing(i) by {
                    assert(expected[i].target().eq_spec(&actual[i]));
                }
            }
        }
    }
}

/// `each` with one matcher per element records one failure per position
/// whose matcher rejects its element, in order, each tagged with that
/// position; with another number of matchers it records the one count failure.
pub proof fn lemma_each_law<A, M: Matcher<A>>(
    config: InstanceConfig,
    actual: Seq<A>,
    matchers: Seq<M>,
)
    requires
        !config.negation,
    ensures
        actual.len() == matchers.len() ==> {
            let failing = |i: int| !matchers[i].accepts(actual[i]);
            &&& each_pending(config, actual, matchers) == failing_positions(
                actual.len(),
                failing,
            ).map_values(|i: int| at_position(matchers[i].failure_text(actual[i]), i as nat))
            &&& forall|i: int|
                failing_positions(actual.len(), failing).contains(i) <==> (0 <= i < actual.len()
                    && !#[trigger] matchers[i].accepts(actual[i]))
        },
        actual.len() != matchers.len() ==> each_pending(config, actual, matchers) == seq![
            matchers_len_log(),
        ],
{
    let failing = |i: int| !matchers[i].accepts(actual[i]);
    let msg = |i: int| at_position(matchers[i].failure_text(actual[i]), i as nat);
    lemma_one_failure_per_position(actual.len(), failing, msg);
    assert(rejected_logs(actual, matchers) == failures_upto(actual.len(), failing, msg));
    assert forall|i: int|
        failing_positions(actual.len(), failing).contains(i) <==> (0 <= i < actual.len()
            && !#[trigger] matchers[i].accepts(actual[i])) by {
        if 0 <= i < actual.len() {
            assert(failing(i) == !matchers[i].accepts(actual[i]));
        }
        if failing_positions(actual.len(), failing).contains(i) {
            assert(0 <= i < actual.len() && failing(i));
        }
    }
}

/// `all` on an empty sequence records nothing; negated, it records the one
/// failure saying that the matcher held for every item.
pub proof fn lemma_all_on_empty<A, M: Matcher<A>>(config: InstanceConfig, matcher: M)
    ensures
        !config.negation ==> all_pending(config, matcher, Seq::<A>::empty()) == Seq::<
            Seq<char>,
        >::empty(),
        config.negation ==> all_pending(config, matcher, Seq::<A>::empty()) == seq![
            all_negated_log(),
        ],
{
}

/// `any` on an empty sequence records the one failure that no item matched;
/// negated, it records nothing.
pub proof fn lemma_any_on_empty<A, M: Matcher<A>>(config: InstanceConfig, matcher: M)
    ensures
        !config.negation ==> any_pending(config, matcher, Seq::<A>::empty()) == seq![any_log()],
        config.negation ==> any_pending(config, matcher, Seq::<A>::empty()) == Seq::<
            Seq<char>,
        >::empty(),
{
    assert(first_accepted(matcher, Seq::<A>::empty()) is None);
}

/// A session that ends with nothing recorded, such as one already finished,
/// raises no fault, whether or not the thread is unwinding.
pub proof fn lemma_empty_scope_is_silent(unwinding: bool)
    ensures
        !raises_sentinel(Seq::<Seq<char>>::empty(), unwinding),
{
}

} // verus!
