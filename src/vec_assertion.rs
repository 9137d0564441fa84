//! Assertions on an instance over a vector.
use crate::assertion::{outcome, settles};
use crate::instance::{Expected, Instance};
use crate::matcher::{Matcher, SimpleMatcher};
use crate::messages::{contains_log, len_log};
use crate::sequence::{
    all_in, all_pending, any_in, any_pending, contains_in, contains_spec, each_in, each_pending,
    eq_each_in, eq_each_pending, has_len_in, position_failures,
};
use std::fmt::Debug;
use vstd::prelude::*;
use vstd::std_specs::cmp::PartialEqSpec;

verus! {

impl<'a, A: PartialEq + Debug> Instance<'a, Vec<A>> {
    /// Asserts that some element equals `expected`; negated, that none does.
    pub fn contains<E: Expected<A> + Debug>(self, expected: E) -> (r: Result<(), String>)
        ensures
            exists|ok: bool, et: Seq<char>|
                {
                    &&& A::obeys_eq_spec() ==> ok == contains_spec(self.actual@, expected.target())
                    &&& settles(
                        self.config,
                        old(self.ctx)@,
                        final(self.ctx)@,
                        outcome(self.config, ok, contains_log(false, et), contains_log(true, et)),
                        r,
                    )
                },
    {
        contains_in(self.ctx, self.config, self.actual.as_slice(), &expected)
    }
}

impl<'a, A: PartialEq> Instance<'a, Vec<A>> {
    /// Asserts that the vector has the length of `expected` and equals it
    /// position by position. Not negatable: a negated call records that
    /// alone. A length mismatch records one failure; otherwise each differing
    /// position records its own.
    pub fn eq_each<E: Expected<A>>(self, expected: &[E]) -> (r: Result<(), String>)
        ensures
            A::obeys_eq_spec() || self.config.negation || self.actual@.len() != expected@.len()
                ==> settles(
                self.config,
                old(self.ctx)@,
                final(self.ctx)@,
                eq_each_pending(self.config, self.actual@, expected@),
                r,
            ),
            !self.config.negation && self.actual@.len() == expected@.len() ==> exists|
                failing: spec_fn(int) -> bool,
            |
                settles(
                    self.config,
                    old(self.ctx)@,
                    final(self.ctx)@,
                    #[trigger] position_failures(self.actual@.len(), failing),
                    r,
                ),
    {
        eq_each_in(self.ctx, self.config, self.actual.as_slice(), expected)
    }
}

impl<'a, A> Instance<'a, Vec<A>> {
    /// A new instance over the images of the elements under `mapper`, with
    /// the same session and settings.
    pub fn map<E, T: Fn(&A) -> E>(self, mapper: T) -> (r: Instance<'a, Vec<E>>)
        requires
            forall|i: int| 0 <= i < self.actual@.len() ==> call_requires(mapper, (&self.actual@[i],)),
        ensures
            *r.ctx == *old(self.ctx),
            *final(self.ctx) == *final(r.ctx),
            r.config == self.config,
            r.actual@.len() == self.actual@.len(),
            forall|i: int|
                0 <= i < self.actual@.len() ==> call_ensures(
                    mapper,
                    (&self.actual@[i],),
                    #[trigger] r.actual@[i],
                ),
    {
        let mut out: Vec<E> = Vec::new();
        let mut i: usize = 0;
        while i < self.actual.len()
            invariant
                0 <= i <= self.actual@.len(),
                out@.len() == i,
                forall|k: int| 0 <= k < self.actual@.len() ==> call_requires(mapper, (&self.actual@[k],)),
                forall|k: int| 0 <= k < i ==> call_ensures(mapper, (&self.actual@[k],), #[trigger] out@[k]),
            decreases self.actual@.len() - i,
        {
            out.push(mapper(&self.actual[i]));
            i = i + 1;
        }
        Instance { ctx: self.ctx, actual: out, config: self.config }
    }

    /// Asserts that the vector has `expected` elements.
    pub fn has_len(self, expected: usize) -> (r: Result<(), String>)
        ensures
            settles(
                self.config,
                old(self.ctx)@,
                final(self.ctx)@,
                outcome(
                    self.config,
                    self.actual@.len() == expected,
                    len_log(false, self.actual@.len(), expected as nat),
                    len_log(true, self.actual@.len(), expected as nat),
                ),
                r,
            ),
    {
        has_len_in(self.ctx, self.config, self.actual.as_slice(), expected)
    }

    /// Asserts that `matchers[i]` accepts element `i`, for each `i`. Not
    /// negatable. A count mismatch records one failure; otherwise each
    /// rejected element records its own, tagged with its position.
    pub fn each<M: Matcher<A>>(self, matchers: &[M]) -> (r: Result<(), String>)
        requires
            forall|i: int| 0 <= i < matchers@.len() ==> #[trigger] matchers@[i].ready(),
        ensures
            settles(
                self.config,
                old(self.ctx)@,
                final(self.ctx)@,
                each_pending(self.config, self.actual@, matchers@),
                r,
            ),
    {
        each_in(self.ctx, self.config, self.actual.as_slice(), matchers)
    }

    /// Asserts that the matcher accepts every element (one failure per
    /// rejected element); negated, that it rejects some element (one
    /// failure where it accepts them all).
    pub fn all<M: Matcher<A>>(self, matcher: M) -> (r: Result<(), String>)
        requires
            matcher.ready(),
        ensures
            settles(
                self.config,
                old(self.ctx)@,
                final(self.ctx)@,
                all_pending(self.config, matcher, self.actual@),
                r,
            ),
    {
        all_in(self.ctx, self.config, self.actual.as_slice(), &matcher)
    }

    /// Asserts that the matcher accepts some element (one failure where it
    /// accepts none); negated, that it accepts none (one failure naming the
    /// first accepted element).
    pub fn any<M: Matcher<A>>(self, matcher: M) -> (r: Result<(), String>)
        requires
            matcher.ready(),
        ensures
            settles(
                self.config,
                old(self.ctx)@,
                final(self.ctx)@,
                any_pending(self.config, matcher, self.actual@),
                r,
            ),
    {
        any_in(self.ctx, self.config, self.actual.as_slice(), &matcher)
    }
}

impl<'a, A> Instance<'a, Vec<A>> {
    /// `all` with a matcher made of `predicate` and its source text `text`.
    /// The predicate must accept every argument and never allow both results
    /// for one argument.
    pub fn all_satisfy<F: Fn(&A) -> bool>(self, predicate: F, text: &str) -> (r: Result<
        (),
        String,
    >)
        requires
            forall|a: &A| call_requires(predicate, (a,)),
            forall|a: &A|
                #![trigger call_ensures(predicate, (a,), true)]
                !(call_ensures(predicate, (a,), true) && call_ensures(predicate, (a,), false)),
        ensures
            !self.config.negation && !self.config.panic_immediately ==> (final(self.ctx)@ == old(
                self.ctx,
            )@ <==> forall|i: int|
                0 <= i < self.actual@.len() ==> #[trigger] call_ensures(
                    predicate,
                    (&self.actual@[i],),
                    true,
                )),
    {
        let matcher = SimpleMatcher::new(predicate, text);
        let ghost config = self.config;
        let ghost actual = self.actual@;
        let ghost before = old(self.ctx)@;
        let r = self.all(matcher);
        proof {
            let failing = |i: int| !matcher.accepts(actual[i]);
            let msg = |i: int| crate::messages::at_position(matcher.failure_text(actual[i]), i as nat);
            crate::laws::lemma_one_failure_per_position(actual.len(), failing, msg);
            if !config.negation && !config.panic_immediately {
                assert(all_pending(config, matcher, actual) == crate::sequence::failures_upto(
                    actual.len(),
                    failing,
                    msg,
                ));
                let p = all_pending(config, matcher, actual);
                assert(final(self.ctx)@ == before + p);
                if forall|i: int| 0 <= i < actual.len() ==> #[trigger] call_ensures(
                    predicate,
                    (&actual[i],),
                    true,
                ) {
                    assert forall|i: int| 0 <= i < actual.len() implies !#[trigger] failing(i) by {
                        assert(call_ensures(predicate, (&actual[i],), true));
                    }
                    assert(before + p =~= before);
                } else {
                    let k = choose|k: int|
                        0 <= k < actual.len() && !call_ensures(predicate, (&actual[k],), true);
                    assert(failing(k));
                    assert((before + p).len() != before.len());
                }
            }
        }
        r
    }
}

impl<'a> Instance<'a, Vec<u64>> {
    /// Asserts that every element is greater than `bound`, through a matcher
    /// built from a closure. A closure's contract only bounds the results it
    /// may return, so what is stated is that an element not above `bound`
    /// always records a failure.
    pub fn all_greater_than(self, bound: u64) -> (r: Result<(), String>)
        ensures
            !self.config.negation && !self.config.panic_immediately && final(self.ctx)@ == old(
                self.ctx,
            )@ ==> forall|i: int| 0 <= i < self.actual@.len() ==> self.actual@[i] > bound,
    {
        let above = move |x: &u64| -> (b: bool)
            ensures
                b == (*x > bound),
            { *x > bound };
        let ghost actual = self.actual@;
        let r = self.all_satisfy(above, "|x| *x > bound");
        assert forall|i: int|
            #![trigger actual[i]]
            0 <= i < actual.len() && call_ensures(above, (&actual[i],), true) implies actual[i]
            > bound by {}
        r
    }
}

} // verus!
