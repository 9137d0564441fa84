//! Assertions on an instance over a slice.
use crate::assertion::{outcome, settles};
use crate::instance::{Expected, Instance};
use crate::matcher::Matcher;
use crate::messages::{contains_log, len_log};
use crate::sequence::{
    all_in, all_pending, any_in, any_pending, contains_in, contains_spec, each_in, each_pending,
    eq_each_in, eq_each_pending, has_len_in, position_failures,
};
use std::fmt::Debug;
use vstd::prelude::*;
use vstd::std_specs::cmp::PartialEqSpec;

verus! {

impl<'a, 'b, A: PartialEq + Debug> Instance<'a, &'b [A]> {
    /// Asserts that some element equals `expected`; negated, that none does.
    pub fn contains<E: Expected<A> + Debug>(self, expected: E) -> (r: Result<(), String>)
        ensures
            exists|ok: bool, et: Seq<char>|
                {
                    &&& A::obeys_eq_spec() ==> ok == contains_spec(self.actual@, expected.target())
                    &&& settles(
                        self.config,
                        old(self.ctx)@,
                        final(self.ctx)@,
                        outcome(self.config, ok, contains_log(false, et), contains_log(true, et)),
                        r,
                    )
                },
    {
        contains_in(self.ctx, self.config, self.actual, &expected)
    }
}

impl<'a, 'b, A: PartialEq> Instance<'a, &'b [A]> {
    /// Asserts that the slice has the length of `expected` and equals it
    /// position by position. Not negatable: a negated call records that
    /// alone. A length mismatch records one failure; otherwise each differing
    /// position records its own.
    pub fn eq_each<E: Expected<A>>(self, expected: &[E]) -> (r: Result<(), String>)
        ensures
            A::obeys_eq_spec() || self.config.negation || self.actual@.len() != expected@.len()
                ==> settles(
                self.config,
                old(self.ctx)@,
                final(self.ctx)@,
                eq_each_pending(self.config, self.actual@, expected@),
                r,
            ),
            !self.config.negation && self.actual@.len() == expected@.len() ==> exists|
                failing: spec_fn(int) -> bool,
            |
                settles(
                    self.config,
                    old(self.ctx)@,
                    final(self.ctx)@,
                    #[trigger] position_failures(self.actual@.len(), failing),
                    r,
                ),
    {
        eq_each_in(self.ctx, self.config, self.actual, expected)
    }
}

impl<'a, 'b, A> Instance<'a, &'b [A]> {
    /// Asserts that the slice has `expected` elements.
    pub fn has_len(self, expected: usize) -> (r: Result<(), String>)
        ensures
            settles(
                self.config,
                old(self.ctx)@,
                final(self.ctx)@,
                outcome(
                    self.config,
                    self.actual@.len() == expected,
                    len_log(false, self.actual@.len(), expected as nat),
                    len_log(true, self.actual@.len(), expected as nat),
                ),
                r,
            ),
    {
        has_len_in(self.ctx, self.config, self.actual, expected)
    }

    /// Asserts that `matchers[i]` accepts element `i`, for each `i`. Not
    /// negatable. A count mismatch records one failure; otherwise each
    /// rejected element records its own, tagged with its position.
    pub fn each<M: Matcher<A>>(self, matchers: &[M]) -> (r: Result<(), String>)
        requires
            forall|i: int| 0 <= i < matchers@.len() ==> #[trigger] matchers@[i].ready(),
        ensures
            settles(
                self.config,
                old(self.ctx)@,
                final(self.ctx)@,
                each_pending(self.config, self.actual@, matchers@),
                r,
            ),
    {
        each_in(self.ctx, self.config, self.actual, matchers)
    }

    /// Asserts that the matcher accepts every element (one failure per
    /// rejected element); negated, that it rejects some element (one
    /// failure where it accepts them all).
    pub fn all<M: Matcher<A>>(self, matcher: M) -> (r: Result<(), String>)
        requires
            matcher.ready(),
        ensures
            settles(
                self.config,
                old(self.ctx)@,
                final(self.ctx)@,
                all_pending(self.config, matcher, self.actual@),
                r,
            ),
    {
        all_in(self.ctx, self.config, self.actual, &matcher)
    }

    /// Asserts that the matcher accepts some element (one failure where it
    /// accepts none); negated, that it accepts none (one failure naming the
    /// first accepted element).
    pub fn any<M: Matcher<A>>(self, matcher: M) -> (r: Result<(), String>)
        requires
            matcher.ready(),
        ensures
            settles(
                self.config,
                old(self.ctx)@,
                final(self.ctx)@,
                any_pending(self.config, matcher, self.actual@),
                r,
            ),
    {
        any_in(self.ctx, self.config, self.actual, &matcher)
    }
}

} // verus!
