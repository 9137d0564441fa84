//! An instance: one value under test, its settings, and the session that
//! collects its failures.
use crate::assertion::{outcome, settles, Assertion, InstanceConfig};
use crate::matcher::Matcher;
use crate::messages::{eq_log, eq_message};
use crate::text::debug_text;
use std::fmt::Debug;
use vstd::std_specs::cmp::PartialEqSpec;
use vstd::prelude::*;

verus! {

/// A value under test. Each assertion consumes the instance; the session
/// `ctx` receives its failures.
pub struct Instance<'a, A> {
    pub ctx: &'a mut Assertion,
    pub actual: A,
    pub config: InstanceConfig,
}

impl<'a, A> Instance<'a, A> {
    /// Negates the assertion that follows: it fails where it would have held
    /// and holds where it would have failed. Calling it again toggles back.
    pub fn not(self) -> (r: Self)
        ensures
            *r.ctx == *old(self.ctx),
            *final(self.ctx) == *final(r.ctx),
            r.actual == self.actual,
            r.config == (InstanceConfig { negation: !self.config.negation, ..self.config }),
    {
        let mut config = self.config;
        config.negation = !config.negation;
        Instance { ctx: self.ctx, actual: self.actual, config }
    }

    /// A failure of the assertion that follows comes back to the caller at
    /// once (as `Err`) instead of being deferred to the end of the session.
    /// It is then not recorded: a caller that drops the `Err` loses it, so
    /// the caller raises it (as `panic!` would in a test).
    pub fn or_panic(self) -> (r: Self)
        ensures
            *r.ctx == *old(self.ctx),
            *final(self.ctx) == *final(r.ctx),
            r.actual == self.actual,
            r.config == (InstanceConfig { panic_immediately: true, ..self.config }),
    {
        let mut config = self.config;
        config.panic_immediately = true;
        Instance { ctx: self.ctx, actual: self.actual, config }
    }

    /// The traces of the failures that follow keep every frame outside the library.
    pub fn with_backtrace(self) -> (r: Self)
        ensures
            *r.ctx == *old(self.ctx),
            *final(self.ctx) == *final(r.ctx),
            r.actual == self.actual,
            r.config == (InstanceConfig { backtrace: true, ..self.config }),
    {
        let mut config = self.config;
        config.backtrace = true;
        Instance { ctx: self.ctx, actual: self.actual, config }
    }
}

/// What an expected value stands for: the value itself, a reference to it,
/// or a box that holds it.
pub trait Expected<A> {
    spec fn target(&self) -> A;

    fn target_ref(&self) -> (r: &A)
        ensures
            *r == self.target(),
    ;
}

impl<A> Expected<A> for A {
    open spec fn target(&self) -> A {
        *self
    }

    fn target_ref(&self) -> (r: &A) {
        self
    }
}

impl<'x, A> Expected<A> for &'x A {
    open spec fn target(&self) -> A {
        **self
    }

    fn target_ref(&self) -> (r: &A) {
        *self
    }
}

impl<A> Expected<A> for Box<A> {
    open spec fn target(&self) -> A {
        **self
    }

    fn target_ref(&self) -> (r: &A) {
        &**self
    }
}

impl<'a, A: Debug + PartialEq> Instance<'a, A> {
    /// Asserts that the value equals `expected`. The message shows both,
    /// rendered for diagnostics.
    pub fn is_eq<E: Expected<A> + Debug>(self, expected: E) -> (r: Result<(), String>)
        ensures
            exists|ok: bool, at: Seq<char>, et: Seq<char>|
                {
                    &&& A::obeys_eq_spec() ==> ok == self.actual.eq_spec(&expected.target())
                    &&& settles(
                        self.config,
                        old(self.ctx)@,
                        final(self.ctx)@,
                        outcome(
                            self.config,
                            ok,
                            eq_log(false, at, et),
                            eq_log(true, at, et),
                        ),
                        r,
                    )
                },
    {
        let ok = self.actual.eq(expected.target_ref());
        let at = debug_text(&self.actual);
        let et = debug_text(&expected);
        let log = eq_message(false, at.as_str(), et.as_str());
        let nlog = eq_message(true, at.as_str(), et.as_str());
        self.ctx.handle_execution(self.config, ok, log, nlog)
    }
}

impl<'a, A> Instance<'a, A> {
    /// Asserts that `matcher` accepts the value, with the matcher's own descriptions.
    pub fn do_match<M: Matcher<A>>(self, matcher: M) -> (r: Result<(), String>)
        requires
            matcher.ready(),
        ensures
            settles(
                self.config,
                old(self.ctx)@,
                final(self.ctx)@,
                outcome(
                    self.config,
                    matcher.accepts(self.actual),
                    matcher.failure_text(self.actual),
                    matcher.negated_failure_text(self.actual),
                ),
                r,
            ),
    {
        let ok = matcher.test(&self.actual);
        if ok == self.config.negation {
            if self.config.negation {
                self.ctx.fail(self.config, matcher.describe_negated_failure(&self.actual))
            } else {
                self.ctx.fail(self.config, matcher.describe_failure(&self.actual))
            }
        } else {
            assert(old(self.ctx)@ + seq![] =~= old(self.ctx)@);
            Ok(())
        }
    }
}

} // verus!
