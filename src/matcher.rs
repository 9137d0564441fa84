//! Matchers: named predicates with the descriptions of their failures.
use crate::text::join3;
use vstd::prelude::*;

verus! {

/// A predicate over values of type `A`, with descriptions of its failures.
/// `accepts` is what `test` decides; the descriptions are only computed when
/// a failure is being recorded.
pub trait Matcher<A> {
    /// The matcher can be run on any value and decides the same way each time.
    /// For a `SimpleMatcher`: the predicate accepts every argument, and never
    /// allows both `true` and `false` as its result for one argument.
    spec fn ready(&self) -> bool;

    /// Whether the predicate holds of `a`.
    spec fn accepts(&self, a: A) -> bool;

    /// The message when the predicate was expected to hold and did not.
    spec fn failure_text(&self, a: A) -> Seq<char>;

    /// The message when the predicate was expected to fail and held.
    spec fn negated_failure_text(&self, a: A) -> Seq<char>;

    fn test(&self, a: &A) -> (r: bool)
        requires
            self.ready(),
        ensures
            r == self.accepts(*a),
    ;

    fn describe_failure(&self, a: &A) -> (r: String)
        ensures
            r@ == self.failure_text(*a),
    ;

    fn describe_negated_failure(&self, a: &A) -> (r: String)
        ensures
            r@ == self.negated_failure_text(*a),
    ;
}

/// A matcher made of a predicate and the source text of that predicate,
/// which its descriptions quote.
pub struct SimpleMatcher<F> {
    pub predicate: F,
    pub text: String,
}

impl<F> SimpleMatcher<F> {
    pub fn new(predicate: F, text: &str) -> (r: Self)
        ensures
            r.predicate == predicate,
            r.text@ == text@,
    {
        SimpleMatcher { predicate, text: String::from_str(text) }
    }
}

/// "assertion failed: `(matcher "<text>" failed)`"
pub open spec fn quoted_failure(text: Seq<char>) -> Seq<char> {
    "assertion failed: `(matcher \""@ + text + "\" failed)`"@
}

/// "assertion failed: `(matcher "<text>" succeeded)`"
pub open spec fn quoted_negated_failure(text: Seq<char>) -> Seq<char> {
    "assertion failed: `(matcher \""@ + text + "\" succeeded)`"@
}

impl<A, F: Fn(&A) -> bool> Matcher<A> for SimpleMatcher<F> {
    open spec fn ready(&self) -> bool {
        &&& forall|a: &A| call_requires(self.predicate, (a,))
        &&& forall|a: &A|
            #![trigger call_ensures(self.predicate, (a,), true)]
            !(call_ensures(self.predicate, (a,), true) && call_ensures(self.predicate, (a,), false))
    }

    open spec fn accepts(&self, a: A) -> bool {
        call_ensures(self.predicate, (&a,), true)
    }

    open spec fn failure_text(&self, a: A) -> Seq<char> {
        quoted_failure(self.text@)
    }

    open spec fn negated_failure_text(&self, a: A) -> Seq<char> {
        quoted_negated_failure(self.text@)
    }

    fn test(&self, a: &A) -> (r: bool) {
        (self.predicate)(a)
    }

    fn describe_failure(&self, a: &A) -> (r: String) {
        join3("assertion failed: `(matcher \"", self.text.as_str(), "\" failed)`")
    }

    fn describe_negated_failure(&self, a: &A) -> (r: String) {
        join3("assertion failed: `(matcher \"", self.text.as_str(), "\" succeeded)`")
    }
}

} // verus!
