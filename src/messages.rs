//! The messages of failures, stated as character sequences and built to match.
use crate::text::{decimal, decimal_text, join3};
use vstd::prelude::*;

verus! {

/// `is_eq`: shows the actual and the expected value, as rendered for diagnostics.
pub open spec fn eq_log(negated: bool, at: Seq<char>, et: Seq<char>) -> Seq<char> {
    (if negated {
        "assertion failed: `(actual != expectation)`\n     actual: `"@
    } else {
        "assertion failed: `(actual == expectation)`\n     actual: `"@
    }) + at + "`\nexpectation: `"@ + et + "`"@
}

pub fn eq_message(negated: bool, at: &str, et: &str) -> (r: String)
    ensures
        r@ == eq_log(negated, at@, et@),
{
    let head = if negated {
        "assertion failed: `(actual != expectation)`\n     actual: `"
    } else {
        "assertion failed: `(actual == expectation)`\n     actual: `"
    };
    let mut s = join3(head, at, "`\nexpectation: `");
    s.append(et);
    s.append("`");
    s
}

/// `has_len`: shows the actual length and the expected one.
pub open spec fn len_log(negated: bool, actual: nat, expected: nat) -> Seq<char> {
    (if negated {
        "assertion failed: `(actual.len() != expectation)`\n     actual.len(): `"@
    } else {
        "assertion failed: `(actual.len() == expectation)`\n     actual.len(): `"@
    }) + decimal(actual) + "`\nexpectation: `"@ + decimal(expected) + "`"@
}

pub fn len_message(negated: bool, actual: usize, expected: usize) -> (r: String)
    ensures
        r@ == len_log(negated, actual as nat, expected as nat),
{
    let head = if negated {
        "assertion failed: `(actual.len() != expectation)`\n     actual.len(): `"
    } else {
        "assertion failed: `(actual.len() == expectation)`\n     actual.len(): `"
    };
    let mut s = String::from_str(head);
    s.append(decimal_text(actual).as_str());
    s.append("`\nexpectation: `");
    s.append(decimal_text(expected).as_str());
    s.append("`");
    s
}

/// `contains`: shows the element sought.
pub open spec fn contains_log(negated: bool, et: Seq<char>) -> Seq<char> {
    (if negated {
        "assertion failed: `(expectation \u{2209} actual)`\nexpectation: `"@
    } else {
        "assertion failed: `(expectation \u{2208} actual)`\nexpectation: `"@
    }) + et + "`"@
}

pub fn contains_message(negated: bool, et: &str) -> (r: String)
    ensures
        r@ == contains_log(negated, et@),
{
    let head = if negated {
        "assertion failed: `(expectation \u{2209} actual)`\nexpectation: `"
    } else {
        "assertion failed: `(expectation \u{2208} actual)`\nexpectation: `"
    };
    join3(head, et, "`")
}

/// `eq_each`: the value at position `i` differs from the expected one.
pub open spec fn position_log(i: nat) -> Seq<char> {
    "assertion failed: `(expectation["@ + decimal(i) + "] = actual["@ + decimal(i) + "])`"@
}

pub fn position_message(i: usize) -> (r: String)
    ensures
        r@ == position_log(i as nat),
{
    let d = decimal_text(i);
    let mut s = join3("assertion failed: `(expectation[", d.as_str(), "] = actual[");
    s.append(d.as_str());
    s.append("])`");
    s
}

/// A matcher's own description, tagged with the position of the element.
pub open spec fn at_position(description: Seq<char>, i: nat) -> Seq<char> {
    description + " - at position "@ + decimal(i)
}

pub fn at_position_message(description: String, i: usize) -> (r: String)
    ensures
        r@ == at_position(description@, i as nat),
{
    let mut s = description;
    s.append(" - at position ");
    s.append(decimal_text(i).as_str());
    s
}

/// `any` negated: the first element that the matcher accepts.
pub open spec fn accepted_at_log(i: nat) -> Seq<char> {
    "assertion failed: `(matcher succeed for item position "@ + decimal(i) + ")`"@
}

pub fn accepted_at_message(i: usize) -> (r: String)
    ensures
        r@ == accepted_at_log(i as nat),
{
    join3(
        "assertion failed: `(matcher succeed for item position ",
        decimal_text(i).as_str(),
        ")`",
    )
}

pub open spec fn eq_each_negated_log() -> Seq<char> {
    "eq_each assertion cannot be negated"@
}

pub open spec fn each_negated_log() -> Seq<char> {
    "each assertion cannot be negated"@
}

pub open spec fn expectation_len_log() -> Seq<char> {
    "expectation length is different from input length"@
}

pub open spec fn matchers_len_log() -> Seq<char> {
    "matchers length is different from input length"@
}

pub open spec fn all_negated_log() -> Seq<char> {
    "assertion failed: `(matcher succeed for every item)`"@
}

pub open spec fn any_log() -> Seq<char> {
    "assertion failed: `(matcher failed for every item)`"@
}

/// A message that is a fixed text.
pub fn fixed(text: &str) -> (r: String)
    ensures
        r@ == text@,
{
    String::from_str(text)
}

} // verus!
