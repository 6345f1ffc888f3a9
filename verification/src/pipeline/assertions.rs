//! Assertions: what an evaluated CEL assertion amounts to.
use vstd::prelude::*;

use crate::models::Assertion;
use crate::pipeline::warnings::{append_warning, Warnings};
use crate::strings::{concat, copy_str};

verus! {

/// What evaluating a CEL expression gave: a boolean, or another value (as its debug text).
pub enum CelValue {
    Bool(bool),
    Other(String),
}

/// The error an assertion reports for a non-boolean result.
pub open spec fn not_bool_error(debug_text: Seq<char>) -> Seq<char> {
    "Assertion did not return a bool, got: "@ + debug_text
}

/// The assertion an expression and its evaluation amount to: passed exactly when it
/// evaluated to `true`; the error is empty then and on `false`, else it says why.
pub open spec fn assertion_from(
    expr: Seq<char>,
    outcome: Result<CelValue, String>,
    a: Assertion,
) -> bool {
    &&& a.expr@ == expr
    &&& match outcome {
        Ok(CelValue::Bool(b)) => a.passed == b && a.error@ == Seq::<char>::empty(),
        Ok(CelValue::Other(t)) => !a.passed && a.error@ == not_bool_error(t@),
        Err(e) => !a.passed && a.error@ == e@,
    }
}

/// Turns an expression's evaluation into an assertion outcome.
pub trait AssertionEvaluator {
    /// The expression this evaluator judges.
    spec fn expr(&self) -> Seq<char>;

    /// The expression to evaluate.
    fn expression(&self) -> (r: &str)
        ensures
            r@ == self.expr(),
    ;

    fn evaluate(&self, outcome: Result<CelValue, String>) -> (r: Assertion)
        ensures
            assertion_from(self.expr(), outcome, r),
    ;
}

/// A CEL assertion.
pub struct CelAssertionEvaluator {
    assertion: String,
}

impl CelAssertionEvaluator {
    pub fn new(assertion: &str) -> (r: CelAssertionEvaluator)
        ensures
            r.expr() == assertion@,
    {
        CelAssertionEvaluator { assertion: copy_str(assertion) }
    }
}

impl AssertionEvaluator for CelAssertionEvaluator {
    closed spec fn expr(&self) -> Seq<char> {
        self.assertion@
    }

    fn expression(&self) -> (r: &str) {
        self.assertion.as_str()
    }

    fn evaluate(&self, outcome: Result<CelValue, String>) -> (r: Assertion) {
        let expr = self.assertion.clone();
        match outcome {
            Ok(CelValue::Bool(b)) => Assertion { expr, error: String::new(), passed: b },
            Ok(CelValue::Other(t)) => Assertion {
                expr,
                error: concat("Assertion did not return a bool, got: ", t.as_str()),
                passed: false,
            },
            Err(e) => Assertion { expr, error: e, passed: false },
        }
    }
}

/// The evaluators an assertion may get.
pub enum AnyAssertionEvaluator {
    CelAssertionEvaluator(CelAssertionEvaluator),
}

impl AssertionEvaluator for AnyAssertionEvaluator {
    open spec fn expr(&self) -> Seq<char> {
        match self {
            AnyAssertionEvaluator::CelAssertionEvaluator(c) => c.expr(),
        }
    }

    fn expression(&self) -> (r: &str) {
        match self {
            AnyAssertionEvaluator::CelAssertionEvaluator(c) => c.expression(),
        }
    }

    fn evaluate(&self, outcome: Result<CelValue, String>) -> (r: Assertion) {
        match self {
            AnyAssertionEvaluator::CelAssertionEvaluator(c) => c.evaluate(outcome),
        }
    }
}

/// The evaluator of an assertion: CEL.
pub fn assertion_evaluator_for(assertion: &str) -> (r: AnyAssertionEvaluator)
    ensures
        r.expr() == assertion@,
{
    AnyAssertionEvaluator::CelAssertionEvaluator(CelAssertionEvaluator::new(assertion))
}

/// The warning raised when an expression still reads the obsolete `json` variable.
pub open spec fn json_warning() -> Seq<char> {
    "`json` property is obsolete and no longer works. Use `body.json()` instead."@
}

/// Raises the obsolete-`json` warning when an expression refers to a variable `json`.
pub fn check_for_warnings(refers_to_json: bool, warnings: &mut Warnings)
    requires
        old(warnings).wf(),
    ensures
        final(warnings).wf(),
        refers_to_json ==> final(warnings).texts() == old(warnings).texts().insert(json_warning()),
        !refers_to_json ==> *final(warnings) == *old(warnings),
{
    if refers_to_json {
        append_warning(
            warnings,
            copy_str("`json` property is obsolete and no longer works. Use `body.json()` instead."),
        );
    }
}

} // verus!
