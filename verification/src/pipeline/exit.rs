//! How a run's outcome becomes the process's exit code.
use vstd::prelude::*;

use crate::models::SummaryResult;

verus! {

/// The exit code of a run: 1 when a test failed, or when a warning was raised and
/// warnings count as errors; otherwise 2 when the run was flaky and flaky runs count
/// (strict mode); otherwise 0.
pub open spec fn exit_code_spec(result: SummaryResult, strict: bool, warnings: usize, warn_as_err: bool) -> i32 {
    if result == SummaryResult::Failed || (warn_as_err && warnings > 0) {
        1
    } else if result == SummaryResult::Flaky && strict {
        2
    } else {
        0
    }
}

pub fn exit_code(result: SummaryResult, strict: bool, warnings: usize, warn_as_err: bool) -> (r: i32)
    ensures
        r == exit_code_spec(result, strict, warnings, warn_as_err),
        result == SummaryResult::Failed ==> r == 1,
        warn_as_err && warnings > 0 ==> r == 1,
        result == SummaryResult::Flaky && strict && !(warn_as_err && warnings > 0) ==> r == 2,
        result != SummaryResult::Failed && !(warn_as_err && warnings > 0) && !(result == SummaryResult::Flaky
            && strict) ==> r == 0,
{
    if result == SummaryResult::Failed || (warn_as_err && warnings > 0) {
        1
    } else if result == SummaryResult::Flaky && strict {
        2
    } else {
        0
    }
}

/// The exit codes the README gives, for every outcome: 1 when a test failed or when a
/// warning was raised under `--warn-as-err`; otherwise 2 for a flaky run under
/// `--strict`; otherwise 0.
pub proof fn exit_codes_follow_failures_and_warnings(
    result: SummaryResult,
    strict: bool,
    warnings: usize,
    warn_as_err: bool,
)
    ensures
        result == SummaryResult::Failed ==> exit_code_spec(result, strict, warnings, warn_as_err) == 1,
        warn_as_err && warnings > 0 ==> exit_code_spec(result, strict, warnings, warn_as_err) == 1,
        result == SummaryResult::Flaky && strict && !(warn_as_err && warnings > 0) ==> exit_code_spec(
            result,
            strict,
            warnings,
            warn_as_err,
        ) == 2,
        result != SummaryResult::Failed && !(warn_as_err && warnings > 0) && !(result == SummaryResult::Flaky
            && strict) ==> exit_code_spec(result, strict, warnings, warn_as_err) == 0,
{
}

/// A flaky run succeeds unless strict; warnings as errors win over flakiness.
pub proof fn flaky_exit_codes(strict: bool, warnings: usize, warn_as_err: bool)
    ensures
        !strict && !(warn_as_err && warnings > 0) ==> exit_code_spec(SummaryResult::Flaky, strict, warnings, warn_as_err) == 0,
        strict && !(warn_as_err && warnings > 0) ==> exit_code_spec(SummaryResult::Flaky, strict, warnings, warn_as_err) == 2,
        warn_as_err && warnings > 0 ==> exit_code_spec(SummaryResult::Flaky, strict, warnings, warn_as_err) == 1,
{
}

} // verus!
