//! The result of validating a project.
use vstd::prelude::*;

use crate::ordering::{components, opt_order, str_order};
use crate::validation::diagnostic_order::{diag_order, is_sorted, parts_order_fn, str_order_fn};
use crate::validation::validation_diagnostic::{DiagnosticView, ValidationDiagnostic};

verus! {

pub struct ValidationReport {
    pub diagnostics: Vec<ValidationDiagnostic>,
    pub checked_specs: usize,
}

/// Sorted diagnostics go by path first (a later one never has a smaller path); among
/// those with the same path, by context; then by code; then by message.
pub proof fn sorted_diagnostics_go_by_path_context_code_message(s: Seq<DiagnosticView>, i: int, j: int)
    requires
        is_sorted(s),
        0 <= i < j < s.len(),
    ensures
        opt_order((if s[i].path is Some { Some(components(s[i].path->0)) } else { None }), (if s[j].path is Some { Some(components(s[j].path->0)) } else { None }), parts_order_fn()) <= 0,
        opt_order((if s[i].path is Some { Some(components(s[i].path->0)) } else { None }), (if s[j].path is Some { Some(components(s[j].path->0)) } else { None }), parts_order_fn()) == 0 ==> opt_order(
            s[i].context,
            s[j].context,
            str_order_fn(),
        ) <= 0,
        opt_order((if s[i].path is Some { Some(components(s[i].path->0)) } else { None }), (if s[j].path is Some { Some(components(s[j].path->0)) } else { None }), parts_order_fn()) == 0 && opt_order(
            s[i].context,
            s[j].context,
            str_order_fn(),
        ) == 0 ==> str_order(s[i].code, s[j].code) <= 0,
        opt_order((if s[i].path is Some { Some(components(s[i].path->0)) } else { None }), (if s[j].path is Some { Some(components(s[j].path->0)) } else { None }), parts_order_fn()) == 0 && opt_order(
            s[i].context,
            s[j].context,
            str_order_fn(),
        ) == 0 && str_order(s[i].code, s[j].code) == 0 ==> str_order(s[i].message, s[j].message) <= 0,
{
    assert(diag_order(s[i], s[j]) <= 0);
}

} // verus!
