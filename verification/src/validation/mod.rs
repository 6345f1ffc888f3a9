//! Static checks of a discovered project before anything runs.
use vstd::prelude::*;

pub mod diagnostic_order;
pub mod rules;
pub mod validation_diagnostic;
pub mod validation_report;

use crate::models::DiscoveryResult;
use crate::templating::LiquidEngine;
use crate::validation::rules::file_count;
use crate::validation::validation_report::ValidationReport;

verus! {

/// Validates a project (see `rules::run`): `cel_errors` holds the compile outcome of each
/// of `rules::cel_sources(project)`.
pub fn validate_project(
    project: &DiscoveryResult,
    liquid: &LiquidEngine,
    cel_errors: &Vec<Option<String>>,
) -> (r: ValidationReport)
    requires
        file_count(project.directory) <= usize::MAX,
    ensures
        rules::validated(*project, cel_errors@, r),
{
    rules::run(project, liquid, cel_errors)
}

} // verus!
