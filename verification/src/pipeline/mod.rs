//! Running a project: scheduling files, running descriptors, reporting outcomes.
pub mod assertions;
pub mod reporting;
pub mod runners;
pub mod warnings;
pub mod file_runner;
pub mod report_coordinator;
pub mod run_context;
pub mod rendering;
pub mod file_scheduler;
pub mod directory_runner;
pub mod pipeline_runner;
pub mod variables;
pub mod test_capabilities;
pub mod report_capabilities;
pub mod exit;
pub mod file_paths;
