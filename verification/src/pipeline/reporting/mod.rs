//! Reporting: events, the values their templates see, sinks, and the template reporter.
pub mod event;
pub mod liquid;
pub mod sinks;
pub mod template_reporter;
