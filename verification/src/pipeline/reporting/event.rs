//! What a reporter is told about, and which template of a report renders it.
use vstd::prelude::*;

use crate::models::{opt_view, Assertion, Descriptor, ReportTemplate, TestResult};

verus! {

/// Something to report.
pub enum ReportEvent<'a> {
    /// The run starts with `test_count` tests.
    Title { test_count: usize },
    /// A descriptor ran (an attempt of it, when retried).
    Descriptor {
        descriptor: &'a Descriptor,
        title_path: &'a [String],
        test_result: Option<&'a TestResult>,
        assertions: &'a [Assertion],
        test_count: usize,
        retry_count: usize,
    },
    /// The run ended with these counts.
    Summary { passed: usize, failed: usize, flaky: usize },
    /// Rendering a report failed with this message.
    Error { msg: &'a str },
    /// Details of a request, in debug mode.
    Debug { msg: &'a str },
}

/// The template of a report that renders an event: a descriptor with a test by the
/// test template, one without by the section template.
pub open spec fn event_template(e: ReportEvent, t: ReportTemplate) -> Option<Seq<char>> {
    match e {
        ReportEvent::Title { .. } => opt_view(t.title_template),
        ReportEvent::Descriptor { descriptor, .. } => if descriptor.test is Some {
            opt_view(t.test_template)
        } else {
            opt_view(t.section_template)
        },
        ReportEvent::Summary { .. } => opt_view(t.summary_template),
        ReportEvent::Error { .. } => opt_view(t.error_template),
        ReportEvent::Debug { .. } => opt_view(t.debug_template),
    }
}

fn as_str_opt<'t>(o: &'t Option<String>) -> (r: Option<&'t str>)
    ensures
        r is Some == o is Some,
        r is Some ==> r->0@ == o->0@,
{
    match o {
        Some(s) => Some(s.as_str()),
        None => None,
    }
}

pub open spec fn opt_str_view(o: Option<&str>) -> Option<Seq<char>> {
    match o {
        Some(s) => Some(s@),
        None => None,
    }
}

impl<'a> ReportEvent<'a> {
    /// The template of `template` that renders this event, if the report has one.
    pub fn template<'t>(&self, template: &'t ReportTemplate) -> (r: Option<&'t str>)
        ensures
            opt_str_view(r) == event_template(*self, *template),
    {
        match self {
            ReportEvent::Title { .. } => as_str_opt(&template.title_template),
            ReportEvent::Descriptor { descriptor, .. } => {
                if descriptor.test.is_some() {
                    as_str_opt(&template.test_template)
                } else {
                    as_str_opt(&template.section_template)
                }
            },
            ReportEvent::Summary { .. } => as_str_opt(&template.summary_template),
            ReportEvent::Error { .. } => as_str_opt(&template.error_template),
            ReportEvent::Debug { .. } => as_str_opt(&template.debug_template),
        }
    }
}

} // verus!
