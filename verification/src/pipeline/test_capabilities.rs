//! Test capabilities: an HTTP test against a route joined to the base URI.
use vstd::prelude::*;

use crate::models::{opt_view, RunOptions, TestSpec};
use crate::pipeline::runners::{plan_request, request_ok, run_reply, run_result, HttpReply, HttpRequest};
use crate::strings::{concat3, copy_str, starts_with, str_starts_with, trim_end_char, trim_end_char_str, trim_start_char, trim_start_char_str};

verus! {

/// A test's URL: an absolute http(s) route as it is; any other route joined to
/// `base_uri` (one `/` between them) when one is set.
pub open spec fn capability_url(route: Seq<char>, base_uri: Option<Seq<char>>) -> Seq<char> {
    if starts_with(route, "http://"@) || starts_with(route, "https://"@) {
        route
    } else {
        match base_uri {
            Some(b) => trim_end_char(b, '/') + "/"@ + trim_start_char(route, '/'),
            None => route,
        }
    }
}

/// Something that can run a test.
pub trait TestCapability {
    /// The request the test sends, if its verb is supported.
    fn request(&self) -> (r: Option<HttpRequest>);

    /// The test's result from the reply to its request (none when it sent none).
    fn test(&self, reply: Option<HttpReply>) -> (r: crate::models::TestResult)
        ensures
            run_result(reply, r),
    ;
}

/// An HTTP test against a URL.
pub struct HttpTestCapability {
    pub route: String,
    pub options: RunOptions,
    pub test: TestSpec,
}

impl HttpTestCapability {
    pub fn new(route: &str, options: &RunOptions, test: &TestSpec) -> (r: HttpTestCapability)
        ensures
            r.route@ == route@,
            r.options@ == options@,
            r.test@ == test@,
    {
        HttpTestCapability { route: copy_str(route), options: options.duplicate(), test: test.duplicate() }
    }
}

impl TestCapability for HttpTestCapability {
    fn request(&self) -> (r: Option<HttpRequest>)
        ensures
            request_ok(r, self.route@, self.test@),
    {
        plan_request(self.route.as_str(), &self.test)
    }

    fn test(&self, reply: Option<HttpReply>) -> (r: crate::models::TestResult) {
        run_reply(reply)
    }
}

/// The capabilities a test may get.
pub enum TestCapabilityProvider {
    HttpTestCapability(HttpTestCapability),
}

impl TestCapability for TestCapabilityProvider {
    fn request(&self) -> (r: Option<HttpRequest>)
        ensures
            match self {
                TestCapabilityProvider::HttpTestCapability(h) => request_ok(r, h.route@, h.test@),
            },
    {
        match self {
            TestCapabilityProvider::HttpTestCapability(h) => h.request(),
        }
    }

    fn test(&self, reply: Option<HttpReply>) -> (r: crate::models::TestResult) {
        match self {
            TestCapabilityProvider::HttpTestCapability(h) => h.test(reply),
        }
    }
}

/// The capability of a test: HTTP, against its route joined to the options' base URI.
pub fn get_test_capability(test: &TestSpec, options: &RunOptions) -> (r: TestCapabilityProvider)
    ensures
        match r {
            TestCapabilityProvider::HttpTestCapability(h) => {
                &&& h.route@ == capability_url(test.route@, opt_view(options.base_uri))
                &&& h.options@ == options@
                &&& h.test@ == test@
            },
        },
{
    let absolute = str_starts_with(test.route.as_str(), "http://") || str_starts_with(
        test.route.as_str(),
        "https://",
    );
    let url = match &options.base_uri {
        Some(base) if !absolute => {
            let b = trim_end_char_str(base.as_str(), '/');
            let u = trim_start_char_str(test.route.as_str(), '/');
            concat3(b.as_str(), "/", u.as_str())
        },
        _ => test.route.clone(),
    };
    TestCapabilityProvider::HttpTestCapability(HttpTestCapability::new(url.as_str(), options, test))
}

} // verus!
