//! Test runners: where a test's request goes, and what request it makes.
use vstd::prelude::*;

use crate::models::{copy_pairs, opt_view, pair_views, RunOptions, TestResult, TempestStatusCode, TestSpec, TestSpecView};
use crate::strings::{
    ascii_upper,
    concat3,
    copy_str,
    starts_with,
    str_eq,
    str_starts_with,
    trim_end_char,
    trim_end_char_str,
    trim_start,
    trim_start_char,
    trim_start_char_str,
    trim_start_str,
};

verus! {

/// Where a test's request goes: its route with leading white space removed, joined to
/// `base_uri` (one `/` between them) unless the route is an absolute http(s) URL.
pub open spec fn resolve_route(route: Seq<char>, base_uri: Option<Seq<char>>) -> Seq<char> {
    let url = trim_start(route);
    if !starts_with(url, "http://"@) && !starts_with(url, "https://"@) && base_uri is Some {
        trim_end_char(base_uri->0, '/') + "/"@ + trim_start_char(url, '/')
    } else {
        url
    }
}

/// A route that is an absolute http(s) URL (after leading white space) goes as it is,
/// base URI or not; any other route goes as it is without a base URI, and under one it
/// follows the base URI's text with exactly one `/` between them.
pub proof fn absolute_routes_ignore_the_base_uri(route: Seq<char>, base_uri: Option<Seq<char>>)
    ensures
        starts_with(trim_start(route), "http://"@) || starts_with(trim_start(route), "https://"@) ==> resolve_route(
            route,
            base_uri,
        ) == trim_start(route),
        base_uri is None ==> resolve_route(route, base_uri) == trim_start(route),
        !starts_with(trim_start(route), "http://"@) && !starts_with(trim_start(route), "https://"@)
            && base_uri is Some ==> resolve_route(route, base_uri) == trim_end_char(base_uri->0, '/') + "/"@
            + trim_start_char(trim_start(route), '/'),
{
}

/// The URL a test's request goes to under the given options.
pub fn resolved_route(test: &TestSpec, options: &RunOptions) -> (r: String)
    ensures
        r@ == resolve_route(test.route@, opt_view(options.base_uri)),
{
    let url = trim_start_str(test.route.as_str());
    if !str_starts_with(url.as_str(), "http://") && !str_starts_with(url.as_str(), "https://") {
        match &options.base_uri {
            Some(base) => {
                let b = trim_end_char_str(base.as_str(), '/');
                let u = trim_start_char_str(url.as_str(), '/');
                return concat3(b.as_str(), "/", u.as_str());
            },
            None => {},
        }
    }
    url
}

/// What `str::to_uppercase` gives for a string (Unicode upper-casing).
pub uninterp spec fn unicode_upper(s: Seq<char>) -> Seq<char>;

/// Text made of ASCII characters only.
pub open spec fn ascii_text(s: Seq<char>) -> bool {
    forall|i: int| 0 <= i < s.len() ==> (#[trigger] s[i] as u32) < 128
}

/// `str::to_uppercase`: the result is named by `unicode_upper` of the argument. On ASCII
/// text the Unicode upper case of each character is its ASCII upper case (`a`..`z` become
/// `A`..`Z`, every other ASCII character stays), one character for one.
#[verifier::external_body]
fn to_uppercase(s: &str) -> (r: String)
    ensures
        r@ == unicode_upper(s@),
        ascii_text(s@) ==> r@ == ascii_upper(s@),
{
    s.to_uppercase()
}

/// The HTTP methods a test can use.
#[derive(PartialEq, Eq, Structural, Clone, Copy, Debug)]
pub enum HttpVerb {
    Get,
    Post,
    Put,
    Patch,
    Delete,
    Head,
}

/// The method a test's verb names: GET when unset, else the verb upper-cased; none for
/// a verb that is not one of GET, POST, PUT, PATCH, DELETE, HEAD.
pub open spec fn verb_of(verb: Option<Seq<char>>) -> Option<HttpVerb> {
    match verb {
        None => Some(HttpVerb::Get),
        Some(v) => {
            let u = unicode_upper(v);
            if u == "GET"@ {
                Some(HttpVerb::Get)
            } else if u == "POST"@ {
                Some(HttpVerb::Post)
            } else if u == "PUT"@ {
                Some(HttpVerb::Put)
            } else if u == "PATCH"@ {
                Some(HttpVerb::Patch)
            } else if u == "DELETE"@ {
                Some(HttpVerb::Delete)
            } else if u == "HEAD"@ {
                Some(HttpVerb::Head)
            } else {
                None
            }
        },
    }
}

/// Whether a method sends the test's body.
pub open spec fn sends_body(v: HttpVerb) -> bool {
    v == HttpVerb::Post || v == HttpVerb::Put || v == HttpVerb::Patch
}

pub fn http_verb(verb: &Option<String>) -> (r: Option<HttpVerb>)
    ensures
        r == verb_of(opt_view(*verb)),
{
    match verb {
        None => Some(HttpVerb::Get),
        Some(v) => {
            let u = to_uppercase(v.as_str());
            let s = u.as_str();
            if str_eq(s, "GET") {
                Some(HttpVerb::Get)
            } else if str_eq(s, "POST") {
                Some(HttpVerb::Post)
            } else if str_eq(s, "PUT") {
                Some(HttpVerb::Put)
            } else if str_eq(s, "PATCH") {
                Some(HttpVerb::Patch)
            } else if str_eq(s, "DELETE") {
                Some(HttpVerb::Delete)
            } else if str_eq(s, "HEAD") {
                Some(HttpVerb::Head)
            } else {
                None
            }
        },
    }
}

/// A request to send: method, URL, body (for POST, PUT, PATCH: the test's body, empty if
/// none) and the test's headers in order.
pub struct HttpRequest {
    pub verb: HttpVerb,
    pub url: String,
    pub body: Option<String>,
    pub headers: Vec<(String, String)>,
}

/// The request a test makes to `url`: none for an unsupported verb (no request is sent).
pub open spec fn request_ok(r: Option<HttpRequest>, url: Seq<char>, t: TestSpecView) -> bool {
    match verb_of(t.verb) {
        None => r is None,
        Some(v) => r is Some && r->0.verb == v && r->0.url@ == url && pair_views(r->0.headers@)
            == (match t.headers {
            Some(h) => h,
            None => Seq::empty(),
        }) && (if sends_body(v) {
            r->0.body is Some && r->0.body->0@ == (match t.body {
                Some(b) => b,
                None => Seq::empty(),
            })
        } else {
            r->0.body is None
        }),
    }
}

pub fn plan_request(url: &str, test: &TestSpec) -> (r: Option<HttpRequest>)
    ensures
        request_ok(r, url@, test@),
{
    let verb = match http_verb(&test.verb) {
        Some(v) => v,
        None => return None,
    };
    let body = if verb == HttpVerb::Post || verb == HttpVerb::Put || verb == HttpVerb::Patch {
        match &test.body {
            Some(b) => Some(b.clone()),
            None => Some(String::new()),
        }
    } else {
        None
    };
    let headers = match &test.headers {
        Some(h) => copy_pairs(h),
        None => Vec::new(),
    };
    assert(pair_views(headers@) =~= (match test@.headers {
        Some(h) => h,
        None => Seq::empty(),
    }));
    Some(HttpRequest { verb, url: copy_str(url), body, headers })
}

/// What came back for a request: the response, or the transport error.
pub enum HttpReply {
    Response(HttpResponse),
    Failure { message: String, duration_ms: u64 },
}

/// A response: status code and canonical reason, headers in order, the body's bytes,
/// and how long the request took in whole milliseconds.
pub struct HttpResponse {
    pub status: u16,
    pub reason: String,
    pub headers: Vec<(String, String)>,
    pub bytes: Vec<u8>,
    pub duration_ms: u64,
}

/// What `String::from_utf8_lossy` gives for some bytes.
pub uninterp spec fn utf8_lossy(bytes: Seq<u8>) -> Seq<char>;

/// `String::from_utf8_lossy`: the bytes decoded as UTF-8, each invalid sequence replaced
/// by U+FFFD; the result is named by `utf8_lossy` of the bytes.
#[verifier::external_body]
fn from_utf8_lossy(bytes: &Vec<u8>) -> (r: String)
    ensures
        r@ == utf8_lossy(bytes@),
{
    String::from_utf8_lossy(bytes.as_slice()).to_string()
}

/// The result a reply gives: a response's status, reason, headers, bytes and duration,
/// with its bytes decoded (lossily) as the body; a transport failure as status 504
/// carrying the error.
pub open spec fn reply_result(reply: HttpReply, r: TestResult) -> bool {
    match reply {
        HttpReply::Response(resp) => {
            &&& r.status.code == resp.status
            &&& r.status.message@ == resp.reason@
            &&& pair_views(r.headers@) == pair_views(resp.headers@)
            &&& r.bytes@ == resp.bytes@
            &&& r.body@ == utf8_lossy(resp.bytes@)
            &&& r.duration_ms == resp.duration_ms
        },
        HttpReply::Failure { message, duration_ms } => {
            &&& r.status.code == 504
            &&& r.status.message@ == message@
            &&& r.headers@.len() == 0
            &&& r.body@ == Seq::<char>::empty()
            &&& r.bytes@.len() == 0
            &&& r.duration_ms == duration_ms
        },
    }
}

/// The result of a reply.
pub fn response_result(reply: HttpReply) -> (r: TestResult)
    ensures
        reply_result(reply, r),
{
    match reply {
        HttpReply::Response(resp) => {
            let body = from_utf8_lossy(&resp.bytes);
            TestResult {
                status: TempestStatusCode { code: resp.status, message: resp.reason },
                headers: resp.headers,
                body,
                bytes: resp.bytes,
                duration_ms: resp.duration_ms,
            }
        },
        HttpReply::Failure { message, duration_ms } => transport_failure(message, duration_ms),
    }
}

/// A request carries the test's body exactly for POST, PUT and PATCH (empty where the
/// test has none) and its headers always; a test without a verb is sent as GET; and a
/// transport failure is answered as status 504 carrying the failure's message, with no
/// headers and an empty body.
pub proof fn requests_and_failures_follow_the_readme(
    r: Option<HttpRequest>,
    url: Seq<char>,
    t: TestSpecView,
    message: String,
    duration_ms: u64,
    failed: TestResult,
)
    requires
        request_ok(r, url, t),
        reply_result(HttpReply::Failure { message, duration_ms }, failed),
    ensures
        r is Some ==> (r->0.body is Some <==> (r->0.verb == HttpVerb::Post || r->0.verb == HttpVerb::Put
            || r->0.verb == HttpVerb::Patch)),
        r is Some && r->0.body is Some && t.body is None ==> r->0.body->0@.len() == 0,
        r is Some ==> r->0.url@ == url,
        t.verb is None ==> r is Some && r->0.verb == HttpVerb::Get,
        failed.status.code == 504,
        failed.status.message@ == message@,
        failed.body@.len() == 0,
        failed.headers@.len() == 0,
{
}

/// The result of a test whose request was handed out: the reply's result; the empty
/// result when no request was sent (an unsupported verb).
pub open spec fn run_result(reply: Option<HttpReply>, r: TestResult) -> bool {
    match reply {
        Some(x) => reply_result(x, r),
        None => r.status.code == 0 && r.status.message@.len() == 0 && r.headers@.len() == 0
            && r.body@.len() == 0 && r.bytes@.len() == 0 && r.duration_ms == 0,
    }
}

/// A runner of one test.
pub trait TestRunner {
    /// The request this runner sends, if its verb is supported.
    fn request(&self) -> (r: Option<HttpRequest>);

    /// The test's result from the reply to its request (none when it sent none).
    fn run(&self, reply: Option<HttpReply>) -> (r: TestResult)
        ensures
            run_result(reply, r),
    ;
}

/// Runs a test over HTTP against a resolved URL.
pub struct HttpTestRunner {
    pub url: String,
    pub test: TestSpec,
}

impl HttpTestRunner {
    pub fn new(url: &str, test: &TestSpec) -> (r: HttpTestRunner)
        ensures
            r.url@ == url@,
            r.test@ == test@,
    {
        HttpTestRunner { url: copy_str(url), test: test.duplicate() }
    }
}

impl TestRunner for HttpTestRunner {
    fn request(&self) -> (r: Option<HttpRequest>)
        ensures
            request_ok(r, self.url@, self.test@),
    {
        plan_request(self.url.as_str(), &self.test)
    }

    fn run(&self, reply: Option<HttpReply>) -> (r: TestResult) {
        run_reply(reply)
    }
}

/// The result of a run from its reply, the empty result without one.
pub fn run_reply(reply: Option<HttpReply>) -> (r: TestResult)
    ensures
        run_result(reply, r),
{
    match reply {
        Some(x) => response_result(x),
        None => TestResult::default(),
    }
}

/// The runners a test may get.
pub enum AnyTestRunner {
    HttpTestRunner(HttpTestRunner),
}

impl TestRunner for AnyTestRunner {
    fn request(&self) -> (r: Option<HttpRequest>)
        ensures
            match self {
                AnyTestRunner::HttpTestRunner(h) => request_ok(r, h.url@, h.test@),
            },
    {
        match self {
            AnyTestRunner::HttpTestRunner(h) => h.request(),
        }
    }

    fn run(&self, reply: Option<HttpReply>) -> (r: TestResult) {
        match self {
            AnyTestRunner::HttpTestRunner(h) => h.run(reply),
        }
    }
}

/// The runner for a test: HTTP, against the test's resolved route.
pub fn test_runner_for(test: &TestSpec, options: &RunOptions) -> (r: AnyTestRunner)
    ensures
        match r {
            AnyTestRunner::HttpTestRunner(h) => h.url@ == resolve_route(
                test.route@,
                opt_view(options.base_uri),
            ) && h.test@ == test@,
        },
{
    let url = resolved_route(test, options);
    AnyTestRunner::HttpTestRunner(HttpTestRunner::new(url.as_str(), test))
}

/// The result of a request that failed in transport: status 504 carrying the error
/// message, no headers, no body.
pub fn transport_failure(message: String, duration_ms: u64) -> (r: TestResult)
    ensures
        r.status.code == 504,
        r.status.message == message,
        r.headers@.len() == 0,
        r.body@ == Seq::<char>::empty(),
        r.bytes@.len() == 0,
        r.duration_ms == duration_ms,
{
    TestResult {
        status: TempestStatusCode { code: 504, message },
        headers: Vec::new(),
        body: String::new(),
        bytes: Vec::new(),
        duration_ms,
    }
}

} // verus!
