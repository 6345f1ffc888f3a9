//! A simpler description of tests: a group of tests, each with a route, a method and
//! named assertions.
use vstd::prelude::*;

verus! {

/// A group of tests.
pub struct DescribeModel {
    pub tests: Vec<TestModel>,
    pub name: Option<String>,
    pub tags: Option<Vec<String>>,
    pub description: Option<String>,
}

/// One test: a route, its method, and its assertions.
pub struct TestModel {
    pub route: String,
    pub name: Option<String>,
    pub tags: Option<Vec<String>>,
    pub method: Option<HttpMethod>,
    pub description: Option<String>,
    pub assert: Option<Vec<AssertionModel>>,
}

/// The HTTP methods, written in upper case.
#[derive(PartialEq, Eq, Structural, Clone, Copy, Debug)]
pub enum HttpMethod {
    Get,
    Post,
    Put,
    Patch,
    Delete,
    Head,
    Options,
}

/// A named assertion.
pub struct AssertionModel {
    pub name: Option<String>,
    pub expr: String,
}

/// How a method is written.
pub open spec fn method_name(m: HttpMethod) -> Seq<char> {
    match m {
        HttpMethod::Get => "GET"@,
        HttpMethod::Post => "POST"@,
        HttpMethod::Put => "PUT"@,
        HttpMethod::Patch => "PATCH"@,
        HttpMethod::Delete => "DELETE"@,
        HttpMethod::Head => "HEAD"@,
        HttpMethod::Options => "OPTIONS"@,
    }
}

impl HttpMethod {
    /// How the method is written.
    pub fn name(&self) -> (r: &'static str)
        ensures
            r@ == method_name(*self),
    {
        match self {
            HttpMethod::Get => "GET",
            HttpMethod::Post => "POST",
            HttpMethod::Put => "PUT",
            HttpMethod::Patch => "PATCH",
            HttpMethod::Delete => "DELETE",
            HttpMethod::Head => "HEAD",
            HttpMethod::Options => "OPTIONS",
        }
    }

    /// The method a name stands for, if any (exactly as written).
    pub fn parse(name: &str) -> (r: Option<HttpMethod>)
        ensures
            r matches Some(m) ==> method_name(m) == name@,
            r is None ==> forall|m: HttpMethod| method_name(m) != name@,
    {
        let all = [
            HttpMethod::Get,
            HttpMethod::Post,
            HttpMethod::Put,
            HttpMethod::Patch,
            HttpMethod::Delete,
            HttpMethod::Head,
            HttpMethod::Options,
        ];
        let mut i: usize = 0;
        while i < 7
            invariant
                i <= 7,
                all@ == seq![
                    HttpMethod::Get,
                    HttpMethod::Post,
                    HttpMethod::Put,
                    HttpMethod::Patch,
                    HttpMethod::Delete,
                    HttpMethod::Head,
                    HttpMethod::Options,
                ],
                forall|j: int| 0 <= j < i ==> method_name(#[trigger] all@[j]) != name@,
            decreases 7 - i,
        {
            let m = all[i];
            if crate::strings::str_eq(m.name(), name) {
                return Some(m);
            }
            i += 1;
        }
        proof {
            assert forall|m: HttpMethod| method_name(m) != name@ by {
                match m {
                    HttpMethod::Get => assert(method_name(all@[0]) != name@),
                    HttpMethod::Post => assert(method_name(all@[1]) != name@),
                    HttpMethod::Put => assert(method_name(all@[2]) != name@),
                    HttpMethod::Patch => assert(method_name(all@[3]) != name@),
                    HttpMethod::Delete => assert(method_name(all@[4]) != name@),
                    HttpMethod::Head => assert(method_name(all@[5]) != name@),
                    HttpMethod::Options => assert(method_name(all@[6]) != name@),
                }
            }
        }
        None
    }
}

} // verus!
