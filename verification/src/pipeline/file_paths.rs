//! Where a path given to `fileBytes` points: relative paths from the spec file's
//! directory, `/` paths from the suite root, and no path may leave its root.
use vstd::prelude::*;

use crate::strings::{chars_of, concat, concat3, copy_str, starts_with, str_starts_with, trim_start_char, trim_start_char_str};

verus! {

/// A `..` component: `..` between slashes (or the path's ends) at position `i`.
pub open spec fn parent_at(p: Seq<char>, i: int) -> bool {
    &&& 0 <= i && i + 2 <= p.len()
    &&& p[i] == '.' && p[i + 1] == '.'
    &&& (i == 0 || p[i - 1] == '/')
    &&& (i + 2 == p.len() || p[i + 2] == '/')
}

/// The path has a `..` component, which would leave its root.
pub open spec fn has_parent_component(p: Seq<char>) -> bool {
    exists|i: int| parent_at(p, i)
}

/// The directory a path resolves from: the suite root for a `/` path, else the spec
/// file's directory (the suite root where there is none).
pub open spec fn file_base(suite_dir: Seq<char>, spec_dir: Option<Seq<char>>, path: Seq<char>) -> Seq<char> {
    if starts_with(path, "/"@) {
        suite_dir
    } else {
        match spec_dir {
            Some(d) => d,
            None => suite_dir,
        }
    }
}

/// `rel` under `base`, one `/` between them (`rel` alone under an empty base).
pub open spec fn join_under(base: Seq<char>, rel: Seq<char>) -> Seq<char> {
    if base.len() == 0 {
        rel
    } else if base.last() == '/' {
        base + rel
    } else {
        base + "/"@ + rel
    }
}

fn has_parent_component_exec(p: &str) -> (r: bool)
    ensures
        r == has_parent_component(p@),
{
    let v = chars_of(p);
    let n = v.len();
    let mut i: usize = 0;
    while i < n && n - i >= 2
        invariant
            v@ == p@,
            i <= n,
            n == v@.len(),
            forall|j: int| 0 <= j < i ==> !parent_at(p@, j),
        decreases n - i,
    {
        if v[i] == '.' && v[i + 1] == '.' && (i == 0 || v[i - 1] == '/') && (i + 2 == n || v[i + 2] == '/') {
            assert(parent_at(p@, i as int));
            return true;
        }
        i += 1;
    }
    assert forall|j: int| !parent_at(p@, j) by {
        if 0 <= j && j + 2 <= p@.len() && j >= i {
            assert(false);
        }
    }
    false
}

/// Resolves a `fileBytes` path: `Err` for an empty path or one with a `..` component;
/// otherwise the path, with its leading slashes removed, under the suite root (for a
/// `/` path) or the spec file's directory.
pub fn resolve_file(suite_dir: &str, spec_dir: Option<&str>, path: &str) -> (r: Result<String, String>)
    ensures
        (r is Ok) <==> (path@.len() > 0 && !has_parent_component(trim_start_char(path@, '/'))),
        r is Ok ==> r->Ok_0@ == join_under(
            file_base(
                suite_dir@,
                match spec_dir {
                    Some(d) => Some(d@),
                    None => None,
                },
                path@,
            ),
            trim_start_char(path@, '/'),
        ),
{
    if chars_of(path).len() == 0 {
        return Err(copy_str("fileBytes needs a path"));
    }
    let relative = trim_start_char_str(path, '/');
    if has_parent_component_exec(relative.as_str()) {
        return Err(concat("path escapes its root: ", path));
    }
    let base = if str_starts_with(path, "/") {
        suite_dir
    } else {
        match spec_dir {
            Some(d) => d,
            None => suite_dir,
        }
    };
    proof {
        reveal_strlit("/");
    }
    if chars_of(base).len() == 0 {
        Ok(relative)
    } else if ends_with_slash(base) {
        Ok(concat(base, relative.as_str()))
    } else {
        Ok(concat3(base, "/", relative.as_str()))
    }
}

fn ends_with_slash(s: &str) -> (r: bool)
    requires
        s@.len() > 0,
    ensures
        r == (s@.last() == '/'),
{
    let v = chars_of(s);
    v[v.len() - 1] == '/'
}

} // verus!
