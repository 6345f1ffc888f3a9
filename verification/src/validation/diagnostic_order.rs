//! The order in which validation reports its diagnostics: by path, context, code, message.
use vstd::prelude::*;

use crate::ordering::{
    components,
    is_total_order,
    lemma_opt_total,
    lemma_path_total,
    lemma_str_total,
    lex_order,
    opt_order,
    order_path,
    order_str,
    part_order_fn,
    PathPart,
    str_order,
};
use crate::validation::validation_diagnostic::{DiagnosticView, ValidationDiagnostic};

verus! {

/// What diagnostics are ordered by: the path's components, the context, the code, the message.
pub type DiagKey = (Option<Seq<PathPart>>, Option<Seq<char>>, Seq<char>, Seq<char>);

pub open spec fn diag_key(d: DiagnosticView) -> DiagKey {
    (
        match d.path {
            Some(p) => Some(components(p)),
            None => None,
        },
        d.context,
        d.code,
        d.message,
    )
}

pub open spec fn parts_order_fn() -> spec_fn(Seq<PathPart>, Seq<PathPart>) -> int {
    |a: Seq<PathPart>, b: Seq<PathPart>| lex_order(a, b, part_order_fn())
}

pub open spec fn str_order_fn() -> spec_fn(Seq<char>, Seq<char>) -> int {
    |a: Seq<char>, b: Seq<char>| str_order(a, b)
}

/// Lexicographic comparison of diagnostic keys (`None` paths and contexts first).
pub open spec fn key_order(a: DiagKey, b: DiagKey) -> int {
    let c1 = opt_order(a.0, b.0, parts_order_fn());
    let c2 = opt_order(a.1, b.1, str_order_fn());
    let c3 = str_order(a.2, b.2);
    if c1 != 0 {
        c1
    } else if c2 != 0 {
        c2
    } else if c3 != 0 {
        c3
    } else {
        str_order(a.3, b.3)
    }
}

pub open spec fn key_order_fn() -> spec_fn(DiagKey, DiagKey) -> int {
    |a: DiagKey, b: DiagKey| key_order(a, b)
}

/// `diag_order(a, b) <= 0`: `a` may come before `b`.
pub open spec fn diag_order(a: DiagnosticView, b: DiagnosticView) -> int {
    key_order(diag_key(a), diag_key(b))
}

pub open spec fn diag_views(s: Seq<ValidationDiagnostic>) -> Seq<DiagnosticView> {
    s.map_values(|d: ValidationDiagnostic| d@)
}

/// Every diagnostic may come before every later one.
pub open spec fn is_sorted(s: Seq<DiagnosticView>) -> bool {
    forall|i: int, j: int| 0 <= i < j < s.len() ==> diag_order(s[i], s[j]) <= 0
}

/// Diagnostic keys are totally ordered.
pub proof fn lemma_key_total()
    ensures
        is_total_order(key_order_fn()),
{
    lemma_path_total();
    lemma_str_total();
    lemma_opt_total(parts_order_fn());
    lemma_opt_total(str_order_fn());
    let o1 = |a: Option<Seq<PathPart>>, b: Option<Seq<PathPart>>| opt_order(a, b, parts_order_fn());
    let o2 = |a: Option<Seq<char>>, b: Option<Seq<char>>| opt_order(a, b, str_order_fn());
    let s = str_order_fn();
    let k = key_order_fn();
    assert forall|x: DiagKey, y: DiagKey|
        -1 <= #[trigger] k(x, y) <= 1 && k(x, y) == -k(y, x) && (k(x, y) == 0 <==> x == y) by {
        assert(o1(x.0, y.0) == -o1(y.0, x.0));
        assert(o2(x.1, y.1) == -o2(y.1, x.1));
        assert(s(x.2, y.2) == -s(y.2, x.2));
        assert(s(x.3, y.3) == -s(y.3, x.3));
        assert(o1(x.0, y.0) == 0 <==> x.0 == y.0);
        assert(o2(x.1, y.1) == 0 <==> x.1 == y.1);
        assert(s(x.2, y.2) == 0 <==> x.2 == y.2);
        assert(s(x.3, y.3) == 0 <==> x.3 == y.3);
        assert(-1 <= o1(x.0, y.0) <= 1 && -1 <= o2(x.1, y.1) <= 1);
        assert(-1 <= s(x.2, y.2) <= 1 && -1 <= s(x.3, y.3) <= 1);
    }
    assert forall|x: DiagKey, y: DiagKey, z: DiagKey|
        #![trigger k(x, y), k(y, z)]
        k(x, y) <= 0 && k(y, z) <= 0 implies k(x, z) <= 0 by {
        assert(o1(x.0, y.0) == 0 <==> x.0 == y.0);
        assert(o1(y.0, z.0) == 0 <==> y.0 == z.0);
        assert(o2(x.1, y.1) == 0 <==> x.1 == y.1);
        assert(o2(y.1, z.1) == 0 <==> y.1 == z.1);
        assert(s(x.2, y.2) == 0 <==> x.2 == y.2);
        assert(s(y.2, z.2) == 0 <==> y.2 == z.2);
        if o1(x.0, y.0) <= 0 && o1(y.0, z.0) <= 0 {
            assert(o1(x.0, z.0) <= 0);
        }
        if o2(x.1, y.1) <= 0 && o2(y.1, z.1) <= 0 {
            assert(o2(x.1, z.1) <= 0);
        }
        if s(x.2, y.2) <= 0 && s(y.2, z.2) <= 0 {
            assert(s(x.2, z.2) <= 0);
        }
        if s(x.3, y.3) <= 0 && s(y.3, z.3) <= 0 {
            assert(s(x.3, z.3) <= 0);
        }
        if o1(x.0, z.0) == 0 {
            assert(x.0 == z.0);
            assert(o1(x.0, y.0) == -o1(y.0, z.0));
        }
        if o1(x.0, y.0) == 0 && o1(y.0, z.0) == 0 {
            if o2(x.1, z.1) == 0 {
                assert(o2(x.1, y.1) == -o2(y.1, z.1));
            }
            if o2(x.1, y.1) == 0 && o2(y.1, z.1) == 0 {
                if s(x.2, z.2) == 0 {
                    assert(s(x.2, y.2) == -s(y.2, z.2));
                }
            }
        }
    }
}

fn order_opt_str(a: &Option<String>, b: &Option<String>) -> (r: i8)
    ensures
        r as int == opt_order(
            crate::models::opt_view(*a),
            crate::models::opt_view(*b),
            str_order_fn(),
        ),
{
    match (a, b) {
        (None, None) => 0,
        (None, Some(_)) => -1,
        (Some(_), None) => 1,
        (Some(x), Some(y)) => order_str(x.as_str(), y.as_str()),
    }
}

fn order_opt_path(a: &Option<String>, b: &Option<String>) -> (r: i8)
    ensures
        r as int == opt_order(diag_key_path(*a), diag_key_path(*b), parts_order_fn()),
{
    match (a, b) {
        (None, None) => 0,
        (None, Some(_)) => -1,
        (Some(_), None) => 1,
        (Some(x), Some(y)) => order_path(x.as_str(), y.as_str()),
    }
}

pub open spec fn diag_key_path(p: Option<String>) -> Option<Seq<PathPart>> {
    match p {
        Some(s) => Some(components(s@)),
        None => None,
    }
}

/// Three-way comparison of two diagnostics by their keys.
pub fn order_diagnostics(a: &ValidationDiagnostic, b: &ValidationDiagnostic) -> (r: i8)
    ensures
        r as int == diag_order(a@, b@),
{
    let c1 = order_opt_path(&a.path, &b.path);
    if c1 != 0 {
        return c1;
    }
    let c2 = order_opt_str(&a.context, &b.context);
    if c2 != 0 {
        return c2;
    }
    let c3 = order_str(a.code, b.code);
    if c3 != 0 {
        return c3;
    }
    order_str(a.message.as_str(), b.message.as_str())
}

/// The diagnostics in order of their keys; diagnostics with equal keys keep their order.
pub fn sort_diagnostics(v: Vec<ValidationDiagnostic>) -> (r: Vec<ValidationDiagnostic>)
    ensures
        is_sorted(diag_views(r@)),
        diag_views(r@).to_multiset() == diag_views(v@).to_multiset(),
{
    proof {
        lemma_key_total();
    }
    let mut input = v;
    let mut r: Vec<ValidationDiagnostic> = Vec::new();
    let ghost orig = diag_views(input@);
    proof {
        broadcast use vstd::seq_lib::group_to_multiset_ensures, vstd::multiset::group_multiset_axioms;

        assert(diag_views(r@) =~= Seq::<DiagnosticView>::empty());
        assert(diag_views(r@).to_multiset() =~= vstd::multiset::Multiset::empty());
        assert(diag_views(r@).to_multiset().add(orig.to_multiset()) =~= orig.to_multiset());
    }
    while input.len() > 0
        invariant
            is_total_order(key_order_fn()),
            is_sorted(diag_views(r@)),
            diag_views(r@).to_multiset().add(diag_views(input@).to_multiset())
                == orig.to_multiset(),
        decreases input.len(),
    {
        let ghost before_in = diag_views(input@);
        let x = input.pop().unwrap();
        proof {
            assert(before_in =~= diag_views(input@).push(x@));
            vstd::seq_lib::to_multiset_build(diag_views(input@), x@);
        }
        let ghost mid_in = diag_views(input@);
        let mut j: usize = 0;
        while j < r.len() && order_diagnostics(&r[j], &x) < 0
            invariant
                j <= r.len(),
                forall|i: int| 0 <= i < j ==> diag_order(r@[i]@, x@) < 0,
            decreases r.len() - j,
        {
            j += 1;
        }
        let ghost before = diag_views(r@);
        r.insert(j, x);
        proof {
            let k = key_order_fn();
            assert(diag_views(r@) =~= before.insert(j as int, x@));
            vstd::seq_lib::to_multiset_insert(before, j as int, x@);
            broadcast use vstd::multiset::group_multiset_axioms;

            assert(diag_views(r@).to_multiset().add(diag_views(input@).to_multiset()) =~= before.to_multiset().add(before_in.to_multiset()));
            let s = diag_views(r@);
            assert forall|a: int, b: int| 0 <= a < b < s.len() implies diag_order(s[a], s[b])
                <= 0 by {
                assert(k(diag_key(s[a]), diag_key(s[b])) == diag_order(s[a], s[b]));
                if b < j {
                    assert(s[a] == before[a] && s[b] == before[b]);
                } else if b == j {
                    assert(s[a] == before[a] && s[b] == x@);
                } else if a == j {
                    assert(s[b] == before[b - 1]);
                    if j < before.len() {
                        assert(diag_order(before[j as int], x@) >= 0);
                        assert(k(diag_key(x@), diag_key(before[j as int])) <= 0);
                        if j < b - 1 {
                            assert(k(diag_key(before[j as int]), diag_key(before[b - 1])) <= 0);
                        }
                    }
                } else if a < j {
                    assert(s[a] == before[a] && s[b] == before[b - 1]);
                } else {
                    assert(s[a] == before[a - 1] && s[b] == before[b - 1]);
                }
            }
        }
    }
    proof {
        broadcast use vstd::seq_lib::group_to_multiset_ensures, vstd::multiset::group_multiset_axioms;

        assert(diag_views(input@) =~= Seq::<DiagnosticView>::empty());
        assert(diag_views(input@).to_multiset() =~= vstd::multiset::Multiset::empty());
    }
    r
}

} // verus!
