//! Three-way comparisons of strings, paths and optional values, as std orders them.
use vstd::prelude::*;

use crate::strings::chars_of;

verus! {

/// A three-way comparison (`-1`, `0`, `1`) that is a total order.
pub open spec fn is_total_order<A>(c: spec_fn(A, A) -> int) -> bool {
    &&& forall|x: A, y: A| -1 <= #[trigger] c(x, y) <= 1
    &&& forall|x: A, y: A| #[trigger] c(x, y) == -c(y, x)
    &&& forall|x: A, y: A| #[trigger] c(x, y) == 0 <==> x == y
    &&& forall|x: A, y: A, z: A|
        #![trigger c(x, y), c(y, z)]
        c(x, y) <= 0 && c(y, z) <= 0 ==> c(x, z) <= 0
}

/// Lexicographic comparison of sequences, elements compared with `c`.
pub open spec fn lex_order<A>(a: Seq<A>, b: Seq<A>, c: spec_fn(A, A) -> int) -> int
    decreases a.len(),
{
    if a.len() == 0 {
        if b.len() == 0 {
            0
        } else {
            -1
        }
    } else if b.len() == 0 {
        1
    } else if c(a[0], b[0]) != 0 {
        c(a[0], b[0])
    } else {
        lex_order(a.drop_first(), b.drop_first(), c)
    }
}

proof fn lemma_lex_basic<A>(a: Seq<A>, b: Seq<A>, c: spec_fn(A, A) -> int)
    requires
        is_total_order(c),
    ensures
        -1 <= lex_order(a, b, c) <= 1,
        lex_order(a, b, c) == -lex_order(b, a, c),
        lex_order(a, b, c) == 0 <==> a == b,
    decreases a.len(),
{
    if a.len() > 0 && b.len() > 0 {
        lemma_lex_basic(a.drop_first(), b.drop_first(), c);
        assert(c(a[0], b[0]) == -c(b[0], a[0]));
        if lex_order(a, b, c) == 0 {
            assert(c(a[0], b[0]) == 0);
            assert(a =~= seq![a[0]] + a.drop_first());
            assert(b =~= seq![b[0]] + b.drop_first());
        }
        if a == b {
            assert(c(a[0], b[0]) == 0);
        }
    } else if a.len() == 0 && b.len() == 0 {
        assert(a =~= b);
    } else if a.len() == 0 && b.len() > 0 {
        assert(a != b);
    } else if a.len() > 0 && b.len() == 0 {
        assert(a != b);
    }
}

proof fn lemma_lex_trans<A>(a: Seq<A>, b: Seq<A>, d: Seq<A>, c: spec_fn(A, A) -> int)
    requires
        is_total_order(c),
        lex_order(a, b, c) <= 0,
        lex_order(b, d, c) <= 0,
    ensures
        lex_order(a, d, c) <= 0,
    decreases a.len(),
{
    if a.len() == 0 {
    } else if b.len() == 0 {
    } else if d.len() == 0 {
    } else {
        let x = c(a[0], b[0]);
        let y = c(b[0], d[0]);
        assert(x <= 0 && y <= 0);
        assert(c(a[0], d[0]) <= 0);
        if x == 0 && y == 0 {
            assert(a[0] == b[0] && b[0] == d[0]);
            lemma_lex_trans(a.drop_first(), b.drop_first(), d.drop_first(), c);
        } else if x == 0 {
            assert(a[0] == b[0]);
        } else if y == 0 {
            assert(b[0] == d[0]);
        } else {
            if c(a[0], d[0]) == 0 {
                assert(a[0] == d[0]);
                assert(c(b[0], a[0]) == -x);
            }
        }
    }
}

/// Lexicographic comparison inherits a total order from its elements.
pub proof fn lemma_lex_total<A>(c: spec_fn(A, A) -> int)
    requires
        is_total_order(c),
    ensures
        is_total_order(|a: Seq<A>, b: Seq<A>| lex_order(a, b, c)),
{
    let l = |a: Seq<A>, b: Seq<A>| lex_order(a, b, c);
    assert forall|x: Seq<A>, y: Seq<A>| -1 <= #[trigger] l(x, y) <= 1 && l(x, y) == -l(y, x) && (
    l(x, y) == 0 <==> x == y) by {
        lemma_lex_basic(x, y, c);
    }
    assert forall|x: Seq<A>, y: Seq<A>, z: Seq<A>|
        #![trigger l(x, y), l(y, z)]
        l(x, y) <= 0 && l(y, z) <= 0 implies l(x, z) <= 0 by {
        lemma_lex_trans(x, y, z, c);
    }
}

/// Characters ordered by code point (the order of their UTF-8 bytes).
pub open spec fn char_order(x: char, y: char) -> int {
    if x < y {
        -1
    } else if x == y {
        0
    } else {
        1
    }
}

pub proof fn lemma_char_total()
    ensures
        is_total_order(char_order_fn()),
{
}

pub open spec fn char_order_fn() -> spec_fn(char, char) -> int {
    |x: char, y: char| char_order(x, y)
}

pub open spec fn part_order_fn() -> spec_fn(PathPart, PathPart) -> int {
    |x: PathPart, y: PathPart| part_order(x, y)
}

/// Strings ordered as `str`'s `Ord` orders them.
pub open spec fn str_order(a: Seq<char>, b: Seq<char>) -> int {
    lex_order(a, b, char_order_fn())
}

pub proof fn lemma_str_total()
    ensures
        is_total_order(|a: Seq<char>, b: Seq<char>| str_order(a, b)),
{
    lemma_char_total();
    lemma_lex_total(char_order_fn());
    let l = |a: Seq<char>, b: Seq<char>| lex_order(a, b, char_order_fn());
    let s = |a: Seq<char>, b: Seq<char>| str_order(a, b);
    assert forall|a: Seq<char>, b: Seq<char>| #[trigger] s(a, b) == l(a, b) by {}
}

/// `None` before every `Some`; two `Some` by `c`.
pub open spec fn opt_order<A>(a: Option<A>, b: Option<A>, c: spec_fn(A, A) -> int) -> int {
    match (a, b) {
        (None, None) => 0,
        (None, Some(_)) => -1,
        (Some(_), None) => 1,
        (Some(x), Some(y)) => c(x, y),
    }
}

pub proof fn lemma_opt_total<A>(c: spec_fn(A, A) -> int)
    requires
        is_total_order(c),
    ensures
        is_total_order(|a: Option<A>, b: Option<A>| opt_order(a, b, c)),
{
    let o = |a: Option<A>, b: Option<A>| opt_order(a, b, c);
    assert forall|x: Option<A>, y: Option<A>|
        -1 <= #[trigger] o(x, y) <= 1 && o(x, y) == -o(y, x) && (o(x, y) == 0 <==> x == y) by {
        if x is Some && y is Some {
            assert(c(x->0, y->0) == -c(y->0, x->0));
        }
    }
    assert forall|x: Option<A>, y: Option<A>, z: Option<A>|
        #![trigger o(x, y), o(y, z)]
        o(x, y) <= 0 && o(y, z) <= 0 implies o(x, z) <= 0 by {
        if x is Some && y is Some && z is Some {
            assert(c(x->0, y->0) <= 0 && c(y->0, z->0) <= 0);
        }
    }
}

/// A component of a path, as `std::path::Component` gives them on Unix.
pub enum PathPart {
    RootDir,
    CurDir,
    ParentDir,
    Normal(Seq<char>),
}

pub open spec fn part_rank(p: PathPart) -> int {
    match p {
        PathPart::RootDir => 0,
        PathPart::CurDir => 1,
        PathPart::ParentDir => 2,
        PathPart::Normal(_) => 3,
    }
}

/// Components compared by kind (root, `.`, `..`, name), names as strings.
pub open spec fn part_order(x: PathPart, y: PathPart) -> int {
    if part_rank(x) < part_rank(y) {
        -1
    } else if part_rank(x) > part_rank(y) {
        1
    } else {
        match (x, y) {
            (PathPart::Normal(a), PathPart::Normal(b)) => str_order(a, b),
            _ => 0,
        }
    }
}

pub proof fn lemma_part_total()
    ensures
        is_total_order(part_order_fn()),
{
    lemma_str_total();
    let p = part_order_fn();
    let s = |a: Seq<char>, b: Seq<char>| str_order(a, b);
    assert forall|x: PathPart, y: PathPart|
        -1 <= #[trigger] p(x, y) <= 1 && p(x, y) == -p(y, x) && (p(x, y) == 0 <==> x == y) by {
        if x is Normal && y is Normal {
            assert(s(x->0, y->0) == -s(y->0, x->0));
            assert(s(x->0, y->0) == 0 <==> x->0 == y->0);
        }
    }
    assert forall|x: PathPart, y: PathPart, z: PathPart|
        #![trigger p(x, y), p(y, z)]
        p(x, y) <= 0 && p(y, z) <= 0 implies p(x, z) <= 0 by {
        if x is Normal && y is Normal && z is Normal {
            assert(s(x->0, y->0) <= 0 && s(y->0, z->0) <= 0);
        }
    }
}

/// The '/'-separated pieces of `s` (empty pieces included).
pub open spec fn pieces(s: Seq<char>) -> Seq<Seq<char>>
    decreases s.len(),
{
    if s.len() == 0 {
        seq![Seq::empty()]
    } else {
        let rest = pieces(s.drop_last());
        if s.last() == '/' {
            rest.push(Seq::empty())
        } else {
            rest.update(rest.len() - 1, rest.last().push(s.last()))
        }
    }
}

/// The component a non-first piece contributes: none for empty pieces and `.`.
pub open spec fn piece_parts(p: Seq<char>) -> Seq<PathPart> {
    if p.len() == 0 || p == seq!['.'] {
        Seq::empty()
    } else if p == seq!['.', '.'] {
        seq![PathPart::ParentDir]
    } else {
        seq![PathPart::Normal(p)]
    }
}

pub open spec fn pieces_parts(ps: Seq<Seq<char>>) -> Seq<PathPart>
    decreases ps.len(),
{
    if ps.len() == 0 {
        Seq::empty()
    } else {
        pieces_parts(ps.drop_last()) + piece_parts(ps.last())
    }
}

/// The components of a Unix path, as `Path::components` yields them: a root for a
/// leading `/`, a leading `.` kept only at the start of a relative path, other `.`
/// and empty pieces dropped.
pub open spec fn components(s: Seq<char>) -> Seq<PathPart> {
    let ps = pieces(s);
    if s.len() > 0 && s[0] == '/' {
        seq![PathPart::RootDir] + pieces_parts(ps.drop_first())
    } else if ps[0] == seq!['.'] {
        seq![PathPart::CurDir] + pieces_parts(ps.drop_first())
    } else {
        pieces_parts(ps)
    }
}

/// Paths ordered as `Path`'s `Ord` orders them: component by component.
pub open spec fn path_order(a: Seq<char>, b: Seq<char>) -> int {
    lex_order(components(a), components(b), part_order_fn())
}

/// Exec form of a path component.
pub enum ExecPart {
    RootDir,
    CurDir,
    ParentDir,
    Normal(Vec<char>),
}

pub open spec fn exec_part_view(p: ExecPart) -> PathPart {
    match p {
        ExecPart::RootDir => PathPart::RootDir,
        ExecPart::CurDir => PathPart::CurDir,
        ExecPart::ParentDir => PathPart::ParentDir,
        ExecPart::Normal(v) => PathPart::Normal(v@),
    }
}

pub open spec fn exec_parts_view(v: Seq<ExecPart>) -> Seq<PathPart> {
    v.map_values(|p: ExecPart| exec_part_view(p))
}

/// Three-way comparison of character sequences.
pub fn order_chars(a: &Vec<char>, b: &Vec<char>) -> (r: i8)
    ensures
        r as int == str_order(a@, b@),
{
    assert(a@.skip(0) =~= a@);
    assert(b@.skip(0) =~= b@);
    let mut i: usize = 0;
    while i < a.len() && i < b.len()
        invariant
            i <= a.len(),
            i <= b.len(),
            str_order(a@, b@) == str_order(a@.skip(i as int), b@.skip(i as int)),
        decreases a.len() - i,
    {
        let x = a[i];
        let y = b[i];
        assert(a@.skip(i as int)[0] == x && b@.skip(i as int)[0] == y);
        if x < y {
            return -1;
        }
        if x != y {
            return 1;
        }
        assert(a@.skip(i as int).drop_first() =~= a@.skip(i + 1));
        assert(b@.skip(i as int).drop_first() =~= b@.skip(i + 1));
        i += 1;
    }
    if i < b.len() {
        -1
    } else if i < a.len() {
        1
    } else {
        assert(a@.skip(i as int).len() == 0 && b@.skip(i as int).len() == 0);
        0
    }
}

/// Three-way comparison of strings.
pub fn order_str(a: &str, b: &str) -> (r: i8)
    ensures
        r as int == str_order(a@, b@),
{
    let va = chars_of(a);
    let vb = chars_of(b);
    order_chars(&va, &vb)
}

fn order_part(x: &ExecPart, y: &ExecPart) -> (r: i8)
    ensures
        r as int == part_order(exec_part_view(*x), exec_part_view(*y)),
{
    let rx: u8 = match x {
        ExecPart::RootDir => 0,
        ExecPart::CurDir => 1,
        ExecPart::ParentDir => 2,
        ExecPart::Normal(_) => 3,
    };
    let ry: u8 = match y {
        ExecPart::RootDir => 0,
        ExecPart::CurDir => 1,
        ExecPart::ParentDir => 2,
        ExecPart::Normal(_) => 3,
    };
    if rx < ry {
        -1
    } else if rx > ry {
        1
    } else {
        match (x, y) {
            (ExecPart::Normal(a), ExecPart::Normal(b)) => order_chars(a, b),
            _ => 0,
        }
    }
}

fn order_parts(a: &Vec<ExecPart>, b: &Vec<ExecPart>) -> (r: i8)
    ensures
        r as int == lex_order(exec_parts_view(a@), exec_parts_view(b@), part_order_fn()),
{
    let ghost c = part_order_fn();
    assert(exec_parts_view(a@).skip(0) =~= exec_parts_view(a@));
    assert(exec_parts_view(b@).skip(0) =~= exec_parts_view(b@));
    let mut i: usize = 0;
    while i < a.len() && i < b.len()
        invariant
            i <= a.len(),
            i <= b.len(),
            c == part_order_fn(),
            lex_order(exec_parts_view(a@), exec_parts_view(b@), c) == lex_order(
                exec_parts_view(a@).skip(i as int),
                exec_parts_view(b@).skip(i as int),
                c,
            ),
        decreases a.len() - i,
    {
        let r = order_part(&a[i], &b[i]);
        let ghost sa = exec_parts_view(a@).skip(i as int);
        let ghost sb = exec_parts_view(b@).skip(i as int);
        assert(sa[0] == exec_part_view(a@[i as int]) && sb[0] == exec_part_view(b@[i as int]));
        if r != 0 {
            return r;
        }
        assert(sa.drop_first() =~= exec_parts_view(a@).skip(i + 1));
        assert(sb.drop_first() =~= exec_parts_view(b@).skip(i + 1));
        i += 1;
    }
    if i < b.len() {
        -1
    } else if i < a.len() {
        1
    } else {
        assert(exec_parts_view(a@).skip(i as int).len() == 0);
        assert(exec_parts_view(b@).skip(i as int).len() == 0);
        0
    }
}

fn is_dot(p: &Vec<char>) -> (r: bool)
    ensures
        r == (p@ == seq!['.']),
{
    if p.len() == 1 && p[0] == '.' {
        assert(p@ =~= seq!['.']);
        true
    } else {
        false
    }
}

fn is_dot_dot(p: &Vec<char>) -> (r: bool)
    ensures
        r == (p@ == seq!['.', '.']),
{
    if p.len() == 2 && p[0] == '.' && p[1] == '.' {
        assert(p@ =~= seq!['.', '.']);
        true
    } else {
        false
    }
}

proof fn lemma_pieces_nonempty(s: Seq<char>)
    ensures
        pieces(s).len() >= 1,
    decreases s.len(),
{
    if s.len() > 0 {
        lemma_pieces_nonempty(s.drop_last());
    }
}

/// The pieces of `s`, computed left to right.
fn split_pieces(s: &Vec<char>) -> (r: Vec<Vec<char>>)
    ensures
        r@.len() >= 1,
        r@.map_values(|p: Vec<char>| p@) == pieces(s@),
{
    let mut r: Vec<Vec<char>> = Vec::new();
    r.push(Vec::new());
    let mut i: usize = 0;
    while i < s.len()
        invariant
            i <= s.len(),
            r@.len() >= 1,
            r@.map_values(|p: Vec<char>| p@) == pieces(s@.take(i as int)),
        decreases s.len() - i,
    {
        proof {
            assert(s@.take(i + 1).drop_last() =~= s@.take(i as int));
            lemma_pieces_nonempty(s@.take(i as int));
        }
        let c = s[i];
        if c == '/' {
            r.push(Vec::new());
            assert(r@.map_values(|p: Vec<char>| p@) =~= pieces(s@.take(i + 1)));
        } else {
            let last = r.len() - 1;
            let mut piece = r.pop().unwrap();
            piece.push(c);
            r.push(piece);
            assert(r@.map_values(|p: Vec<char>| p@) =~= pieces(s@.take(i + 1)));
        }
        i += 1;
    }
    assert(s@.take(s.len() as int) =~= s@);
    r
}

fn copy_chars(p: &Vec<char>) -> (q: Vec<char>)
    ensures
        q@ == p@,
{
    let mut q: Vec<char> = Vec::new();
    let mut j: usize = 0;
    while j < p.len()
        invariant
            j <= p.len(),
            q@ == p@.take(j as int),
        decreases p.len() - j,
    {
        q.push(p[j]);
        assert(p@.take(j + 1) =~= p@.take(j as int).push(p@[j as int]));
        j += 1;
    }
    assert(p@.take(p.len() as int) =~= p@);
    q
}

/// The components of the path `s`, as `Path::components` yields them.
pub fn path_components(s: &str) -> (r: Vec<ExecPart>)
    ensures
        exec_parts_view(r@) == components(s@),
{
    let v = chars_of(s);
    let ps = split_pieces(&v);
    let ghost pv = ps@.map_values(|p: Vec<char>| p@);
    let mut r: Vec<ExecPart> = Vec::new();
    let rooted = v.len() > 0 && v[0] == '/';
    let start: usize;
    if rooted {
        r.push(ExecPart::RootDir);
        start = 1;
    } else if is_dot(&ps[0]) {
        r.push(ExecPart::CurDir);
        start = 1;
    } else {
        start = 0;
    }
    let ghost head = exec_parts_view(r@);
    let mut i: usize = start;
    while i < ps.len()
        invariant
            start <= i <= ps.len(),
            pv == ps@.map_values(|p: Vec<char>| p@),
            exec_parts_view(r@) == head + pieces_parts(pv.subrange(start as int, i as int)),
        decreases ps.len() - i,
    {
        let p = &ps[i];
        assert(pv.subrange(start as int, i + 1).drop_last() =~= pv.subrange(
            start as int,
            i as int,
        ));
        assert(pv[i as int] == p@);
        assert(pv.subrange(start as int, i + 1).last() == p@);
        assert(pieces_parts(pv.subrange(start as int, i + 1)) == pieces_parts(
            pv.subrange(start as int, i as int),
        ) + piece_parts(p@));
        let ghost r0 = exec_parts_view(r@);
        if p.len() == 0 || is_dot(p) {
            assert(piece_parts(p@) =~= Seq::<PathPart>::empty());
            assert(exec_parts_view(r@) =~= r0 + piece_parts(p@));
        } else if is_dot_dot(p) {
            assert(piece_parts(p@) == seq![PathPart::ParentDir]);
            r.push(ExecPart::ParentDir);
            assert(exec_parts_view(r@) =~= r0 + piece_parts(p@));
        } else {
            let q = copy_chars(p);
            assert(piece_parts(p@) == seq![PathPart::Normal(p@)]);
            r.push(ExecPart::Normal(q));
            assert(exec_parts_view(r@) =~= r0 + piece_parts(p@));
        }
        assert(exec_parts_view(r@) =~= head + pieces_parts(pv.subrange(start as int, i + 1)));
        i += 1;
    }
    proof {
        if start == 1 {
            assert(pv.subrange(1, pv.len() as int) =~= pv.drop_first());
        } else {
            assert(pv.subrange(0, pv.len() as int) =~= pv);
        }
    }
    r
}

/// Three-way comparison of paths, as `Path`'s `Ord` compares them.
pub fn order_path(a: &str, b: &str) -> (r: i8)
    ensures
        r as int == path_order(a@, b@),
{
    let ca = path_components(a);
    let cb = path_components(b);
    order_parts(&ca, &cb)
}

pub proof fn lemma_path_total()
    ensures
        is_total_order(|a: Seq<PathPart>, b: Seq<PathPart>| lex_order(a, b, part_order_fn())),
{
    lemma_part_total();
    lemma_lex_total(part_order_fn());
}

} // verus!
