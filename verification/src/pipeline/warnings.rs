//! Warnings raised while a run goes on: each distinct text once, and how many were raised.
use vstd::prelude::*;

use crate::strings::{str_eq, views};

verus! {

/// The warnings of a run.
pub struct Warnings {
    texts: Vec<String>,
    count: usize,
    raised: Ghost<nat>,
}

impl Warnings {
    /// The distinct warning texts raised so far.
    pub closed spec fn texts(&self) -> Set<Seq<char>> {
        views(self.texts@).to_set()
    }

    /// How many warnings were raised (repeats included), modulo the width of `usize`.
    pub closed spec fn count(&self) -> usize {
        self.count
    }

    /// How many warnings were raised, repeats included.
    pub closed spec fn raised(&self) -> nat {
        self.raised@
    }

    pub closed spec fn wf(&self) -> bool {
        &&& views(self.texts@).no_duplicates()
        &&& self.texts@.len() <= self.raised@
        &&& self.raised@ <= usize::MAX ==> self.count == self.raised@
    }

    /// No warning yet.
    pub fn new() -> (r: Warnings)
        ensures
            r.wf(),
            r.texts() == Set::<Seq<char>>::empty(),
            r.count() == 0,
            r.raised() == 0,
    {
        let r = Warnings { texts: Vec::new(), count: 0, raised: Ghost(0) };
        assert(views(r.texts@) =~= Seq::<Seq<char>>::empty());
        r
    }
}

/// Until the count wraps, it is the number of warnings raised, so it is at least the
/// number of distinct texts.
pub proof fn warning_count_covers_texts(w: Warnings)
    requires
        w.wf(),
        w.raised() <= usize::MAX,
    ensures
        w.count() == w.raised(),
        w.texts().len() <= w.count(),
{
    views(w.texts@).unique_seq_to_set();
}

/// Raises a warning; `true` if its text had not been raised before.
pub fn append_warning(warnings: &mut Warnings, value: String) -> (r: bool)
    requires
        old(warnings).wf(),
    ensures
        final(warnings).wf(),
        r == !old(warnings).texts().contains(value@),
        final(warnings).texts() == old(warnings).texts().insert(value@),
        final(warnings).count() == (if old(warnings).count() == usize::MAX {
            0
        } else {
            old(warnings).count() + 1
        }),
        final(warnings).raised() == old(warnings).raised() + 1,
{
    let seen = holds_text(&warnings.texts, value.as_str());
    warnings.count = warnings.count.wrapping_add(1);
    proof {
        warnings.raised@ = warnings.raised@ + 1;
    }
    if seen {
        proof {
            assert(views(warnings.texts@).to_set().insert(value@) =~= views(
                warnings.texts@,
            ).to_set());
        }
        return false;
    }
    let ghost before = views(warnings.texts@);
    warnings.texts.push(value);
    proof {
        assert(views(warnings.texts@) =~= before.push(value@));
        before.lemma_push_to_set_commute(value@);
        assert(before.push(value@).no_duplicates()) by {
            assert forall|a: int, b: int|
                0 <= a < before.len() + 1 && 0 <= b < before.len() + 1 && a != b implies before.push(
                value@,
            )[a] != before.push(value@)[b] by {
                if a == before.len() {
                    assert(before.contains(before[b]));
                } else if b == before.len() {
                    assert(before.contains(before[a]));
                }
            }
        }
        assert(before.to_set().contains(value@) ==> before.contains(value@));
    }
    true
}

fn holds_text(texts: &Vec<String>, value: &str) -> (r: bool)
    ensures
        r == views(texts@).contains(value@),
        r == views(texts@).to_set().contains(value@),
{
    let mut i: usize = 0;
    while i < texts.len()
        invariant
            i <= texts.len(),
            forall|j: int| 0 <= j < i ==> texts@[j]@ != value@,
        decreases texts.len() - i,
    {
        if str_eq(texts[i].as_str(), value) {
            assert(views(texts@)[i as int] == value@);
            return true;
        }
        i += 1;
    }
    proof {
        if views(texts@).contains(value@) {
            let k = choose|k: int| 0 <= k < views(texts@).len() && views(texts@)[k] == value@;
            assert(texts@[k]@ == value@);
        }
    }
    false
}

/// The distinct warning texts raised so far, first raised first.
pub fn get_all_warnings(warnings: &Warnings) -> (r: Vec<String>)
    ensures
        views(r@).to_set() == warnings.texts(),
{
    crate::models::copy_strings(&warnings.texts)
}

/// How many warnings were raised, repeats included.
pub fn get_warning_count(warnings: &Warnings) -> (r: usize)
    ensures
        r == warnings.count(),
{
    warnings.count
}

} // verus!
