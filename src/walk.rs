//! Selection of the regular files among the entries found under a root.
use vstd::prelude::*;

use crate::rules::{decide, decision, Decision, RuleSet, RuleSetView};
use crate::text::views;

verus! {

/// One entry found under the root: its path and whether it is a regular file.
pub struct Candidate {
    pub path: String,
    pub is_file: bool,
}

/// Whether the entry is a regular file that the rules select.
pub open spec fn accepted(r: RuleSetView, c: Candidate) -> bool {
    c.is_file && decision(r, c.path@) == Decision::Included
}

/// The paths of the accepted entries of `cs`, in the order of `cs`.
pub open spec fn selected(cs: Seq<Candidate>, r: RuleSetView) -> Seq<Seq<char>>
    decreases cs.len(),
{
    if cs.len() == 0 {
        seq![]
    } else {
        selected(cs.drop_last(), r) + if accepted(r, cs.last()) {
            seq![cs.last().path@]
        } else {
            seq![]
        }
    }
}

/// The paths of the regular files among `candidates` that `rules` selects,
/// in the order in which they were found.
pub fn select_paths(candidates: &Vec<Candidate>, rules: &RuleSet) -> (r: Vec<String>)
    ensures
        views(r@) == selected(candidates@, rules@),
{
    let mut out: Vec<String> = Vec::new();
    let mut i: usize = 0;
    while i < candidates.len()
        invariant
            i <= candidates@.len(),
            views(out@) == selected(candidates@.take(i as int), rules@),
        decreases candidates@.len() - i,
    {
        let c = &candidates[i];
        assert(candidates@.take(i + 1).drop_last() =~= candidates@.take(i as int));
        assert(candidates@.take(i + 1).last() == candidates@[i as int]);
        if c.is_file && decide(c.path.as_str(), rules) == Decision::Included {
            out.push(c.path.clone());
            assert(views(out@) =~= selected(candidates@.take(i + 1), rules@));
        } else {
            assert(views(out@) =~= selected(candidates@.take(i + 1), rules@));
        }
        i = i + 1;
    }
    assert(candidates@.take(i as int) =~= candidates@);
    out
}

} // verus!
