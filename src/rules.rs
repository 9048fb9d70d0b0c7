//! The resolved rule set and the decision it makes on one path.
use vstd::prelude::*;

use crate::glob::{has_glob_syntax, has_glob_syntax_exec, path_matches, path_matches_exec};
use crate::text::{chars_of, contains, contains_exec, ends_with, ends_with_exec, views};

verus! {

/// The effective rules of one run, built once and then only read.
pub struct RuleSet {
    /// Patterns that exclude a path: globs, or plain text that excludes any
    /// path containing it.
    pub exclude_patterns: Vec<String>,
    /// Globs that select a path; none at all selects everything.
    pub include_patterns: Vec<String>,
    /// Endings (such as `.rs`) that select a path.
    pub allowed_extensions: Vec<String>,
    /// Selects every path that is not excluded, whatever its extension.
    pub include_all_extensions: bool,
    /// Text that selects any path containing it (a manifest or a readme).
    pub always_include: Vec<String>,
}

/// A rule set as sequences of character sequences.
pub struct RuleSetView {
    pub excludes: Seq<Seq<char>>,
    pub includes: Seq<Seq<char>>,
    pub extensions: Seq<Seq<char>>,
    pub include_all: bool,
    pub markers: Seq<Seq<char>>,
}

impl View for RuleSet {
    type V = RuleSetView;

    open spec fn view(&self) -> RuleSetView {
        RuleSetView {
            excludes: views(self.exclude_patterns@),
            includes: views(self.include_patterns@),
            extensions: views(self.allowed_extensions@),
            include_all: self.include_all_extensions,
            markers: views(self.always_include@),
        }
    }
}

/// What becomes of one path.
#[derive(Clone, Copy, Debug, PartialEq, Eq, Structural)]
pub enum Decision {
    Included,
    Excluded,
}

/// An exclude pattern with glob syntax matches as a glob; one without it
/// matches every path that contains it.
pub open spec fn exclude_pattern_matches(p: Seq<char>, path: Seq<char>) -> bool {
    if has_glob_syntax(p) {
        path_matches(p, path)
    } else {
        contains(path, p)
    }
}

/// Some pattern of `ps` excludes `path`.
pub open spec fn some_excludes(ps: Seq<Seq<char>>, path: Seq<char>) -> bool {
    exists|i: int| 0 <= i < ps.len() && #[trigger] exclude_pattern_matches(ps[i], path)
}

/// Some text of `ps` occurs in `path`.
pub open spec fn some_contained(ps: Seq<Seq<char>>, path: Seq<char>) -> bool {
    exists|i: int| 0 <= i < ps.len() && contains(path, #[trigger] ps[i])
}

/// `path` ends with some text of `ps`.
pub open spec fn some_ending(ps: Seq<Seq<char>>, path: Seq<char>) -> bool {
    exists|i: int| 0 <= i < ps.len() && ends_with(path, #[trigger] ps[i])
}

/// Some glob of `ps` matches `path` or its trailing components.
pub open spec fn some_path_matches(ps: Seq<Seq<char>>, path: Seq<char>) -> bool {
    exists|i: int| 0 <= i < ps.len() && path_matches(#[trigger] ps[i], path)
}

/// The decision on `path`: exclusion first, then the routes to inclusion in
/// turn, with everything included when neither include patterns nor
/// extensions narrow the selection.
pub open spec fn decision(r: RuleSetView, path: Seq<char>) -> Decision {
    if some_excludes(r.excludes, path) {
        Decision::Excluded
    } else if some_contained(r.markers, path) {
        Decision::Included
    } else if r.include_all {
        Decision::Included
    } else if some_ending(r.extensions, path) {
        Decision::Included
    } else if r.includes.len() > 0 && some_path_matches(r.includes, path) {
        Decision::Included
    } else if r.includes.len() == 0 && r.extensions.len() == 0 {
        Decision::Included
    } else {
        Decision::Excluded
    }
}

fn any_exclude_matches(ps: &Vec<String>, path: &Vec<char>) -> (r: bool)
    ensures
        r == some_excludes(views(ps@), path@),
{
    let mut i: usize = 0;
    while i < ps.len()
        invariant
            i <= ps@.len(),
            forall|x: int|
                0 <= x < i ==> !#[trigger] exclude_pattern_matches(views(ps@)[x], path@),
        decreases ps@.len() - i,
    {
        let p = chars_of(ps[i].as_str());
        let hit = if has_glob_syntax_exec(&p) {
            path_matches_exec(&p, path)
        } else {
            contains_exec(path, &p)
        };
        if hit {
            assert(exclude_pattern_matches(views(ps@)[i as int], path@));
            return true;
        }
        i = i + 1;
    }
    assert(views(ps@).len() == ps@.len());
    false
}

fn any_contained(ps: &Vec<String>, path: &Vec<char>) -> (r: bool)
    ensures
        r == some_contained(views(ps@), path@),
{
    let mut i: usize = 0;
    while i < ps.len()
        invariant
            i <= ps@.len(),
            forall|x: int| 0 <= x < i ==> !contains(path@, #[trigger] views(ps@)[x]),
        decreases ps@.len() - i,
    {
        let p = chars_of(ps[i].as_str());
        if contains_exec(path, &p) {
            assert(contains(path@, views(ps@)[i as int]));
            return true;
        }
        i = i + 1;
    }
    assert(views(ps@).len() == ps@.len());
    false
}

fn any_ending(ps: &Vec<String>, path: &Vec<char>) -> (r: bool)
    ensures
        r == some_ending(views(ps@), path@),
{
    let mut i: usize = 0;
    while i < ps.len()
        invariant
            i <= ps@.len(),
            forall|x: int| 0 <= x < i ==> !ends_with(path@, #[trigger] views(ps@)[x]),
        decreases ps@.len() - i,
    {
        let p = chars_of(ps[i].as_str());
        if ends_with_exec(path, &p) {
            assert(ends_with(path@, views(ps@)[i as int]));
            return true;
        }
        i = i + 1;
    }
    assert(views(ps@).len() == ps@.len());
    false
}

fn any_path_matches(ps: &Vec<String>, path: &Vec<char>) -> (r: bool)
    ensures
        r == some_path_matches(views(ps@), path@),
{
    let mut i: usize = 0;
    while i < ps.len()
        invariant
            i <= ps@.len(),
            forall|x: int| 0 <= x < i ==> !path_matches(#[trigger] views(ps@)[x], path@),
        decreases ps@.len() - i,
    {
        let p = chars_of(ps[i].as_str());
        if path_matches_exec(&p, path) {
            assert(path_matches(views(ps@)[i as int], path@));
            return true;
        }
        i = i + 1;
    }
    assert(views(ps@).len() == ps@.len());
    false
}

/// Decides whether `path` is selected under `rules`.
pub fn decide(path: &str, rules: &RuleSet) -> (r: Decision)
    ensures
        r == decision(rules@, path@),
{
    let s = chars_of(path);
    assert(rules@.includes.len() == rules.include_patterns@.len());
    assert(rules@.extensions.len() == rules.allowed_extensions@.len());
    if any_exclude_matches(&rules.exclude_patterns, &s) {
        Decision::Excluded
    } else if any_contained(&rules.always_include, &s) {
        Decision::Included
    } else if rules.include_all_extensions {
        Decision::Included
    } else if any_ending(&rules.allowed_extensions, &s) {
        Decision::Included
    } else if rules.include_patterns.len() > 0 && any_path_matches(&rules.include_patterns, &s) {
        Decision::Included
    } else if rules.include_patterns.len() == 0 && rules.allowed_extensions.len() == 0 {
        Decision::Included
    } else {
        Decision::Excluded
    }
}

} // verus!
