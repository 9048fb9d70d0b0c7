//! Properties that the selection and the serialization have for all inputs.
use vstd::prelude::*;

use crate::rules::{decision, exclude_pattern_matches, some_excludes, Decision, RuleSetView};
use crate::serialize::{begin_line, code_text, end_lines, file_block_text, SourceFile};
use crate::walk::{selected, Candidate};

verus! {

/// The decision on a path depends on the path and the rules alone: equal
/// inputs give equal decisions.
pub proof fn decision_is_deterministic(
    r1: RuleSetView,
    p1: Seq<char>,
    r2: RuleSetView,
    p2: Seq<char>,
)
    requires
        r1 == r2,
        p1 == p2,
    ensures
        decision(r1, p1) == decision(r2, p2),
{
}

/// A path that an exclude pattern matches is excluded, whatever else matches.
pub proof fn exclusion_takes_precedence(r: RuleSetView, path: Seq<char>, i: int)
    requires
        0 <= i < r.excludes.len(),
        exclude_pattern_matches(r.excludes[i], path),
    ensures
        decision(r, path) == Decision::Excluded,
{
}

/// With no include patterns and no extensions, every path that no exclude
/// pattern matches is selected.
pub proof fn empty_filters_select_all(r: RuleSetView, path: Seq<char>)
    requires
        r.includes.len() == 0,
        r.extensions.len() == 0,
        !some_excludes(r.excludes, path),
    ensures
        decision(r, path) == Decision::Included,
{
}

/// Asking for every extension selects every path that no exclude pattern
/// matches, whatever the extensions are.
pub proof fn include_all_selects_all(r: RuleSetView, path: Seq<char>)
    requires
        r.include_all,
        !some_excludes(r.excludes, path),
    ensures
        decision(r, path) == Decision::Included,
{
}

/// The block of a file holds its content unchanged, right after the line
/// `===== BEGIN label/path =====` and right before the line
/// `===== END label/path =====`.
pub proof fn block_round_trip(label: Seq<char>, path: Seq<char>, content: Seq<char>)
    ensures
        ({
            let b = file_block_text(label, path, content);
            let h = begin_line(label, path).len() as int;
            &&& b.subrange(0, h) == begin_line(label, path)
            &&& b.subrange(h, h + content.len() as int) == content
            &&& b.subrange(h + content.len() as int, b.len() as int) == end_lines(label, path)
        }),
{
    let b = file_block_text(label, path, content);
    let h = begin_line(label, path).len() as int;
    assert(b.subrange(0, h) =~= begin_line(label, path));
    assert(b.subrange(h, h + content.len() as int) =~= content);
    assert(b.subrange(h + content.len() as int, b.len() as int) =~= end_lines(label, path));
}

/// Two listings of the same entries, path for path and kind for kind.
pub open spec fn same_entries(a: Seq<Candidate>, b: Seq<Candidate>) -> bool {
    a.len() == b.len() && forall|i: int|
        0 <= i < a.len() ==> #[trigger] a[i].path@ == b[i].path@ && a[i].is_file == b[i].is_file
}

/// Two reads of the same files, path for path and content for content.
pub open spec fn same_files(a: Seq<SourceFile>, b: Seq<SourceFile>) -> bool {
    a.len() == b.len() && forall|i: int|
        0 <= i < a.len() ==> #[trigger] a[i].path@ == b[i].path@ && match (
            a[i].content,
            b[i].content,
        ) {
            (Some(x), Some(y)) => x@ == y@,
            (None, None) => true,
            _ => false,
        }
}

/// Selecting twice from the same entries under the same rules selects the
/// same paths.
pub proof fn selection_is_repeatable(a: Seq<Candidate>, b: Seq<Candidate>, r: RuleSetView)
    requires
        same_entries(a, b),
    ensures
        selected(a, r) == selected(b, r),
    decreases a.len(),
{
    if a.len() > 0 {
        assert(same_entries(a.drop_last(), b.drop_last()));
        selection_is_repeatable(a.drop_last(), b.drop_last(), r);
        assert(a.last().path@ == b.last().path@);
    }
}

/// Serializing the same files twice under the same label gives the same text.
pub proof fn serialization_is_repeatable(label: Seq<char>, a: Seq<SourceFile>, b: Seq<SourceFile>)
    requires
        same_files(a, b),
    ensures
        code_text(label, a) == code_text(label, b),
    decreases a.len(),
{
    if a.len() > 0 {
        assert(same_files(a.drop_last(), b.drop_last()));
        serialization_is_repeatable(label, a.drop_last(), b.drop_last());
        assert(a.last().path@ == b.last().path@);
        let i = a.len() - 1;
        assert(a[i].path@ == b[i].path@);
    }
}

} // verus!
