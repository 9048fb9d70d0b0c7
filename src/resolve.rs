//! Merging of rule contributions from several sources into one rule set.
//!
//! Sources rank from lowest to highest: defaults, environment, the
//! repository's configuration file, command-line flags, ignore-file lines.
//! Exclude patterns, include globs and always-select markers of all sources
//! are concatenated, lowest rank first and, within a rank, in the order given.
//! Of the extension lists, the one of the highest-ranked source that gives
//! one wins (the latest given, within its rank).
use vstd::prelude::*;

use crate::rules::RuleSet;
use crate::text::{append_str, fields, push_char, split_fields, views};

verus! {

/// Where a rule contribution comes from.
#[derive(Clone, Copy, Debug, PartialEq, Eq, Structural)]
pub enum PatternSource {
    Default,
    Environment,
    RepoConfigFile,
    CliFlag,
    IgnoreFileLine,
}

/// The number of ranks of sources.
pub const RANKS: u8 = 5;

/// The precedence of a source: later ranks override or extend earlier ones.
pub open spec fn rank(s: PatternSource) -> nat {
    match s {
        PatternSource::Default => 0,
        PatternSource::Environment => 1,
        PatternSource::RepoConfigFile => 2,
        PatternSource::CliFlag => 3,
        PatternSource::IgnoreFileLine => 4,
    }
}

/// The precedence of `s`, as `rank` states it.
pub fn source_rank(s: PatternSource) -> (r: u8)
    ensures
        r as nat == rank(s),
        r < RANKS,
{
    match s {
        PatternSource::Default => 0,
        PatternSource::Environment => 1,
        PatternSource::RepoConfigFile => 2,
        PatternSource::CliFlag => 3,
        PatternSource::IgnoreFileLine => 4,
    }
}

/// What one source contributes to the rules.
pub struct Contribution {
    pub source: PatternSource,
    pub exclude_patterns: Vec<String>,
    pub include_patterns: Vec<String>,
    /// An extension list, where the source gives one.
    pub extensions: Option<Vec<String>>,
    pub always_include: Vec<String>,
    /// Asks for every extension to be selected.
    pub include_all_extensions: bool,
}

/// The lists of a contribution that are concatenated across sources.
#[derive(Clone, Copy, Debug, PartialEq, Eq, Structural)]
pub enum ListKind {
    Exclude,
    Select,
    Marker,
}

pub open spec fn list_of(c: Contribution, k: ListKind) -> Seq<Seq<char>> {
    match k {
        ListKind::Exclude => views(c.exclude_patterns@),
        ListKind::Select => views(c.include_patterns@),
        ListKind::Marker => views(c.always_include@),
    }
}

/// The lists of kind `k` of the contributions of rank `t` in `cs`, in order.
pub open spec fn rank_list(cs: Seq<Contribution>, t: nat, k: ListKind) -> Seq<Seq<char>>
    decreases cs.len(),
{
    if cs.len() == 0 {
        seq![]
    } else {
        rank_list(cs.drop_last(), t, k) + if rank(cs.last().source) == t {
            list_of(cs.last(), k)
        } else {
            seq![]
        }
    }
}

/// The lists of kind `k` of the ranks below `t`, lowest rank first.
pub open spec fn merged_below(cs: Seq<Contribution>, t: nat, k: ListKind) -> Seq<Seq<char>>
    decreases t,
{
    if t == 0 {
        seq![]
    } else {
        merged_below(cs, (t - 1) as nat, k) + rank_list(cs, (t - 1) as nat, k)
    }
}

/// The lists of kind `k` of all contributions, by rank.
pub open spec fn merged(cs: Seq<Contribution>, k: ListKind) -> Seq<Seq<char>> {
    merged_below(cs, RANKS as nat, k)
}

/// The extension list of the latest contribution of rank `t` that gives one.
pub open spec fn rank_extensions(cs: Seq<Contribution>, t: nat) -> Option<Seq<Seq<char>>>
    decreases cs.len(),
{
    if cs.len() == 0 {
        None
    } else if rank(cs.last().source) == t && cs.last().extensions is Some {
        Some(views(cs.last().extensions->Some_0@))
    } else {
        rank_extensions(cs.drop_last(), t)
    }
}

/// The extension list of the highest rank below `t` that gives one.
pub open spec fn extensions_below(cs: Seq<Contribution>, t: nat) -> Option<Seq<Seq<char>>>
    decreases t,
{
    if t == 0 {
        None
    } else {
        match rank_extensions(cs, (t - 1) as nat) {
            Some(e) => Some(e),
            None => extensions_below(cs, (t - 1) as nat),
        }
    }
}

/// An extension written with its leading dot (`rs` becomes `.rs`).
pub open spec fn dotted(e: Seq<char>) -> Seq<char> {
    if e.len() > 0 && e[0] == '.' {
        e
    } else {
        seq!['.'] + e
    }
}

/// The extensions that the merged rules select by.
pub open spec fn merged_extensions(cs: Seq<Contribution>) -> Seq<Seq<char>> {
    match extensions_below(cs, RANKS as nat) {
        Some(e) => e.map_values(|x: Seq<char>| dotted(x)),
        None => seq![],
    }
}

/// Some contribution asks for every extension.
pub open spec fn any_include_all(cs: Seq<Contribution>) -> bool {
    exists|i: int| 0 <= i < cs.len() && #[trigger] cs[i].include_all_extensions
}

fn append_all(out: &mut Vec<String>, v: &Vec<String>)
    ensures
        views(final(out)@) == views(old(out)@) + views(v@),
{
    let mut i: usize = 0;
    while i < v.len()
        invariant
            i <= v@.len(),
            views(out@) == views(old(out)@) + views(v@).take(i as int),
        decreases v@.len() - i,
    {
        let ghost prev = out@;
        out.push(v[i].clone());
        assert(views(out@) =~= views(prev).push(v@[i as int]@));
        assert(views(v@).take(i + 1) =~= views(v@).take(i as int).push(v@[i as int]@));
        i = i + 1;
        assert(views(out@) =~= views(old(out)@) + views(v@).take(i as int));
    }
    assert(views(v@).take(i as int) =~= views(v@));
}

fn list_field(c: &Contribution, k: ListKind) -> (r: &Vec<String>)
    ensures
        views(r@) == list_of(*c, k),
{
    match k {
        ListKind::Exclude => &c.exclude_patterns,
        ListKind::Select => &c.include_patterns,
        ListKind::Marker => &c.always_include,
    }
}

fn append_rank(out: &mut Vec<String>, cs: &Vec<Contribution>, t: u8, k: ListKind)
    ensures
        views(final(out)@) == views(old(out)@) + rank_list(cs@, t as nat, k),
{
    let mut i: usize = 0;
    while i < cs.len()
        invariant
            i <= cs@.len(),
            views(out@) == views(old(out)@) + rank_list(cs@.take(i as int), t as nat, k),
        decreases cs@.len() - i,
    {
        let c = &cs[i];
        assert(cs@.take(i + 1).drop_last() =~= cs@.take(i as int));
        assert(cs@.take(i + 1).last() == cs@[i as int]);
        if source_rank(c.source) == t {
            append_all(out, list_field(c, k));
        }
        assert(views(out@) =~= views(old(out)@) + rank_list(cs@.take(i + 1), t as nat, k));
        i = i + 1;
    }
    assert(cs@.take(i as int) =~= cs@);
}

fn merge_lists(cs: &Vec<Contribution>, k: ListKind) -> (r: Vec<String>)
    ensures
        views(r@) == merged(cs@, k),
{
    let mut out: Vec<String> = Vec::new();
    let mut t: u8 = 0;
    assert(views(out@) =~= merged_below(cs@, 0, k));
    while t < RANKS
        invariant
            t <= RANKS,
            views(out@) == merged_below(cs@, t as nat, k),
        decreases RANKS - t,
    {
        append_rank(&mut out, cs, t, k);
        t = t + 1;
    }
    out
}

fn latest_extensions(cs: &Vec<Contribution>, t: u8) -> (r: Option<&Vec<String>>)
    ensures
        r matches Some(v) ==> rank_extensions(cs@, t as nat) == Some(views(v@)),
        r is None ==> rank_extensions(cs@, t as nat) is None,
{
    let mut i: usize = cs.len();
    assert(cs@.take(i as int) =~= cs@);
    while i > 0
        invariant
            i <= cs@.len(),
            rank_extensions(cs@, t as nat) == rank_extensions(cs@.take(i as int), t as nat),
        decreases i,
    {
        assert(cs@.take(i as int).drop_last() =~= cs@.take(i - 1));
        assert(cs@.take(i as int).last() == cs@[i - 1]);
        let c = &cs[i - 1];
        if source_rank(c.source) == t {
            match &c.extensions {
                Some(v) => {
                    return Some(v);
                },
                None => {},
            }
        }
        i = i - 1;
    }
    None
}

fn dotted_exec(e: &String) -> (r: String)
    ensures
        r@ == dotted(e@),
{
    let s = e.as_str();
    if s.unicode_len() > 0 && s.get_char(0) == '.' {
        e.clone()
    } else {
        let mut r = String::new();
        push_char(&mut r, '.');
        append_str(&mut r, s);
        assert(r@ =~= seq!['.'] + e@);
        r
    }
}

fn merge_extensions(cs: &Vec<Contribution>) -> (r: Vec<String>)
    ensures
        views(r@) == merged_extensions(cs@),
{
    let mut t: u8 = RANKS;
    let mut chosen: Option<&Vec<String>> = None;
    while t > 0
        invariant
            t <= RANKS,
            chosen is None ==> extensions_below(cs@, RANKS as nat) == extensions_below(
                cs@,
                t as nat,
            ),
            chosen matches Some(v) ==> extensions_below(cs@, RANKS as nat) == Some(views(v@)),
        decreases t,
    {
        if chosen.is_none() {
            chosen = latest_extensions(cs, t - 1);
        }
        t = t - 1;
    }
    let mut out: Vec<String> = Vec::new();
    match chosen {
        None => {
            assert(views(out@) =~= merged_extensions(cs@));
        },
        Some(v) => {
            let ghost ev = views(v@);
            let mut i: usize = 0;
            while i < v.len()
                invariant
                    i <= v@.len(),
                    ev == views(v@),
                    views(out@) =~= ev.take(i as int).map_values(|x: Seq<char>| dotted(x)),
                decreases v@.len() - i,
            {
                let ghost prev = out@;
                out.push(dotted_exec(&v[i]));
                assert(views(out@) =~= views(prev).push(dotted(ev[i as int])));
                assert(ev.take(i + 1) =~= ev.take(i as int).push(ev[i as int]));
                i = i + 1;
                assert(views(out@) =~= ev.take(i as int).map_values(|x: Seq<char>| dotted(x)));
            }
            assert(ev.take(i as int) =~= ev);
        },
    }
    out
}

fn any_include_all_exec(cs: &Vec<Contribution>) -> (r: bool)
    ensures
        r == any_include_all(cs@),
{
    let mut i: usize = 0;
    while i < cs.len()
        invariant
            i <= cs@.len(),
            forall|x: int| 0 <= x < i ==> !#[trigger] cs@[x].include_all_extensions,
        decreases cs@.len() - i,
    {
        if cs[i].include_all_extensions {
            return true;
        }
        i = i + 1;
    }
    false
}

/// The rule set that the contributions `cs` make together.
pub fn resolve(cs: &Vec<Contribution>) -> (r: RuleSet)
    ensures
        r@.excludes == merged(cs@, ListKind::Exclude),
        r@.includes == merged(cs@, ListKind::Select),
        r@.markers == merged(cs@, ListKind::Marker),
        r@.extensions == merged_extensions(cs@),
        r@.include_all == any_include_all(cs@),
{
    RuleSet {
        exclude_patterns: merge_lists(cs, ListKind::Exclude),
        include_patterns: merge_lists(cs, ListKind::Select),
        allowed_extensions: merge_extensions(cs),
        include_all_extensions: any_include_all_exec(cs),
        always_include: merge_lists(cs, ListKind::Marker),
    }
}

/// The patterns of an ignore file: one per line, trimmed, without blank
/// lines and lines that start with `#`.
pub fn parse_ignore_lines(text: &str) -> (r: Vec<String>)
    ensures
        views(r@) == fields(text@, '\n', true),
{
    split_fields(text, '\n', true)
}

/// The items of a comma-separated list, trimmed, without blank ones.
pub fn parse_comma_list(text: &str) -> (r: Vec<String>)
    ensures
        views(r@) == fields(text@, ',', false),
{
    split_fields(text, ',', false)
}

/// The tree-exclusion value that wins: the repository's configuration over
/// the environment, the environment over the defaults; empty where none
/// gives one.
pub open spec fn chosen_tree_exclude(
    env: Option<Seq<char>>,
    repo: Option<Seq<char>>,
    defaults: Option<Seq<char>>,
) -> Seq<char> {
    match (repo, env, defaults) {
        (Some(r), _, _) => r,
        (None, Some(e), _) => e,
        (None, None, Some(d)) => d,
        (None, None, None) => seq![],
    }
}

/// The view of an optional string.
pub open spec fn opt_view(o: Option<String>) -> Option<Seq<char>> {
    match o {
        Some(s) => Some(s@),
        None => None,
    }
}

/// The pattern handed to the tree renderer, of the sources that give one.
pub fn pick_tree_exclude(env: Option<String>, repo: Option<String>, defaults: Option<String>) -> (r:
    String)
    ensures
        r@ == chosen_tree_exclude(opt_view(env), opt_view(repo), opt_view(defaults)),
{
    match repo {
        Some(r) => r,
        None => match env {
            Some(e) => e,
            None => match defaults {
                Some(d) => d,
                None => String::new(),
            },
        },
    }
}

/// The built-in defaults: the version-control directory is left out.
pub fn builtin_defaults() -> (r: Contribution)
    ensures
        r.source == PatternSource::Default,
        views(r.exclude_patterns@) == seq![".git/"@],
        r.include_patterns@.len() == 0,
        r.extensions is None,
        r.always_include@.len() == 0,
        !r.include_all_extensions,
{
    let mut ex: Vec<String> = Vec::new();
    let mut g = String::new();
    append_str(&mut g, ".git/");
    ex.push(g);
    assert(views(ex@) =~= seq![".git/"@]);
    Contribution {
        source: PatternSource::Default,
        exclude_patterns: ex,
        include_patterns: Vec::new(),
        extensions: None,
        always_include: Vec::new(),
        include_all_extensions: false,
    }
}

} // verus!
