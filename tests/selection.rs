use repo_to_text::glob::{glob_match, path_match};
use repo_to_text::resolve::{
    builtin_defaults, parse_comma_list, parse_ignore_lines, pick_tree_exclude, resolve, source_rank,
    Contribution,
    PatternSource,
};
use repo_to_text::rules::{decide, Decision, RuleSet};
use repo_to_text::serialize::{file_block, render_code, tree_block, SourceFile};
use repo_to_text::text::split_fields;
use repo_to_text::walk::{select_paths, Candidate};

fn strings(xs: &[&str]) -> Vec<String> {
    xs.iter().map(|x| x.to_string()).collect()
}

fn rules(excl: &[&str], incl: &[&str], exts: &[&str], all: bool, markers: &[&str]) -> RuleSet {
    RuleSet {
        exclude_patterns: strings(excl),
        include_patterns: strings(incl),
        allowed_extensions: strings(exts),
        include_all_extensions: all,
        always_include: strings(markers),
    }
}

fn file(p: &str) -> Candidate {
    Candidate { path: p.to_string(), is_file: true }
}

fn dir(p: &str) -> Candidate {
    Candidate { path: p.to_string(), is_file: false }
}

fn contribution(source: PatternSource) -> Contribution {
    Contribution {
        source,
        exclude_patterns: vec![],
        include_patterns: vec![],
        extensions: None,
        always_include: vec![],
        include_all_extensions: false,
    }
}

#[test]
fn glob_star_stays_within_a_component() {
    assert!(glob_match("*.log", "run.log"));
    assert!(!glob_match("*.log", "logs/run.log"));
    assert!(glob_match("**/*.log", "a/b/run.log"));
    assert!(glob_match("src/**", "src/a/b.rs"));
    assert!(!glob_match("*.log", "run.ts"));
}

#[test]
fn glob_question_mark_and_classes() {
    assert!(glob_match("file?.rs", "file1.rs"));
    assert!(!glob_match("file?.rs", "file/.rs"));
    assert!(!glob_match("file?.rs", "file12.rs"));
    assert!(glob_match("[a-c]x", "bx"));
    assert!(!glob_match("[a-c]x", "dx"));
    assert!(glob_match("[!a-c]x", "dx"));
    assert!(!glob_match("[!a-c]x", "ax"));
    assert!(glob_match("[xyz].md", "y.md"));
}

#[test]
fn glob_alternatives() {
    assert!(glob_match("*.{rs,toml}", "Cargo.toml"));
    assert!(glob_match("*.{rs,toml}", "main.rs"));
    assert!(!glob_match("*.{rs,toml}", "main.py"));
    assert!(glob_match("{src,tests}/*.rs", "tests/a.rs"));
}

#[test]
fn glob_without_syntax_matches_itself() {
    assert!(glob_match("README.md", "README.md"));
    assert!(!glob_match("README.md", "README.mdx"));
    assert!(glob_match("", ""));
    assert!(!glob_match("", "a"));
    assert!(glob_match("[", "["));
    assert!(glob_match("{a", "{a"));
}

#[test]
fn path_match_tries_trailing_components() {
    assert!(path_match("*.log", "logs/run.log"));
    assert!(path_match("logs/*.log", "root/logs/run.log"));
    assert!(!path_match("ogs/*.log", "root/logs/run.log"));
    assert!(!path_match("*.log", "logs/run.log.txt"));
}

#[test]
fn exclusion_beats_every_route_to_selection() {
    let r = rules(&["secret"], &["**"], &[".rs"], true, &["main"]);
    assert_eq!(decide("src/secret/main.rs", &r), Decision::Excluded);
}

#[test]
fn literal_exclusion_is_substring_and_glob_exclusion_is_a_match() {
    let r = rules(&["target", "*.lock"], &[], &[], false, &[]);
    assert_eq!(decide("my_target_dir/a.rs", &r), Decision::Excluded);
    assert_eq!(decide("sub/Cargo.lock", &r), Decision::Excluded);
    assert_eq!(decide("Cargo.lock.bak", &r), Decision::Included);
    assert_eq!(decide("src/lib.rs", &r), Decision::Included);
}

#[test]
fn empty_filters_select_every_unexcluded_path() {
    let r = rules(&[], &[], &[], false, &[]);
    assert_eq!(decide("a/b/c.xyz", &r), Decision::Included);
    assert_eq!(decide("", &r), Decision::Included);
}

#[test]
fn include_all_ignores_extensions() {
    let r = rules(&["vendor/"], &[], &[".rs"], true, &[]);
    assert_eq!(decide("notes.txt", &r), Decision::Included);
    assert_eq!(decide("vendor/x.rs", &r), Decision::Excluded);
    let narrow = rules(&["vendor/"], &[], &[".rs"], false, &[]);
    assert_eq!(decide("notes.txt", &narrow), Decision::Excluded);
}

#[test]
fn include_patterns_select_and_narrow() {
    let r = rules(&[], &["docs/*.md"], &[], false, &[]);
    assert_eq!(decide("docs/guide.md", &r), Decision::Included);
    assert_eq!(decide("src/guide.md", &r), Decision::Excluded);
}

#[test]
fn extension_and_include_are_alternative_routes() {
    let r = rules(&[], &["Makefile"], &[".ts"], false, &["LICENSE"]);
    assert_eq!(decide("a.ts", &r), Decision::Included);
    assert_eq!(decide("Makefile", &r), Decision::Included);
    assert_eq!(decide("LICENSE-MIT", &r), Decision::Included);
    assert_eq!(decide("a.js", &r), Decision::Excluded);
}

#[test]
fn decisions_repeat() {
    let r = rules(&["*.log"], &[], &[".ts"], false, &[]);
    for p in ["a.ts", "b.log", "c.js"] {
        assert_eq!(decide(p, &r), decide(p, &r));
    }
}

#[test]
fn scenario_marker_extension_and_excluded_directory() {
    let cands = vec![
        dir("src"),
        file("src/app.ts"),
        dir("node_modules"),
        file("node_modules/lib.js"),
        file("README.md"),
    ];
    let r = rules(&["node_modules/"], &[], &[".ts"], false, &["README.md"]);
    assert_eq!(select_paths(&cands, &r), strings(&["src/app.ts", "README.md"]));
    assert_eq!(decide("node_modules/lib.js", &r), Decision::Excluded);
    let files = vec![SourceFile { path: "src/app.ts".to_string(), content: Some("x=1".to_string()) }];
    assert_eq!(
        render_code("", &files),
        "===== BEGIN /src/app.ts =====\nx=1===== END /src/app.ts =====\n\n\n"
    );
}

#[test]
fn scenario_no_filters_accepts_every_regular_file() {
    let cands = vec![dir("a"), file("a/x.c"), file("b.bin"), dir("a/d"), file("a/d/.hidden")];
    let r = rules(&[], &[], &[], false, &[]);
    assert_eq!(select_paths(&cands, &r), strings(&["a/x.c", "b.bin", "a/d/.hidden"]));
}

#[test]
fn scenario_ignore_file_and_extension_filter() {
    let mut ignore = contribution(PatternSource::IgnoreFileLine);
    ignore.exclude_patterns = parse_ignore_lines("*.log\n");
    let mut cli = contribution(PatternSource::CliFlag);
    cli.extensions = Some(strings(&[".ts"]));
    let r = resolve(&vec![ignore, cli]);
    let cands = vec![file("run.log"), file("run.ts")];
    assert_eq!(select_paths(&cands, &r), strings(&["run.ts"]));
}

#[test]
fn selection_repeats() {
    let cands = vec![file("a.ts"), file("b.log"), dir("c")];
    let r = rules(&["*.log"], &[], &[], false, &[]);
    assert_eq!(select_paths(&cands, &r), select_paths(&cands, &r));
}

#[test]
fn resolve_concatenates_by_rank() {
    let mut cli = contribution(PatternSource::CliFlag);
    cli.exclude_patterns = strings(&["c"]);
    cli.include_patterns = strings(&["i2"]);
    let mut dflt = contribution(PatternSource::Default);
    dflt.exclude_patterns = strings(&["a"]);
    dflt.always_include = strings(&["README"]);
    let mut ignore = contribution(PatternSource::IgnoreFileLine);
    ignore.exclude_patterns = strings(&["d", "e"]);
    let mut env = contribution(PatternSource::Environment);
    env.exclude_patterns = strings(&["b"]);
    env.include_patterns = strings(&["i1"]);
    let r = resolve(&vec![cli, dflt, ignore, env]);
    assert_eq!(r.exclude_patterns, strings(&["a", "b", "c", "d", "e"]));
    assert_eq!(r.include_patterns, strings(&["i1", "i2"]));
    assert_eq!(r.always_include, strings(&["README"]));
    assert!(r.allowed_extensions.is_empty());
    assert!(!r.include_all_extensions);
}

#[test]
fn resolve_takes_extensions_of_the_highest_rank() {
    let mut repo = contribution(PatternSource::RepoConfigFile);
    repo.extensions = Some(strings(&["py"]));
    let mut cli = contribution(PatternSource::CliFlag);
    cli.extensions = Some(strings(&["rs", ".toml"]));
    let mut dflt = contribution(PatternSource::Default);
    dflt.extensions = Some(strings(&["md"]));
    let r = resolve(&vec![repo, cli, dflt]);
    assert_eq!(r.allowed_extensions, strings(&[".rs", ".toml"]));

    let mut first = contribution(PatternSource::RepoConfigFile);
    first.extensions = Some(strings(&["a"]));
    let mut second = contribution(PatternSource::RepoConfigFile);
    second.extensions = Some(strings(&["b"]));
    second.include_all_extensions = true;
    let r2 = resolve(&vec![first, second]);
    assert_eq!(r2.allowed_extensions, strings(&[".b"]));
    assert!(r2.include_all_extensions);
}

#[test]
fn resolve_of_nothing_selects_everything() {
    let r = resolve(&vec![]);
    assert!(r.exclude_patterns.is_empty());
    assert_eq!(decide("any/file", &r), Decision::Included);
}

#[test]
fn source_ranks_follow_precedence() {
    assert_eq!(source_rank(PatternSource::Default), 0);
    assert_eq!(source_rank(PatternSource::Environment), 1);
    assert_eq!(source_rank(PatternSource::RepoConfigFile), 2);
    assert_eq!(source_rank(PatternSource::CliFlag), 3);
    assert_eq!(source_rank(PatternSource::IgnoreFileLine), 4);
}

#[test]
fn ignore_lines_skip_blanks_and_comments() {
    let v = parse_ignore_lines("# build output\ntarget/\n\n  *.log  \r\n#x\nnode_modules");
    assert_eq!(v, strings(&["target/", "*.log", "node_modules"]));
    assert!(parse_ignore_lines("").is_empty());
    assert!(parse_ignore_lines("\n\n   \n# only\n").is_empty());
}

#[test]
fn comma_list_trims_items() {
    assert_eq!(parse_comma_list("*.rs, docs/** ,,#x"), strings(&["*.rs", "docs/**", "#x"]));
    assert!(parse_comma_list("").is_empty());
    assert_eq!(split_fields("a;b", ';', false), strings(&["a", "b"]));
}

#[test]
fn file_block_keeps_content_unchanged() {
    let b = file_block("pkg", "src/main.rs", "fn main() {}\n");
    assert_eq!(
        b,
        "===== BEGIN pkg/src/main.rs =====\nfn main() {}\n===== END pkg/src/main.rs =====\n\n\n"
    );
    let begin = "===== BEGIN pkg/src/main.rs =====\n";
    assert_eq!(&b[begin.len()..begin.len() + "fn main() {}\n".len()], "fn main() {}\n");
}

#[test]
fn file_block_with_empty_label_and_content() {
    assert_eq!(file_block("", "a", ""), "===== BEGIN /a =====\n===== END /a =====\n\n\n");
}

#[test]
fn tree_block_wraps_tree_text() {
    assert_eq!(
        tree_block(".\n└── a.rs\n"),
        "===== BEGIN TREE =====\n.\n└── a.rs\n===== END TREE =====\n\n\n"
    );
}

#[test]
fn render_code_skips_unreadable_files() {
    let files = vec![
        SourceFile { path: "a".to_string(), content: Some("1\n".to_string()) },
        SourceFile { path: "b".to_string(), content: None },
        SourceFile { path: "c".to_string(), content: Some("ü".to_string()) },
    ];
    assert_eq!(
        render_code("L", &files),
        "===== BEGIN L/a =====\n1\n===== END L/a =====\n\n\n===== BEGIN L/c =====\nü===== END L/c =====\n\n\n"
    );
    assert_eq!(render_code("L", &files), render_code("L", &files));
    assert_eq!(render_code("L", &vec![]), "");
}

#[test]
fn glob_double_star_and_bracket_edges() {
    assert!(glob_match("**", ""));
    assert!(glob_match("a/**/b", "a/x/y/b"));
    assert!(glob_match("a/**b", "a/b"));
    assert!(glob_match("[]]x", "]x"));
    assert!(!glob_match("[a-c]", "/"));
    assert!(!glob_match("?", ""));
    assert!(glob_match("*", ""));
    assert!(!glob_match("*", "a/b"));
}

#[test]
fn file_block_body_is_the_content_exactly() {
    for content in ["", "x", "x\n", "a\n\nb\n\n"] {
        let b = file_block("L", "P", content);
        let begin = "===== BEGIN L/P =====\n";
        let end = "===== END L/P =====\n\n\n";
        assert!(b.starts_with(begin));
        assert!(b.ends_with(end));
        assert_eq!(&b[begin.len()..b.len() - end.len()], content);
    }
}

#[test]
fn tree_exclusion_follows_precedence() {
    let s = |x: &str| Some(x.to_string());
    assert_eq!(pick_tree_exclude(s("env"), s("repo"), s("dflt")), "repo");
    assert_eq!(pick_tree_exclude(s("env"), None, s("dflt")), "env");
    assert_eq!(pick_tree_exclude(None, None, s("dflt")), "dflt");
    assert_eq!(pick_tree_exclude(None, None, None), "");
}

#[test]
fn builtin_defaults_leave_out_the_git_directory() {
    let d = builtin_defaults();
    assert_eq!(d.source, PatternSource::Default);
    let r = resolve(&vec![d]);
    assert_eq!(r.exclude_patterns, strings(&[".git/"]));
    assert_eq!(decide(".git/config", &r), Decision::Excluded);
    assert_eq!(decide(".github/ci.yml", &r), Decision::Included);
}
