use rust_guardian::patterns::path_filter::{load_ignore_file, Candidate, IgnoreFile, PathFilter};
use rust_guardian::GuardianError;

fn filter(patterns: Vec<&str>) -> PathFilter {
    PathFilter::new(patterns.into_iter().map(|p| p.to_string()).collect(), None).unwrap()
}

fn analyzed(f: &PathFilter, path: &str) -> bool {
    f.should_analyze(path, false, &Vec::new())
}

#[test]
fn last_match_wins() {
    let f = filter(vec!["a/**", "!a/b/**"]);
    assert!(analyzed(&f, "a/b/x"));
    assert!(!analyzed(&f, "a/c/x"));
    assert!(analyzed(&f, "z/x"));
    let reversed = filter(vec!["!a/b/**", "a/**"]);
    assert!(!analyzed(&reversed, "a/b/x"));
}

#[test]
fn anchoring() {
    let bare = filter(vec!["*.md"]);
    assert!(!analyzed(&bare, "README.md"));
    assert!(!analyzed(&bare, "docs/guide/README.md"));
    assert!(analyzed(&bare, "README.rs"));
    let anchored = filter(vec!["docs/*.md"]);
    assert!(!analyzed(&anchored, "docs/x.md"));
    assert!(analyzed(&anchored, "sub/docs/x.md"));
    let rooted = filter(vec!["/docs/*.md"]);
    assert!(!analyzed(&rooted, "docs/x.md"));
    assert!(analyzed(&rooted, "sub/docs/x.md"));
}

#[test]
fn basic_patterns() {
    let f = filter(vec!["target/**", "*.md"]);
    assert!(analyzed(&f, "src/lib.rs"));
    assert!(!analyzed(&f, "target/debug/lib.rs"));
    assert!(!analyzed(&f, "README.md"));
}

#[test]
fn include_overrides_exclude() {
    let f = filter(vec!["target/**", "!target/special/**"]);
    assert!(!analyzed(&f, "target/debug/lib.rs"));
    assert!(analyzed(&f, "target/special/lib.rs"));
}

#[test]
fn later_patterns_override_earlier_ones() {
    let f = filter(vec!["tests/**", "!tests/important.rs", "!*.rs"]);
    assert!(analyzed(&f, "src/lib.rs"));
    assert!(analyzed(&f, "tests/unit.rs"));
    assert!(analyzed(&f, "tests/important.rs"));
}

#[test]
fn directory_patterns_match_directories_only() {
    let f = filter(vec!["target/"]);
    assert!(analyzed(&f, "target"));
    assert!(!f.should_analyze("target", true, &Vec::new()));
    assert!(f.should_analyze("src", true, &Vec::new()));
}

#[test]
fn invalid_pattern_rejects_the_filter() {
    let r = PathFilter::new(vec!["ok/**".to_string(), "[invalid".to_string()], None);
    match r {
        Err(e) => {
            assert!(matches!(e, GuardianError::Pattern { .. }));
            assert!(e.to_text().starts_with("Pattern error: Invalid pattern '[invalid': "));
        }
        Ok(_) => panic!("accepted"),
    }
    let mut f = filter(vec![]);
    match f.add_pattern("!a/**b".to_string()) {
        Err(GuardianError::Pattern { message }) => {
            assert!(message.starts_with("Invalid pattern 'a/**b': "), "{message}");
        }
        _ => panic!("accepted"),
    }
    assert!(f.add_pattern("a/**b".to_string()).is_err());
    assert!(analyzed(&f, "a/b"));
    assert!(f.add_pattern("a/*".to_string()).is_ok());
    assert!(!analyzed(&f, "a/b"));
    assert!(f.add_pattern("!a/b".to_string()).is_ok());
    assert!(analyzed(&f, "a/b"));
}

#[test]
fn default_filter() {
    let f = PathFilter::with_defaults().unwrap();
    assert!(!analyzed(&f, "target/debug/lib.rs"));
    assert!(analyzed(&f, "src/lib.rs"));
    assert!(!analyzed(&f, "web/node_modules/x/index.js"));
    assert!(!analyzed(&f, "a/schema.generated.rs"));
    assert!(f.processes_ignore_files());
    assert_eq!(f.ignore_filename(), ".guardianignore");
    let plain = filter(vec![]);
    assert!(!plain.processes_ignore_files());
    assert_eq!(plain.ignore_filename(), ".guardianignore");
    let named = PathFilter::new(Vec::new(), Some(".ignore".to_string())).unwrap();
    assert_eq!(named.ignore_filename(), ".ignore");
}

fn ignore(directory: &str, content: &str) -> IgnoreFile {
    IgnoreFile { directory: directory.to_string(), content: content.to_string() }
}

#[test]
fn ignore_files_are_read_relative_to_their_directory() {
    let f = PathFilter::new(Vec::new(), Some(".guardianignore".to_string())).unwrap();
    let files = vec![ignore("/root/project", "*.tmp\ntests/**\n!tests/important.rs\n")];
    assert!(f.should_analyze("/root/project/src/lib.rs", false, &files));
    assert!(!f.should_analyze("/root/project/temp.tmp", false, &files));
    assert!(!f.should_analyze("/root/project/tests/unit.rs", false, &files));
    assert!(f.should_analyze("/root/project/tests/important.rs", false, &files));
    // A filter that does not honour ignore files leaves them unread.
    let deaf = filter(vec![]);
    assert!(deaf.should_analyze("/root/project/temp.tmp", false, &files));
    // An ignore file of another directory says nothing.
    let elsewhere = vec![ignore("/other", "*.tmp\n")];
    assert!(f.should_analyze("/root/project/temp.tmp", false, &elsewhere));
}

#[test]
fn ignore_files_further_up_are_read_later() {
    let f = PathFilter::new(Vec::new(), Some(".guardianignore".to_string())).unwrap();
    let nearest_first = vec![ignore("a/b", "*.log\n"), ignore("a", "!b/keep.log\n")];
    assert!(f.should_analyze("a/b/keep.log", false, &nearest_first));
    assert!(!f.should_analyze("a/b/drop.log", false, &nearest_first));
    assert!(PathFilter::is_ignored_by_files("a/b/drop.log", false, &nearest_first));
    assert!(!PathFilter::is_ignored_by_files("a/b/keep.log", false, &nearest_first));
    // The decision runs on from the filter's own patterns into the ignore files.
    let strict = PathFilter::new(vec!["*.log".to_string()], Some(".guardianignore".to_string())).unwrap();
    assert!(strict.should_analyze("a/b/keep.log", false, &nearest_first));
    assert!(!strict.should_analyze("a/b/drop.log", false, &nearest_first));
    assert!(!strict.should_analyze("a/b/keep.log", false, &Vec::new()));
}

#[test]
fn an_ignore_file_can_include_what_the_filter_excludes() {
    let f = PathFilter::new(vec!["*.tmp".to_string()], Some(".guardianignore".to_string())).unwrap();
    let files = vec![ignore("d", "!keep.tmp\n")];
    assert!(f.should_analyze("d/keep.tmp", false, &files));
    assert!(!f.should_analyze("d/other.tmp", false, &files));
    assert!(!f.should_analyze("d/keep.tmp", false, &Vec::new()));
    // An ignore file of another directory does not lift the exclusion.
    assert!(!f.should_analyze("e/keep.tmp", false, &files));
    // A filter that does not honour ignore files keeps its own decision.
    let deaf = PathFilter::new(vec!["*.tmp".to_string()], None).unwrap();
    assert!(!deaf.should_analyze("d/keep.tmp", false, &files));
    // Taken by themselves, the ignore files do not ignore the file.
    assert!(!PathFilter::is_ignored_by_files("d/keep.tmp", false, &files));
    // A later exclusion in an ignore file wins over an include of the filter.
    let open = PathFilter::new(
        vec!["*.tmp".to_string(), "!keep.tmp".to_string()],
        Some(".guardianignore".to_string()),
    )
    .unwrap();
    assert!(open.should_analyze("d/keep.tmp", false, &Vec::new()));
    assert!(!open.should_analyze("d/keep.tmp", false, &vec![ignore("d", "keep.*\n")]));
    let kept = f.filter_paths(&vec![
        Candidate { path: "d/keep.tmp".to_string(), is_dir: false, ignore_files: files.clone() },
        Candidate { path: "d/other.tmp".to_string(), is_dir: false, ignore_files: files.clone() },
        Candidate { path: "d/code.rs".to_string(), is_dir: false, ignore_files: files },
    ]);
    assert_eq!(kept, vec![0, 2]);
}

#[test]
fn ignore_file_lines() {
    let rules = load_ignore_file("# comment\n\n  *.tmp  \n[bad\n!keep.tmp\r\n#x\n");
    assert_eq!(rules.len(), 2);
    let f = PathFilter::new(Vec::new(), Some("i".to_string())).unwrap();
    let files = vec![ignore("", "# comment\n\n  *.tmp  \n[bad\n!keep.tmp\r\n")];
    assert!(!f.should_analyze("a.tmp", false, &files));
    assert!(f.should_analyze("keep.tmp", false, &files));
    assert!(f.should_analyze("a.rs", false, &files));
}

#[test]
fn filtering_candidates() {
    let f = PathFilter::new(vec!["*.md".to_string()], Some("i".to_string())).unwrap();
    let candidate = |path: &str, ignore_files: Vec<IgnoreFile>| Candidate {
        path: path.to_string(),
        is_dir: false,
        ignore_files,
    };
    let candidates = vec![
        candidate("a.rs", vec![]),
        candidate("README.md", vec![]),
        candidate("b.tmp", vec![ignore("", "*.tmp")]),
        candidate("c.rs", vec![ignore("", "*.tmp")]),
    ];
    assert_eq!(f.filter_paths(&candidates), vec![0, 3]);
    assert_eq!(f.filter_paths(&Vec::new()), Vec::<usize>::new());
}

#[test]
fn debug_lines_say_which_patterns_match() {
    let f = filter(vec!["target/**", "!*.rs", "docs/"]);
    assert_eq!(
        f.debug_patterns("target/a.rs", false),
        vec![
            "Pattern 0: target/** -> MATCH",
            "Pattern 1: !*.rs -> MATCH",
            "Pattern 2: docs/ -> no match",
        ]
    );
}
