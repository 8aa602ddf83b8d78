use dev_cleaner::config::{CustomPattern, MarkerMode};
use dev_cleaner::glob::pattern_matches;
use dev_cleaner::scanner::dedup::deduplicate_nested_dirs;
use dev_cleaner::scanner::rules::{custom_applies, parse_ignore_file};
use dev_cleaner::scanner::size_calculator::calculate_dir_size;
use dev_cleaner::scanner::walker::{join_path, relative_path};
use dev_cleaner::scanner::{
    DirEntry, EntryKind, FsTree, Matcher, MatcherCache, ProjectDetector, ProjectInfo, ProjectType,
    RuleSource,
};

const NOW: i64 = 1_700_000_000;
const DAY: i64 = 86_400;

fn entry(name: &str, kind: EntryKind, size: u64, modified: Option<i64>) -> DirEntry {
    DirEntry { name: name.to_string(), kind, size, modified }
}

fn files(names: &[&str]) -> Vec<DirEntry> {
    names.iter().map(|n| entry(n, EntryKind::File, 1, Some(NOW))).collect()
}

#[test]
fn each_ecosystem_is_detected_by_its_markers() {
    let cases: Vec<(&str, Option<ProjectType>)> = vec![
        ("package.json", Some(ProjectType::NodeJs)),
        ("package-lock.json", Some(ProjectType::NodeJs)),
        ("Cargo.toml", Some(ProjectType::Rust)),
        ("requirements.txt", Some(ProjectType::Python)),
        ("setup.py", Some(ProjectType::Python)),
        ("pyproject.toml", Some(ProjectType::Python)),
        ("Pipfile", Some(ProjectType::Python)),
        ("pom.xml", Some(ProjectType::Maven)),
        ("build.gradle", Some(ProjectType::Gradle)),
        ("build.gradle.kts", Some(ProjectType::Gradle)),
        ("go.mod", Some(ProjectType::Go)),
        ("Gemfile", Some(ProjectType::Ruby)),
        ("Package.swift", Some(ProjectType::Swift)),
        ("composer.json", Some(ProjectType::Php)),
        ("mix.exs", Some(ProjectType::Elixir)),
        ("*.csproj", Some(ProjectType::DotNet)),
        ("*.sln", Some(ProjectType::DotNet)),
        ("CMakeLists.txt", Some(ProjectType::Cpp)),
        ("Makefile", Some(ProjectType::Cpp)),
        ("README.md", None),
        ("app.csproj", None),
    ];
    for (marker, expected) in cases {
        assert_eq!(ProjectDetector::detect(&files(&["notes.txt", marker])), expected, "{}", marker);
    }
    assert_eq!(ProjectDetector::detect(&Vec::new()), None);
    let as_dir = vec![entry("Cargo.toml", EntryKind::Dir, 0, None)];
    assert_eq!(ProjectDetector::detect(&as_dir), Some(ProjectType::Rust));
}

#[test]
fn the_first_ecosystem_in_the_fixed_order_wins() {
    assert_eq!(
        ProjectDetector::detect(&files(&["Makefile", "Cargo.toml", "package.json"])),
        Some(ProjectType::NodeJs)
    );
    assert_eq!(ProjectDetector::detect(&files(&["Makefile", "go.mod", "pom.xml"])), Some(ProjectType::Maven));
    assert_eq!(ProjectDetector::detect(&files(&["Makefile", "mix.exs"])), Some(ProjectType::Elixir));
}

#[test]
fn builtin_patterns_by_ecosystem() {
    assert_eq!(
        ProjectDetector::cleanable_dirs(ProjectType::NodeJs),
        vec!["node_modules", ".next", ".nuxt", "dist", "build", ".cache", ".turbo", ".parcel-cache"]
    );
    assert_eq!(ProjectDetector::cleanable_dirs(ProjectType::Rust), vec!["target"]);
    assert_eq!(
        ProjectDetector::cleanable_dirs(ProjectType::Python),
        vec![
            ".venv",
            "venv",
            "__pycache__",
            ".pytest_cache",
            ".mypy_cache",
            ".tox",
            "*.egg-info",
            ".eggs",
            "build",
            "dist"
        ]
    );
    assert_eq!(ProjectDetector::cleanable_dirs(ProjectType::Java), vec!["target", "out"]);
    assert_eq!(ProjectDetector::cleanable_dirs(ProjectType::Maven), vec!["target", "out"]);
    assert_eq!(ProjectDetector::cleanable_dirs(ProjectType::Kotlin), vec!["build", ".gradle", "out"]);
    assert_eq!(ProjectDetector::cleanable_dirs(ProjectType::Gradle), vec!["build", ".gradle", "out"]);
    assert_eq!(ProjectDetector::cleanable_dirs(ProjectType::Go), vec!["vendor", "bin"]);
    assert_eq!(
        ProjectDetector::cleanable_dirs(ProjectType::Cpp),
        vec!["build", "cmake-build-debug", "cmake-build-release", "out"]
    );
    assert_eq!(ProjectDetector::cleanable_dirs(ProjectType::C), ProjectDetector::cleanable_dirs(ProjectType::Cpp));
    assert_eq!(ProjectDetector::cleanable_dirs(ProjectType::Ruby), vec!["vendor/bundle", ".bundle"]);
    assert_eq!(ProjectDetector::cleanable_dirs(ProjectType::Swift), vec![".build", "DerivedData", ".swiftpm"]);
    assert_eq!(ProjectDetector::cleanable_dirs(ProjectType::Php), vec!["vendor"]);
    assert_eq!(ProjectDetector::cleanable_dirs(ProjectType::Elixir), vec!["_build", "deps"]);
    assert_eq!(ProjectDetector::cleanable_dirs(ProjectType::DotNet), vec!["bin", "obj"]);
    assert!(ProjectDetector::cleanable_dirs(ProjectType::Generic).is_empty());
    assert_eq!(ProjectType::Cpp.name(), "C++");
    assert_eq!(ProjectType::DotNet.name(), ".NET");
    assert_eq!(ProjectType::NodeJs.name(), "Node.js");
    assert_eq!(ProjectType::NodeJs.color(), "green");
    assert_eq!(ProjectType::Gradle.color(), "cyan");
    assert_eq!(ProjectType::Cpp.color(), "white");
    assert_eq!(ProjectType::Php.color(), "magenta");
}

#[test]
fn a_project_is_in_use_for_seven_days_after_a_lock_file_changed() {
    let with_lock = |name: &str, modified: Option<i64>| vec![entry(name, EntryKind::File, 1, modified)];
    let week = 7 * DAY;
    assert!(ProjectDetector::is_in_use(&with_lock("Cargo.lock", Some(NOW)), ProjectType::Rust, NOW));
    assert!(ProjectDetector::is_in_use(&with_lock("Cargo.lock", Some(NOW - week + 1)), ProjectType::Rust, NOW));
    assert!(!ProjectDetector::is_in_use(&with_lock("Cargo.lock", Some(NOW - week)), ProjectType::Rust, NOW));
    assert!(!ProjectDetector::is_in_use(&with_lock("Cargo.lock", Some(NOW + 1)), ProjectType::Rust, NOW));
    assert!(!ProjectDetector::is_in_use(&with_lock("Cargo.lock", None), ProjectType::Rust, NOW));
    assert!(!ProjectDetector::is_in_use(&with_lock("Cargo.lock", Some(NOW)), ProjectType::NodeJs, NOW));
    assert!(ProjectDetector::is_in_use(&with_lock("yarn.lock", Some(NOW)), ProjectType::NodeJs, NOW));
    assert!(ProjectDetector::is_in_use(&with_lock("pnpm-lock.yaml", Some(NOW)), ProjectType::NodeJs, NOW));
    assert!(ProjectDetector::is_in_use(&with_lock("poetry.lock", Some(NOW)), ProjectType::Python, NOW));
    assert!(ProjectDetector::is_in_use(&with_lock("go.sum", Some(NOW)), ProjectType::Go, NOW));
    assert!(ProjectDetector::is_in_use(&with_lock("Gemfile.lock", Some(NOW)), ProjectType::Ruby, NOW));
    assert!(ProjectDetector::is_in_use(&with_lock("composer.lock", Some(NOW)), ProjectType::Php, NOW));
    assert!(!ProjectDetector::is_in_use(&with_lock("mix.lock", Some(NOW)), ProjectType::Elixir, NOW));
    assert!(ProjectDetector::is_in_use(
        &with_lock("Cargo.lock", Some(i64::MIN)),
        ProjectType::Rust,
        i64::MIN + 5
    ));
    assert!(!ProjectDetector::is_in_use(&with_lock("Cargo.lock", Some(i64::MIN)), ProjectType::Rust, i64::MAX));
    assert!(ProjectDetector::is_cmake_out_of_source(&files(&["CMakeCache.txt"])));
    assert!(!ProjectDetector::is_cmake_out_of_source(&files(&["CMakeCache.txt", "CMakeLists.txt"])));
    assert!(!ProjectDetector::is_cmake_out_of_source(&files(&["CMakeLists.txt"])));
}

#[test]
fn ignore_files_are_read_line_by_line() {
    assert_eq!(
        parse_ignore_file("# comment\n\n/target/\n  dist  \n!keep\nlogs/*.log\r\n/\n//\nbuild"),
        vec!["target", "dist", "logs/*.log", "build"]
    );
    assert!(parse_ignore_file("").is_empty());
    assert!(parse_ignore_file("\n\n").is_empty());
    assert_eq!(parse_ignore_file("a"), vec!["a"]);
    assert_eq!(parse_ignore_file("a\n"), vec!["a"]);
    assert_eq!(parse_ignore_file("/a/b/"), vec!["a/b"]);
    assert_eq!(parse_ignore_file(" #x\n x#y "), vec!["x#y"]);
}

#[test]
fn rules_are_merged_in_order_of_precedence() {
    let custom = vec![
        CustomPattern {
            name: "out".to_string(),
            directory: "out*".to_string(),
            marker_files: vec!["Cargo.toml".to_string()],
            marker_mode: MarkerMode::AnyOf,
        },
        CustomPattern {
            name: "never".to_string(),
            directory: "target".to_string(),
            marker_files: vec![],
            marker_mode: MarkerMode::AnyOf,
        },
        CustomPattern {
            name: "always".to_string(),
            directory: "[broken".to_string(),
            marker_files: vec![],
            marker_mode: MarkerMode::AllOf,
        },
    ];
    let listing = files(&["Cargo.toml"]);
    assert!(custom_applies(&custom[0], &listing));
    assert!(!custom_applies(&custom[1], &listing));
    assert!(custom_applies(&custom[2], &listing));

    let ignore = Some("target\ngenerated\ndocs/api\ngenerated\n".to_string());
    let matcher = Matcher::build(Some(ProjectType::Rust), &listing, &ignore, &custom);
    assert_eq!(matcher.ecosystem, Some(ProjectType::Rust));
    let listed: Vec<(RuleSource, &str)> =
        matcher.rules.iter().map(|r| (r.source, r.pattern.as_str())).collect();
    assert_eq!(
        listed,
        vec![
            (RuleSource::Custom, "out*"),
            (RuleSource::Custom, "[broken"),
            (RuleSource::Builtin, "target"),
            (RuleSource::Gitignore, "generated"),
            (RuleSource::Gitignore, "docs/api"),
        ]
    );
    assert_eq!(matcher.rules[0].name.as_deref(), Some("out"));
    assert!(matcher.rules[2].name.is_none());

    assert_eq!(matcher.matched_rule("target", "target").unwrap().source, RuleSource::Builtin);
    assert_eq!(matcher.matched_rule("output", "a/output").unwrap().source, RuleSource::Custom);
    assert_eq!(matcher.matched_rule("generated", "x/generated").unwrap().source, RuleSource::Gitignore);
    assert_eq!(matcher.matched_rule("api", "docs/api").unwrap().pattern, "docs/api");
    assert!(matcher.matched_rule("api", "other/docs/api").is_none());
    assert!(matcher.matched_rule("docs/api", "x").is_none());
    assert!(matcher.matched_rule("[broken", "[broken").is_none());
    assert!(matcher.matches("target", "deep/down/target"));
    assert!(!matcher.matches("src", "src"));

    let bare = Matcher::build(None, &listing, &ignore, &Vec::new());
    assert!(bare.rules.is_empty());
    assert!(!bare.matches("target", "target"));
}

#[test]
fn globs_match_as_the_glob_crate_says() {
    assert!(pattern_matches("*.egg-info", "dev_cleaner.egg-info"));
    assert!(!pattern_matches("*.egg-info", "egg-info"));
    assert!(pattern_matches("node_modules", "node_modules"));
    assert!(!pattern_matches("node_modules", "node_module"));
    assert!(!pattern_matches("*", "a/b"));
    assert!(pattern_matches("**/b", "a/b"));
    assert!(pattern_matches("a?c", "abc"));
    assert!(pattern_matches("\\*", "*"));
    assert!(!pattern_matches("[unclosed", "[unclosed"));
    assert!(!pattern_matches("{a,b", "a"));
    assert!(!pattern_matches("abc", "xyz"));
    assert!(!pattern_matches("abc", ""));
}

fn at(dir: &str) -> ProjectInfo {
    ProjectInfo::new_pending("/r".to_string(), ProjectType::Generic, dir.to_string(), 0, false)
}

#[test]
fn only_topmost_candidates_are_kept() {
    let kept = deduplicate_nested_dirs(vec![
        at("/r/a/.venv/lib/__pycache__"),
        at("/r/a/.venv"),
        at("/r/a/.venvs"),
        at("/r/b"),
        at("/r/b/c/d"),
        at("/r/b/c"),
        at("/r/bc"),
    ]);
    let dirs: Vec<&str> = kept.iter().map(|p| p.cleanable_dir.as_str()).collect();
    assert_eq!(dirs, vec!["/r/a/.venv", "/r/a/.venvs", "/r/b", "/r/bc"]);
    for a in &kept {
        for b in &kept {
            if a.cleanable_dir != b.cleanable_dir {
                assert!(!std::path::Path::new(&a.cleanable_dir).starts_with(&b.cleanable_dir));
            }
        }
    }
    let twice = deduplicate_nested_dirs(vec![at("/r/x"), at("/r/x"), at("/r/x/y")]);
    assert_eq!(twice.len(), 2);
    assert!(deduplicate_nested_dirs(Vec::new()).is_empty());
    let below_root = deduplicate_nested_dirs(vec![at("/"), at("/a")]);
    assert_eq!(below_root.len(), 1);
    assert_eq!(below_root[0].cleanable_dir, "/");
}

#[test]
fn sizes_count_regular_files_only() {
    let mut tree = FsTree::new(
        "root".to_string(),
        vec![entry("a", EntryKind::File, 5, None), entry("sub", EntryKind::Dir, 4096, None)],
        NOW,
        None,
    );
    let sub = tree
        .add_dir(
            0,
            "sub".to_string(),
            vec![
                entry("b", EntryKind::File, 7, None),
                entry("link", EntryKind::Other, 100, None),
                entry("deep", EntryKind::Dir, 4096, None),
            ],
            NOW,
            None,
        )
        .unwrap();
    let deep = tree.add_dir(sub, "deep".to_string(), vec![entry("c", EntryKind::File, 11, None)], NOW, None).unwrap();
    let other = tree.add_dir(0, "other".to_string(), vec![entry("d", EntryKind::File, 13, None)], NOW, None).unwrap();
    assert_eq!(calculate_dir_size(&tree, 0), 36);
    assert_eq!(calculate_dir_size(&tree, sub), 18);
    assert_eq!(calculate_dir_size(&tree, deep), 11);
    assert_eq!(calculate_dir_size(&tree, other), 13);
    assert_eq!(calculate_dir_size(&tree, 99), 0);
    assert_eq!(relative_path(&tree, 0, deep), "sub/deep");
    assert_eq!(relative_path(&tree, sub, deep), "deep");
    assert_eq!(join_path("/a", "b"), "/a/b");
    assert_eq!(join_path("/", "b"), "/b");
    assert_eq!(join_path("", "b"), "/b");

    let mut big = FsTree::new(
        "root".to_string(),
        vec![entry("a", EntryKind::File, u64::MAX, None), entry("b", EntryKind::File, 2, None)],
        NOW,
        None,
    );
    big.add_dir(0, "x".to_string(), vec![entry("c", EntryKind::File, 9, None)], NOW, None);
    assert_eq!(calculate_dir_size(&big, 0), u64::MAX);
}

#[test]
fn the_matcher_cached_first_stays() {
    let mut cache = MatcherCache::new();
    assert!(!cache.holds(2));
    let first = Matcher::build(Some(ProjectType::Rust), &Vec::new(), &None, &Vec::new());
    let second = Matcher::build(Some(ProjectType::NodeJs), &Vec::new(), &None, &Vec::new());
    cache.insert(2, first);
    assert!(cache.holds(2));
    assert!(!cache.holds(0));
    assert!(!cache.holds(1));
    assert!(!cache.holds(3));
    cache.insert(2, second);
    assert_eq!(cache.slots.len(), 3);
    assert_eq!(cache.slots[2].as_ref().unwrap().ecosystem, Some(ProjectType::Rust));
    assert_eq!(cache.slots[2].as_ref().unwrap().rules.len(), 1);
}
