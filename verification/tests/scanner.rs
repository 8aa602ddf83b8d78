use dev_cleaner::config::{CustomPattern, MarkerMode};
use dev_cleaner::scanner::{
    Category, Confidence, DirEntry, EntryKind, FsTree, ProjectType, RiskLevel, RuleSource, Scanner,
};

const NOW: i64 = 1_700_000_000;
const DAY: i64 = 86_400;

fn file(name: &str, size: u64) -> DirEntry {
    DirEntry { name: name.to_string(), kind: EntryKind::File, size, modified: Some(NOW - 30 * DAY) }
}

fn dir(name: &str) -> DirEntry {
    DirEntry { name: name.to_string(), kind: EntryKind::Dir, size: 0, modified: Some(NOW - 30 * DAY) }
}

fn root(entries: Vec<DirEntry>) -> FsTree {
    FsTree::new("scan".to_string(), entries, NOW - 30 * DAY, None)
}

fn add(tree: &mut FsTree, parent: usize, name: &str, entries: Vec<DirEntry>) -> usize {
    tree.add_dir(parent, name.to_string(), entries, NOW - 30 * DAY, None).unwrap()
}

#[test]
fn test_scanner_basic() {
    let mut tree = root(vec![dir("test-project")]);
    let project = add(&mut tree, 0, "test-project", vec![file("package.json", 2), dir("node_modules")]);
    add(&mut tree, project, "node_modules", vec![file("test.txt", 4)]);

    let scanner = Scanner::new("/scan");
    let results = scanner.scan(&tree, NOW);

    assert_eq!(results.len(), 1);
    assert_eq!(results[0].project_type, ProjectType::NodeJs);
}

#[test]
fn node_project_yields_its_dependency_tree() {
    let mut tree = root(vec![dir("proj")]);
    let proj = add(&mut tree, 0, "proj", vec![file("package.json", 2), dir("node_modules")]);
    add(&mut tree, proj, "node_modules", vec![file("file", 7)]);

    let scanner = Scanner::new("/scan");
    let targets = scanner.scan(&tree, NOW);

    assert_eq!(targets.len(), 1);
    let t = &targets[0];
    assert_eq!(t.project_type, ProjectType::NodeJs);
    assert_eq!(t.cleanable_dir, "/scan/proj/node_modules");
    assert_eq!(t.root, "/scan/proj");
    assert_eq!(t.category, Category::Deps);
    assert_eq!(t.risk_level, RiskLevel::High);
    assert_eq!(t.confidence, Confidence::High);
    assert_eq!(t.matched_rule.as_ref().unwrap().source, RuleSource::Builtin);
    assert_eq!(t.matched_rule.as_ref().unwrap().pattern, "node_modules");
    assert_eq!(t.size, 7);
    assert!(t.size_calculated);
    assert_eq!(t.last_modified, NOW - 30 * DAY);
    assert!(!t.in_use);
    assert!(!t.protected);
    assert!(t.protected_by.is_none());
    assert!(!t.recent);
    assert!(t.selection_reason.is_none());
    assert!(t.skip_reason.is_none());
}

#[test]
fn cmake_build_tree_outside_the_sources_is_a_build_target() {
    let mut tree = root(vec![dir("proj")]);
    let proj = add(&mut tree, 0, "proj", vec![file("CMakeLists.txt", 10), dir("build")]);
    add(&mut tree, proj, "build", vec![file("CMakeCache.txt", 5)]);

    let targets = Scanner::new("/scan").scan(&tree, NOW);

    assert_eq!(targets.len(), 1);
    assert_eq!(targets[0].cleanable_dir, "/scan/proj/build");
    assert_eq!(targets[0].category, Category::Build);
}

#[test]
fn cmake_cache_beside_the_descriptor_is_not_flagged() {
    let mut tree = root(vec![dir("proj")]);
    add(&mut tree, 0, "proj", vec![file("CMakeLists.txt", 10), file("CMakeCache.txt", 5)]);

    let targets = Scanner::new("/scan").scan(&tree, NOW);

    assert!(targets.is_empty());
}

#[test]
fn three_cmake_build_trees_are_three_build_targets() {
    let mut tree = root(vec![dir("proj")]);
    let proj = add(
        &mut tree,
        0,
        "proj",
        vec![file("CMakeLists.txt", 10), dir("build"), dir("build-debug"), dir("_build")],
    );
    add(&mut tree, proj, "build", vec![file("CMakeCache.txt", 1)]);
    add(&mut tree, proj, "build-debug", vec![file("CMakeCache.txt", 2)]);
    add(&mut tree, proj, "_build", vec![file("CMakeCache.txt", 3)]);

    let targets = Scanner::new("/scan").scan(&tree, NOW);

    assert_eq!(targets.len(), 3);
    for t in &targets {
        assert_eq!(t.category, Category::Build);
        assert_eq!(t.root, "/scan/proj");
    }
    let mut dirs: Vec<&str> = targets.iter().map(|t| t.cleanable_dir.as_str()).collect();
    dirs.sort();
    assert_eq!(dirs, vec!["/scan/proj/_build", "/scan/proj/build", "/scan/proj/build-debug"]);
    let heuristic: Vec<&str> = targets
        .iter()
        .filter(|t| t.matched_rule.as_ref().unwrap().source == RuleSource::Heuristic)
        .map(|t| t.cleanable_dir.as_str())
        .collect();
    assert_eq!(heuristic.len(), 2);
    for t in &targets {
        if t.matched_rule.as_ref().unwrap().source == RuleSource::Heuristic {
            assert_eq!(t.confidence, Confidence::Medium);
            assert_eq!(t.project_type, ProjectType::Cpp);
        }
    }
}

#[test]
fn nested_cache_inside_a_virtual_environment_is_pruned() {
    let mut tree = root(vec![dir("app")]);
    let app = add(&mut tree, 0, "app", vec![file("requirements.txt", 1), dir(".venv")]);
    let venv = add(&mut tree, app, ".venv", vec![dir("lib")]);
    let lib = add(&mut tree, venv, "lib", vec![dir("python")]);
    let python = add(&mut tree, lib, "python", vec![dir("site-packages")]);
    let site = add(&mut tree, python, "site-packages", vec![dir("__pycache__")]);
    add(&mut tree, site, "__pycache__", vec![file("x.pyc", 100)]);

    let scanner = Scanner::new("/scan");
    let targets = scanner.scan(&tree, NOW);
    assert_eq!(targets.len(), 1);
    assert_eq!(targets[0].cleanable_dir, "/scan/app/.venv");
    assert_eq!(targets[0].size, 100);

    let (count, pending) = scanner.scan_with_streaming(&tree, NOW);
    assert_eq!(count, 1);
    assert_eq!(pending[0].cleanable_dir, "/scan/app/.venv");
    assert!(!pending[0].size_calculated);
    assert_eq!(pending[0].size, 0);
}

#[test]
fn custom_pattern_takes_precedence_over_builtin() {
    let mut tree = root(vec![dir("proj")]);
    let proj = add(&mut tree, 0, "proj", vec![file("package.json", 2), dir("node_modules")]);
    add(&mut tree, proj, "node_modules", vec![file("file", 7)]);

    let custom = vec![CustomPattern {
        name: "my-deps".to_string(),
        directory: "node_*".to_string(),
        marker_files: vec!["package.json".to_string()],
        marker_mode: MarkerMode::AnyOf,
    }];
    let targets = Scanner::new("/scan").custom_patterns(&custom).scan(&tree, NOW);

    assert_eq!(targets.len(), 1);
    let rule = targets[0].matched_rule.as_ref().unwrap();
    assert_eq!(rule.source, RuleSource::Custom);
    assert_eq!(rule.pattern, "node_*");
    assert_eq!(rule.name.as_deref(), Some("my-deps"));
    assert_eq!(targets[0].project_type, ProjectType::Generic);
    assert_eq!(targets[0].project_name.as_deref(), Some("my-deps"));
    assert_eq!(targets[0].confidence, Confidence::High);
}

#[test]
fn custom_pattern_needs_its_markers_in_the_root() {
    let mut tree = root(vec![dir("proj")]);
    let proj = add(&mut tree, 0, "proj", vec![file("a.marker", 2), dir("scratch")]);
    add(&mut tree, proj, "scratch", vec![file("file", 7)]);

    let all_of = vec![CustomPattern {
        name: "scratch".to_string(),
        directory: "scratch".to_string(),
        marker_files: vec!["a.marker".to_string(), "b.marker".to_string()],
        marker_mode: MarkerMode::AllOf,
    }];
    assert!(Scanner::new("/scan").custom_patterns(&all_of).scan(&tree, NOW).is_empty());

    let any_of = vec![CustomPattern {
        name: "scratch".to_string(),
        directory: "scratch".to_string(),
        marker_files: vec!["a.marker".to_string(), "b.marker".to_string()],
        marker_mode: MarkerMode::AnyOf,
    }];
    let targets = Scanner::new("/scan").custom_patterns(&any_of).scan(&tree, NOW);
    assert_eq!(targets.len(), 1);
    assert_eq!(targets[0].category, Category::Unknown);
    assert_eq!(targets[0].risk_level, RiskLevel::Medium);
}

#[test]
fn ignore_file_patterns_give_high_risk_low_confidence() {
    let mut tree = root(vec![dir("proj")]);
    let proj = tree
        .add_dir(
            0,
            "proj".to_string(),
            vec![file("Cargo.toml", 2), dir("target"), dir("generated"), dir("src")],
            NOW,
            Some("# build output\n/target/\n\n  generated/  \n!keep\n".to_string()),
        )
        .unwrap();
    add(&mut tree, proj, "target", vec![file("a", 10)]);
    add(&mut tree, proj, "generated", vec![file("b", 20)]);
    add(&mut tree, proj, "src", vec![file("main.rs", 30)]);

    let targets = Scanner::new("/scan").scan(&tree, NOW);

    assert_eq!(targets.len(), 2);
    assert_eq!(targets[0].cleanable_dir, "/scan/proj/generated");
    assert_eq!(targets[0].matched_rule.as_ref().unwrap().source, RuleSource::Gitignore);
    assert_eq!(targets[0].risk_level, RiskLevel::High);
    assert_eq!(targets[0].confidence, Confidence::Low);
    assert_eq!(targets[0].category, Category::Unknown);
    assert_eq!(targets[1].cleanable_dir, "/scan/proj/target");
    assert_eq!(targets[1].matched_rule.as_ref().unwrap().source, RuleSource::Builtin);
    assert_eq!(targets[1].risk_level, RiskLevel::Medium);
}

#[test]
fn version_control_and_excluded_directories_are_never_entered() {
    let mut tree = root(vec![dir("proj")]);
    let proj = add(
        &mut tree,
        0,
        "proj",
        vec![file("package.json", 2), dir(".git"), dir("skipme"), dir("pkg")],
    );
    let git = add(&mut tree, proj, ".git", vec![dir("node_modules")]);
    add(&mut tree, git, "node_modules", vec![file("x", 1)]);
    let skip = add(&mut tree, proj, "skipme", vec![dir("node_modules")]);
    add(&mut tree, skip, "node_modules", vec![file("x", 1)]);
    let pkg = add(&mut tree, proj, "pkg", vec![dir("node_modules")]);
    add(&mut tree, pkg, "node_modules", vec![file("x", 1)]);

    let scanner = Scanner::new("/scan").exclude_dirs(&vec!["skipme".to_string()]);
    let targets = scanner.scan(&tree, NOW);

    assert_eq!(targets.len(), 1);
    assert_eq!(targets[0].cleanable_dir, "/scan/proj/pkg/node_modules");
}

#[test]
fn depth_limit_stops_the_descent() {
    let mut tree = root(vec![dir("proj")]);
    let proj = add(&mut tree, 0, "proj", vec![file("package.json", 2), dir("a")]);
    let a = add(&mut tree, proj, "a", vec![dir("node_modules")]);
    add(&mut tree, a, "node_modules", vec![file("x", 1)]);

    assert_eq!(Scanner::new("/scan").max_depth(3).scan(&tree, NOW).len(), 1);
    assert_eq!(Scanner::new("/scan").max_depth(2).scan(&tree, NOW).len(), 0);
}

#[test]
fn results_are_sorted_by_size_and_filtered() {
    let mut tree = root(vec![dir("one"), dir("two")]);
    let one = add(&mut tree, 0, "one", vec![file("Cargo.toml", 2), dir("target")]);
    add(&mut tree, one, "target", vec![file("a", 10)]);
    let two = add(&mut tree, 0, "two", vec![file("Cargo.toml", 2), dir("target")]);
    let target = add(&mut tree, two, "target", vec![file("b", 20), dir("debug")]);
    add(&mut tree, target, "debug", vec![file("c", 30)]);

    let targets = Scanner::new("/scan").scan(&tree, NOW);
    assert_eq!(targets.len(), 2);
    assert_eq!(targets[0].size, 50);
    assert_eq!(targets[0].cleanable_dir, "/scan/two/target");
    assert_eq!(targets[1].size, 10);

    let big = Scanner::new("/scan").min_size(11).scan(&tree, NOW);
    assert_eq!(big.len(), 1);
    assert_eq!(big[0].size, 50);

    assert_eq!(Scanner::new("/scan").max_age_days(30).scan(&tree, NOW).len(), 2);
    assert_eq!(Scanner::new("/scan").max_age_days(31).scan(&tree, NOW).len(), 0);
    assert_eq!(Scanner::new("/scan").category(Category::Deps).scan(&tree, NOW).len(), 0);
    assert_eq!(Scanner::new("/scan").category(Category::Build).scan(&tree, NOW).len(), 2);
    assert_eq!(Scanner::new("/scan").max_risk(RiskLevel::Low).scan(&tree, NOW).len(), 0);
    assert_eq!(Scanner::new("/scan").max_risk(RiskLevel::Medium).scan(&tree, NOW).len(), 2);
}

#[test]
fn scanning_twice_gives_the_same_targets() {
    let mut tree = root(vec![dir("proj")]);
    let proj = add(&mut tree, 0, "proj", vec![file("package.json", 2), dir("node_modules"), dir("dist")]);
    add(&mut tree, proj, "node_modules", vec![file("file", 7)]);
    add(&mut tree, proj, "dist", vec![file("file", 9)]);

    let scanner = Scanner::new("/scan");
    let first: Vec<(String, Category, RiskLevel)> = scanner
        .scan(&tree, NOW)
        .into_iter()
        .map(|t| (t.cleanable_dir, t.category, t.risk_level))
        .collect();
    let second: Vec<(String, Category, RiskLevel)> = scanner
        .scan(&tree, NOW + 400 * DAY)
        .into_iter()
        .map(|t| (t.cleanable_dir, t.category, t.risk_level))
        .collect();
    assert_eq!(first.len(), 2);
    assert_eq!(first, second);
}

#[test]
fn recently_touched_lock_file_marks_the_project_in_use() {
    let mut tree = root(vec![dir("proj")]);
    let lock = DirEntry {
        name: "Cargo.lock".to_string(),
        kind: EntryKind::File,
        size: 1,
        modified: Some(NOW - 6 * DAY),
    };
    let proj = add(&mut tree, 0, "proj", vec![file("Cargo.toml", 2), lock, dir("target")]);
    add(&mut tree, proj, "target", vec![file("a", 10)]);

    let scanner = Scanner::new("/scan");
    assert!(scanner.scan(&tree, NOW)[0].in_use);
    assert!(!scanner.scan(&tree, NOW + 2 * DAY)[0].in_use);
}

#[test]
fn path_relative_builtin_pattern_matches_below_the_root() {
    let mut tree = root(vec![dir("app")]);
    let app = add(&mut tree, 0, "app", vec![file("Gemfile", 2), dir("vendor")]);
    let vendor = add(&mut tree, app, "vendor", vec![dir("bundle")]);
    add(&mut tree, vendor, "bundle", vec![file("gem", 11)]);

    let targets = Scanner::new("/scan").scan(&tree, NOW);
    assert_eq!(targets.len(), 1);
    assert_eq!(targets[0].cleanable_dir, "/scan/app/vendor/bundle");
    assert_eq!(targets[0].matched_rule.as_ref().unwrap().pattern, "vendor/bundle");
    assert_eq!(targets[0].project_type, ProjectType::Ruby);
}
