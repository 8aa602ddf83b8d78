use dev_cleaner::config::Config;
use dev_cleaner::policy::keep::{
    expand_tilde, has_glob_chars, is_same_or_child, match_project_pattern, matches_pattern_path, KeepFacts,
    PatternError, PatternFile,
};
use dev_cleaner::policy::KeepPolicy;
use dev_cleaner::scanner::{Category, Confidence, ProjectInfo, RiskLevel};
use dev_cleaner::stats::Statistics;
use dev_cleaner::ProjectType;

const NOW: i64 = 1_700_000_000;
const DAY: i64 = 86_400;

fn info(root: &str, project_type: ProjectType, dir: &str, size: u64, age_days: i64) -> ProjectInfo {
    ProjectInfo {
        root: root.to_string(),
        project_type,
        project_name: None,
        category: Category::Build,
        risk_level: RiskLevel::Medium,
        confidence: Confidence::High,
        matched_rule: None,
        cleanable_dir: dir.to_string(),
        size,
        size_calculated: true,
        last_modified: NOW - age_days * DAY,
        in_use: false,
        protected: false,
        protected_by: None,
        recent: false,
        selection_reason: None,
        skip_reason: None,
    }
}

#[test]
fn test_statistics_from_projects() {
    let projects = vec![
        info("/test1", ProjectType::NodeJs, "/test1/node_modules", 1000000, 0),
        info("/test2", ProjectType::Rust, "/test2/target", 2000000, 0),
    ];

    let stats = Statistics::from_projects(projects, NOW);

    assert_eq!(stats.total_projects, 2);
    assert_eq!(stats.total_size, 3000000);
    assert_eq!(stats.by_type.len(), 2);
    assert_eq!(stats.top_largest.len(), 2);
}

#[test]
fn statistics_group_by_kind_and_age() {
    let mut custom = info("/c", ProjectType::Generic, "/c/out", 40, 100);
    custom.project_name = Some("mine".to_string());
    let projects = vec![
        info("/a", ProjectType::Rust, "/a/target", 10, 5),
        info("/b", ProjectType::NodeJs, "/b/node_modules", 300, 29),
        info("/a2", ProjectType::Rust, "/a2/target", 21, 30),
        custom,
        info("/d", ProjectType::Rust, "/d/target", 2, 89),
        info("/e", ProjectType::NodeJs, "/e/dist", 5, 90),
    ];
    let stats = Statistics::from_projects(projects, NOW);
    assert_eq!(stats.total_size, 378);
    let names: Vec<&str> = stats.by_type.iter().map(|(n, _)| n.as_str()).collect();
    assert_eq!(names, vec!["Rust", "Node.js", "mine"]);
    assert_eq!(stats.by_type[0].1.total_size, 33);
    assert_eq!(stats.by_type[0].1.count, 3);
    assert_eq!(stats.by_type[0].1.avg_size, 11);
    assert_eq!(stats.by_type[1].1.avg_size, 152);
    assert_eq!(stats.by_age_group.recent, (2, 310));
    assert_eq!(stats.by_age_group.medium, (2, 23));
    assert_eq!(stats.by_age_group.old, (2, 45));
    let sizes: Vec<u64> = stats.top_largest.iter().map(|p| p.size).collect();
    assert_eq!(sizes, vec![300, 40, 21, 10, 5, 2]);
    assert_eq!(stats.top_largest[1].project_type, "mine");
    assert_eq!(stats.top_largest[1].path, "/c/out");
    assert_eq!(stats.top_largest[1].age_days, 100);
    assert_eq!(stats.top_five_share(), Some((376 * 100) / 378));

    let few = Statistics::from_projects(vec![info("/a", ProjectType::Rust, "/a/target", 10, 5)], NOW);
    assert_eq!(few.top_five_share(), None);
    let empty = Statistics::from_projects(Vec::new(), NOW);
    assert_eq!(empty.total_projects, 0);
    assert_eq!(empty.total_size, 0);
    assert!(empty.by_type.is_empty());
}

fn no_facts() -> KeepFacts {
    KeepFacts { has_keep_marker: false, pattern_file: PatternFile::Absent }
}

#[test]
fn project_keep_marker_protects_target() {
    let info = info("/tmp/app", ProjectType::Rust, "/tmp/app/target", 10, 0);
    let policy = KeepPolicy::from_config(&Config::default(), None);
    let facts = KeepFacts { has_keep_marker: true, pattern_file: PatternFile::Absent };
    let decision = policy.evaluate(&info, &facts, None);
    assert!(decision.protected);
    assert_eq!(decision.reason.as_deref(), Some("project_marker:.dev-cleaner-keep"));
    assert!(!policy.evaluate(&info, &no_facts(), None).protected);
    assert!(policy.evaluate(&info, &no_facts(), None).reason.is_none());
}

#[test]
fn pattern_file_protects_matching_targets() {
    let target = info("/work/app", ProjectType::Rust, "/work/app/build/out", 10, 0);
    let policy = KeepPolicy::from_config(&Config::default(), None);
    let with = |text: &str| KeepFacts {
        has_keep_marker: false,
        pattern_file: PatternFile::Content(text.to_string()),
    };
    let hit = policy.evaluate(&target, &with("# keep the build\n\n  build  \n"), None);
    assert_eq!(hit.reason.as_deref(), Some("project_marker:.dev-cleaner-keep-patterns"));
    assert!(policy.is_protected(&target, &with("build/*"), None));
    assert!(!policy.is_protected(&target, &with("build/*/deeper"), None));
    assert!(policy.is_protected(&target, &with("/work/app/build"), None));
    assert!(policy.is_protected(&target, &with("/work/*/build/out"), None));
    assert!(!policy.is_protected(&target, &with("other\n#build\n"), None));
    let broken = policy.evaluate(&target, &with("nothing\n[unclosed\nbuild\n"), None);
    assert!(broken.protected);
    assert_eq!(
        broken.reason.as_deref(),
        Some("project_marker:.dev-cleaner-keep-patterns(parse_error:invalid glob pattern)")
    );
    let early = policy.evaluate(&target, &with("build\n[unclosed\n"), None);
    assert_eq!(early.reason.as_deref(), Some("project_marker:.dev-cleaner-keep-patterns"));
    let unreadable = KeepFacts {
        has_keep_marker: false,
        pattern_file: PatternFile::Unreadable("denied".to_string()),
    };
    assert_eq!(
        policy.evaluate(&target, &unreadable, None).reason.as_deref(),
        Some("project_marker:.dev-cleaner-keep-patterns(parse_error:denied)")
    );
}

#[test]
fn configured_paths_and_globs_protect() {
    let target = info("/work/app", ProjectType::Rust, "/work/app/target", 10, 0);
    let mut config = Config::default();
    config.keep_project_roots = vec!["/work/*".to_string()];
    let policy = KeepPolicy::from_config(&config, None);
    assert_eq!(policy.evaluate(&target, &no_facts(), None).reason.as_deref(), Some("config_keep_project_roots"));

    let mut config = Config::default();
    config.keep_paths = vec!["~/app/target/debug".to_string()];
    let policy = KeepPolicy::from_config(&config, Some("/work"));
    assert_eq!(policy.keep_paths, vec!["/work/app/target/debug"]);
    assert_eq!(policy.evaluate(&target, &no_facts(), Some("/work")).reason.as_deref(), Some("config_keep_paths"));
    config.keep_paths = vec!["/work".to_string()];
    assert!(KeepPolicy::from_config(&config, None).is_protected(&target, &no_facts(), None));
    config.keep_paths = vec!["/work/application".to_string()];
    assert!(!KeepPolicy::from_config(&config, None).is_protected(&target, &no_facts(), None));

    let mut config = Config::default();
    config.keep_globs = vec!["[broken".to_string(), "/work/**/target".to_string()];
    let policy = KeepPolicy::from_config(&config, None);
    assert_eq!(policy.evaluate(&target, &no_facts(), None).reason.as_deref(), Some("config_keep_globs"));
    config.keep_globs = vec!["/work/*/src".to_string()];
    assert!(!KeepPolicy::from_config(&config, None).is_protected(&target, &no_facts(), None));
}

#[test]
fn keep_pattern_helpers() {
    assert!(has_glob_chars("a*b"));
    assert!(has_glob_chars("a?"));
    assert!(has_glob_chars("[ab]"));
    assert!(!has_glob_chars("plain/path"));
    assert!(is_same_or_child("/a/b", "/a"));
    assert!(is_same_or_child("/a", "/a"));
    assert!(is_same_or_child("/a/b", "/"));
    assert!(!is_same_or_child("/ab", "/a"));
    assert!(!is_same_or_child("/a", "/a/b"));
    assert_eq!(expand_tilde("~/x", Some("/home/u")), "/home/u/x");
    assert_eq!(expand_tilde("~/x", None), "~/x");
    assert_eq!(expand_tilde("~x", Some("/home/u")), "~x");
    assert_eq!(expand_tilde("/abs", Some("/home/u")), "/abs");
    assert_eq!(matches_pattern_path("/a/*", "/a/b"), Ok(true));
    assert_eq!(matches_pattern_path("/a/*", "/a/b/c"), Ok(false));
    assert_eq!(matches_pattern_path("/a", "/a/b/c"), Ok(true));
    assert_eq!(matches_pattern_path("/a/[", "/a/b"), Err(PatternError::InvalidGlob));
    assert_eq!(match_project_pattern("/r", "/r/x/y", "x", None), Ok(true));
    assert_eq!(match_project_pattern("/r", "/r/x/y", "x/*", None), Ok(true));
    assert_eq!(match_project_pattern("/r", "/r/x/y", "y", None), Ok(false));
    assert_eq!(match_project_pattern("/r", "/elsewhere", "*", None), Ok(true));
    assert_eq!(match_project_pattern("/r", "/r/x", "~/x", Some("/r")), Ok(true));
}
