use dev_cleaner::cli::{parse_selection, select_projects, shorten_path, total_size};
use dev_cleaner::metrics::{after_failure, events_log_path, Retry};
use dev_cleaner::plan::CleanupPlan;
use dev_cleaner::scanner::{
    Category, Confidence, DirEntry, EntryKind, FsTree, MatcherCache, ProjectInfo, RiskLevel, Scanner,
};
use dev_cleaner::tui::{contains_chars, AppState, KeyInput, KeyOutcome, SortKey};
use dev_cleaner::ProjectType;

const NOW: i64 = 1_700_000_000;
const DAY: i64 = 86_400;

fn target(dir: &str, size: u64, age_days: i64, risk: RiskLevel, category: Category) -> ProjectInfo {
    ProjectInfo {
        root: "/p".to_string(),
        project_type: ProjectType::Rust,
        project_name: None,
        category,
        risk_level: risk,
        confidence: Confidence::High,
        matched_rule: None,
        cleanable_dir: dir.to_string(),
        size,
        size_calculated: true,
        last_modified: NOW - age_days * DAY,
        in_use: false,
        protected: false,
        protected_by: None,
        recent: false,
        selection_reason: None,
        skip_reason: None,
    }
}

fn sample() -> Vec<ProjectInfo> {
    let mut used = target("/p/used/target", 40, 50, RiskLevel::Medium, Category::Build);
    used.in_use = true;
    let mut kept = target("/p/kept/node_modules", 90, 60, RiskLevel::High, Category::Deps);
    kept.protected = true;
    vec![
        target("/p/a/target", 10, 100, RiskLevel::Medium, Category::Build),
        target("/p/b/.cache", 30, 20, RiskLevel::Low, Category::Cache),
        target("/p/c/Node_Modules", 20, 3, RiskLevel::High, Category::Deps),
        used,
        kept,
    ]
}

#[test]
fn the_list_starts_with_the_safe_targets_selected() {
    let app = AppState::new(sample(), false, false, 7, NOW);
    assert_eq!(app.visible_indices, vec![3, 1, 0]);
    assert_eq!(app.selected, vec![true, true, false, false, false]);
    assert_eq!(app.cursor, Some(0));
    assert!(app.projects[2].recent);
    assert!(!app.projects[0].recent);
    assert_eq!(app.selected_count(), 2);
    assert_eq!(app.selected_size(), 40);
    assert_eq!(app.visible_total_size(), 80);
    assert_eq!(app.selected_project(), Some(3));
    let picked: Vec<String> = app.get_selected_projects().into_iter().map(|p| p.cleanable_dir).collect();
    assert_eq!(picked, vec!["/p/a/target", "/p/b/.cache"]);

    let empty = AppState::new(Vec::new(), false, false, 7, NOW);
    assert!(empty.visible_indices.is_empty());
    assert_eq!(empty.cursor, None);
    assert_eq!(empty.selected_project(), None);
}

#[test]
fn keys_move_filter_and_sort_the_list() {
    let mut app = AppState::new(sample(), false, false, 7, NOW);
    assert_eq!(app.handle_key(KeyInput::Down, NOW), KeyOutcome::Continue);
    assert_eq!(app.cursor, Some(1));
    app.handle_key(KeyInput::Char('j'), NOW);
    app.handle_key(KeyInput::Char('j'), NOW);
    assert_eq!(app.cursor, Some(0));
    app.handle_key(KeyInput::Up, NOW);
    assert_eq!(app.cursor, Some(2));
    app.handle_key(KeyInput::Char('k'), NOW);
    assert_eq!(app.cursor, Some(1));

    app.handle_key(KeyInput::Char(' '), NOW);
    assert_eq!(app.selected, vec![true, false, false, false, false]);
    app.handle_key(KeyInput::Char('d'), NOW);
    assert_eq!(app.selected, vec![false; 5]);
    assert_eq!(app.handle_key(KeyInput::Enter, NOW), KeyOutcome::Continue);
    app.handle_key(KeyInput::Char('a'), NOW);
    assert_eq!(app.selected, vec![true, true, false, false, false]);
    assert_eq!(app.handle_key(KeyInput::Enter, NOW), KeyOutcome::Clean);

    app.handle_key(KeyInput::Char('s'), NOW);
    assert_eq!(app.sort_key, SortKey::Age);
    assert_eq!(app.visible_indices, vec![0, 3, 1]);
    app.handle_key(KeyInput::Char('s'), NOW);
    assert_eq!(app.sort_key.as_str(), "risk");
    assert_eq!(app.visible_indices, vec![1, 3, 0]);
    app.handle_key(KeyInput::Char('s'), NOW);
    assert_eq!(app.sort_key, SortKey::Size);

    app.handle_key(KeyInput::Char('R'), NOW);
    app.handle_key(KeyInput::Char('P'), NOW);
    assert_eq!(app.visible_indices, vec![4, 3, 1, 2, 0]);
    app.handle_key(KeyInput::Char('c'), NOW);
    assert_eq!(app.category_filter, Some(Category::Cache));
    assert_eq!(app.visible_indices, vec![1]);
    assert_eq!(app.cursor, Some(0));
    app.handle_key(KeyInput::Char('c'), NOW);
    app.handle_key(KeyInput::Char('c'), NOW);
    assert_eq!(app.category_filter, Some(Category::Deps));
    assert_eq!(app.visible_indices, vec![4, 2]);
    app.handle_key(KeyInput::Char('c'), NOW);
    assert_eq!(app.category_filter, None);
    app.handle_key(KeyInput::Char('r'), NOW);
    assert_eq!(app.risk_filter, Some(RiskLevel::Low));
    assert_eq!(app.visible_indices, vec![1]);
    app.handle_key(KeyInput::Char('r'), NOW);
    app.handle_key(KeyInput::Char('r'), NOW);
    app.handle_key(KeyInput::Char('r'), NOW);
    assert_eq!(app.risk_filter, None);

    app.handle_key(KeyInput::Char('n'), NOW);
    app.handle_key(KeyInput::Char('o'), NOW);
    assert_eq!(app.query, "no");
    assert_eq!(app.visible_indices, vec![4, 2]);
    app.handle_key(KeyInput::Char('Z'), NOW);
    assert!(app.visible_indices.is_empty());
    assert_eq!(app.cursor, None);
    app.handle_key(KeyInput::Backspace, NOW);
    app.handle_key(KeyInput::Backspace, NOW);
    app.handle_key(KeyInput::Backspace, NOW);
    app.handle_key(KeyInput::Backspace, NOW);
    assert_eq!(app.query, "");
    app.handle_key(KeyInput::Char('!'), NOW);
    app.handle_key(KeyInput::Other, NOW);
    assert_eq!(app.query, "");

    app.handle_key(KeyInput::Char('?'), NOW);
    assert!(app.show_help);
    assert_eq!(app.handle_key(KeyInput::Char('q'), NOW), KeyOutcome::Continue);
    assert!(!app.show_help);
    assert_eq!(app.handle_key(KeyInput::Char('q'), NOW), KeyOutcome::Quit);
    assert_eq!(app.handle_key(KeyInput::Esc, NOW), KeyOutcome::Quit);
    assert_eq!(SortKey::Risk.next(), SortKey::Size);
}

#[test]
fn substring_search_finds_every_occurrence() {
    let hay: Vec<char> = "abcabd".chars().collect();
    let find = |n: &str| contains_chars(&hay, &n.chars().collect());
    assert!(find(""));
    assert!(find("abd"));
    assert!(find("abcabd"));
    assert!(find("d"));
    assert!(!find("abda"));
    assert!(!find("x"));
    assert!(contains_chars(&Vec::new(), &Vec::new()));
}

#[test]
fn answers_select_targets_by_number() {
    assert_eq!(parse_selection("1 3 5", 5), vec![0, 2, 4]);
    assert_eq!(parse_selection("  3 1 3 ", 3), vec![2, 0, 2]);
    assert_eq!(parse_selection("all", 3), vec![0, 1, 2]);
    assert_eq!(parse_selection(" ALL ", 2), vec![0, 1]);
    assert_eq!(parse_selection("none", 3), Vec::<usize>::new());
    assert_eq!(parse_selection("None", 3), Vec::<usize>::new());
    assert_eq!(parse_selection("", 3), Vec::<usize>::new());
    assert_eq!(parse_selection("0 4 x 2 -1 1.5 99999999999999999999999 02", 3), vec![1, 1]);
    assert_eq!(parse_selection("all 1", 3), vec![0]);
    assert_eq!(parse_selection("+2 + ++1 +0 2+", 3), vec![1]);
    assert_eq!(parse_selection("1\t2\n3", 3), vec![0, 1, 2]);
    assert_eq!(parse_selection("\u{2003}1\u{a0}3\u{85}", 3), vec![0, 2]);
    assert_eq!("\u{2003}1\u{a0}3\u{85}".split_whitespace().count(), 2);

    let projects = sample();
    let picked: Vec<u64> = select_projects(&projects, "2 1").into_iter().map(|p| p.size).collect();
    assert_eq!(picked, vec![30, 10]);
    assert_eq!(total_size(&projects), 190);
    assert_eq!(total_size(&Vec::new()), 0);
}

#[test]
fn long_paths_are_shortened_from_the_left() {
    let long: String = "/0123456789".repeat(6);
    let short = shorten_path(&long, 50);
    assert_eq!(short.chars().count(), 50);
    assert!(short.starts_with("..."));
    assert!(long.ends_with(&short[3..]));
    assert_eq!(shorten_path("/short", 50), "/short");
    assert_eq!(shorten_path("abcdef", 5), "...ef");
    assert_eq!(shorten_path("abcdef", 6), "abcdef");
    assert_eq!(shorten_path("abcdef", 2), "abcdef");
}

#[test]
fn events_fall_back_to_the_working_directory() {
    assert_eq!(events_log_path(Some("/home/u/.config"), "/work"), "/home/u/.config/dev-cleaner/events.jsonl");
    assert_eq!(events_log_path(None, "/work"), "/work/.dev-cleaner-events.jsonl");
    assert_eq!(after_failure("/a/events.jsonl", "/b/.dev-cleaner-events.jsonl"), Retry::Fallback);
    assert_eq!(after_failure("/same", "/same"), Retry::GiveUp);
}

#[test]
fn test_plan_roundtrip_json() {
    let mut project = target("/scan/p1/node_modules", 123, 0, RiskLevel::High, Category::Deps);
    project.root = "/scan/p1".to_string();
    let plan = CleanupPlan::new("/scan".to_string(), vec![project], NOW);
    assert_eq!(plan.schema_version, 1);
    assert_eq!(plan.projects.len(), 1);
    assert_eq!(plan.scan_root, "/scan");
    assert_eq!(plan.created_at, NOW);
}

#[test]
fn the_walk_descends_only_into_open_directories() {
    let entry = |name: &str, kind: EntryKind| DirEntry {
        name: name.to_string(),
        kind,
        size: 1,
        modified: Some(NOW),
    };
    let mut tree = FsTree::new("scan".to_string(), vec![entry("proj", EntryKind::Dir)], NOW, None);
    let proj = tree
        .add_dir(
            0,
            "proj".to_string(),
            vec![entry("Cargo.toml", EntryKind::File), entry("target", EntryKind::Dir)],
            NOW,
            None,
        )
        .unwrap();
    let target = tree.add_dir(proj, "target".to_string(), vec![], NOW, None).unwrap();
    let src = tree.add_dir(proj, "src".to_string(), vec![], NOW, None).unwrap();
    let git = tree.add_dir(proj, ".git".to_string(), vec![], NOW, None).unwrap();
    assert_eq!(tree.add_dir(99, "x".to_string(), vec![], NOW, None), None);
    assert_eq!(tree.len(), 5);
    assert_eq!(tree.get(src).unwrap().name, "src");
    assert!(tree.get(5).is_none());

    let scanner = Scanner::new("/scan");
    let mut cache = MatcherCache::new();
    assert!(scanner.should_descend(&tree, 0, &mut cache, NOW));
    assert!(scanner.should_descend(&tree, proj, &mut cache, NOW));
    assert!(!scanner.should_descend(&tree, target, &mut cache, NOW));
    assert!(scanner.should_descend(&tree, src, &mut cache, NOW));
    assert!(!scanner.should_descend(&tree, git, &mut cache, NOW));
    assert!(!scanner.max_depth(1).should_descend(&tree, src, &mut MatcherCache::new(), NOW));
    assert_eq!(Scanner::depth_of(&tree, src), 2);
    assert_eq!(Scanner::new("/").path_of(&tree, src), "/proj/src");
    let found = Scanner::new("/scan").check_directory(&tree, target, &mut cache, NOW).unwrap();
    assert_eq!(found.size_human(), "Calculating...");
    assert_eq!(found.days_since_modified(NOW + 3 * DAY + 5), 3);
    assert_eq!(found.days_since_modified(NOW - 3 * DAY - 5), -3);
    assert_eq!(found.project_type_display_name(), "Rust");
}
