use dev_cleaner::recommend::{recommend_projects, score_project, RecommendOptions, RecommendStrategy};
use dev_cleaner::scanner::{Category, Confidence, ProjectInfo, RiskLevel};
use dev_cleaner::ProjectType;

const NOW: i64 = 1_700_000_000;
const DAY: i64 = 86_400;

fn mk_project(size: u64, days: i64, risk: RiskLevel) -> ProjectInfo {
    ProjectInfo {
        root: "/p".to_string(),
        project_type: ProjectType::Rust,
        project_name: None,
        category: Category::Build,
        risk_level: risk,
        confidence: Confidence::High,
        matched_rule: None,
        cleanable_dir: format!("/p/target-{}", size),
        size,
        size_calculated: true,
        last_modified: NOW - days * DAY,
        in_use: false,
        protected: false,
        protected_by: None,
        recent: false,
        selection_reason: None,
        skip_reason: None,
    }
}

#[test]
fn strategy_max_space_prefers_larger() {
    let projects = vec![
        mk_project(10 * 1024 * 1024, 100, RiskLevel::Medium),
        mk_project(500 * 1024 * 1024, 20, RiskLevel::High),
    ];

    let mut opts = RecommendOptions::new(100);
    opts.strategy = RecommendStrategy::MaxSpace;
    opts.max_risk = Some(RiskLevel::High);

    let result = recommend_projects(projects, &opts, NOW);
    assert_eq!(result.selected.len(), 1);
    assert_eq!(result.selected[0].size, 500 * 1024 * 1024);
}

#[test]
fn blocks_recent_by_default() {
    let projects = vec![mk_project(1024, 1, RiskLevel::Low)];
    let opts = RecommendOptions::new(100);
    let result = recommend_projects(projects, &opts, NOW);
    assert!(result.selected.is_empty());
    assert_eq!(result.blocked.recent_count, 1);
}

#[test]
fn scores_follow_the_formulas() {
    let p = mk_project(10 * 1024 * 1024, 100, RiskLevel::Medium);
    assert_eq!(score_project(&p, RecommendStrategy::SafeFirst, NOW), 100 * 2 + 10 - 30 * 3);
    assert_eq!(score_project(&p, RecommendStrategy::Balanced, NOW), 100 + 10 * 2 - 30 * 2);
    assert_eq!(score_project(&p, RecommendStrategy::MaxSpace, NOW), 10 * 4 + 100 - 30);
    let old = mk_project(0, 1000, RiskLevel::High);
    assert_eq!(score_project(&old, RecommendStrategy::SafeFirst, NOW), 365 * 2 - 80 * 3);
    let future = mk_project(0, -5, RiskLevel::Low);
    assert_eq!(score_project(&future, RecommendStrategy::MaxSpace, NOW), 0);
}

#[test]
fn blocked_candidates_are_counted_by_the_first_reason() {
    let mut risky = mk_project(100, 50, RiskLevel::High);
    risky.in_use = true;
    let mut used = mk_project(200, 50, RiskLevel::Low);
    used.in_use = true;
    used.protected = true;
    let mut kept = mk_project(300, 50, RiskLevel::Low);
    kept.protected = true;
    let recent = mk_project(400, 6, RiskLevel::Low);
    let fine = mk_project(500, 7, RiskLevel::Low);

    let mut opts = RecommendOptions::new(1);
    opts.max_risk = Some(RiskLevel::Medium);
    let result = recommend_projects(vec![risky, used, kept, recent, fine], &opts, NOW);

    assert_eq!(result.blocked.risk_count, 1);
    assert_eq!(result.blocked.risk_bytes, 100);
    assert_eq!(result.blocked.in_use_count, 1);
    assert_eq!(result.blocked.in_use_bytes, 200);
    assert_eq!(result.blocked.protected_count, 1);
    assert_eq!(result.blocked.protected_bytes, 300);
    assert_eq!(result.blocked.recent_count, 1);
    assert_eq!(result.blocked.recent_bytes, 400);
    assert!(!result.blocked.is_empty());
    assert_eq!(result.selected.len(), 1);
    assert_eq!(result.selected[0].size, 500);
    assert_eq!(result.selected[0].selection_reason.as_deref(), Some("strategy_safe_first"));
    assert!(!result.selected[0].recent);
    assert_eq!(result.selected_bytes, 500);
    assert_eq!(result.target_bytes, 1);
}

#[test]
fn selection_stops_once_the_goal_is_met() {
    let mb = 1024 * 1024;
    let projects = vec![
        mk_project(10 * mb, 30, RiskLevel::Low),
        mk_project(30 * mb, 30, RiskLevel::Low),
        mk_project(20 * mb, 30, RiskLevel::Low),
    ];
    let mut opts = RecommendOptions::new(45 * mb);
    opts.strategy = RecommendStrategy::Balanced;
    let result = recommend_projects(projects, &opts, NOW);
    let sizes: Vec<u64> = result.selected.iter().map(|p| p.size).collect();
    assert_eq!(sizes, vec![30 * mb, 20 * mb]);
    assert_eq!(result.selected_bytes, 50 * mb);
    assert!(result.blocked.is_empty());
    assert_eq!(RecommendStrategy::Balanced.as_str(), "balanced");
    assert_eq!(RecommendStrategy::SafeFirst.as_str(), "safe-first");
    assert_eq!(RecommendStrategy::MaxSpace.as_str(), "max-space");

    let none = recommend_projects(vec![mk_project(10, 30, RiskLevel::Low)], &RecommendOptions::new(0), NOW);
    assert!(none.selected.is_empty());
    assert_eq!(none.selected_bytes, 0);
}
