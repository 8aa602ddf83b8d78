use dev_cleaner::scanner::{Category, Confidence, RiskLevel, RuleSource};

#[test]
fn node_modules_is_deps_with_high_default_risk() {
    let c = Category::from_name("node_modules");
    assert_eq!(c, Category::Deps);
    assert_eq!(c.default_risk(), RiskLevel::High);
    assert_eq!(RiskLevel::for_rule(RuleSource::Builtin, c), RiskLevel::High);
}

#[test]
fn pycache_is_cache_with_low_risk() {
    let c = Category::from_name("__pycache__");
    assert_eq!(c, Category::Cache);
    assert_eq!(RiskLevel::for_rule(RuleSource::Builtin, c), RiskLevel::Low);
}

#[test]
fn target_is_build_and_its_risk_depends_on_the_source() {
    let c = Category::from_name("target");
    assert_eq!(c, Category::Build);
    assert_eq!(RiskLevel::for_rule(RuleSource::Builtin, c), RiskLevel::Medium);
    assert_eq!(RiskLevel::for_rule(RuleSource::Gitignore, c), RiskLevel::High);
}

#[test]
fn ignore_file_rules_are_high_risk_in_every_category() {
    for c in [Category::Cache, Category::Build, Category::Deps, Category::Unknown] {
        assert_eq!(RiskLevel::for_rule(RuleSource::Gitignore, c), RiskLevel::High);
    }
}

#[test]
fn confidence_follows_the_source() {
    assert_eq!(Confidence::for_source(RuleSource::Custom), Confidence::High);
    assert_eq!(Confidence::for_source(RuleSource::Builtin), Confidence::High);
    assert_eq!(Confidence::for_source(RuleSource::Heuristic), Confidence::Medium);
    assert_eq!(Confidence::for_source(RuleSource::Gitignore), Confidence::Low);
}

#[test]
fn unrecognised_names_are_unknown_with_medium_risk() {
    let c = Category::from_name("whatever");
    assert_eq!(c, Category::Unknown);
    assert_eq!(c.default_risk(), RiskLevel::Medium);
    assert_eq!(Category::from_name("build-debug"), Category::Build);
    assert_eq!(Category::from_name("_build"), Category::Build);
    assert_eq!(Category::from_name("cmake-build-release"), Category::Build);
}
