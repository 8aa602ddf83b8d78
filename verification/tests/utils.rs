use dev_cleaner::cleaner::{CleanOptions, CleanOutcome, CleanStep, Cleaner};
use dev_cleaner::config::Config;
use dev_cleaner::scanner::ProjectInfo;
use dev_cleaner::utils::format_size;
use dev_cleaner::ProjectType;

#[test]
fn test_format_size() {
    assert_eq!(format_size(500), "500 B");
    assert_eq!(format_size(1024), "1.00 KB");
    assert_eq!(format_size(1048576), "1.00 MB");
}

#[test]
fn mod_test_format_size() {
    assert_eq!(format_size(500), "500 B");
    assert_eq!(format_size(1024), "1.00 KB");
    assert_eq!(format_size(1536), "1.50 KB");
    assert_eq!(format_size(1048576), "1.00 MB");
    assert_eq!(format_size(1073741824), "1.00 GB");
}

#[test]
fn utils_test_format_size() {
    assert_eq!(format_size(500), "500 B");
    assert_eq!(format_size(1024), "1.00 KB");
    assert_eq!(format_size(1536), "1.50 KB");
    assert_eq!(format_size(1048576), "1.00 MB");
    assert_eq!(format_size(1073741824), "1.00 GB");
}

fn float_format(bytes: u64) -> String {
    let units = ["B", "KB", "MB", "GB", "TB"];
    let mut size = bytes as f64;
    let mut unit = 0;
    while size >= 1024.0 && unit < units.len() - 1 {
        size /= 1024.0;
        unit += 1;
    }
    if unit == 0 {
        format!("{} {}", size as u64, units[unit])
    } else {
        format!("{:.2} {}", size, units[unit])
    }
}

#[test]
fn format_size_rounds_ties_to_even_like_float_formatting() {
    assert_eq!(format_size(1152), "1.12 KB");
    assert_eq!(format_size(1024 + 384), "1.38 KB");
    for bytes in [
        0u64,
        1,
        1023,
        1024,
        1025,
        1029,
        1152,
        1408,
        1536,
        1048575,
        1048576,
        1073741823,
        1073741824,
        1099511627775,
        1099511627776,
        5_000_000_000_000,
        123_456_789_012_345,
        (1u64 << 53) - 1,
    ] {
        assert_eq!(format_size(bytes), float_format(bytes), "for {}", bytes);
    }
    let mut x: u64 = 7;
    for _ in 0..2000 {
        x = x.wrapping_mul(6364136223846793005).wrapping_add(1442695040888963407);
        let bytes = x >> 12;
        assert_eq!(format_size(bytes), float_format(bytes), "for {}", bytes);
        let small = x >> 40;
        assert_eq!(format_size(small), float_format(small), "for {}", small);
    }
}

#[test]
fn format_size_stays_in_terabytes_at_the_top() {
    assert_eq!(format_size(u64::MAX), "16777216.00 TB");
    assert_eq!(format_size(1099511627776), "1.00 TB");
}

#[test]
fn test_dry_run() {
    let cleaner = Cleaner::new().dry_run(true);
    assert!(cleaner.options.dry_run);
}

#[test]
fn test_default_config() {
    let config = Config::default();
    assert!(config.exclude_dirs.contains(&String::from(".git")));
}

#[test]
fn default_config_has_the_documented_values() {
    let config = Config::default();
    assert_eq!(config.exclude_dirs, vec![".git", ".svn", ".hg"]);
    assert!(config.custom_patterns.is_empty());
    assert!(config.audit.enabled);
    assert_eq!(config.audit.max_size_mb, 5);
    let loaded = Config::load_or_default(None);
    assert_eq!(loaded.exclude_dirs, vec![".git", ".svn", ".hg"]);
    let mut own = Config::default();
    own.exclude_dirs = vec!["test".to_string()];
    assert_eq!(Config::load_or_default(Some(own)).exclude_dirs, vec!["test"]);
}

#[test]
fn config_builds_a_scanner_with_its_limits() {
    let mut config = Config::default();
    config.default_depth = Some(4);
    config.min_size_mb = Some(3);
    config.max_age_days = Some(9);
    let scanner = config.scanner("/work");
    assert_eq!(scanner.root, "/work");
    assert_eq!(scanner.max_depth, Some(4));
    assert_eq!(scanner.min_size, Some(3 * 1024 * 1024));
    assert_eq!(scanner.max_age_days, Some(9));
    assert_eq!(scanner.exclude_dirs, vec![".git", ".svn", ".hg"]);
    config.min_size_mb = Some(u64::MAX);
    assert_eq!(config.scanner("/work").min_size, Some(u64::MAX));
}

fn project(dir: &str, size: u64) -> ProjectInfo {
    let mut p = ProjectInfo::new_pending("/p".to_string(), ProjectType::Rust, dir.to_string(), 0, false);
    p.size = size;
    p.size_calculated = true;
    p
}

#[test]
fn cleaner_decides_each_step_and_sums_up_the_run() {
    let cleaner = Cleaner::with_options(CleanOptions { dry_run: false, verbose: true, force: true });
    let p = project("/p/target", 10);
    assert_eq!(cleaner.clean_single(&p, false), CleanStep::Missing);
    assert_eq!(cleaner.clean_single(&p, true), CleanStep::Remove(10));
    assert_eq!(cleaner.dry_run(true).clean_single(&p, true), CleanStep::WouldRemove(10));
    assert!(cleaner.force(false).verbose(false).options == CleanOptions { dry_run: false, verbose: false, force: false });

    let projects = vec![project("/p/a", 10), project("/p/b", 20), project("/p/c", 30)];
    let outcomes = vec![
        CleanOutcome::Cleaned(10),
        CleanOutcome::Failed("denied".to_string()),
        CleanOutcome::Cleaned(30),
    ];
    let result = cleaner.clean_multiple(&projects, &outcomes);
    assert_eq!(result.cleaned_count, 2);
    assert_eq!(result.bytes_freed, 40);
    assert_eq!(result.failed_count, 1);
    assert_eq!(result.errors, vec!["Failed to clean /p/b: denied"]);
    assert_eq!(result.size_freed_human(), "40 B");

    let empty = cleaner.clean_multiple(&Vec::new(), &Vec::new());
    assert_eq!(empty.cleaned_count, 0);
    assert_eq!(empty.bytes_freed, 0);
    assert_eq!(empty.failed_count, 0);
    assert!(empty.errors.is_empty());
}
