use dev_cleaner::scanner::{
    ProjectInfo, SizeCalculator, SizeError, SizeOutcome,
};
use dev_cleaner::utils::{parse_size, SizeParseError};
use dev_cleaner::ProjectType;

#[test]
fn test_parse_size() {
    assert_eq!(parse_size("0").unwrap(), 0);
    assert_eq!(parse_size("1024").unwrap(), 1024);
    assert_eq!(parse_size("1KB").unwrap(), 1024);
    assert_eq!(parse_size("1 KB").unwrap(), 1024);
    assert_eq!(parse_size("1MB").unwrap(), 1024 * 1024);
    assert_eq!(
        parse_size("1.5GB").unwrap(),
        (1.5 * 1024.0 * 1024.0 * 1024.0) as u64
    );
}

#[test]
fn parse_size_knows_every_unit_and_rounds() {
    assert_eq!(parse_size("  7  "), Ok(7));
    assert_eq!(parse_size("\u{a0}\t7\u{2003}KB\u{3000}\n"), Ok(7168));
    assert_eq!(parse_size("1k"), Ok(1024));
    assert_eq!(parse_size("1Ki"), Ok(1024));
    assert_eq!(parse_size("1kib"), Ok(1024));
    assert_eq!(parse_size("2m"), Ok(2 * 1024 * 1024));
    assert_eq!(parse_size("3GiB"), Ok(3 * 1024 * 1024 * 1024));
    assert_eq!(parse_size("1T"), Ok(1u64 << 40));
    assert_eq!(parse_size("1tb"), Ok(1u64 << 40));
    assert_eq!(parse_size("12B"), Ok(12));
    assert_eq!(parse_size("0.5"), Ok(1));
    assert_eq!(parse_size("0.4"), Ok(0));
    assert_eq!(parse_size("1.5"), Ok(2));
    assert_eq!(parse_size(".5K"), Ok(512));
    assert_eq!(parse_size("5.K"), Ok(5120));
    assert_eq!(parse_size("+2K"), Ok(2048));
    assert_eq!(parse_size("-0"), Ok(0));
    assert_eq!(parse_size("0.1KB"), Ok(102));
    assert_eq!(parse_size("0.0009765625KB"), Ok(1));
    assert_eq!(parse_size("18446744073709551615"), Ok(u64::MAX));
    assert_eq!(parse_size("16777215.99999999999TB"), Ok(18446744073709551605));
}

#[test]
fn parse_size_names_each_error() {
    assert_eq!(parse_size(""), Err(SizeParseError::Empty));
    assert_eq!(parse_size("   "), Err(SizeParseError::Empty));
    assert_eq!(parse_size("KB"), Err(SizeParseError::InvalidNumber));
    assert_eq!(parse_size("1 2KB"), Err(SizeParseError::InvalidNumber));
    assert_eq!(parse_size("."), Err(SizeParseError::InvalidNumber));
    assert_eq!(parse_size("-1"), Err(SizeParseError::InvalidNumber));
    assert_eq!(parse_size("-0.001K"), Err(SizeParseError::InvalidNumber));
    assert_eq!(parse_size("1,5GB"), Err(SizeParseError::InvalidNumber));
    assert_eq!(parse_size("1e3"), Err(SizeParseError::UnknownUnit));
    assert_eq!(parse_size("1XB"), Err(SizeParseError::UnknownUnit));
    assert_eq!(parse_size("1 K B"), Err(SizeParseError::UnknownUnit));
    assert_eq!(parse_size("1BB"), Err(SizeParseError::UnknownUnit));
    assert_eq!(parse_size("18446744073709551616"), Err(SizeParseError::TooLarge));
    assert_eq!(parse_size("16777216TB"), Err(SizeParseError::TooLarge));
    assert_eq!(parse_size("99999999999999999999999999999999999999999999"), Err(SizeParseError::TooLarge));
}

fn pending(dir: &str) -> ProjectInfo {
    ProjectInfo::new_pending(dir.to_string(), ProjectType::NodeJs, dir.to_string(), 0, false)
}

#[test]
fn test_size_calculator() {
    let mut project = pending("/tmp/test-dir");
    assert!(!project.size_calculated);
    assert_eq!(project.size, 0);

    let calculator = SizeCalculator::new();
    let size = calculator.calculate_single(&mut project, SizeOutcome::Measured(29)).unwrap();

    assert!(size > 0);
    assert!(project.size_calculated);
    assert_eq!(project.size, size);
}

#[test]
fn test_streaming_calculation() {
    let projects = vec![pending("/tmp/dir0"), pending("/tmp/dir1"), pending("/tmp/dir2")];
    let outcomes = vec![SizeOutcome::Measured(7), SizeOutcome::Measured(7), SizeOutcome::Measured(7)];
    let calculator = SizeCalculator::new();

    let (results, measured) = calculator.calculate_batch_streaming(projects, &outcomes);

    assert_eq!(results.len(), 3);
    assert_eq!(measured, 3);
    for project in results {
        assert!(project.size_calculated);
        assert!(project.size > 0);
    }
}

#[test]
fn zero_timeout_always_gives_the_unknown_size() {
    let calculator = SizeCalculator::with_timeout(0);
    let projects = vec![pending("/a"), pending("/b"), pending("/c")];
    let outcomes = vec![SizeOutcome::Measured(7), SizeOutcome::TimedOut, SizeOutcome::Failed];
    let (results, measured) = calculator.calculate_batch_streaming(projects, &outcomes);
    assert_eq!(measured, 0);
    assert_eq!(results.len(), 3);
    for project in &results {
        assert!(project.size_calculated);
        assert_eq!(project.size, 0);
    }
    assert_eq!(calculator.resolve(SizeOutcome::Measured(9)), SizeOutcome::TimedOut);

    let mut single = pending("/d");
    assert_eq!(calculator.calculate_single(&mut single, SizeOutcome::Measured(5)), Err(SizeError::Timeout));
    assert!(!single.size_calculated);
    assert_eq!(single.size, 0);
}

#[test]
fn timeouts_and_failures_become_size_zero_in_a_batch() {
    let calculator = SizeCalculator::default();
    assert_eq!(calculator.timeout_secs, 60);
    let projects = vec![pending("/a"), pending("/b"), pending("/c"), pending("/d")];
    let outcomes = vec![SizeOutcome::Measured(100), SizeOutcome::TimedOut, SizeOutcome::Failed];
    let (results, measured) = calculator.calculate_batch_streaming(projects, &outcomes);
    assert_eq!(measured, 1);
    let sizes: Vec<u64> = results.iter().map(|p| p.size).collect();
    assert_eq!(sizes, vec![100, 0, 0, 0]);
    assert!(results.iter().all(|p| p.size_calculated));
    assert_eq!(results[1].cleanable_dir, "/b");

    let mut single = pending("/e");
    assert_eq!(calculator.calculate_single(&mut single, SizeOutcome::Failed), Err(SizeError::Io));
    assert_eq!(calculator.calculate_single(&mut single, SizeOutcome::TimedOut), Err(SizeError::Timeout));
    assert!(!single.size_calculated);
    let mut settled = pending("/f");
    assert!(!calculator.settle(&mut settled, SizeOutcome::TimedOut));
    assert!(settled.size_calculated);
    assert_eq!(settled.size, 0);
}
