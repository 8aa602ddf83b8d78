use dev_cleaner::audit::{csv_escape, generate_run_id, AuditLogger, AuditRecord};
use dev_cleaner::config::Config;

#[test]
fn audit_roundtrip_records() {
    let logger = AuditLogger::new("operations.jsonl".to_string(), true, 1024 * 1024);
    assert!(logger.enabled());
    let run = generate_run_id("20240101120000", 1_704_110_400_000_000_000, 4242);
    let records = vec![
        AuditLogger::start_run(&run, "clean", "2024-01-01T12:00:00+00:00"),
        AuditLogger::log_item(&run, "clean", "/tmp/test", "remove", "ok", 42, None, "2024-01-01T12:00:01+00:00"),
        AuditLogger::finish_run(&run, "clean", "2024-01-01T12:00:02+00:00", 1, 0, 0, 42),
    ];

    let runs = AuditLogger::list_runs(&records);
    assert_eq!(runs.len(), 1);
    assert_eq!(runs[0].run_id, run);
    assert_eq!(runs[0].command, "clean");
    assert_eq!(runs[0].started_at.as_deref(), Some("2024-01-01T12:00:00+00:00"));
    assert_eq!(runs[0].finished_at.as_deref(), Some("2024-01-01T12:00:02+00:00"));
    assert_eq!(runs[0].cleaned, 1);
    assert_eq!(runs[0].freed_bytes, 42);
}

#[test]
fn run_identifier_joins_stamp_nanoseconds_and_process() {
    assert_eq!(generate_run_id("20240101120000", 17, 4242), "20240101120000-17-4242");
    assert_eq!(generate_run_id("", 0, 0), "-0-0");
}

#[test]
fn runs_are_listed_latest_start_first() {
    let records = vec![
        AuditLogger::start_run("a", "scan", "2024-01-01T00:00:00Z"),
        AuditLogger::finish_run("c", "clean", "2024-01-05T00:00:00Z", 1, 2, 3, 4),
        AuditLogger::start_run("b", "clean", "2024-01-03T00:00:00Z"),
        AuditLogger::log_item("zzz", "clean", "/x", "remove", "ok", 1, None, "2024-01-09T00:00:00Z"),
        AuditLogger::finish_run("a", "other", "2024-01-02T00:00:00Z", 5, 6, 7, 8),
    ];
    let runs = AuditLogger::list_runs(&records);
    let ids: Vec<&str> = runs.iter().map(|r| r.run_id.as_str()).collect();
    assert_eq!(ids, vec!["b", "a", "c"]);
    assert_eq!(runs[1].command, "scan");
    assert_eq!(runs[1].cleaned, 5);
    assert_eq!(runs[1].skipped, 6);
    assert_eq!(runs[1].failed, 7);
    assert_eq!(runs[1].freed_bytes, 8);
    assert!(runs[2].started_at.is_none());
    assert_eq!(runs[2].finished_at.as_deref(), Some("2024-01-05T00:00:00Z"));

    let of_a = AuditLogger::records_for_run(&records, "a");
    assert_eq!(of_a.len(), 2);
    assert!(matches!(of_a[0], AuditRecord::RunStarted { .. }));
    assert!(matches!(of_a[1], AuditRecord::RunFinished { .. }));
    assert!(AuditLogger::records_for_run(&records, "nobody").is_empty());
}

#[test]
fn csv_export_has_one_line_per_record() {
    let records = vec![
        AuditLogger::start_run("r1", "clean", "t0"),
        AuditLogger::log_item("r1", "clean", "/a,b", "remove", "ok", 42, Some("say \"hi\"".to_string()), "t1"),
        AuditLogger::log_item("r1", "clean", "/c", "remove", "ok", 0, None, "t2"),
        AuditLogger::finish_run("r1", "clean", "t3", 1, 2, 3, 4),
    ];
    let csv = AuditLogger::export_csv(&records);
    let expected = "type,run_id,command,ts,path,action,result,bytes,reason,cleaned,skipped,failed,freed_bytes\n\
run_started,r1,clean,t0,,,,,,,,\n\
item_action,r1,clean,t1,\"/a,b\",remove,ok,42,\"say \"\"hi\"\"\",,,,\n\
item_action,r1,clean,t2,/c,remove,ok,0,,,,,\n\
run_finished,r1,clean,t3,,,,,,,1,2,3,4\n";
    assert_eq!(csv, expected);
    assert_eq!(AuditLogger::export_csv(&Vec::new()).lines().count(), 1);
}

#[test]
fn csv_escape_quotes_only_where_needed() {
    assert_eq!(csv_escape("plain"), "plain");
    assert_eq!(csv_escape(""), "");
    assert_eq!(csv_escape("a,b"), "\"a,b\"");
    assert_eq!(csv_escape("a\"b"), "\"a\"\"b\"");
    assert_eq!(csv_escape("a\nb"), "\"a\nb\"");
}

#[test]
fn logger_follows_the_configuration() {
    let mut config = Config::default();
    let logger = AuditLogger::from_config(&config, "/data/dev-cleaner/operations.jsonl".to_string());
    assert_eq!(logger.path(), "/data/dev-cleaner/operations.jsonl");
    assert!(logger.enabled());
    assert!(!logger.rotate_if_needed(None));
    assert!(!logger.rotate_if_needed(Some(5 * 1024 * 1024)));
    assert!(logger.rotate_if_needed(Some(5 * 1024 * 1024 + 1)));

    config.audit.path = Some("/elsewhere/log.jsonl".to_string());
    config.audit.enabled = false;
    config.audit.max_size_mb = 0;
    let logger = AuditLogger::from_config(&config, "/unused".to_string());
    assert_eq!(logger.path(), "/elsewhere/log.jsonl");
    assert!(!logger.enabled());
    assert!(!logger.rotate_if_needed(Some(u64::MAX)));
}
