use openalex_snapshot::display::{
    body_lines, format_duration, header_line, live_dataset_lines, live_head_lines, may_estimate,
    progress_lines, runtime_seconds, show_duration, sum_live, summary_line,
};
use openalex_snapshot::housekeeping::{
    archive_completed_run, cache_migration, command_dataset_logs, command_reports, log_entry,
    migrate_dataset_logs, migrate_dataset_reports, migrate_datasets_dir, migrate_dot_root,
    migrate_download_logs, migrate_oldest, migrate_verify_dir, named_or_usual, old_logs,
    report_record, root_migration, standing_lock, watch_next, CacheMigration, DeepDir, FileOp,
    LockInfo, ReportFile, RootMigration, StepFile, StrayReport, WatchNext,
};
use openalex_snapshot::progress::{live_dataset_status, parse_u64_field, LiveState};
use openalex_snapshot::records::{
    is_manifest_file, latest_report_for_command, latest_report_path_for_command,
    log_paths_for_report, prune_plan, read_last_log_lines, record_all_step, select_progress_record,
};
use openalex_snapshot::report::{
    canonical_command_name, command_flow_rank, flush_due, parse_report_filename, preview_report,
    report_file_name, report_finalize, report_listing, report_new, report_reopen, run_verdict,
    sanitize_command_name, DatasetReportSummary, ReportRecord, RunReport, StepRunSummary,
};

fn ds(name: &str, scanned: u64, ok: u64, failed: u64, skipped: u64) -> DatasetReportSummary {
    DatasetReportSummary {
        dataset: name.to_string(),
        items_scanned: scanned,
        succeeded: ok,
        failed,
        skipped,
    }
}

fn run(command: &str, started: i64) -> RunReport {
    report_new(command, "1.0", 5, started, vec![])
}

fn record(command: &str, ts: i64, path: &str) -> ReportRecord {
    ReportRecord {
        source_kind: "parquet-global".to_string(),
        path: path.to_string(),
        timestamp: ts,
        report: run(command, ts),
    }
}

fn strings(v: &[&str]) -> Vec<String> {
    v.iter().map(|s| s.to_string()).collect()
}

#[test]
fn totals_are_the_sums_over_datasets() {
    let mut r = run("convert", 100);
    r.datasets = vec![ds("a", 3, 2, 1, 0), ds("b", 4, 4, 0, 9)];
    report_finalize(&mut r, 160);
    assert_eq!(r.totals_items_scanned, 7);
    assert_eq!(r.totals_succeeded, 6);
    assert_eq!(r.totals_failed, 1);
    assert_eq!(r.totals_skipped, 9);
    assert_eq!(r.finished_at_unix, Some(160));
    assert_eq!(r.duration_seconds, Some(60));
}

#[test]
fn a_preview_replaces_the_dataset_in_work() {
    let mut r = run("convert", 100);
    r.datasets = vec![ds("a", 3, 3, 0, 0), ds("b", 1, 1, 0, 0)];
    let p = preview_report(&r, &ds("a", 9, 8, 1, 0), 200);
    let names: Vec<&str> = p.datasets.iter().map(|d| d.dataset.as_str()).collect();
    assert_eq!(names, ["b", "a"]);
    assert_eq!(p.totals_items_scanned, 10);
    assert_eq!(r.datasets.len(), 2);
}

#[test]
fn report_names_round_trip() {
    let name = report_file_name("verify_convert", 1_700_000_000, 42);
    assert_eq!(name, "verify_convert-1700000000-42.json");
    assert_eq!(
        parse_report_filename(&name),
        Some(("verify_convert-1700000000".to_string(), 42))
    );
    let plain = report_file_name("verify_convert", 1_700_000_000, 0);
    assert_eq!(plain, "verify_convert-1700000000.json");
    assert_eq!(
        parse_report_filename(&plain),
        Some(("verify_convert".to_string(), 1_700_000_000))
    );
    assert_eq!(parse_report_filename("convert.json"), None);
    assert_eq!(parse_report_filename("convert-12.txt"), None);
    assert_eq!(sanitize_command_name("a b/c_d-1"), "a-b-c_d-1");
}

#[test]
fn commands_have_canonical_names_and_an_order() {
    for c in ["verify", "repair", "download", "verify-index", "convert"] {
        let once = canonical_command_name(c);
        assert_eq!(canonical_command_name(&once), once);
    }
    assert!(command_flow_rank("download") < command_flow_rank("convert"));
    assert!(command_flow_rank("convert") < command_flow_rank("index"));
}

#[test]
fn a_run_fails_if_anything_failed() {
    assert_eq!(run_verdict("convert", 0), Ok(()));
    assert_eq!(run_verdict("convert", 3), Err("[convert] failures detected: 3".to_string()));
}

#[test]
fn the_latest_report_of_each_command_is_listed() {
    let recs = vec![
        record("convert", 10, "/r/convert-10-1.json"),
        record("download", 5, "/r/download-5-1.json"),
        record("convert", 20, "/r/convert-20-1.json"),
    ];
    let latest = report_listing(&recs, &None, true);
    assert_eq!(latest, [1, 2]);
    let only = report_listing(&recs, &Some("convert".to_string()), false);
    assert_eq!(only.len(), 2);
    assert_eq!(latest_report_path_for_command(&recs, "convert"), Some(2));
    assert_eq!(latest_report_path_for_command(&recs, "index"), None);
}

#[test]
fn pruning_keeps_the_newest_reports() {
    let recs = vec![
        record("convert", 10, "/r/convert-10-1.json"),
        record("convert", 20, "/r/convert-20-1.json"),
        record("convert", 30, "/r/convert-30-1.json"),
        record("index", 1, "/r/index-1-1.json"),
    ];
    let p = prune_plan(&recs, &None, 1);
    let mut names = p.names.clone();
    names.sort();
    assert_eq!(names, ["convert-10-1.json", "convert-20-1.json"]);
    assert_eq!(p.kept, 2);
    assert_eq!(prune_plan(&recs, &Some("index".to_string()), 1).names.len(), 0);
}

#[test]
fn progress_follows_an_unfinished_run_first() {
    let mut old = record("convert", 10, "/r/convert-10-1.json");
    old.report.finished_at_unix = Some(11);
    let recs = vec![old, record("index", 5, "/r/index-5-1.json")];
    let none: Vec<Vec<i64>> = vec![vec![], vec![]];
    assert_eq!(select_progress_record(&recs, &None, "all", &none, 100), Some(1));
    let convert = Some("convert".to_string());
    assert_eq!(select_progress_record(&recs, &convert, "all", &none, 100), None);
    let recent: Vec<Vec<i64>> = vec![vec![1, 700], vec![]];
    assert_eq!(select_progress_record(&recs, &convert, "all", &recent, 1000), Some(0));
    assert_eq!(select_progress_record(&recs, &convert, "all", &recent, 1001), None);
    assert_eq!(
        select_progress_record(&recs, &Some("extract".to_string()), "all", &none, 100),
        None
    );
}

#[test]
fn report_files_of_a_command_are_told_apart() {
    let names = strings(&["convert-5-1.json", "convert-9-1.json", "convert-9-1.txt", "index-1-1.json"]);
    assert_eq!(command_reports(&names, "convert"), ["convert-5-1.json", "convert-9-1.json"]);
    assert!(latest_report_for_command(&names, "convert").is_some());
    assert_eq!(latest_report_for_command(&names, "repair"), None);
    assert!(is_manifest_file("remote_manifest-1.jsonl"));
    assert!(is_manifest_file("local_manifest-1.jsonl"));
    assert!(!is_manifest_file("remote_manifest-1.json"));
}

#[test]
fn the_last_lines_of_a_log_are_read() {
    assert_eq!(read_last_log_lines("a\nb\nc\n", 2), ["b", "c"]);
    assert_eq!(read_last_log_lines("a", 2), ["a"]);
    let mut r = run("convert", 1);
    r.datasets = vec![ds("works", 0, 0, 0, 0)];
    let logs = log_paths_for_report("/r/snapshot", "/r/parquet", &r);
    assert_eq!(logs, ["/r/openalex-snapshot_metadata/works/convert/convert.log"]);
}

#[test]
fn steps_of_the_pipeline_are_recorded() {
    let mut r = run("all", 1);
    let mut failed = false;
    record_all_step(&mut r, &mut failed, "download", Ok(()), None, Some("/x".to_string()));
    assert!(!failed);
    record_all_step(&mut r, &mut failed, "convert", Err("boom".to_string()), None, None);
    assert!(failed);
    assert_eq!(r.step_runs.len(), 2);
    assert_eq!(r.step_runs[0].status, "ok");
    assert_eq!(r.step_runs[1].status, "failed");
    assert_eq!(r.step_runs[1].message.as_deref(), Some("boom"));
    assert_eq!(r.failures[0].phase, "all_convert");
}

#[test]
fn durations_are_shown_in_hours_minutes_and_seconds() {
    assert_eq!(format_duration(0), "0s");
    assert_eq!(format_duration(59), "59s");
    assert_eq!(format_duration(61), "1m01s");
    assert_eq!(format_duration(3661), "1h01m01s");
    assert_eq!(show_duration(None), "-");
    assert_eq!(show_duration(Some(-4)), "0s");
    assert_eq!(runtime_seconds(None, 100, 40), 0);
    assert_eq!(runtime_seconds(None, 100, 140), 40);
    assert_eq!(runtime_seconds(Some(7), 100, 140), 7);
}

#[test]
fn reports_are_shown_in_lines() {
    let mut r = run("convert", 1);
    r.totals_failed = 2;
    r.totals_succeeded = 30;
    r.totals_skipped = 4;
    r.duration_seconds = Some(61);
    assert_eq!(
        summary_line("parquet-global", &r, "2024-01-01 00:00:00", "/p"),
        format!(
            "{:<15} {:<18} {:<8} {:>8} {:>10} {:>8} {:<19} {:>8}  {}",
            "parquet-global", "convert", "FAILED", 2, 30, 4, "2024-01-01 00:00:00", "1m01s", "/p"
        )
    );
    assert_eq!(header_line(&r, "T", "f.json"), "=== convert [T  1m01s  FAILED]  f.json");
    assert_eq!(body_lines(&r), ["  totals: scanned=0 ok=30 failed=2 skipped=4"]);
    r.step_runs = vec![StepRunSummary {
        step: "index".to_string(),
        status: "ok".to_string(),
        report_path: None,
        message: None,
    }];
    assert_eq!(body_lines(&r), [format!("  {:<22} {}", "index", "ok")]);
    r.datasets = vec![ds("works", 5, 4, 1, 0)];
    let lines = body_lines(&r);
    assert_eq!(lines[2], format!("  {:<22} {:>8} {:>8} {:>8} {:>8}  !", "works", 5, 4, 1, 0));
    let p = progress_lines(&r, 61, "/p", &strings(&["l"]));
    assert_eq!(p[0], "[progress] command=convert started=1 runtime=1m01s report=/p");
    assert_eq!(p[3], "[progress] log l");
}

#[test]
fn live_state_is_read_from_a_log() {
    assert_eq!(parse_u64_field("todo_files=12 x", "todo_files"), Some(12));
    assert_eq!(parse_u64_field("nothing", "todo_files"), None);
    let s = live_dataset_status("works", None);
    assert_eq!(s.state, LiveState::Pending);
    let log = "1 [convert] scanned source_files=9\n2 [convert] todo_files=3 schema_inference_start\n3 [convert] file converted a.gz\n";
    let s = live_dataset_status("works", Some(log));
    assert_eq!(s.state, LiveState::InProgress);
    assert_eq!(s.tally.todo, 3);
    assert_eq!(s.tally.converted, 1);
    let v = vec![s, live_dataset_status("x", None)];
    assert_eq!(sum_live(&v), (1, 3));
    assert!(may_estimate(1, 3, 10));
    assert!(!may_estimate(0, 3, 10));
    assert!(!live_head_lines("convert", 7, 1, 61, &v, Some(5)).is_empty());
    assert!(!live_dataset_lines(&v[0], None).is_empty());
}

fn ops(v: &[FileOp]) -> Vec<String> {
    v.iter()
        .map(|o| match o {
            FileOp::Rename { from, to } => format!("rename {} {}", from, to),
            FileOp::Merge { from, to } => format!("merge {} {}", from, to),
            FileOp::MakeDir { path } => format!("mkdir {}", path),
            FileOp::RemoveDir { path } => format!("rmdir {}", path),
        })
        .collect()
}

#[test]
fn older_layouts_are_brought_up_to_date() {
    assert_eq!(
        ops(&migrate_dot_root("/r", true, false)),
        [
            "rename /r/.openalex-snapshot_metadata /r/openalex-snapshot_metadata",
            "mkdir /r/openalex-snapshot_metadata"
        ]
    );
    assert_eq!(ops(&migrate_dot_root("/r", true, true)), ["mkdir /r/openalex-snapshot_metadata"]);
    let dirs = vec![
        DeepDir { name: "a".to_string(), target_exists: false },
        DeepDir { name: "b".to_string(), target_exists: true },
    ];
    assert_eq!(
        ops(&migrate_datasets_dir("/m", &dirs)),
        ["rename /m/datasets/a /m/a", "merge /m/datasets/b /m/b", "rmdir /m/datasets"]
    );
    assert_eq!(
        ops(&migrate_dataset_logs("/m/a", &strings(&["verify.log", "other.log"]))),
        [
            "mkdir /m/a/conversion-verify",
            "rename /m/a/logs/verify.log /m/a/conversion-verify/verify.log",
            "rmdir /m/a/logs"
        ]
    );
    assert_eq!(old_logs().len(), 6);
    assert_eq!(
        ops(&[migrate_verify_dir("/m/a", true, false).unwrap()]),
        ["rename /m/a/verify /m/a/conversion-verify"]
    );
    assert!(migrate_verify_dir("/m/a", false, true).is_none());
    let found = vec![
        StrayReport { name: "x.json".to_string(), target_exists: true },
        StrayReport { name: "y.json".to_string(), target_exists: false },
    ];
    assert_eq!(
        ops(&migrate_dataset_reports("/m", "/m/a", &found)),
        ["mkdir /m/reports", "rename /m/a/reports/y.json /m/reports/y.json", "rmdir /m/a/reports"]
    );
    assert_eq!(
        ops(&migrate_download_logs("/m", true, true, false)),
        ["rename /m/download/logs/download.log /m/download/download.log", "rmdir /m/download/logs"]
    );
    assert_eq!(ops(&migrate_download_logs("/m", true, true, true)), ["rmdir /m/download/logs"]);
    assert_eq!(
        ops(&migrate_oldest("/r", true, &strings(&[".works_metadata", "works"]), true)),
        [
            "merge /r/parquet/.openalex_metadata/reports /r/openalex-snapshot_metadata/reports",
            "merge /r/parquet/.works_metadata /r/openalex-snapshot_metadata/works",
            "merge /r/openalex-snapshot/.openalex_download_metadata /r/openalex-snapshot_metadata/download"
        ]
    );
    assert_eq!(root_migration(true, false), RootMigration::Move);
    assert_eq!(root_migration(true, true), RootMigration::Merge);
    assert_eq!(root_migration(false, true), RootMigration::Nothing);
    assert_eq!(cache_migration(false, true, true), CacheMigration::Prior);
    assert_eq!(cache_migration(false, false, true), CacheMigration::Legacy);
    assert_eq!(cache_migration(true, true, true), CacheMigration::Stay);
}

#[test]
fn completed_runs_are_archived() {
    let reports = vec![
        ReportFile { name: "a.json".to_string(), finished: true },
        ReportFile { name: "b.json".to_string(), finished: false },
    ];
    let f = |d: &str, s: &str| StepFile {
        dataset: d.to_string(),
        step: s.to_string(),
        name: "x.log".to_string(),
    };
    let files = vec![f("works", "convert"), f("works", "schemata"), f("reports", "convert")];
    assert_eq!(
        ops(&archive_completed_run("/r/parquet", "/r/snapshot", 9, &reports, true, &files)),
        [
            "rename /r/openalex-snapshot_metadata/reports/a.json /r/openalex-snapshot_metadata/archived/9/reports/a.json",
            "rename /r/openalex-snapshot_metadata/download/download.log /r/openalex-snapshot_metadata/archived/9/download/download.log",
            "rename /r/openalex-snapshot_metadata/works/convert/x.log /r/openalex-snapshot_metadata/archived/9/works/convert/x.log"
        ]
    );
    assert_eq!(
        command_dataset_logs("/r/parquet", &strings(&["reports", "w"]), "verify").len(),
        4
    );
    assert_eq!(
        command_dataset_logs("/r/parquet", &strings(&["w"]), "verify")[1],
        "/r/openalex-snapshot_metadata/w/conversion-verify/verify.log"
    );
}

#[test]
fn small_decisions_of_the_housekeeping() {
    assert_eq!(log_entry(5, "convert", "hello"), "5 [convert] hello");
    assert_eq!(
        report_record(
            "/r/openalex-snapshot_metadata/reports/convert-7.json",
            "/r/snapshot",
            "/r/parquet"
        ),
        Some(("parquet-global".to_string(), 7))
    );
    assert_eq!(report_record("/r/notes.txt", "/r/snapshot", "/r/parquet"), None);
    let lock = LockInfo { pid: 1, command: "convert".to_string(), started_at_unix: 2 };
    assert!(standing_lock(Some(lock), false).is_none());
    let lock = LockInfo { pid: 1, command: "convert".to_string(), started_at_unix: 2 };
    assert_eq!(standing_lock(Some(lock), true).unwrap().command, "convert");
    assert_eq!(watch_next(true, true, true, 5), WatchNext::Stop);
    assert_eq!(watch_next(true, false, false, 5), WatchNext::Finished);
    assert_eq!(watch_next(true, false, true, 0), WatchNext::Wait(1));
    assert_eq!(watch_next(true, false, true, 5), WatchNext::Wait(5));
    assert_eq!(named_or_usual(Some("a"), "u", true).as_deref(), Some("a"));
    assert_eq!(named_or_usual(None, "u", true).as_deref(), Some("u"));
    assert_eq!(named_or_usual(None, "u", false), None);
}

#[test]
fn reports_are_written_after_every_few_items() {
    let due: Vec<usize> = (0..10).filter(|n| flush_due(*n, 3)).collect();
    assert_eq!(due, [3, 6, 9]);
    assert!(flush_due(1, 0) && !flush_due(0, 0));
    let mut r = report_new("extract", "1", 0, 10, vec![]);
    report_finalize(&mut r, 15);
    assert_eq!((r.finished_at_unix, r.duration_seconds), (Some(15), Some(5)));
    report_reopen(&mut r);
    assert_eq!((r.finished_at_unix, r.duration_seconds), (None, None));
    assert_eq!(r.started_at_unix, 10);
}
