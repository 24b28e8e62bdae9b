use openalex_snapshot::config::{
    empty_config_defaults, empty_index_config, AppConfig, Explicit, ReportSource,
};
use openalex_snapshot::display::progress_lines;
use openalex_snapshot::explain::{explain_all, explain_check, explain_index};
use openalex_snapshot::housekeeping::{report_record, report_root};
use openalex_snapshot::inference::{source_schema, SourceSchema};
use openalex_snapshot::layout;
use openalex_snapshot::paths::join_path;
use openalex_snapshot::pipeline::{resolve_all_settings, AllConfig};
use openalex_snapshot::plan::light_tuning_with_override;
use openalex_snapshot::records::{prune_plan, select_progress_record};
use openalex_snapshot::report::{
    report_listing, report_new, DatasetReportSummary, ReportRecord, RunReport,
};
use openalex_snapshot::schema::{schema_choice, SchemaChoice, SchemaFrom};
use openalex_snapshot::settings::{apply_index_config, CheckArgs, IndexArgs, SharedArgs};
use openalex_snapshot::templates::{config_template, skills_templates, ConfigTemplateMode};

fn config() -> AppConfig {
    AppConfig {
        defaults: None,
        all: None,
        convert: None,
        verify_convert: None,
        schema: None,
        index: None,
        extract: None,
        repair_convert: None,
        download: None,
        verify_download: None,
        verify_index: None,
        report: None,
        prune_reports: None,
        progress: None,
        check: None,
    }
}

fn index_args(dataset: &str) -> IndexArgs {
    IndexArgs {
        root_dir: ".".to_string(),
        dataset: dataset.to_string(),
        index_file: None,
        workers: 0,
        max_memory_mb: None,
        duckdb_bin: None,
        progress: true,
        overwrite: false,
        explain: false,
        state_flush_every: 25,
    }
}

fn shown(args: &IndexArgs) -> Vec<String> {
    let corpus = join_path(&layout::parquet_dir(&args.root_dir), &args.dataset);
    let tuning = light_tuning_with_override(args.workers, args.max_memory_mb, Some(2));
    explain_index(args, "duckdb", &corpus, "auto", &tuning)
}

#[test]
fn the_config_file_chooses_the_dataset_to_index() {
    let mut cfg = config();
    let mut section = empty_index_config();
    section.dataset = Some("authors".to_string());
    cfg.index = Some(section);
    let args = apply_index_config(index_args("all"), Some(&cfg), &Explicit::new());
    assert!(shown(&args).contains(&"corpus_dir: ./parquet/authors".to_string()));
}

#[test]
fn without_a_choice_all_datasets_are_indexed() {
    let args = apply_index_config(index_args("all"), None, &Explicit::new());
    assert!(shown(&args).contains(&"corpus_dir: ./parquet/all".to_string()));
}

#[test]
fn a_dataset_on_the_command_line_is_not_overridden() {
    let mut cfg = config();
    let mut defaults = empty_config_defaults();
    defaults.root_dir = Some("/r".to_string());
    defaults.dataset = Some("all".to_string());
    cfg.defaults = Some(defaults);
    let mut section = empty_index_config();
    section.dataset = Some("all".to_string());
    cfg.index = Some(section);
    let mut explicit = Explicit::new();
    explicit.insert("dataset");
    let args = apply_index_config(index_args("works"), Some(&cfg), &explicit);
    assert_eq!(args.dataset, "works");
    assert_eq!(args.root_dir, "/r");
}

#[test]
fn the_cached_csv_stands_before_the_cached_json() {
    let there = vec![true, false];
    assert!(matches!(source_schema("works", false, &there, 1), SourceSchema::Csv(0)));
    assert!(matches!(source_schema("works", true, &there, 1), SourceSchema::Infer));
    assert_eq!(schema_choice(SchemaFrom::Cache, true, &there, &there), SchemaChoice::Csv(0));
    let none = vec![false, false];
    assert_eq!(schema_choice(SchemaFrom::Cache, true, &none, &there), SchemaChoice::Json(0));
    assert_eq!(schema_choice(SchemaFrom::Source, true, &there, &there), SchemaChoice::Source);
}

fn record(name: &str, command: &str, failed: u64) -> ReportRecord {
    let path = join_path(&report_root("/r/snapshot", ReportSource::Parquet), name);
    let (source_kind, timestamp) = report_record(&path, "/r/snapshot", "/r/parquet").unwrap();
    let mut report = report_new(command, "1", 0, timestamp, vec![]);
    report.totals_failed = failed;
    ReportRecord { source_kind, path, timestamp, report }
}

#[test]
fn the_latest_reports_are_listed_and_kept() {
    let recs = vec![
        record("verify-100.json", "verify", 1),
        record("verify-200.json", "verify", 0),
        record("convert-150.json", "convert", 0),
    ];
    assert_eq!(recs[0].path, "/r/openalex-snapshot_metadata/reports/verify-100.json");
    assert_eq!(recs[0].source_kind, "parquet-global");
    assert_eq!(report_listing(&recs, &None, true), [2, 1]);
    let plan = prune_plan(&recs, &None, 1);
    assert_eq!(plan.names, ["verify-100.json"]);
    assert_eq!(plan.kept, 2);
}

fn running() -> RunReport {
    let mut r = report_new("convert", "1", 0, 1000, vec![]);
    r.totals_items_scanned = 10;
    r.totals_succeeded = 4;
    r.totals_failed = 1;
    r.totals_skipped = 5;
    r.datasets.push(DatasetReportSummary {
        dataset: "works".to_string(),
        items_scanned: 10,
        succeeded: 4,
        failed: 1,
        skipped: 5,
    });
    r
}

#[test]
fn progress_shows_the_run_that_has_not_ended() {
    let recs = vec![ReportRecord {
        source_kind: "parquet-global".to_string(),
        path: "/m/reports/convert-1000.json".to_string(),
        timestamp: 1000,
        report: running(),
    }];
    let chosen = select_progress_record(&recs, &None, "all", &vec![vec![]], 5000);
    assert_eq!(chosen, Some(0));
    let lines = progress_lines(&recs[0].report, 75, &recs[0].path, &vec![]);
    assert_eq!(
        lines,
        [
            "[progress] command=convert started=1000 runtime=1m15s report=/m/reports/convert-1000.json",
            "[progress] totals scanned=10 ok=4 failed=1 skipped=5",
            "[progress] dataset=works scanned=10 ok=4 failed=1 skipped=5",
        ]
    );
}

#[test]
fn templates_hold_what_their_mode_promises() {
    let c = config_template(ConfigTemplateMode::Complete);
    assert!(c.contains("# openalex-snapshot.yaml"));
    assert!(c.contains("schema:") && c.contains("repair_convert:") && c.contains("progress:"));
    assert!(!c.contains("\ncorpus_dir:"));
    let s = config_template(ConfigTemplateMode::Safe);
    assert!(s.contains("# openalex-snapshot.yaml (safe)"));
    assert!(s.contains("profile: safe") && s.contains("workers: 1"));
    let f = config_template(ConfigTemplateMode::Fast);
    assert!(f.contains("# openalex-snapshot.yaml (fast)"));
    assert!(f.contains("profile: fast") && f.contains("workers: 8"));
}

#[test]
fn notes_go_to_their_files() {
    let paths: Vec<String> = skills_templates("/r").into_iter().map(|f| f.path).collect();
    for p in ["/r/skills/README.md", "/r/skills/cli-operations/SKILL.md", "/r/skills/pipeline-runbook/SKILL.md"] {
        assert!(paths.contains(&p.to_string()), "{}", p);
    }
}

#[test]
fn the_pipeline_shows_what_it_resolved() {
    let all = AllConfig {
        retry: Some(3),
        enable_download: Some(false),
        enable_verify_download: Some(false),
        enable_convert: None,
        enable_verify_convert: None,
        enable_repair_convert: None,
        enable_index: None,
        enable_verify_index: None,
        skip_disk_check: None,
    };
    let lines = explain_all(&resolve_all_settings(1, false, false, &Some(all)), "/r");
    assert_eq!(lines[0], "--explain: all");
    assert!(lines.contains(&"retry: 3".to_string()));
    assert!(lines[3].starts_with("steps: download=false verify_download=false convert=true"));
}

#[test]
fn a_check_explains_itself() {
    let args = CheckArgs {
        shared: SharedArgs {
            root_dir: "/r".to_string(),
            snapshot_dir: "/r/snapshot".to_string(),
            parquet_dir: "/r/parquet".to_string(),
            dataset: "all".to_string(),
            workers: 0,
            duckdb_bin: None,
        },
        aws_bin: "aws".to_string(),
        s3_uri: "s3://openalex".to_string(),
        endpoint_url: None,
        region: None,
        profile_name: None,
        no_sign_request: true,
        signed: false,
        max_memory_mb: None,
        precise: false,
        strict: true,
        json: false,
        explain: true,
    };
    let lines = explain_check(&args, "duckdb");
    assert_eq!(lines[0], "--explain: check");
    assert_eq!(lines[1], "root_dir: /r");
    assert_eq!(lines[8], "strict: true");
}
