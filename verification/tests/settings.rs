use openalex_snapshot::config::{
    empty_config_defaults, empty_convert_config, empty_download_config, empty_progress_config,
    empty_repair_config, empty_report_config, empty_verify_config, AppConfig, Explicit,
    ReportSource,
};
use openalex_snapshot::convert::DiskCheckScope;
use openalex_snapshot::pipeline::{resolve_all_settings, AllConfig};
use openalex_snapshot::settings::{
    apply_progress_config, convert_step, download_step, index_step, repair_step, settle_convert,
    settle_progress, settle_prune_reports, settle_report, settle_root, settle_verify_schema,
    validate_download_step, verify_index_step, verify_step, ConvertArgs, ProgressArgs,
    PruneReportsArgs, ReportArgs, SharedArgs, VerifySchemaArgs,
};
use openalex_snapshot::schema::SchemaFrom;
use openalex_snapshot::verify::{VerifyMetadataLevel, VerifyScope};

fn empty() -> AppConfig {
    AppConfig {
        defaults: None,
        all: None,
        convert: None,
        verify_convert: None,
        schema: None,
        index: None,
        extract: None,
        repair_convert: None,
        download: None,
        verify_download: None,
        verify_index: None,
        report: None,
        prune_reports: None,
        progress: None,
        check: None,
    }
}

fn convert_args() -> ConvertArgs {
    ConvertArgs {
        shared: SharedArgs {
            root_dir: ".".to_string(),
            snapshot_dir: String::new(),
            parquet_dir: String::new(),
            dataset: "all".to_string(),
            workers: 0,
            duckdb_bin: None,
        },
        profile: "safe".to_string(),
        max_memory_mb: None,
        row_group_rows: 100_000,
        batch_rows: 5_000,
        compression: "snappy".to_string(),
        sample_size: 100,
        input_files: vec!["x.gz".to_string()],
        progress: true,
        seed: 42,
        skip_disk_check: false,
        disk_check_scope: DiskCheckScope::File,
        split_size: "0".to_string(),
        split_temp_dir: None,
        refresh_cache: false,
        explain: true,
        state_flush_every: 25,
    }
}

#[test]
fn command_line_wins_over_section_over_defaults_over_built_in() {
    let mut cfg = empty();
    let mut d = empty_config_defaults();
    d.root_dir = Some("/d".to_string());
    d.workers = Some(2);
    d.profile = Some("fast".to_string());
    d.max_memory_mb = Some(100);
    d.duckdb_bin = Some("/d/duckdb".to_string());
    cfg.defaults = Some(d);
    let mut c = empty_convert_config();
    c.workers = Some(3);
    c.max_memory_mb = Some(200);
    c.split_temp_dir = Some("/t".to_string());
    c.compression = Some("zstd".to_string());
    cfg.convert = Some(c);
    let mut explicit = Explicit::new();
    explicit.insert("max_memory_mb");
    explicit.insert("compression");
    let mut args = convert_args();
    args.max_memory_mb = Some(300);
    let r = settle_convert(args, Some(&cfg), &explicit);
    assert_eq!(r.max_memory_mb, Some(300));
    assert_eq!(r.compression, "snappy");
    assert_eq!(r.shared.workers, 3);
    assert_eq!(r.shared.root_dir, "/d");
    assert_eq!(r.shared.snapshot_dir, "/d/snapshot");
    assert_eq!(r.shared.parquet_dir, "/d/parquet");
    assert_eq!(r.shared.dataset, "all");
    assert_eq!(r.shared.duckdb_bin.as_deref(), Some("/d/duckdb"));
    assert_eq!(r.profile, "fast");
    assert_eq!(r.split_temp_dir.as_deref(), Some("/t"));
    assert_eq!(r.row_group_rows, 100_000);
    assert_eq!(r.input_files, ["x.gz"]);
    assert!(r.explain);
}

#[test]
fn without_a_config_file_settings_stay() {
    let r = settle_convert(convert_args(), None, &Explicit::new());
    assert_eq!(r.shared.root_dir, ".");
    assert_eq!(r.shared.snapshot_dir, "./snapshot");
    assert_eq!(r.profile, "safe");
    assert_eq!(r.max_memory_mb, None);
    assert_eq!(r.state_flush_every, 25);
}

#[test]
fn a_silent_layer_clears_what_nothing_set() {
    let mut cfg = empty();
    cfg.defaults = Some(empty_config_defaults());
    let mut args = convert_args();
    args.max_memory_mb = Some(300);
    let r = settle_convert(args, Some(&cfg), &Explicit::new());
    assert_eq!(r.max_memory_mb, None);
    let p = ProgressArgs {
        root_dir: ".".to_string(),
        snapshot_dir: String::new(),
        parquet_dir: String::new(),
        command: Some("convert".to_string()),
        dataset: "all".to_string(),
        watch: true,
        once: false,
        interval_sec: 2,
        json: false,
    };
    let mut cfg = empty();
    let mut c = empty_progress_config();
    c.interval_sec = Some(9);
    cfg.progress = Some(c);
    let r = apply_progress_config(p, Some(&cfg), &Explicit::new());
    assert_eq!(r.command, None);
    assert_eq!(r.interval_sec, 9);
    assert!(r.watch);
}

#[test]
fn steps_of_the_pipeline_have_their_settings() {
    let mut cfg = empty();
    let mut c = empty_convert_config();
    c.skip_disk_check = Some(false);
    cfg.convert = Some(c);
    let mut dl = empty_download_config();
    dl.skip_disk_check = Some(false);
    dl.region = Some("eu".to_string());
    cfg.download = Some(dl);
    let mut v = empty_verify_config();
    v.metadata_level = Some(VerifyMetadataLevel::RowCount);
    cfg.verify_convert = Some(v);
    let mut rp = empty_repair_config();
    rp.from_verify_report = Some("/other.json".to_string());
    rp.profile = Some("p".to_string());
    cfg.repair_convert = Some(rp);
    let a = convert_step("/r", false, true, &cfg);
    assert!(a.skip_disk_check);
    assert_eq!(a.shared.parquet_dir, "/r/parquet");
    assert!(!convert_step("/r", false, false, &cfg).skip_disk_check);
    let b = download_step("/r", false, true, &cfg);
    assert!(b.skip_disk_check);
    assert_eq!(b.region.as_deref(), Some("eu"));
    assert_eq!(b.s3_uri, "s3://openalex");
    assert!(b.no_sign_request && b.delete_files && !b.signed && !b.no_delete);
    let c = validate_download_step("/r", false, &cfg);
    assert!(c.check_extra);
    assert_eq!(c.snapshot_dir, "/r/snapshot");
    let d = verify_step("/r", false, &cfg);
    assert_eq!(d.scope, VerifyScope::Snapshot);
    assert_eq!(d.metadata_level, VerifyMetadataLevel::RowCount);
    assert_eq!(d.file_sample_n, 50);
    let e = repair_step("/r", false, "/latest.json", &cfg);
    assert_eq!(e.from_verify_report.as_deref(), Some("/latest.json"));
    assert_eq!(e.profile, "p");
    assert!(!index_step("/r", false, &cfg).overwrite);
    assert_eq!(verify_index_step("/r", false, &cfg).dataset, "all");
}

#[test]
fn the_pipeline_takes_its_root_from_the_defaults() {
    let mut cfg = empty();
    let mut d = empty_config_defaults();
    d.root_dir = Some("/d".to_string());
    cfg.defaults = Some(d);
    let mut explicit = Explicit::new();
    assert_eq!(settle_root("x".to_string(), Some(&cfg), &explicit), "/d");
    explicit.insert("root_dir");
    assert!(explicit.has("root_dir"));
    assert!(!explicit.has("retry"));
    assert_eq!(settle_root("x".to_string(), None, &Explicit::new()), "x");
    assert_eq!(settle_root("x".to_string(), Some(&cfg), &explicit), "x");
}

#[test]
fn an_explicit_retry_wins() {
    let c = AllConfig {
        retry: Some(7),
        enable_download: Some(false),
        enable_verify_download: None,
        enable_convert: None,
        enable_verify_convert: None,
        enable_repair_convert: None,
        enable_index: None,
        enable_verify_index: None,
        skip_disk_check: Some(true),
    };
    let r = resolve_all_settings(1, false, false, &Some(c));
    assert_eq!(r.retry, 7);
    assert!(!r.enable_download && r.enable_convert && r.skip_disk_check);
    assert_eq!(resolve_all_settings(1, true, false, &Some(c)).retry, 1);
    assert_eq!(resolve_all_settings(3, false, false, &None).retry, 3);
}

fn report_args() -> ReportArgs {
    ReportArgs {
        root_dir: ".".to_string(),
        snapshot_dir: String::new(),
        parquet_dir: String::new(),
        source: ReportSource::All,
        command: None,
        latest: false,
        summary: false,
        full: false,
    }
}

#[test]
fn a_root_in_the_defaults_reaches_the_reports() {
    let mut cfg = empty();
    let mut d = empty_config_defaults();
    d.root_dir = Some("/d".to_string());
    d.dataset = Some("works".to_string());
    d.workers = Some(3);
    cfg.defaults = Some(d);
    let r = settle_report(report_args(), Some(&cfg), &Explicit::new());
    assert_eq!(r.root_dir, "/d");
    assert_eq!(r.parquet_dir, "/d/parquet");
    let prune = PruneReportsArgs {
        root_dir: ".".to_string(),
        snapshot_dir: String::new(),
        parquet_dir: String::new(),
        source: ReportSource::All,
        command: None,
        keep_per_command: 5,
        dry_run: true,
    };
    let r = settle_prune_reports(prune, Some(&cfg), &Explicit::new());
    assert_eq!(r.parquet_dir, "/d/parquet");
    let p = ProgressArgs {
        root_dir: ".".to_string(),
        snapshot_dir: String::new(),
        parquet_dir: String::new(),
        command: None,
        dataset: "all".to_string(),
        watch: false,
        once: false,
        interval_sec: 2,
        json: false,
    };
    let r = settle_progress(p, Some(&cfg), &Explicit::new());
    assert_eq!((r.root_dir.as_str(), r.dataset.as_str()), ("/d", "works"));
    let v = VerifySchemaArgs {
        shared: convert_args().shared,
        max_memory_mb: None,
        from: SchemaFrom::Source,
        diff_with: SchemaFrom::Parquet,
        sample_size: 100,
        refresh_cache: false,
        explain: false,
        state_flush_every: 25,
    };
    let r = settle_verify_schema(v, Some(&cfg), &Explicit::new());
    assert_eq!(r.shared.parquet_dir, "/d/parquet");
    assert_eq!((r.shared.dataset.as_str(), r.shared.workers), ("works", 3));
    assert_eq!(r.state_flush_every, 25);
    let mut c = empty_report_config();
    c.root_dir = Some("/section".to_string());
    cfg.report = Some(c);
    let r = settle_report(report_args(), Some(&cfg), &Explicit::new());
    assert_eq!(r.root_dir, "/section");
    let mut explicit = Explicit::new();
    explicit.insert("root_dir");
    let r = settle_report(report_args(), Some(&cfg), &explicit);
    assert_eq!(r.parquet_dir, "./parquet");
}

#[test]
fn a_root_on_the_command_line_holds_for_every_step() {
    let mut cfg = empty();
    let mut d = empty_config_defaults();
    d.root_dir = Some("/d".to_string());
    cfg.defaults = Some(d);
    let mut c = empty_convert_config();
    c.root_dir = Some("/section".to_string());
    cfg.convert = Some(c);
    assert_eq!(convert_step("/r", true, false, &cfg).shared.root_dir, "/r");
    assert_eq!(convert_step("/r", false, false, &cfg).shared.root_dir, "/section");
    assert_eq!(download_step("/r", true, false, &cfg).snapshot_dir, "/r/snapshot");
    assert_eq!(validate_download_step("/r", true, &cfg).snapshot_dir, "/r/snapshot");
    assert_eq!(verify_step("/r", true, &cfg).shared.parquet_dir, "/r/parquet");
    assert_eq!(repair_step("/r", true, "/l.json", &cfg).shared.parquet_dir, "/r/parquet");
    assert_eq!(index_step("/r", true, &cfg).root_dir, "/r");
    assert_eq!(verify_index_step("/r", true, &cfg).root_dir, "/r");
    assert_eq!(verify_index_step("/r", false, &cfg).root_dir, "/d");
}
