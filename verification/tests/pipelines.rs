use openalex_snapshot::config::{AppConfig, Explicit};
use openalex_snapshot::explain::{
    duckdb_bin_from_option, explain_all, explain_config, explain_convert, explain_download,
    explain_index, explain_skills, explain_verify, explain_verify_schema,
};
use openalex_snapshot::jobs::{
    config_job, config_sections, template_target, verified_line, verify_config, ConfigJob,
    NoteAction, NoteTally, TemplateTarget,
};
use openalex_snapshot::pipeline::{AllResolved, Pipeline, Stage, Step};
use openalex_snapshot::plan::Tuning;
use openalex_snapshot::report::{report_new, DatasetReportSummary};
use openalex_snapshot::schema::SchemaFrom;
use openalex_snapshot::settings::{convert_step, download_step, index_step, verify_step};
use openalex_snapshot::templates::{config_template, skills_templates, ConfigTemplateMode};
use openalex_snapshot::text::{
    ascii_lower_text, decimal_string, joined, parse_i64, parse_unsigned, split_lines, trimmed,
};
use openalex_snapshot::paths::{
    extension, file_name, file_stem, has_component, join_path, parent, strip_base, with_extension,
};

use std::path::Path;

fn strings(v: &[&str]) -> Vec<String> {
    v.iter().map(|s| s.to_string()).collect()
}

fn all(retry: usize, repair: bool) -> AllResolved {
    AllResolved {
        retry,
        enable_download: true,
        enable_verify_download: true,
        enable_convert: true,
        enable_verify_convert: true,
        enable_repair_convert: repair,
        enable_index: true,
        enable_verify_index: true,
        skip_disk_check: false,
    }
}

fn empty() -> AppConfig {
    AppConfig {
        defaults: None,
        all: None,
        convert: None,
        verify_convert: None,
        schema: None,
        index: None,
        extract: None,
        repair_convert: None,
        download: None,
        verify_download: None,
        verify_index: None,
        report: None,
        prune_reports: None,
        progress: None,
        check: None,
    }
}

#[test]
fn a_clean_pipeline_runs_its_steps_in_order() {
    let mut p = Pipeline::start(all(1, true));
    let mut seen: Vec<String> = Vec::new();
    while let Stage::Run(s) = p.stage {
        seen.push(s.name());
        p.advance(true);
    }
    assert_eq!(
        seen,
        ["download", "verify_download", "convert", "verify_convert", "index", "verify_index"]
    );
    assert_eq!(p.outcome(), Ok(()));
    let mut r = report_new("all", "1", 0, 0, vec![]);
    r.datasets.push(DatasetReportSummary::new("all"));
    p.close_report(&mut r);
    assert_eq!(r.datasets[0].succeeded, 1);
}

#[test]
fn a_failed_step_ends_the_pipeline() {
    let mut p = Pipeline::start(all(1, true));
    p.advance(false);
    assert_eq!(p.stage, Stage::Aborted(Step::Download));
    assert_eq!(p.outcome(), Err("[all] aborting after download failure".to_string()));
}

#[test]
fn verification_is_repaired_so_often_and_no_oftener() {
    let mut p = Pipeline::start(all(2, true));
    p.advance(true);
    p.advance(true);
    p.advance(true);
    let mut seen: Vec<String> = Vec::new();
    while let Stage::Run(s) = p.stage {
        seen.push(s.name());
        p.advance(s != Step::VerifyConvert);
    }
    assert_eq!(
        seen,
        ["verify_convert", "repair_convert", "verify_convert", "repair_convert", "verify_convert"]
    );
    assert_eq!(p.outcome(), Err("[all] verify/repair loop exhausted".to_string()));
    let mut p = Pipeline::start(all(2, false));
    p.advance(true);
    p.advance(true);
    p.advance(true);
    p.advance(false);
    assert_eq!(p.stage, Stage::LoopExhausted);
}

#[test]
fn a_repaired_pipeline_completes() {
    let mut p = Pipeline::start(all(2, true));
    let mut seen: Vec<String> = Vec::new();
    let mut verified = 0;
    while let Stage::Run(s) = p.stage {
        seen.push(s.name());
        if s == Step::VerifyConvert {
            verified += 1;
        }
        p.advance(s != Step::VerifyConvert && s != Step::RepairConvert || verified == 3);
        assert_eq!(p.step_failed, verified == 1 || verified == 2);
    }
    assert_eq!(
        seen[3..],
        [
            "verify_convert", "repair_convert", "verify_convert", "repair_convert",
            "verify_convert", "index", "verify_index"
        ]
    );
    assert_eq!(p.stage, Stage::Complete);
    assert_eq!(p.outcome(), Ok(()));
    let mut r = report_new("all", "1", 0, 0, vec![]);
    r.datasets.push(DatasetReportSummary::new("all"));
    p.close_report(&mut r);
    assert_eq!((r.datasets[0].succeeded, r.datasets[0].failed), (1, 0));
}

#[test]
fn a_failure_after_a_repair_stands() {
    let mut p = Pipeline::start(all(1, true));
    while let Stage::Run(s) = p.stage {
        p.advance(s != Step::VerifyIndex && (s != Step::VerifyConvert || p.attempts == 1));
    }
    assert_eq!(p.stage, Stage::Complete);
    assert_eq!(p.outcome(), Err("[all] pipeline failed".to_string()));
}

#[test]
fn every_template_verifies() {
    for (mode, sections) in [
        (
            ConfigTemplateMode::Complete,
            "all, check, convert, defaults, download, extract, index, progress, prune_reports, \
             repair_convert, report, schema, verify_convert, verify_download, verify_index",
        ),
        (ConfigTemplateMode::Safe, "defaults"),
        (ConfigTemplateMode::Fast, "defaults"),
    ] {
        let txt = config_template(mode);
        let line = verify_config("/c", &txt, Ok(())).unwrap();
        assert_eq!(line, format!("[config] path=/c sections=[{}] status=ok", sections));
        assert_eq!(txt, config_template(mode));
    }
    let f = verify_config("/c", "a: [", Ok(())).unwrap_err();
    assert_eq!(f.context, "invalid YAML /c");
    assert!(!f.cause.is_empty());
    let f = verify_config("/c", "a: 1", Err("unknown field `a`".to_string())).unwrap_err();
    assert_eq!(f.context, "schema validation failed /c");
    assert_eq!(f.cause, "unknown field `a`");
}

#[test]
fn templates_are_handed_out() {
    let c = config_template(ConfigTemplateMode::Complete);
    assert!(c.starts_with("# openalex-snapshot.yaml (complete)\n"));
    let names = config_sections(&c).unwrap();
    assert_eq!(
        names,
        [
            "all", "check", "convert", "defaults", "download", "extract", "index", "progress",
            "prune_reports", "repair_convert", "report", "schema", "verify_convert",
            "verify_download", "verify_index"
        ]
    );
    assert_eq!(config_sections(&config_template(ConfigTemplateMode::Safe)).unwrap(), ["defaults"]);
    assert!(config_template(ConfigTemplateMode::Fast).contains("profile: fast"));
    assert_eq!(config_sections("- a\n- b\n").unwrap().len(), 0);
    assert_eq!(config_sections("b: 1\n7: 2\na: 3\n").unwrap(), ["a", "b"]);
    assert!(config_sections("a: [").is_err());
    assert_eq!(
        verified_line("/c", &names[..2].to_vec()),
        "[config] path=/c sections=[all, check] status=ok"
    );
}

#[test]
fn config_has_one_job() {
    assert_eq!(
        config_job(Some(ConfigTemplateMode::Safe), false),
        Ok(ConfigJob::Create(ConfigTemplateMode::Safe))
    );
    assert_eq!(config_job(None, true), Ok(ConfigJob::Verify));
    let e = "config requires exactly one mode: use --create <complete|safe|fast> or --verify";
    assert_eq!(config_job(None, false), Err(e.to_string()));
    assert_eq!(config_job(Some(ConfigTemplateMode::Fast), true), Err(e.to_string()));
    assert!(matches!(template_target(true, "/c", true, false), TemplateTarget::Stdout));
    assert!(matches!(template_target(false, "/c", true, true), TemplateTarget::File));
    match template_target(false, "/c", true, false) {
        TemplateTarget::Refused(e) => {
            assert_eq!(e, "config file already exists: /c (use --overwrite)")
        }
        _ => panic!("refused"),
    }
}

#[test]
fn notes_are_written_once() {
    let files = skills_templates("/r");
    assert_eq!(files.len(), 7);
    assert_eq!(files[0].path, "/r/skills/README.md");
    assert_eq!(files[1].path, "/r/skills/cli-operations/SKILL.md");
    assert!(files[1].content.starts_with("# CLI Operations Skill\n"));
    let mut t = NoteTally::start();
    assert_eq!(t.take(false, false), NoteAction::Create);
    assert_eq!(t.take(true, false), NoteAction::Skip);
    assert_eq!(t.take(true, true), NoteAction::Overwrite);
    assert_eq!(t.line("/r/skills"), "[skills] root=/r/skills created=1 overwritten=1 skipped=1");
    let e = explain_skills("/r", true, false);
    assert_eq!(e[0], "--explain: skills root_dir=/r overwrite=true stdout=false files=7");
    assert_eq!(e[7], "would_write: /r/skills/_templates/skill-template.md");
}

#[test]
fn commands_explain_themselves() {
    let cfg = empty();
    let mut a = convert_step("/r", false, false, &cfg);
    let lines = explain_convert(&a, &strings(&["x", "y"]), "duckdb");
    assert_eq!(lines[0], "--explain: convert");
    assert_eq!(lines[4], "datasets: x, y");
    assert_eq!(lines[6], "workers: auto (per profile)");
    assert_eq!(lines[7], "max_memory_mb override: None");
    assert_eq!(lines[12], "input_filter: all files");
    a.shared.workers = 3;
    a.input_files = strings(&["f"]);
    let lines = explain_convert(&a, &strings(&[]), "duckdb");
    assert_eq!(lines[6], "workers: 3");
    assert_eq!(lines[12], "input_filter: 1");
    let d = explain_download(&download_step("/r", false, false, &cfg));
    assert_eq!(d[5], "delete_files: true");
    assert!(d[6].starts_with("sync_command: aws s3 sync --delete s3://openalex /r/snapshot"));
    let t = Tuning { workers: 2, memory_mb: Some(7) };
    let v = explain_verify(&verify_step("/r", false, &cfg), &strings(&["x"]), "duckdb", &t);
    assert_eq!(v[7], "plan: scope=Snapshot, metadata_level=Both, file_sample_n=50, seed=42");
    let i = explain_index(&index_step("/r", false, &cfg), "duckdb", "/c", "auto", &t);
    assert_eq!(i[6], "memory_mb: Some(7)");
    assert_eq!(
        explain_all(&all(2, false), "/r")[3],
        "steps: download=true verify_download=true convert=true verify_convert=true repair_convert=false index=true verify_index=true"
    );
    assert_eq!(
        explain_config(Some(ConfigTemplateMode::Safe), "/c", false, true),
        "--explain: config mode=create create_template=safe path=/c stdout=false overwrite=true"
    );
    assert_eq!(
        explain_verify_schema(SchemaFrom::Source, SchemaFrom::Parquet, &strings(&["a", "b"]), 9, false),
        "--explain: verify_schema from=Source diff_with=Parquet datasets=a,b sample_size=9 refresh_cache=false"
    );
    assert_eq!(duckdb_bin_from_option(&None), "duckdb");
    assert!(!Explicit::new().has("x"));
}

#[test]
fn texts_and_numbers_round_trip() {
    for n in [0u128, 9, 10, 12_345, u64::MAX as u128] {
        assert_eq!(parse_unsigned(&decimal_string(n), u128::MAX), Some(n));
    }
    assert_eq!(parse_unsigned("256", 255), None);
    assert_eq!(parse_unsigned("+7", 255), Some(7));
    assert_eq!(parse_i64("-12"), Some(-12));
    assert_eq!(parse_i64("9223372036854775808"), None);
    assert_eq!(split_lines("a\r\nb\n\n"), ["a", "b", ""]);
    assert_eq!(trimmed(" \ta b\n"), "a b");
    assert_eq!(joined(&strings(&["a", "b"]), ", "), "a, b");
    assert_eq!(ascii_lower_text("AbC-\u{c4}"), "abc-\u{c4}");
}

#[test]
fn paths_follow_the_standard_library() {
    for p in ["/a/b/c.tar.gz", "a", "/", "a/", ".hidden", "a/..", "./x.gz", "a//b.parquet"] {
        let std = Path::new(p);
        assert_eq!(file_name(p), std.file_name().map(|s| s.to_string_lossy().to_string()));
        assert_eq!(file_stem(p), std.file_stem().map(|s| s.to_string_lossy().to_string()));
        assert_eq!(extension(p), std.extension().map(|s| s.to_string_lossy().to_string()));
        assert_eq!(parent(p), std.parent().map(|s| s.to_string_lossy().to_string()));
        assert_eq!(join_path(p, "q"), std.join("q").to_string_lossy());
        assert_eq!(join_path(p, "/q"), std.join("/q").to_string_lossy());
        assert_eq!(with_extension(p, "z"), std.with_extension("z").to_string_lossy());
    }
    assert_eq!(strip_base("/a/b/c", "/a").as_deref(), Some("b/c"));
    assert_eq!(strip_base("/ab", "/a"), None);
    assert!(has_component("/a/b", "b") && !has_component("/a/bc", "b"));
}
