use openalex_snapshot::extract::{extract_dataset_from_id, normalize_openalex_id};
use openalex_snapshot::repair::collect_repair_targets;
use openalex_snapshot::report::{FailureEntry, RunReport};
use openalex_snapshot::schema::{arrow_to_duckdb_type, duckdb_to_arrow_type, widen_type};
use openalex_snapshot::sql::sql_quote;

#[test]
fn test_widen_numeric() {
    assert_eq!(widen_type("INTEGER", "DOUBLE"), "DOUBLE");
    assert_eq!(widen_type("SMALLINT", "BIGINT"), "BIGINT");
}

#[test]
fn test_sql_quote() {
    assert_eq!(sql_quote("abc"), "'abc'");
    assert_eq!(sql_quote("a'b"), "'a''b'");
}

#[test]
fn test_arrow_mapping() {
    assert_eq!(duckdb_to_arrow_type("BIGINT"), "int64");
    assert_eq!(duckdb_to_arrow_type("VARCHAR"), "utf8");
    assert_eq!(arrow_to_duckdb_type("utf8"), "VARCHAR");
}

fn verify_failure() -> FailureEntry {
    FailureEntry {
        dataset: "authors".to_string(),
        phase: "verify_metrics".to_string(),
        rel_path: Some("part_000/part1.gz".to_string()),
        source_path: Some("/tmp/snapshot/data/authors/part_000/part1.gz".to_string()),
        output_path: Some("/tmp/parquet/authors/part_000/part1.parquet".to_string()),
        error_message: "x".to_string(),
        suggested_recovery: None,
    }
}

#[test]
fn test_collect_repair_targets_filters_and_dedups() {
    let report = RunReport {
        command: "verify".to_string(),
        cli_version: "0.1.0".to_string(),
        report_nonce: 1,
        started_at_unix: 1,
        finished_at_unix: Some(2),
        duration_seconds: Some(1),
        args: vec![],
        totals_items_scanned: 2,
        totals_succeeded: 0,
        totals_failed: 2,
        totals_skipped: 0,
        datasets: vec![],
        failures: vec![
            verify_failure(),
            verify_failure(),
            FailureEntry {
                dataset: "works".to_string(),
                phase: "structure".to_string(),
                rel_path: Some("part_000/part1.gz".to_string()),
                source_path: None,
                output_path: None,
                error_message: "x".to_string(),
                suggested_recovery: None,
            },
        ],
        step_runs: vec![],
    };
    let allowed = vec!["authors".to_string()];
    let out = collect_repair_targets(&report, &allowed, "/tmp/snapshot", "/tmp/parquet");
    assert_eq!(out.len(), 1);
    assert_eq!(out[0].dataset, "authors");
    assert_eq!(out[0].rel, "part_000/part1.gz");
}

#[test]
fn test_extract_dataset_routing() {
    assert_eq!(extract_dataset_from_id("A5073096074").as_deref(), Some("authors"));
    assert_eq!(extract_dataset_from_id("W123").as_deref(), Some("works"));
    assert_eq!(
        extract_dataset_from_id("institution-types/other").as_deref(),
        Some("institution-types")
    );
    assert_eq!(extract_dataset_from_id("continents/europe").as_deref(), Some("continents"));
    assert_eq!(extract_dataset_from_id("X999"), None);
}

#[test]
fn test_normalize_openalex_id() {
    assert_eq!(normalize_openalex_id("https://openalex.org/A5073096074"), "A5073096074");
    assert_eq!(normalize_openalex_id("http://openalex.org/countries/us"), "countries/us");
}
