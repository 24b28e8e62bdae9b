use openalex_snapshot::plan::{FilePair, Tuning};
use openalex_snapshot::repair::{
    first_repair_step, group_by_dataset, next_repair_step, repair_args, repair_pairs,
    resolve_report_path_for_root, resolve_verify_report_path, unactionable_entries,
    unreadable_report, RepairNext, RepairStep, RepairTarget, ReportChoice,
};
use openalex_snapshot::report::{report_new, FailureEntry};
use openalex_snapshot::textmap::TextMap;
use openalex_snapshot::verify::{
    answered_row, ask_parquet, ask_source, compare_metrics, expected_parquet, fresh_row,
    metric_key, missing_sample, needs_hash, parts_signature, paths_outside, sample_in_order,
    structure_failures, unreadable_parquet, verified, verify_args, verify_sample,
    verify_verdict, MetricCache, MetricRow, VerifyMetadataLevel, VerifyScope, FileCheck,
    Wanted,
};
use rand::seq::SliceRandom;
use rand::SeedableRng;

fn strings(v: &[&str]) -> Vec<String> {
    v.iter().map(|s| s.to_string()).collect()
}

fn pair(rel: &str) -> FilePair {
    let stem = rel.trim_end_matches(".gz");
    FilePair {
        input_gz: format!("/s/data/works/{}", rel),
        output_parquet: format!("/p/works/{}.parquet", stem),
        rel: rel.to_string(),
        gz_size_bytes: 1,
    }
}

fn rels(v: &[FilePair]) -> Vec<String> {
    v.iter().map(|p| p.rel.clone()).collect()
}

#[test]
fn samples_are_drawn_as_the_seed_says() {
    let pairs: Vec<FilePair> = (0..20).map(|i| pair(&format!("f{}.gz", i))).collect();
    let got = rels(&verify_sample(&pairs, 42, 5));
    let mut all: Vec<&FilePair> = pairs.iter().collect();
    let mut rng = rand::rngs::StdRng::seed_from_u64(42);
    all.shuffle(&mut rng);
    let want: Vec<String> = all[..5].iter().map(|p| p.rel.clone()).collect();
    assert_eq!(got, want);
    assert_ne!(got, rels(&pairs[..5]));
    assert_eq!(verify_sample(&pairs, 1, 99).len(), 20);
    let mut once = got.clone();
    once.sort();
    once.dedup();
    assert_eq!(once.len(), 5);
    assert_eq!(rels(&sample_in_order(&pairs[..3].iter().map(|p| pair(&p.rel)).collect(), &vec![2, 0, 1], 2)), ["f2.gz", "f0.gz"]);
}

#[test]
fn metrics_are_compared_at_their_level() {
    let both = VerifyMetadataLevel::Both;
    assert_eq!(compare_metrics(both, "r", 3, "h", 3, "h"), Ok(()));
    assert_eq!(
        compare_metrics(both, "r", 3, "h", 4, "h"),
        Err("[verify] row count mismatch for r (json=3, parquet=4)".to_string())
    );
    assert_eq!(
        compare_metrics(both, "r", 3, "h", 3, "g"),
        Err("[verify] id hash mismatch for r (json_hash=h, parquet_hash=g)".to_string())
    );
    assert_eq!(compare_metrics(VerifyMetadataLevel::RowCount, "r", 3, "h", 3, "g"), Ok(()));
    assert_eq!(compare_metrics(VerifyMetadataLevel::IdHash, "r", 3, "h", 4, "h"), Ok(()));
    assert!(needs_hash(both) && !needs_hash(VerifyMetadataLevel::RowCount));
}

fn metric(rel: &str, hash: &str) -> MetricRow {
    MetricRow {
        rel_path: rel.to_string(),
        size: 5,
        mtime_unix: 6,
        row_count: 7,
        id_hash: hash.to_string(),
    }
}

#[test]
fn cached_metrics_serve_while_the_file_is_the_same() {
    let mut c = MetricCache::new();
    c.insert(metric("b", "h"));
    c.insert(metric("a", ""));
    assert!(fresh_row(&c, "b", 5, 6, true).is_some());
    assert!(fresh_row(&c, "b", 4, 6, true).is_none());
    assert!(fresh_row(&c, "b", 5, 7, true).is_none());
    assert!(fresh_row(&c, "a", 5, 6, true).is_none());
    assert!(fresh_row(&c, "a", 5, 6, false).is_some());
    assert!(c.get("zz").is_none());
    let names: Vec<String> = c.sorted_rows().iter().map(|r| r.rel_path.clone()).collect();
    assert_eq!(names, ["a", "b"]);
    assert_eq!(parts_signature(&vec![(1, 9), (2, 4)]), (3, 9));
    assert_eq!(metric_key(&pair("d/a.gz")), "d/a.gz");
}

#[test]
fn answers_become_rows() {
    let mut m = TextMap::new();
    m.insert("n".to_string(), "12".to_string());
    m.insert("h".to_string(), "99".to_string());
    let r = answered_row("a", 1, 2, &m, true).unwrap();
    assert_eq!((r.row_count, r.id_hash.as_str()), (12, "99"));
    let mut bad = TextMap::new();
    bad.insert("n".to_string(), "x".to_string());
    assert!(answered_row("a", 1, 2, &bad, true).is_err());
    assert!(ask_source(&pair("a.gz"), true, Some(9)).contains("bit_xor"));
    assert!(!ask_source(&pair("a.gz"), false, None).contains("bit_xor"));
    assert!(ask_parquet(&pair("a.gz"), &strings(&["/p/a_001.parquet", "/p/a_002.parquet"]), false, None).contains("['/p/a_001.parquet', '/p/a_002.parquet']"));
}

#[test]
fn the_structure_of_a_dataset_is_checked() {
    let pairs = vec![pair("a.gz"), pair("d/b.gz")];
    let parts = strings(&["a.parquet", "d/b_001.parquet", "d/b_002.parquet"]);
    let mut want = expected_parquet(&pairs, &parts);
    want.sort();
    assert_eq!(want, ["a.parquet", "d/b_001.parquet", "d/b_002.parquet"]);
    assert!(structure_failures("works", "/p", &pairs, &vec![true, true], &parts).is_empty());
    let f = structure_failures("works", "/p", &pairs, &vec![true, false], &strings(&["a.parquet", "z.parquet"]));
    assert_eq!(f.len(), 2);
    assert_eq!(f[0].error_message, "missing parquet file");
    assert_eq!(f[0].output_path.as_deref(), Some("/p/works/d/b.parquet"));
    assert_eq!(f[1].error_message, "structure mismatch (missing=1, extra=1)");
    assert_eq!(paths_outside(&strings(&["a", "b"]), &strings(&["b"])), 1);
}

#[test]
fn a_dataset_converted_whole_passes() {
    let pairs = vec![pair("a.gz"), pair("d/b.gz")];
    let whole = strings(&["a.parquet", "d/b.parquet"]);
    assert!(structure_failures("works", "/p", &pairs, &vec![true, true], &whole).is_empty());
    let short = strings(&["a.parquet"]);
    let f = structure_failures("works", "/p", &pairs, &vec![true, false], &short);
    assert_eq!(f.len(), 2);
    assert_eq!(f[1].error_message, "structure mismatch (missing=1, extra=0)");
}

#[test]
fn verification_outcomes_are_recorded() {
    assert!(verified("works", &pair("a.gz"), Ok(())).is_none());
    assert_eq!(verified("works", &pair("a.gz"), Err("x".to_string())).unwrap().phase, "verify_metrics");
    assert_eq!(missing_sample("works", &pair("a.gz")).error_message, "missing parquet file");
    assert_eq!(verify_verdict(0), Ok(()));
    assert_eq!(
        verify_verdict(2),
        Err("[verify] failures detected: 2 files/conditions failed".to_string())
    );
    assert!(unreadable_parquet(&pair("a.gz"), 0, "e").contains("a.gz"));
    let t = Tuning { workers: 1, memory_mb: None };
    let a = verify_args("all", VerifyScope::File, VerifyMetadataLevel::IdHash, &t, 25);
    assert_eq!(a[1].value, "File");
    assert_eq!(a[2].value, "IdHash");
}

#[test]
fn a_repair_goes_step_by_step() {
    assert_eq!(first_repair_step(true), RepairStep::Delete);
    assert_eq!(first_repair_step(false), RepairStep::Convert);
    let p = pair("a.gz");
    assert!(matches!(
        next_repair_step("works", &p, RepairStep::Delete, Ok(())),
        RepairNext::Step(RepairStep::Convert)
    ));
    assert!(matches!(
        next_repair_step("works", &p, RepairStep::Convert, Ok(())),
        RepairNext::Step(RepairStep::Verify)
    ));
    assert!(matches!(next_repair_step("works", &p, RepairStep::Verify, Ok(())), RepairNext::Done));
    for (step, phase) in [
        (RepairStep::Delete, "repair_delete"),
        (RepairStep::Convert, "repair_convert"),
        (RepairStep::Verify, "repair_verify"),
    ] {
        match next_repair_step("works", &p, step, Err("e".to_string())) {
            RepairNext::Stop(f) => assert_eq!(f.phase, phase),
            _ => panic!("stop"),
        }
    }
}

#[test]
fn the_report_to_repair_from_is_found() {
    match resolve_verify_report_path(Some("/g"), Some("/v"), Some("/c"), "/r") {
        Ok(ReportChoice::Given(p)) => assert_eq!(p, "/g"),
        _ => panic!("given"),
    }
    match resolve_verify_report_path(None, Some("/v"), Some("/c"), "/r") {
        Ok(ReportChoice::Verify(p)) => assert_eq!(p, "/v"),
        _ => panic!("verify"),
    }
    match resolve_verify_report_path(None, None, Some("/c"), "/r") {
        Ok(ReportChoice::Convert(p)) => assert_eq!(p, "/c"),
        _ => panic!("convert"),
    }
    assert!(resolve_verify_report_path(None, None, None, "/r").is_err());
}

#[test]
fn repairs_are_grouped_and_paired() {
    let t = |d: &str, r: &str| RepairTarget {
        dataset: d.to_string(),
        source_path: format!("/s/{}", r),
        output_path: format!("/p/{}", r),
        rel: r.to_string(),
    };
    let targets = vec![t("b", "1"), t("a", "2"), t("b", "3")];
    let g = group_by_dataset(&targets);
    let shape: Vec<(&str, usize)> = g.iter().map(|x| (x.dataset.as_str(), x.targets.len())).collect();
    assert_eq!(shape, vec![("a", 1), ("b", 2)]);
    let p = repair_pairs(&targets, &vec![9, 8, 7]);
    assert_eq!((p[1].input_gz.as_str(), p[1].gz_size_bytes), ("/s/2", 8));
    assert_eq!(resolve_report_path_for_root("/abs/x", "/r/snapshot"), "/abs/x");
    let tuning = Tuning { workers: 1, memory_mb: None };
    assert!(!repair_args("all", "/v", &tuning, 25).is_empty());
    assert_eq!(unreadable_report("all", "/v", "e".to_string()).phase, "repair_report_parse");
    let mut r = report_new("verify_convert", "1", 0, 0, vec![]);
    r.failures.push(FailureEntry {
        dataset: "a".to_string(),
        phase: "verify_metrics".to_string(),
        rel_path: None,
        source_path: Some("/s".to_string()),
        output_path: None,
        error_message: "x".to_string(),
        suggested_recovery: None,
    });
    let u = unactionable_entries(&r, &strings(&["a"]));
    assert_eq!(u.len(), 1);
    assert_eq!(u[0].error_message, "verify failure entry is not actionable (missing paths)");
    assert!(unactionable_entries(&r, &strings(&["b"])).is_empty());
}

fn answer(n: &str, h: &str) -> TextMap {
    let mut m = TextMap::new();
    m.insert("n".to_string(), n.to_string());
    m.insert("h".to_string(), h.to_string());
    m
}

fn begin_check(source: &MetricCache, parquet: &MetricCache) -> FileCheck {
    FileCheck::start(
        pair("a/part.gz"),
        Vec::new(),
        VerifyMetadataLevel::Both,
        Some(512),
        (10, 100),
        (20, 200),
        source,
        parquet,
    )
}

#[test]
fn a_file_check_asks_for_both_sides_and_compares() {
    let mut source = MetricCache::new();
    let mut parquet = MetricCache::new();
    let mut check = begin_check(&source, &parquet);
    match check.next() {
        Wanted::Source(sql) => assert!(sql.contains("'/s/data/works/a/part.gz'")),
        _ => panic!("the source is asked first"),
    }
    let row = check.answered(&answer("3", "77")).unwrap();
    assert_eq!((row.size, row.mtime_unix, row.row_count), (10, 100, 3));
    source.insert(row);
    match check.next() {
        Wanted::Parquet(sql) => assert!(sql.contains("'/p/works/a/part.parquet'")),
        _ => panic!("the parquet file is asked next"),
    }
    assert!(check.unanswered("corrupt".to_string()).starts_with("parquet metrics failed for "));
    let row = check.answered(&answer("4", "77")).unwrap();
    parquet.insert(row);
    assert!(matches!(check.next(), Wanted::Verdict));
    assert_eq!(
        check.verdict(),
        Err("[verify] row count mismatch for a/part.gz (json=3, parquet=4)".to_string())
    );

    let again = begin_check(&source, &parquet);
    assert!(matches!(again.next(), Wanted::Verdict));
}

#[test]
fn a_file_check_with_an_unreadable_answer_stays_where_it_is() {
    let mut check = begin_check(&MetricCache::new(), &MetricCache::new());
    assert!(check.answered(&answer("many", "1")).is_err());
    assert!(matches!(check.next(), Wanted::Source(_)));
}
