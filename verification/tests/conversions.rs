use flate2::write::GzEncoder;
use flate2::Compression;
use openalex_snapshot::convert::{
    bytes_to_gib, check_file_space, check_run_space, convert_args, convert_min_free_bytes, converted,
    memory_budget_mb, needs_split, partial_output, show_option, split_outcome, split_target,
    ConvertStart, DiskCheckScope, SplitOutcome,
};
use openalex_snapshot::files::{
    enumerate_pairs, estimate_convert_input_bytes_precise, filter_pairs_by_input_files,
    list_parquet_files, list_scoped_gz_files, resolve_datasets, FoundFile,
};
use openalex_snapshot::index::{
    all_datasets_verdict, count_shards, end_index, existing_index, index_datasets, index_file,
    keep_index, may_combine, shard_dir, shard_failed, shard_file, shard_path, start_index,
    ExistingIndex, IndexCheck, ShardOutcome,
};
use openalex_snapshot::plan::{FilePair, StratumPlan, Tuning};
use openalex_snapshot::profile::ProfileRegistry;
use openalex_snapshot::report::{report_new, DatasetReportSummary, FailureEntry};
use openalex_snapshot::runs::{Batch, Cursor, DatasetsRun, RunStage};
use openalex_snapshot::split::{
    chunk_lines, chunk_pairs, gzip_integrity_ok, list_split_parquets, read_error, split_gz_lines,
    split_parquet_path, ChunkFile, Chunker,
};
use openalex_snapshot::sql::{
    convert_sql, describe_columns, extra_json_options, metrics_row, parse_u64, row_number,
    split_set_prefix, sql_path_list, with_session_settings,
};
use openalex_snapshot::textmap::TextMap;
use std::io::{Read, Write};

fn strings(v: &[&str]) -> Vec<String> {
    v.iter().map(|s| s.to_string()).collect()
}

fn gz(text: &str) -> Vec<u8> {
    let mut e = GzEncoder::new(Vec::new(), Compression::default());
    e.write_all(text.as_bytes()).unwrap();
    e.finish().unwrap()
}

fn pair(rel: &str, size: u64) -> FilePair {
    let stem = rel.trim_end_matches(".gz");
    FilePair {
        input_gz: format!("/s/data/works/{}", rel),
        output_parquet: format!("/p/works/{}.parquet", stem),
        rel: rel.to_string(),
        gz_size_bytes: size,
    }
}

fn failure(phase: &str) -> FailureEntry {
    FailureEntry {
        dataset: "works".to_string(),
        phase: phase.to_string(),
        rel_path: None,
        source_path: None,
        output_path: None,
        error_message: "e".to_string(),
        suggested_recovery: None,
    }
}

fn held(chunks: &[ChunkFile]) -> Vec<(String, String)> {
    chunks
        .iter()
        .map(|c| {
            let mut text = String::new();
            flate2::read::GzDecoder::new(&c.bytes[..]).read_to_string(&mut text).unwrap();
            (c.path.clone(), text)
        })
        .collect()
}

#[test]
fn splitting_keeps_every_line() {
    let lines = strings(&["aaaa", "", "bb", "c", "dddddd"]);
    let expected = [
        ("/t/part_001.gz", "aaaa\n"),
        ("/t/part_002.gz", "bb\nc\n"),
        ("/t/part_003.gz", "dddddd\n"),
    ];
    let chunks = chunk_lines(&lines, "/t", "part", 5);
    assert_eq!(held(&chunks), expected.map(|(p, t)| (p.to_string(), t.to_string())));
    assert!(chunks.iter().all(|c| gzip_integrity_ok(&c.bytes).is_ok()));
    let none = chunk_lines(&vec![], "/t", "part", 5);
    assert_eq!(held(&none), [("/t/part_001.gz".to_string(), String::new())]);
    let data = gz("aaaa\n\nbb\nc\ndddddd\n");
    assert_eq!(held(&split_gz_lines("f.gz", &data, "/t", "part", 5).unwrap()), held(&chunks));
    let two = split_gz_lines("f.gz", &gz("{}\n{}\n"), "/t", "part", 3).unwrap();
    assert_eq!(
        held(&two),
        [
            ("/t/part_001.gz".to_string(), "{}\n".to_string()),
            ("/t/part_002.gz".to_string(), "{}\n".to_string()),
        ]
    );
    let e = split_gz_lines("f.gz", b"not gzip at all", "/t", "part", 5).err().unwrap();
    assert!(e.starts_with("read error in f.gz: "));
    assert_eq!(read_error("f.gz", "bad"), "read error in f.gz: bad");
}

#[test]
fn lines_are_chunked_one_at_a_time() {
    let mut c = Chunker::start("/t", "part", 5);
    assert!(c.take("aaaa").is_none());
    assert!(c.take("").is_none());
    let first = c.take("bb").unwrap();
    assert_eq!(held(&[first]), [("/t/part_001.gz".to_string(), "aaaa\n".to_string())]);
    assert!(c.take("c").is_none());
    assert_eq!((c.number, c.bytes), (2, 5));
    let last = c.finish();
    assert_eq!(held(&[last]), [("/t/part_002.gz".to_string(), "bb\nc\n".to_string())]);
}

#[test]
fn gzip_files_are_checked_to_their_end() {
    let data = gz("hello\nworld\n");
    assert_eq!(gzip_integrity_ok(&data), Ok(()));
    assert!(gzip_integrity_ok(&data[..data.len() - 6]).is_err());
    assert!(gzip_integrity_ok(b"zz").is_err());
}

#[test]
fn chunks_lie_beside_the_whole_file() {
    assert_eq!(split_parquet_path("/p/works/a.parquet", 7), "/p/works/a_007.parquet");
    assert_eq!(
        list_split_parquets("/p/works/a.parquet", 2),
        ["/p/works/a_001.parquet", "/p/works/a_002.parquet"]
    );
    let c = chunk_pairs(&pair("d/a.gz", 9), "/tmp/x", "works", 2);
    assert_eq!(c[1].input_gz, "/tmp/x/works/d/a_002.gz");
    assert_eq!(c[1].output_parquet, "/p/works/d/a_002.parquet");
    assert_eq!(c[1].rel, "d/a_002.gz");
    assert_eq!(c[1].gz_size_bytes, 0);
}

#[test]
fn disk_space_is_checked_where_it_is_asked_for() {
    const GIB: u64 = 1 << 30;
    assert_eq!(bytes_to_gib(GIB * 3 + 5), 3);
    assert!(check_run_space(true, DiskCheckScope::Dataset, 0, 9, "d", "/p").is_none());
    assert!(check_run_space(false, DiskCheckScope::File, 0, 9, "d", "/p").is_none());
    assert!(check_run_space(false, DiskCheckScope::Dataset, 9, 9, "d", "/p").is_none());
    let n = check_run_space(false, DiskCheckScope::Dataset, GIB, 2 * GIB, "d", "/p").unwrap();
    assert_eq!(
        n.failure.error_message,
        "insufficient free disk space: available=1 GiB required_min=2 GiB"
    );
    assert!(n.message.starts_with("[convert] Not enough disk space.\n  Location : /p\n"));
    assert_eq!(convert_min_free_bytes(Some("2"), "/x", "/tmp"), 2 * GIB);
    assert_eq!(convert_min_free_bytes(Some("x"), "/data", "/tmp"), 900 * GIB);
    let p = pair("a.gz", 10);
    assert!(check_file_space("works", &p, 10, Ok(64 * 1024 * 1024 + 10)).is_none());
    assert!(check_file_space("works", &p, 10, Ok(64 * 1024 * 1024 + 9)).is_some());
    let f = check_file_space("works", &p, 10, Err("df".to_string())).unwrap();
    assert_eq!(f.error_message, "disk space check failed: df");
}

#[test]
fn split_sizes_and_outcomes() {
    assert_eq!(split_target("0"), Some(Ok(usize::MAX)));
    assert_eq!(split_target("1kb"), Some(Ok(1000)));
    assert_eq!(split_target("99999999999gib"), None);
    assert!(matches!(split_target("x"), Some(Err(_))));
    assert!(needs_split(&pair("a.gz", 11), 10));
    assert!(!needs_split(&pair("a.gz", 10), 10));
    match split_outcome(pair("a.gz", 1), "/t", "works", Some(Err("bad".to_string()))) {
        SplitOutcome::Failed(f) => assert_eq!(f.error_message, "split failed: bad"),
        _ => panic!("split"),
    }
    assert!(converted("works", "/r", &pair("a.gz", 1), Ok(())).is_none());
    let f = converted("works", "/r", &pair("a.gz", 1), Err("Out of Memory Error".to_string())).unwrap();
    assert_eq!(
        f.suggested_recovery.as_deref(),
        Some("openalex-snapshot convert --root-dir /r --dataset works --profile safe")
    );
    let f = converted("works", "/r", &pair("a.gz", 1), Err("x".to_string())).unwrap();
    assert_eq!(
        f.suggested_recovery.as_deref(),
        Some("retry converting this single file via --input-file")
    );
    assert_eq!(partial_output(&pair("a.gz", 1)), "/p/works/a.parquet.tmp");
    assert_eq!(show_option(None), "None");
    let t = Tuning { workers: 1, memory_mb: None };
    assert_eq!(convert_args("all", &t, "snappy", 25).len(), 5);
    let s = StratumPlan { workers: 3, memory_mb: 100, files: vec![] };
    assert_eq!(memory_budget_mb(&s), 300);
    let s = StratumPlan { workers: usize::MAX, memory_mb: 2, files: vec![] };
    assert_eq!(memory_budget_mb(&s), usize::MAX);
}

#[test]
fn sources_are_paired_with_their_parquet_files() {
    let found = vec![
        FoundFile { path: "/s/data/works/b/x.gz".to_string(), size: 2 },
        FoundFile { path: "/s/data/works/a.gz".to_string(), size: 1 },
        FoundFile { path: "/s/data/works/manifest".to_string(), size: 7 },
    ];
    let p = enumerate_pairs("/s", "/p", "works", &found).unwrap();
    assert_eq!(p.len(), 2);
    assert_eq!(p[0].rel, "a.gz");
    assert_eq!(p[1].output_parquet, "/p/works/b/x.parquet");
    let asked = filter_pairs_by_input_files(&p, &strings(&["b/x.gz"]), "/s", "works");
    assert_eq!(asked.len(), 1);
    let asked = filter_pairs_by_input_files(&p, &strings(&["/s/data/works/a.gz"]), "/s", "works");
    assert_eq!(asked[0].rel, "a.gz");
    let again = vec![
        FoundFile { path: "/s/data/works/a/x.gz".to_string(), size: 2 },
        FoundFile { path: "/s/data/works/b/x.gz".to_string(), size: 1 },
        FoundFile { path: "/s/data/works/x.gz".to_string(), size: 1 },
    ];
    let q = enumerate_pairs("/s", "/p", "works", &again).unwrap();
    let asked = filter_pairs_by_input_files(&q, &strings(&["b/x.gz"]), "/s", "works");
    assert_eq!(asked.len(), 1);
    assert_eq!(asked[0].rel, "b/x.gz");
    let asked = filter_pairs_by_input_files(&q, &strings(&["x.gz"]), "/s", "works");
    assert_eq!(asked.len(), 1);
    assert_eq!(asked[0].rel, "x.gz");
    let asked = filter_pairs_by_input_files(&q, &strings(&["a\\x.gz", "c/x.gz"]), "/s", "works");
    assert_eq!(asked.len(), 1);
    assert_eq!(asked[0].rel, "a/x.gz");
    assert_eq!(estimate_convert_input_bytes_precise(&found), 3);
    assert_eq!(list_parquet_files(&strings(&["/b.parquet", "/a.parquet", "/c.gz"])), ["/a.parquet", "/b.parquet"]);
    assert_eq!(list_scoped_gz_files(&strings(&["/b.gz", "/a.txt"])), ["/b.gz"]);
    assert_eq!(resolve_datasets("all", &strings(&["works", "authors"])), ["authors", "works"]);
    assert_eq!(resolve_datasets("works", &strings(&[])), ["works"]);
}

#[test]
fn batches_cover_every_item_once() {
    let mut c = Cursor::start(vec![3, 0, 5], 2);
    let mut seen: Vec<(usize, usize)> = Vec::new();
    while let Some(b) = c.next() {
        assert!(b.to - b.from <= 2);
        for i in b.from..b.to {
            seen.push((b.pass, i));
        }
        c.pass_batch(b);
    }
    assert_eq!(seen, vec![(0, 0), (0, 1), (0, 2), (2, 0), (2, 1), (2, 2), (2, 3), (2, 4)]);
    assert_eq!(Cursor::start(vec![1], 0).next(), Some(Batch { pass: 0, from: 0, to: 1 }));
}

#[test]
fn a_conversion_accounts_for_every_dataset() {
    let report = report_new("convert", "1", 0, 0, vec![]);
    let mut run = DatasetsRun::start(report, strings(&["a", "b", "works", "z"]), 2);
    assert_eq!(run.stage, RunStage::Scan);
    assert!(matches!(run.scanned(&vec![], false, &vec![]), ConvertStart::NoSources));
    assert_eq!(run.report.datasets.len(), 1);
    let done = vec![pair("x.gz", 1)];
    assert!(matches!(run.scanned(&done, false, &vec![true]), ConvertStart::AllDone { skipped: 1 }));
    assert_eq!(run.report.datasets[1].skipped, 1);
    let pairs = vec![pair("s.gz", 1), pair("l.gz", 100), pair("m.gz", 5), pair("k.gz", 4)];
    let files = match run.scanned(&pairs, false, &vec![false, false, false, true]) {
        ConvertStart::Todo { files, already_done } => {
            assert_eq!(already_done, 1);
            files
        }
        _ => panic!("todo"),
    };
    assert_eq!(files[0].rel, "l.gz");
    assert_eq!(run.stage, RunStage::Split);
    let outcomes = vec![
        split_outcome(pair("l.gz", 100), "/t", "works", Some(Ok(2))),
        split_outcome(pair("m.gz", 5), "/t", "works", None),
        split_outcome(pair("s.gz", 1), "/t", "works", Some(Err("no".to_string()))),
    ];
    let e = run.split(outcomes);
    assert_eq!((e.files.len(), e.sources, e.chunks), (3, 1, 2));
    assert_eq!(run.ds.items_scanned, 4);
    let reg = ProfileRegistry::builtins_only();
    assert!(run.plan("nope", 0, None, None, &e.files, &reg).is_err());
    let plan = run.plan("safe", 0, Some(10), None, &e.files, &reg).unwrap();
    assert_eq!(plan.strata[0].files.len(), 3);
    let b = run.batch().unwrap();
    assert_eq!((b.from, b.to), (0, 2));
    run.worked(b, vec![failure("convert_file")]);
    let b = run.batch().unwrap();
    run.worked(b, vec![]);
    assert!(run.batch().is_none());
    run.end();
    let d = &run.report.datasets[2];
    assert_eq!((d.items_scanned, d.succeeded, d.failed), (4, 2, 2));
    assert_eq!(run.report.failures.len(), 2);
    assert!(matches!(run.scanned(&vec![], true, &vec![]), ConvertStart::NoMatch));
    assert_eq!(run.stage, RunStage::Done);
    assert_eq!(run.report.datasets.len(), 3);
}

#[test]
fn a_dataset_without_columns_is_given_up() {
    let report = report_new("convert", "1", 0, 0, vec![]);
    let mut run = DatasetsRun::start(report, strings(&["works", "b"]), 2);
    run.scanned(&vec![pair("s.gz", 1)], false, &vec![false]);
    run.split(vec![split_outcome(pair("s.gz", 1), "/t", "works", None)]);
    run.no_columns("/s", "/p", "oops".to_string());
    assert_eq!(run.report.failures[0].phase, "schema_infer");
    assert_eq!(run.report.datasets[0].failed, 1);
    run.repair_files(3);
    run.no_repair("again".to_string());
    assert_eq!(run.report.datasets[1].failed, 3);
    assert_eq!(run.stage, RunStage::Done);
    let report = report_new("verify_convert", "1", 0, 0, vec![]);
    let mut run = DatasetsRun::start(report, strings(&["a", "b", "c"]), 2);
    run.verify_sample(0, 0);
    run.verify_sample(9, 1);
    let b = run.batch().unwrap();
    run.worked(b, vec![]);
    run.end();
    run.verify_all(2, vec![failure("structure")]);
    assert_eq!((run.ds.items_scanned, run.ds.failed), (2, 1));
    run.end();
    assert_eq!(run.report.datasets[2].succeeded, 1);
    assert_eq!(DatasetsRun::start(report_new("x", "1", 0, 0, vec![]), vec![], 1).stage, RunStage::Done);
}

#[test]
fn indexes_are_built_from_shards() {
    let found = strings(&["works", "works_aws", ".hidden", "authors"]);
    assert_eq!(index_datasets(&found, "/p").unwrap(), ["authors", "works"]);
    assert_eq!(
        index_datasets(&strings(&[".x"]), "/p"),
        Err("no parquet datasets found under /p".to_string())
    );
    assert_eq!(index_file("/p", "works"), "/p/works_id_idx.parquet");
    assert_eq!(shard_dir("/p/w.parquet"), "/p/w.parquet_tmp");
    assert_eq!(shard_file("/t", 0), "/t/idx_00001.parquet");
    assert_eq!(existing_index(false, false), ExistingIndex::Absent);
    assert_eq!(existing_index(true, true), ExistingIndex::Replace);
    assert_eq!(existing_index(true, false), ExistingIndex::Keep);
    assert_eq!(shard_path("w", "/p", "/p/w/a.parquet", "/t/1").ok().unwrap(), "w/a.parquet");
    assert_eq!(shard_path("w", "/p", "/q/a.parquet", "/t/1").err().unwrap().error_message, "prefix not found");
    let mut report = report_new("index", "1", 0, 0, vec![]);
    let mut ds = DatasetReportSummary::new("w");
    ds.items_scanned = 3;
    let outcomes = vec![
        ShardOutcome::Built,
        ShardOutcome::Present,
        ShardOutcome::Failed(shard_failed("w", "a", "/p/w/a.parquet", "/t/1", "x".to_string())),
    ];
    count_shards(&outcomes, &mut report, &mut ds);
    assert_eq!((ds.skipped, ds.failed), (1, 1));
    assert!(!may_combine(&ds));
    end_index(&mut report, ds, "/p/w.parquet", None);
    assert_eq!(report.failures.len(), 2);
    assert_eq!(report.failures[1].error_message, "stage1 failed for 1 shard(s), stage2 skipped");
    assert_eq!(all_datasets_verdict("index", 0), Ok(()));
    assert!(all_datasets_verdict("index", 2).is_err());
}

fn row(cells: &[(&str, &str)]) -> TextMap {
    let mut m = TextMap::new();
    for (k, v) in cells {
        m.insert(k.to_string(), v.to_string());
    }
    m
}

#[test]
fn an_index_is_checked_against_its_corpus() {
    let c = IndexCheck::start("w", "/p/i", "/p/w", false);
    assert!(!c.is_clean());
    let mut c = IndexCheck::start("w", "/p/i", "/p/w", true);
    assert!(c.is_clean());
    c.check_columns(&row(&[("id", "VARCHAR")]));
    assert!(!c.is_clean());
    let mut c = IndexCheck::start("w", "/p/i", "/p/w", true);
    c.check_corpus(0);
    assert!(!c.is_clean());
    let mut c = IndexCheck::start("w", "/p/i", "/p/w", true);
    c.check_refs("/p", &strings(&["w/a.parquet"]), &vec![false]);
    assert!(!c.is_clean());
    let mut report = report_new("verify-index", "1", 0, 0, vec![]);
    c.finish(&mut report);
    assert_eq!(report.failures.len(), 1);
    assert_eq!(report.datasets.len(), 1);
}

#[test]
fn statements_are_built_and_rows_are_read() {
    assert_eq!(sql_path_list(&strings(&["/a", "/b'c"])), "['/a', '/b''c']");
    assert_eq!(extra_json_options("works"), ", maximum_object_size=1000000000");
    assert_eq!(extra_json_options("authors"), "");
    assert_eq!(
        convert_sql("/i", "{}", "", "/o", "snappy", 5),
        "SET preserve_insertion_order = false;COPY (SELECT * FROM read_json('/i', columns = {}, union_by_name = true, ignore_errors = true)) TO '/o' (FORMAT PARQUET, COMPRESSION SNAPPY, ROW_GROUP_SIZE 5);"
    );
    let s = with_session_settings("SELECT 1", Some(10), Some(2));
    assert_eq!(s, "SET threads = 2; SET memory_limit='10MB'; SELECT 1");
    let (sets, rest) = split_set_prefix(&s);
    assert_eq!(sets.trim(), "SET threads = 2; SET memory_limit='10MB';");
    assert_eq!(rest.trim(), "SELECT 1");
    assert_eq!(parse_u64(Some("12")), Ok(12));
    assert_eq!(
        parse_u64(Some("x")),
        Err(format!("invalid integer in duckdb output: {}", "x".parse::<u64>().err().unwrap()))
    );
    assert_eq!(parse_u64(None), Err("missing numeric value".to_string()));
    assert_eq!(row_number(&row(&[("n", "4")]), "n"), Ok(4));
    assert_eq!(metrics_row(&row(&[("n", "4"), ("h", "77")])), Ok((4, "77".to_string())));
    assert!(metrics_row(&row(&[])).is_err());
    let cols = describe_columns(&vec![row(&[("column_name", "a"), ("column_type", "BIGINT")])]).unwrap();
    assert_eq!(cols.get("a").as_deref(), Some("BIGINT"));
}

#[test]
fn an_index_starts_with_its_files_or_not_at_all() {
    let d = start_index("works", "/p/works", 3).unwrap();
    assert_eq!((d.dataset.as_str(), d.items_scanned, d.failed), ("works", 3, 0));
    assert_eq!(
        start_index("works", "/p/works", 0).err().unwrap(),
        "no parquet files found under /p/works"
    );
    let mut r = report_new("index", "1", 0, 0, vec![]);
    keep_index(&mut r, "works");
    assert_eq!(r.datasets.len(), 1);
    assert_eq!((r.datasets[0].items_scanned, r.datasets[0].skipped), (0, 1));
}
