use openalex_snapshot::check::{
    check_verdict, overall_status, parse_df, render_finding, CheckFinding, FindingStatus, Preflight,
};
use openalex_snapshot::csvfile::CsvTable;
use openalex_snapshot::download::{
    aws_common_flags_from, aws_sync_command, build_local_manifest, check_download_space,
    dataset_from_key, dataset_prefix, download_args, gzip_failure, index_by_key, list_page_command,
    listing_failed, listing_prefix, local_root, parse_s3_uri,
    remote_total_bytes, required_bytes, sync_failed, AwsAccess, DownloadCheck, Listing, LocalFile,
    RemoteObject, SyncRequest,
};
use openalex_snapshot::extract::{
    canonical_openalex_id, end_extract, extract_dataset_from_id, extract_inputs,
    extract_output_path, give_up_index, id_list_csv, match_ids, missing_csv, note_missing,
    normalize_openalex_id, only_dataset, read_extract_ids, route_ids, stamped_file, start_extract, unknown_csv, IndexFault,
    MissingId,
};
use openalex_snapshot::report::report_new;
use openalex_snapshot::textmap::TextMap;

fn strings(v: &[&str]) -> Vec<String> {
    v.iter().map(|s| s.to_string()).collect()
}

fn access(no_sign: bool, signed: bool) -> AwsAccess {
    AwsAccess {
        endpoint_url: None,
        region: Some("us-east-1".to_string()),
        profile_name: None,
        no_sign_request: no_sign,
        signed,
    }
}

fn request(dataset: &str) -> SyncRequest {
    SyncRequest {
        s3_uri: "s3://openalex/".to_string(),
        snapshot_dir: "/s".to_string(),
        dataset: dataset.to_string(),
        delete_files: true,
        no_delete: false,
    }
}

fn object(key: &str, size: u64) -> RemoteObject {
    RemoteObject {
        key: key.to_string(),
        size,
        etag: String::new(),
        last_modified: String::new(),
    }
}

#[test]
fn uris_are_taken_apart() {
    assert_eq!(
        parse_s3_uri("s3://openalex/a/b"),
        Ok(("openalex".to_string(), "a/b".to_string()))
    );
    assert_eq!(parse_s3_uri("s3://openalex"), Ok(("openalex".to_string(), String::new())));
    assert!(parse_s3_uri("http://x").is_err());
    assert!(parse_s3_uri("s3://").is_err());
}

#[test]
fn the_download_command_is_built() {
    assert_eq!(
        aws_sync_command(&request("all"), &access(true, false))[..5],
        strings(&["s3", "sync", "--delete", "s3://openalex", "/s"])
    );
    let one = aws_sync_command(&request("works"), &access(true, true));
    assert_eq!(one[3], "s3://openalex/data/works/");
    assert_eq!(one[4], "/s/data/works");
    assert!(!one.contains(&"--no-sign-request".to_string()));
    assert!(aws_common_flags_from(&access(true, false)).contains(&"--no-sign-request".to_string()));
    let mut keep = request("all");
    keep.no_delete = true;
    assert!(!aws_sync_command(&keep, &access(true, false)).contains(&"--delete".to_string()));
}

#[test]
fn remote_objects_are_listed_page_by_page() {
    assert_eq!(dataset_prefix("all"), "");
    assert_eq!(dataset_prefix("works"), "data/works/");
    assert_eq!(listing_prefix("", "works"), "data/works/");
    let cmd = list_page_command("b", "data/", &Some("T".to_string()), &access(true, false));
    assert!(cmd.contains(&"T".to_string()));
    let mut l = Listing::start();
    let page = r#"{"Contents":[{"Key":"data/b.gz","Size":2,"ETag":"\"e\"","LastModified":"t"},{"Key":"data/a.gz","Size":1}],"IsTruncated":true,"NextContinuationToken":"N"}"#;
    assert_eq!(l.take_page(page), Ok(()));
    assert!(!l.finished);
    assert_eq!(l.token.as_deref(), Some("N"));
    assert_eq!(l.take_page(r#"{"Contents":[{"Key":"data/c.gz","Size":3}],"IsTruncated":false}"#), Ok(()));
    assert!(l.finished);
    assert_eq!(l.objects.len(), 3);
    assert_eq!(remote_total_bytes(&l.objects), 6);
    assert!(l.take_page("no json").is_err());
}

#[test]
fn a_complete_download_passes() {
    let found = vec![
        LocalFile { path: "/s/data/works/a.gz".to_string(), size: 1, modified: None },
        LocalFile { path: "/s/data/works/b.gz".to_string(), size: 2, modified: Some(5) },
    ];
    let local = build_local_manifest("/s", &found);
    let keys: Vec<&str> = local.iter().map(|o| o.key.as_str()).collect();
    assert_eq!(keys, ["data/works/a.gz", "data/works/b.gz"]);
    let remote = vec![object("data/works/a.gz", 1), object("data/works/b.gz", 2)];
    let mut c = DownloadCheck::start(&remote, &local);
    while c.next < c.remote.len() {
        c.compare_next("s3://openalex", "/s");
    }
    c.check_extra("/s");
    let mut r = report_new("verify_download", "1", 0, 0, vec![]);
    c.fill_report(&mut r);
    assert!(r.failures.is_empty());
    assert_eq!(r.datasets[0].succeeded, 2);
}

#[test]
fn a_broken_download_is_told() {
    let remote = vec![object("data/works/a.gz", 1), object("data/works/b.gz", 2)];
    let local = vec![object("data/works/b.gz", 3), object("data/works/x.gz", 3)];
    let mut c = DownloadCheck::start(&remote, &local);
    c.compare_next("s3://openalex/", "/s");
    c.compare_next("s3://openalex/", "/s");
    c.check_extra("/s");
    c.record(vec![gzip_failure("/s/data/works/b.gz", "s3://openalex/", "/s", "bad".to_string())]);
    let mut r = report_new("verify_download", "1", 0, 0, vec![]);
    c.fill_report(&mut r);
    let seen: Vec<(&str, &str)> =
        r.failures.iter().map(|f| (f.phase.as_str(), f.error_message.as_str())).collect();
    assert_eq!(seen[0], ("validate_file_presence", "missing local file"));
    assert_eq!(seen[1], ("validate_file_size", "size mismatch local=3 remote=2"));
    assert_eq!(seen[2].0, "validate_file_presence");
    assert_eq!(seen[3].0, "validate_gzip_integrity");
    assert_eq!(r.failures[0].source_path.as_deref(), Some("s3://openalex/data/works/a.gz"));
}

#[test]
fn small_parts_of_a_download() {
    assert_eq!(dataset_from_key("data/works/x.gz"), "works");
    assert_eq!(local_root("/s", "all"), "/s");
    assert_eq!(local_root("/s", "works"), "/s/data/works");
    assert_eq!(required_bytes(100), 110);
    assert!(check_download_space(&request("all"), true, 0, 100).is_none());
    assert!(check_download_space(&request("all"), false, 110, 100).is_none());
    assert!(check_download_space(&request("all"), false, 109, 100).is_some());
    assert_eq!(listing_failed(&request("all"), "e".to_string()).error_message, "e");
    assert_eq!(sync_failed(&request("all"), "e".to_string()).phase, "download_sync");
    assert!(!download_args(&request("all"), &access(true, false), 25).is_empty());
    let once = index_by_key(&vec![object("b", 1), object("a", 1), object("b", 9)]);
    let keys: Vec<(&str, u64)> = once.iter().map(|o| (o.key.as_str(), o.size)).collect();
    assert_eq!(keys, vec![("a", 1), ("b", 9)]);
}

#[test]
fn ids_are_read_from_a_table() {
    let v = read_extract_ids(b"x,openalex_id\n1, W12 \n2,\n3,https://openalex.org/a5\n").unwrap();
    assert_eq!(v.len(), 2);
    assert_eq!(v[0].dataset.as_deref(), Some("works"));
    assert_eq!(v[1].normalized.to_lowercase(), "a5");
    assert_eq!(v[1].dataset.as_deref(), Some("authors"));
    let v = read_extract_ids(b"first,second\nW1,W2\n").unwrap();
    assert_eq!(v[0].normalized, "W1");
    let t = CsvTable { headers: Err("bad".to_string()), records: vec![] };
    assert_eq!(extract_inputs(&t).err().as_deref(), Some("bad"));
}

#[test]
fn ids_are_routed_to_their_datasets() {
    let v = read_extract_ids(b"id\nW1\nX9\nA2\nW1\ncountries/us\n").unwrap();
    let r = route_ids(&v, None);
    assert_eq!(r.unknown.len(), 1);
    assert_eq!(r.unknown[0].reason, "unmapped id format/prefix");
    let shape: Vec<(&str, usize)> = r.groups.iter().map(|g| (g.dataset.as_str(), g.ids.len())).collect();
    assert_eq!(shape.len(), 3);
    assert_eq!(shape.iter().find(|g| g.0 == "authors"), Some(&("authors", 1)));
    let r = route_ids(&v, Some("works"));
    assert_eq!(r.groups.len(), 1);
    assert!(r.unknown.iter().any(|u| u.reason == "filtered by --dataset=works"));
    assert_eq!(only_dataset("all"), None);
    assert_eq!(only_dataset("works").as_deref(), Some("works"));
    assert_eq!(canonical_openalex_id("https://openalex.org/W1"), canonical_openalex_id("W1"));
    for raw in ["W1", "/W1/", "https://openalex.org/W1/", "http://openalex.org/countries/us", ""] {
        let long = canonical_openalex_id(raw);
        assert_eq!(normalize_openalex_id(&long), normalize_openalex_id(raw));
        assert_eq!(canonical_openalex_id(&long), long);
    }
    assert_eq!(normalize_openalex_id("\"W1 \""), "W1 ");
    assert_eq!(normalize_openalex_id(&canonical_openalex_id("\"W1 \"")), "W1");
    assert_eq!(extract_dataset_from_id(" w7 ").as_deref(), Some("works"));
    assert_eq!(extract_dataset_from_id(""), None);
    let u = unknown_csv(&route_ids(&v, None).unknown);
    assert!(u.contains("X9"));
    assert!(id_list_csv(&strings(&["a,b"])).contains("\"a,b\""));
}

fn row(cells: &[(&str, &str)]) -> TextMap {
    let mut m = TextMap::new();
    for (k, v) in cells {
        m.insert(k.to_string(), v.to_string());
    }
    m
}

#[test]
fn found_and_missing_ids_are_told_apart() {
    let ids = strings(&["https://openalex.org/W1", "https://openalex.org/W2"]);
    let rows = vec![row(&[
        ("id", "https://openalex.org/W1"),
        ("parquet_file", "works/a.parquet"),
    ])];
    let m = match_ids(&ids, &rows, "/p");
    assert_eq!(m.ids, ["https://openalex.org/W1"]);
    assert_eq!(m.missing, ["https://openalex.org/W2"]);
    assert_eq!(m.files, ["/p/works/a.parquet"]);
    assert_eq!(m.ids.len() + m.missing.len(), ids.len());
    let mut out: Vec<MissingId> = Vec::new();
    note_missing(&mut out, "works", &m.missing);
    assert_eq!(missing_csv(&out), "dataset,id\nworks,https://openalex.org/W2\n");
    assert_eq!(extract_output_path("/o/x.parquet", "works"), "/o/x_works.parquet");
    assert_eq!(stamped_file("/r", "unknown-", 7), "/r/unknown-7.csv");
    let mut r = report_new("extract", "1", 0, 0, vec![]);
    give_up_index(&mut r, start_extract("works", 2), "/r", "/p/i", IndexFault::Missing);
    assert_eq!(r.datasets[0].failed, 2);
    end_extract(&mut r, start_extract("works", 2), &m, "/p/i", "/o", Some(Ok(())));
    let d = &r.datasets[1];
    assert_eq!((d.items_scanned, d.succeeded, d.failed, d.skipped), (2, 1, 0, 1));
}

#[test]
fn the_preflight_adds_up() {
    let mut p = Preflight::start("all");
    p.check_aws("aws", Ok(()));
    p.check_path("snapshot_dir", "/s", Err("denied".to_string()));
    p.check_download_disk("s3://openalex", "/s", 100, Ok(120));
    p.no_listing();
    p.check_convert_disk("/s", "/p", true, 10, 5, Ok(0));
    p.check_memory(71, Some(100));
    p.check_memory(70, Some(100));
    let total = p.count(FindingStatus::Passed) + p.count(FindingStatus::Warn) + p.count(FindingStatus::Fail);
    assert_eq!(total, p.findings.len());
    assert!(p.count(FindingStatus::Fail) >= 2);
    let mut r = report_new("check", "1", 0, 0, vec![]);
    p.fill_report(&mut r);
    assert!(!r.failures.is_empty());
    assert_eq!(overall_status(0, 0, true), "ok");
    assert_eq!(overall_status(0, 1, false), "warn");
    assert_eq!(overall_status(0, 1, true), "failed");
    assert_eq!(check_verdict(0, 1, false), Ok(()));
    assert_eq!(check_verdict(2, 0, false), Err("[check] failures detected: 2".to_string()));
    assert_eq!(
        check_verdict(0, 1, true),
        Err("[check] strict mode failed due to warnings: 1".to_string())
    );
    let f = CheckFinding {
        name: "aws".to_string(),
        status: FindingStatus::Warn,
        details: "d".to_string(),
        recommendation: Some("r".to_string()),
    };
    assert_eq!(render_finding(&f), format!("{:<20} {:<8} {:<70} {}", "aws", f.status.word(), "d", "r"));
}

#[test]
fn free_space_is_read_from_a_table() {
    let out = "Filesystem 1024-blocks Used Available Capacity Mounted on\n/dev/x 100 40 60 40% /\n";
    assert_eq!(parse_df(out), Ok(60 * 1024));
    assert!(parse_df("").is_err());
    assert!(parse_df("head\n/dev/x 100\n").is_err());
}

#[test]
fn memory_warns_above_seven_tenths() {
    for (mem, total) in [(7usize, 10usize), (8, 10), (71, 100), (70, 100), (700_001, 1_000_000)] {
        let mut p = Preflight::start("all");
        p.check_memory(mem, Some(total));
        let ratio = mem as f64 / total as f64;
        assert_eq!(p.findings.last().unwrap().status == FindingStatus::Warn, ratio > 0.7);
    }
}
