//! Where things lie under a root directory: data, reports, logs and caches.

use vstd::prelude::*;
use vstd::string::*;
use crate::paths::{join_path, parent};
use crate::paths;
use crate::text::{ends_with, starts_with, str_eq, strip_suffix};
use crate::text;

verus! {

/// `a`, then `b` below it, and `c` below that.
pub open spec fn below2(a: Seq<char>, b: Seq<char>, c: Seq<char>) -> Seq<char> {
    paths::join_of(paths::join_of(a, b), c)
}

/// The directory that a data directory lies in; `.` where its path does not say.
pub open spec fn root_above(dir: Seq<char>) -> Seq<char> {
    match paths::parent_of(dir) {
        Some(p) => p,
        None => "."@,
    }
}

fn root_above_exec(dir: &str) -> (r: String)
    ensures
        r@ == root_above(dir@),
{
    match parent(dir) {
        Some(p) => p,
        None => ".".to_owned(),
    }
}

pub open spec fn snapshot_dir_of(root: Seq<char>) -> Seq<char> {
    paths::join_of(root, "snapshot"@)
}

/// The downloaded snapshot.
pub fn snapshot_dir(root: &str) -> (r: String)
    ensures
        r@ == snapshot_dir_of(root@),
{
    join_path(root, "snapshot")
}

pub open spec fn parquet_dir_of(root: Seq<char>) -> Seq<char> {
    paths::join_of(root, "parquet"@)
}

/// The converted corpus.
pub fn parquet_dir(root: &str) -> (r: String)
    ensures
        r@ == parquet_dir_of(root@),
{
    join_path(root, "parquet")
}

pub open spec fn source_dir_of(snapshot_dir: Seq<char>, dataset: Seq<char>) -> Seq<char> {
    below2(snapshot_dir, "data"@, dataset)
}

/// The source files of a dataset.
pub fn source_dir(snapshot_dir: &str, dataset: &str) -> (r: String)
    ensures
        r@ == source_dir_of(snapshot_dir@, dataset@),
{
    let base = join_path(snapshot_dir, "data");
    join_path(base.as_str(), dataset)
}

pub open spec fn metadata_root_of(parquet_dir: Seq<char>) -> Seq<char> {
    paths::join_of(root_above(parquet_dir), "openalex-snapshot_metadata"@)
}

/// Everything that is kept beside the data.
pub fn metadata_root(parquet_dir: &str) -> (r: String)
    ensures
        r@ == metadata_root_of(parquet_dir@),
{
    let base = root_above_exec(parquet_dir);
    join_path(base.as_str(), "openalex-snapshot_metadata")
}

pub open spec fn dataset_metadata_dir_of(parquet_dir: Seq<char>, dataset: Seq<char>) -> Seq<char> {
    paths::join_of(metadata_root_of(parquet_dir), dataset)
}

/// What is kept about one dataset.
pub fn dataset_metadata_dir(parquet_dir: &str, dataset: &str) -> (r: String)
    ensures
        r@ == dataset_metadata_dir_of(parquet_dir@, dataset@),
{
    let base = metadata_root(parquet_dir);
    join_path(base.as_str(), dataset)
}

pub open spec fn prev_dataset_metadata_dir_of(parquet_dir: Seq<char>, dataset: Seq<char>) -> Seq<char> {
    paths::join_of(parquet_dir, "."@ + dataset + "_conversion_metadata"@)
}

/// Where older versions kept what they knew about a dataset.
pub fn prev_dataset_metadata_dir(parquet_dir: &str, dataset: &str) -> (r: String)
    ensures
        r@ == prev_dataset_metadata_dir_of(parquet_dir@, dataset@),
{
    let mut name = ".".to_owned();
    name.append(dataset);
    name.append("_conversion_metadata");
    join_path(parquet_dir, name.as_str())
}

pub open spec fn legacy_dataset_cache_dir_of(parquet_dir: Seq<char>, dataset: Seq<char>) -> Seq<char> {
    below2(parquet_dir, dataset, ".schema_cache"@)
}

/// Where the oldest versions kept a dataset's schema.
pub fn legacy_dataset_cache_dir(parquet_dir: &str, dataset: &str) -> (r: String)
    ensures
        r@ == legacy_dataset_cache_dir_of(parquet_dir@, dataset@),
{
    let base = join_path(parquet_dir, dataset);
    join_path(base.as_str(), ".schema_cache")
}

pub open spec fn dataset_cache_dir_of(parquet_dir: Seq<char>, dataset: Seq<char>) -> Seq<char> {
    paths::join_of(dataset_metadata_dir_of(parquet_dir, dataset), "schemata"@)
}

/// The cached schema of a dataset.
pub fn dataset_cache_dir(parquet_dir: &str, dataset: &str) -> (r: String)
    ensures
        r@ == dataset_cache_dir_of(parquet_dir@, dataset@),
{
    let base = dataset_metadata_dir(parquet_dir, dataset);
    join_path(base.as_str(), "schemata")
}

pub open spec fn dataset_convert_dir_of(parquet_dir: Seq<char>, dataset: Seq<char>) -> Seq<char> {
    paths::join_of(dataset_metadata_dir_of(parquet_dir, dataset), "convert"@)
}

/// The conversion logs of a dataset.
pub fn dataset_convert_dir(parquet_dir: &str, dataset: &str) -> (r: String)
    ensures
        r@ == dataset_convert_dir_of(parquet_dir@, dataset@),
{
    let base = dataset_metadata_dir(parquet_dir, dataset);
    join_path(base.as_str(), "convert")
}

pub open spec fn dataset_conversion_verify_dir_of(parquet_dir: Seq<char>, dataset: Seq<char>) -> Seq<char> {
    paths::join_of(dataset_metadata_dir_of(parquet_dir, dataset), "conversion-verify"@)
}

/// The logs and caches of verifying a dataset's conversion.
pub fn dataset_conversion_verify_dir(parquet_dir: &str, dataset: &str) -> (r: String)
    ensures
        r@ == dataset_conversion_verify_dir_of(parquet_dir@, dataset@),
{
    let base = dataset_metadata_dir(parquet_dir, dataset);
    join_path(base.as_str(), "conversion-verify")
}

pub open spec fn dataset_index_dir_of(parquet_dir: Seq<char>, dataset: Seq<char>) -> Seq<char> {
    paths::join_of(dataset_metadata_dir_of(parquet_dir, dataset), "index"@)
}

/// The index logs of a dataset.
pub fn dataset_index_dir(parquet_dir: &str, dataset: &str) -> (r: String)
    ensures
        r@ == dataset_index_dir_of(parquet_dir@, dataset@),
{
    let base = dataset_metadata_dir(parquet_dir, dataset);
    join_path(base.as_str(), "index")
}

pub open spec fn dataset_index_verify_dir_of(parquet_dir: Seq<char>, dataset: Seq<char>) -> Seq<char> {
    paths::join_of(dataset_metadata_dir_of(parquet_dir, dataset), "index-verify"@)
}

/// The logs of verifying a dataset's index.
pub fn dataset_index_verify_dir(parquet_dir: &str, dataset: &str) -> (r: String)
    ensures
        r@ == dataset_index_verify_dir_of(parquet_dir@, dataset@),
{
    let base = dataset_metadata_dir(parquet_dir, dataset);
    join_path(base.as_str(), "index-verify")
}

pub open spec fn archived_root_dir_of(parquet_dir: Seq<char>) -> Seq<char> {
    paths::join_of(metadata_root_of(parquet_dir), "archived"@)
}

/// Reports and logs of completed runs.
pub fn archived_root_dir(parquet_dir: &str) -> (r: String)
    ensures
        r@ == archived_root_dir_of(parquet_dir@),
{
    let base = metadata_root(parquet_dir);
    join_path(base.as_str(), "archived")
}

pub open spec fn lock_file_path_of(parquet_dir: Seq<char>) -> Seq<char> {
    paths::join_of(metadata_root_of(parquet_dir), "openalex-snapshot.lock"@)
}

/// The file that is there while a command runs.
pub fn lock_file_path(parquet_dir: &str) -> (r: String)
    ensures
        r@ == lock_file_path_of(parquet_dir@),
{
    let base = metadata_root(parquet_dir);
    join_path(base.as_str(), "openalex-snapshot.lock")
}

pub open spec fn global_reports_dir_of(parquet_dir: Seq<char>) -> Seq<char> {
    paths::join_of(metadata_root_of(parquet_dir), "reports"@)
}

/// The reports of all commands.
pub fn global_reports_dir(parquet_dir: &str) -> (r: String)
    ensures
        r@ == global_reports_dir_of(parquet_dir@),
{
    let base = metadata_root(parquet_dir);
    join_path(base.as_str(), "reports")
}

pub open spec fn spill_dir_of(parquet_dir: Seq<char>) -> Seq<char> {
    paths::join_of(metadata_root_of(parquet_dir), "duckdb_tmp"@)
}

/// Where the database may put what does not fit in memory.
pub fn spill_dir(parquet_dir: &str) -> (r: String)
    ensures
        r@ == spill_dir_of(parquet_dir@),
{
    let base = metadata_root(parquet_dir);
    join_path(base.as_str(), "duckdb_tmp")
}

pub open spec fn legacy_verify_cache_dir_of(parquet_dir: Seq<char>, dataset: Seq<char>) -> Seq<char> {
    below2(parquet_dir, dataset, ".verify_cache"@)
}

/// Where the oldest versions kept verification caches.
pub fn legacy_verify_cache_dir(parquet_dir: &str, dataset: &str) -> (r: String)
    ensures
        r@ == legacy_verify_cache_dir_of(parquet_dir@, dataset@),
{
    let base = join_path(parquet_dir, dataset);
    join_path(base.as_str(), ".verify_cache")
}

pub open spec fn prev_verify_cache_dir_of(parquet_dir: Seq<char>, dataset: Seq<char>) -> Seq<char> {
    paths::join_of(prev_dataset_metadata_dir_of(parquet_dir, dataset), "verify_cache"@)
}

/// Where older versions kept verification caches.
pub fn prev_verify_cache_dir(parquet_dir: &str, dataset: &str) -> (r: String)
    ensures
        r@ == prev_verify_cache_dir_of(parquet_dir@, dataset@),
{
    let base = prev_dataset_metadata_dir(parquet_dir, dataset);
    join_path(base.as_str(), "verify_cache")
}

pub open spec fn prev_schema_cache_dir_of(parquet_dir: Seq<char>, dataset: Seq<char>) -> Seq<char> {
    paths::join_of(prev_dataset_metadata_dir_of(parquet_dir, dataset), "schema_cache"@)
}

/// Where older versions kept schema caches.
pub fn prev_schema_cache_dir(parquet_dir: &str, dataset: &str) -> (r: String)
    ensures
        r@ == prev_schema_cache_dir_of(parquet_dir@, dataset@),
{
    let base = prev_dataset_metadata_dir(parquet_dir, dataset);
    join_path(base.as_str(), "schema_cache")
}

pub open spec fn source_metrics_cache_file_of(parquet_dir: Seq<char>, dataset: Seq<char>) -> Seq<char> {
    paths::join_of(
        dataset_conversion_verify_dir_of(parquet_dir, dataset),
        "source_file_metrics.csv"@,
    )
}

/// Cached metrics of source files.
pub fn source_metrics_cache_file(parquet_dir: &str, dataset: &str) -> (r: String)
    ensures
        r@ == source_metrics_cache_file_of(parquet_dir@, dataset@),
{
    let base = dataset_conversion_verify_dir(parquet_dir, dataset);
    join_path(base.as_str(), "source_file_metrics.csv")
}

pub open spec fn legacy_source_metrics_file_of(parquet_dir: Seq<char>, dataset: Seq<char>) -> Seq<char> {
    paths::join_of(legacy_verify_cache_dir_of(parquet_dir, dataset), "source_file_metrics.csv"@)
}

/// Metrics of source files as the oldest versions cached them.
pub fn legacy_source_metrics_file(parquet_dir: &str, dataset: &str) -> (r: String)
    ensures
        r@ == legacy_source_metrics_file_of(parquet_dir@, dataset@),
{
    let base = legacy_verify_cache_dir(parquet_dir, dataset);
    join_path(base.as_str(), "source_file_metrics.csv")
}

pub open spec fn parquet_metrics_cache_file_of(parquet_dir: Seq<char>, dataset: Seq<char>) -> Seq<char> {
    paths::join_of(
        dataset_conversion_verify_dir_of(parquet_dir, dataset),
        "parquet_file_metrics.csv"@,
    )
}

/// Cached metrics of parquet files.
pub fn parquet_metrics_cache_file(parquet_dir: &str, dataset: &str) -> (r: String)
    ensures
        r@ == parquet_metrics_cache_file_of(parquet_dir@, dataset@),
{
    let base = dataset_conversion_verify_dir(parquet_dir, dataset);
    join_path(base.as_str(), "parquet_file_metrics.csv")
}

pub open spec fn download_metadata_root_of(snapshot_dir: Seq<char>) -> Seq<char> {
    below2(root_above(snapshot_dir), "openalex-snapshot_metadata"@, "download"@)
}

/// What is kept about downloads.
pub fn download_metadata_root(snapshot_dir: &str) -> (r: String)
    ensures
        r@ == download_metadata_root_of(snapshot_dir@),
{
    let base = root_above_exec(snapshot_dir);
    let meta = join_path(base.as_str(), "openalex-snapshot_metadata");
    join_path(meta.as_str(), "download")
}

pub open spec fn download_manifests_dir_of(snapshot_dir: Seq<char>) -> Seq<char> {
    paths::join_of(download_metadata_root_of(snapshot_dir), "manifests"@)
}

/// The manifests of downloads.
pub fn download_manifests_dir(snapshot_dir: &str) -> (r: String)
    ensures
        r@ == download_manifests_dir_of(snapshot_dir@),
{
    let base = download_metadata_root(snapshot_dir);
    join_path(base.as_str(), "manifests")
}

pub open spec fn download_reports_dir_of(snapshot_dir: Seq<char>) -> Seq<char> {
    below2(root_above(snapshot_dir), "openalex-snapshot_metadata"@, "reports"@)
}

/// The reports of downloads, which lie with those of all commands.
pub fn download_reports_dir(snapshot_dir: &str) -> (r: String)
    ensures
        r@ == download_reports_dir_of(snapshot_dir@),
{
    let base = root_above_exec(snapshot_dir);
    let meta = join_path(base.as_str(), "openalex-snapshot_metadata");
    join_path(meta.as_str(), "reports")
}

pub open spec fn download_log_path_of(snapshot_dir: Seq<char>) -> Seq<char> {
    paths::join_of(download_metadata_root_of(snapshot_dir), "download.log"@)
}

/// The log of downloads.
pub fn download_log_path(snapshot_dir: &str) -> (r: String)
    ensures
        r@ == download_log_path_of(snapshot_dir@),
{
    let base = download_metadata_root(snapshot_dir);
    join_path(base.as_str(), "download.log")
}

pub open spec fn unified_schema_csv_of(parquet_dir: Seq<char>, dataset: Seq<char>) -> Seq<char> {
    paths::join_of(dataset_cache_dir_of(parquet_dir, dataset), "unified_schema.csv"@)
}

/// The canonical schema cache of a dataset.
pub fn unified_schema_csv(parquet_dir: &str, dataset: &str) -> (r: String)
    ensures
        r@ == unified_schema_csv_of(parquet_dir@, dataset@),
{
    let base = dataset_cache_dir(parquet_dir, dataset);
    join_path(base.as_str(), "unified_schema.csv")
}

pub open spec fn legacy_unified_schema_csv_of(parquet_dir: Seq<char>, dataset: Seq<char>) -> Seq<char> {
    paths::join_of(legacy_dataset_cache_dir_of(parquet_dir, dataset), "unified_schema.csv"@)
}

/// The schema cache of a dataset as the oldest versions kept it.
pub fn legacy_unified_schema_csv(parquet_dir: &str, dataset: &str) -> (r: String)
    ensures
        r@ == legacy_unified_schema_csv_of(parquet_dir@, dataset@),
{
    let base = legacy_dataset_cache_dir(parquet_dir, dataset);
    join_path(base.as_str(), "unified_schema.csv")
}

/// The file names under which the schema of a dataset may be cached as CSV, in
/// the order in which they are tried.
pub fn schema_csv_candidates(parquet_dir: &str, dataset: &str) -> (r: Vec<String>)
    ensures
        text::texts(r@) == seq![
            unified_schema_csv_of(parquet_dir@, dataset@),
            legacy_unified_schema_csv_of(parquet_dir@, dataset@),
        ],
{
    let mut out: Vec<String> = Vec::new();
    out.push(unified_schema_csv(parquet_dir, dataset));
    out.push(legacy_unified_schema_csv(parquet_dir, dataset));
    assert(text::texts(out@) =~= seq![
        unified_schema_csv_of(parquet_dir@, dataset@),
        legacy_unified_schema_csv_of(parquet_dir@, dataset@),
    ]);
    out
}

/// The paths under which `file_name` may be cached for a dataset, in the order
/// in which they are tried.
pub fn schema_json_candidates(parquet_dir: &str, dataset: &str, file_name: &str) -> (r: Vec<String>)
    ensures
        text::texts(r@) == seq![
            paths::join_of(dataset_cache_dir_of(parquet_dir@, dataset@), file_name@),
            paths::join_of(legacy_dataset_cache_dir_of(parquet_dir@, dataset@), file_name@),
        ],
{
    let here = dataset_cache_dir(parquet_dir, dataset);
    let legacy = legacy_dataset_cache_dir(parquet_dir, dataset);
    let mut out: Vec<String> = Vec::new();
    out.push(join_path(here.as_str(), file_name));
    out.push(join_path(legacy.as_str(), file_name));
    assert(text::texts(out@) =~= seq![
        paths::join_of(dataset_cache_dir_of(parquet_dir@, dataset@), file_name@),
        paths::join_of(legacy_dataset_cache_dir_of(parquet_dir@, dataset@), file_name@),
    ]);
    out
}

pub open spec fn log_dir_of(parquet_dir: Seq<char>, dataset: Seq<char>, command: Seq<char>) -> Seq<
    char,
> {
    if command == "index"@ || command == "index-preview"@ {
        dataset_index_dir_of(parquet_dir, dataset)
    } else if command == "verify"@ || command == "verify_convert"@ || command == "verify-convert"@ {
        dataset_conversion_verify_dir_of(parquet_dir, dataset)
    } else if command == "verify-index"@ || command == "verify_index"@ {
        dataset_index_verify_dir_of(parquet_dir, dataset)
    } else {
        dataset_convert_dir_of(parquet_dir, dataset)
    }
}

/// Where a command logs what it does to a dataset.
pub fn dataset_log_dir_for_command(parquet_dir: &str, dataset: &str, command: &str) -> (r: String)
    ensures
        r@ == log_dir_of(parquet_dir@, dataset@, command@),
{
    if str_eq(command, "index") || str_eq(command, "index-preview") {
        dataset_index_dir(parquet_dir, dataset)
    } else if str_eq(command, "verify") || str_eq(command, "verify_convert") || str_eq(
        command,
        "verify-convert",
    ) {
        dataset_conversion_verify_dir(parquet_dir, dataset)
    } else if str_eq(command, "verify-index") || str_eq(command, "verify_index") {
        dataset_index_verify_dir(parquet_dir, dataset)
    } else {
        dataset_convert_dir(parquet_dir, dataset)
    }
}

/// Where the log of a command for a dataset is written.
pub open spec fn dataset_log_path_of(
    parquet_dir: Seq<char>,
    dataset: Seq<char>,
    command: Seq<char>,
) -> Seq<char> {
    paths::join_of(log_dir_of(parquet_dir, dataset, command), command + ".log"@)
}

/// The log of a command on a dataset.
pub fn dataset_log_path(parquet_dir: &str, dataset: &str, command: &str) -> (r: String)
    ensures
        r@ == dataset_log_path_of(parquet_dir@, dataset@, command@),
{
    let dir = dataset_log_dir_for_command(parquet_dir, dataset, command);
    let mut name = command.to_owned();
    name.append(".log");
    join_path(dir.as_str(), name.as_str())
}

/// Whether a directory under the metadata root holds something else than what
/// is kept about one dataset.
pub open spec fn is_reserved(name: Seq<char>) -> bool {
    name == "reports"@ || name == "archived"@ || name == "download"@
}

/// Whether a directory under the metadata root is not a dataset's.
pub fn is_reserved_metadata_dir(name: &str) -> (r: bool)
    ensures
        r == is_reserved(name@),
{
    str_eq(name, "reports") || str_eq(name, "archived") || str_eq(name, "download")
}

/// Whether a directory under the metadata root is listed as a dataset while a
/// command runs.
pub fn is_live_dataset_dir(name: &str) -> (r: bool)
    ensures
        r == (!text::has_prefix(name@, "."@) && !is_reserved(name@)),
{
    !starts_with(name, ".") && !is_reserved_metadata_dir(name)
}

/// The directories of a dataset whose logs are cleaned up and archived. The
/// cached schema is not among them.
pub fn dataset_step_dirs() -> (r: Vec<String>)
    ensures
        text::texts(r@) == seq!["convert"@, "conversion-verify"@, "index"@, "index-verify"@],
{
    let mut out: Vec<String> = Vec::new();
    out.push("convert".to_owned());
    out.push("conversion-verify".to_owned());
    out.push("index".to_owned());
    out.push("index-verify".to_owned());
    assert(text::texts(out@) =~= seq![
        "convert"@,
        "conversion-verify"@,
        "index"@,
        "index-verify"@,
    ]);
    out
}

/// Where a log that older versions kept under `logs/` belongs.
pub open spec fn migrated_log_step(log_name: Seq<char>) -> Option<Seq<char>> {
    if log_name == "convert.log"@ {
        Some("convert"@)
    } else if log_name == "index.log"@ {
        Some("index"@)
    } else if log_name == "verify.log"@ || log_name == "verify_convert.log"@ {
        Some("conversion-verify"@)
    } else if log_name == "verify-index.log"@ || log_name == "verify_index.log"@ {
        Some("index-verify"@)
    } else {
        None
    }
}

/// The directory into which a log of an older version moves.
pub fn step_dir_for_old_log(log_name: &str) -> (r: Option<String>)
    ensures
        match r {
            Some(d) => migrated_log_step(log_name@) == Some(d@),
            None => migrated_log_step(log_name@) is None,
        },
{
    if str_eq(log_name, "convert.log") {
        Some("convert".to_owned())
    } else if str_eq(log_name, "index.log") {
        Some("index".to_owned())
    } else if str_eq(log_name, "verify.log") || str_eq(log_name, "verify_convert.log") {
        Some("conversion-verify".to_owned())
    } else if str_eq(log_name, "verify-index.log") || str_eq(log_name, "verify_index.log") {
        Some("index-verify".to_owned())
    } else {
        None
    }
}

/// `s` without the dots at its start.
pub open spec fn without_dots(s: Seq<char>) -> Seq<char>
    decreases s.len(),
{
    if s.len() > 0 && s[0] == '.' {
        without_dots(s.drop_first())
    } else {
        s
    }
}

/// `s` without `suffix` at its end, as often as it stands there.
pub open spec fn without_suffixes(s: Seq<char>, suffix: Seq<char>) -> Seq<char>
    decreases s.len(),
{
    if suffix.len() > 0 && text::has_suffix(s, suffix) {
        without_suffixes(s.take(s.len() - suffix.len()), suffix)
    } else {
        s
    }
}

/// The dataset to which a hidden metadata directory of an older version, next
/// to the parquet files, belongs.
pub open spec fn hidden_metadata_dataset(name: Seq<char>) -> Option<Seq<char>> {
    if text::has_prefix(name, "."@) && text::has_suffix(name, "_metadata"@) {
        Some(without_suffixes(without_dots(name), "_metadata"@))
    } else {
        None
    }
}

/// The dataset whose metadata lie in a hidden directory of that name.
pub fn dataset_of_hidden_metadata(name: &str) -> (r: Option<String>)
    ensures
        match r {
            Some(d) => hidden_metadata_dataset(name@) == Some(d@),
            None => hidden_metadata_dataset(name@) is None,
        },
{
    if !starts_with(name, ".") || !ends_with(name, "_metadata") {
        return None;
    }
    let v = text::chars_of(name);
    let mut i: usize = 0;
    assert(v@.skip(0) == v@);
    while i < v.len() && v[i] == '.'
        invariant
            i <= v@.len(),
            v@ == name@,
            without_dots(v@.skip(i as int)) == without_dots(name@),
        decreases v@.len() - i,
    {
        assert(v@.skip(i as int).drop_first() == v@.skip(i + 1));
        i += 1;
    }
    let mut rest = text::string_of(&v, i, v.len());
    assert(v@.subrange(i as int, v@.len() as int) == v@.skip(i as int));
    proof {
        reveal_strlit("_metadata");
    }
    let ghost bare = without_dots(name@);
    loop
        invariant
            without_suffixes(rest@, "_metadata"@) == without_suffixes(bare, "_metadata"@),
            "_metadata"@.len() == 9,
            bare == without_dots(name@),
            text::has_prefix(name@, "."@) && text::has_suffix(name@, "_metadata"@),
        decreases rest@.len(),
    {
        match strip_suffix(rest.as_str(), "_metadata") {
            Some(shorter) => {
                rest = shorter;
            },
            None => {
                return Some(rest);
            },
        }
    }
}

/// What is kept about a root stands beside its snapshot and its parquet files, in one
/// directory that both lead to.
pub proof fn law_metadata_stands_in_the_root(root: Seq<char>)
    requires
        paths::is_tidy(root),
    ensures
        ({
            let meta = paths::join_of(root, "openalex-snapshot_metadata"@);
            let parquet = parquet_dir_of(root);
            let snapshot = snapshot_dir_of(root);
            &&& parquet == paths::join_of(root, "parquet"@)
            &&& snapshot == paths::join_of(root, "snapshot"@)
            &&& metadata_root_of(parquet) == meta
            &&& archived_root_dir_of(parquet) == paths::join_of(meta, "archived"@)
            &&& global_reports_dir_of(parquet) == paths::join_of(meta, "reports"@)
            &&& download_reports_dir_of(snapshot) == global_reports_dir_of(parquet)
            &&& lock_file_path_of(parquet) == paths::join_of(meta, "openalex-snapshot.lock"@)
            &&& spill_dir_of(parquet) == paths::join_of(meta, "duckdb_tmp"@)
            &&& download_metadata_root_of(snapshot) == paths::join_of(meta, "download"@)
            &&& download_manifests_dir_of(snapshot) == paths::join_of(
                paths::join_of(meta, "download"@),
                "manifests"@,
            )
            &&& download_log_path_of(snapshot) == paths::join_of(
                paths::join_of(meta, "download"@),
                "download.log"@,
            )
        }),
{
    reveal_strlit("parquet");
    reveal_strlit("snapshot");
    let (one, two) = (seq!['.'], seq!['.', '.']);
    assert("parquet"@.len() == 7 && "snapshot"@.len() == 8 && one.len() == 1 && two.len() == 2);
    assert(!"parquet"@.contains('/'));
    assert(!"snapshot"@.contains('/'));
    paths::law_parent_and_file_name_of_a_joined_path(root, "parquet"@);
    paths::law_parent_and_file_name_of_a_joined_path(root, "snapshot"@);
}

/// What is kept about a dataset stands in a directory of its name below that of the
/// root, one directory for each step.
pub proof fn law_metadata_of_a_dataset(root: Seq<char>, dataset: Seq<char>)
    requires
        paths::is_tidy(root),
    ensures
        ({
            let meta = paths::join_of(root, "openalex-snapshot_metadata"@);
            let dir = paths::join_of(meta, dataset);
            let parquet = parquet_dir_of(root);
            &&& dataset_metadata_dir_of(parquet, dataset) == dir
            &&& dataset_cache_dir_of(parquet, dataset) == paths::join_of(dir, "schemata"@)
            &&& dataset_convert_dir_of(parquet, dataset) == paths::join_of(dir, "convert"@)
            &&& dataset_conversion_verify_dir_of(parquet, dataset) == paths::join_of(
                dir,
                "conversion-verify"@,
            )
            &&& dataset_index_dir_of(parquet, dataset) == paths::join_of(dir, "index"@)
            &&& dataset_index_verify_dir_of(parquet, dataset) == paths::join_of(dir, "index-verify"@)
            &&& unified_schema_csv_of(parquet, dataset) == paths::join_of(
                paths::join_of(dir, "schemata"@),
                "unified_schema.csv"@,
            )
            &&& source_metrics_cache_file_of(parquet, dataset) == paths::join_of(
                paths::join_of(dir, "conversion-verify"@),
                "source_file_metrics.csv"@,
            )
            &&& parquet_metrics_cache_file_of(parquet, dataset) == paths::join_of(
                paths::join_of(dir, "conversion-verify"@),
                "parquet_file_metrics.csv"@,
            )
        }),
{
    law_metadata_stands_in_the_root(root);
}

/// The sources of a dataset stand below `data` in the snapshot; what older releases
/// kept stands in hidden directories below the parquet files.
pub proof fn law_sources_and_older_places(dir: Seq<char>, dataset: Seq<char>)
    ensures
        source_dir_of(dir, dataset) == paths::join_of(paths::join_of(dir, "data"@), dataset),
        legacy_unified_schema_csv_of(dir, dataset) == paths::join_of(
            paths::join_of(paths::join_of(dir, dataset), ".schema_cache"@),
            "unified_schema.csv"@,
        ),
        legacy_source_metrics_file_of(dir, dataset) == paths::join_of(
            paths::join_of(paths::join_of(dir, dataset), ".verify_cache"@),
            "source_file_metrics.csv"@,
        ),
        prev_verify_cache_dir_of(dir, dataset) == paths::join_of(
            paths::join_of(dir, "."@ + dataset + "_conversion_metadata"@),
            "verify_cache"@,
        ),
        prev_schema_cache_dir_of(dir, dataset) == paths::join_of(
            paths::join_of(dir, "."@ + dataset + "_conversion_metadata"@),
            "schema_cache"@,
        ),
{
}

/// The log of a command stands in the directory of its step, the very one to which an
/// old log of that command is moved, under the name of the command.
pub proof fn law_logs_stand_with_their_step(
    parquet_dir: Seq<char>,
    dataset: Seq<char>,
    command: Seq<char>,
)
    ensures
        dataset_log_path_of(parquet_dir, dataset, command) == paths::join_of(
            log_dir_of(parquet_dir, dataset, command),
            command + ".log"@,
        ),
        migrated_log_step(command + ".log"@) matches Some(step) ==> log_dir_of(
            parquet_dir,
            dataset,
            command,
        ) == paths::join_of(dataset_metadata_dir_of(parquet_dir, dataset), step),
        migrated_log_step("convert.log"@) == Some("convert"@),
        migrated_log_step("index.log"@) == Some("index"@),
        migrated_log_step("verify.log"@) == Some("conversion-verify"@),
        migrated_log_step("verify_convert.log"@) == Some("conversion-verify"@),
        migrated_log_step("verify-index.log"@) == Some("index-verify"@),
        migrated_log_step("verify_index.log"@) == Some("index-verify"@),
        log_dir_of(parquet_dir, dataset, "index-preview"@) == dataset_index_dir_of(
            parquet_dir,
            dataset,
        ),
        log_dir_of(parquet_dir, dataset, "verify-convert"@) == dataset_conversion_verify_dir_of(
            parquet_dir,
            dataset,
        ),
        command != "index"@ && command != "index-preview"@ && command != "verify"@ && command
            != "verify_convert"@ && command != "verify-convert"@ && command != "verify-index"@
            && command != "verify_index"@ ==> log_dir_of(parquet_dir, dataset, command)
            == dataset_convert_dir_of(parquet_dir, dataset),
{
    reveal_strlit(".log");
    reveal_strlit("convert");
    reveal_strlit("index");
    reveal_strlit("verify");
    reveal_strlit("index-preview");
    reveal_strlit("verify_convert");
    reveal_strlit("verify-convert");
    reveal_strlit("verify-index");
    reveal_strlit("verify_index");
    reveal_strlit("convert.log");
    reveal_strlit("index.log");
    reveal_strlit("verify.log");
    reveal_strlit("verify_convert.log");
    reveal_strlit("verify-index.log");
    reveal_strlit("verify_index.log");
    let log = command + ".log"@;
    assert(log.take(log.len() - 4) =~= command);
    assert("convert.log"@.take(7) =~= "convert"@);
    assert("index.log"@.take(5) =~= "index"@);
    assert("verify.log"@.take(6) =~= "verify"@);
    assert("verify_convert.log"@.take(14) =~= "verify_convert"@);
    assert("verify-index.log"@.take(12) =~= "verify-index"@);
    assert("verify_index.log"@.take(12) =~= "verify_index"@);
    assert("convert.log"@[0] != "index.log"@[0]);
    assert("verify.log"@.len() == 10 && "convert.log"@.len() == 11 && "index.log"@.len() == 9);
    assert("verify_convert.log"@.len() == 18 && "verify-index.log"@.len() == 16);
    assert("verify_index.log"@.len() == 16);
    assert("convert"@[0] == 'c' && "index"@[0] == 'i' && "verify"@[0] == 'v');
    assert("index-preview"@[0] == 'i' && "index-preview"@.len() == 13);
    assert("verify-convert"@.len() == 14 && "verify-convert"@[6] == '-');
    assert("verify_convert"@[6] == '_' && "verify-index"@[6] == '-' && "verify_index"@[6] == '_');
}

/// The names below the directory of the root that are no datasets are those of the
/// reports, of what is archived and of the downloads.
pub proof fn law_reserved_names(name: Seq<char>)
    ensures
        is_reserved(name) <==> seq!["reports"@, "archived"@, "download"@].contains(name),
{
    let s = seq!["reports"@, "archived"@, "download"@];
    assert(s[0] == "reports"@ && s[1] == "archived"@ && s[2] == "download"@);
}

/// A hidden directory of metadata is that of the dataset whose name stands between the
/// dot and the ending; a name without the dot or without the ending is none.
pub proof fn law_hidden_metadata(dataset: Seq<char>, name: Seq<char>)
    requires
        dataset.len() > 0 ==> dataset[0] != '.',
        !text::has_suffix(dataset, "_metadata"@),
    ensures
        hidden_metadata_dataset(seq!['.'] + dataset + "_metadata"@) == Some(dataset),
        name.len() == 0 || name[0] != '.' ==> hidden_metadata_dataset(name) is None,
        !text::has_suffix(name, "_metadata"@) ==> hidden_metadata_dataset(name) is None,
{
    reveal_strlit(".");
    reveal_strlit("_metadata");
    let m = "_metadata"@;
    let hidden = seq!['.'] + dataset + m;
    let rest = dataset + m;
    assert(hidden.take(1) =~= "."@);
    assert(hidden.skip(hidden.len() - m.len()) =~= m);
    assert(hidden.drop_first() =~= rest);
    assert(rest[0] != '.');
    reveal_with_fuel(without_dots, 3);
    assert(without_dots(hidden) == rest);
    assert(rest.skip(rest.len() - m.len()) =~= m);
    assert(rest.take(rest.len() - m.len()) =~= dataset);
    reveal_with_fuel(without_suffixes, 3);
    if name.len() > 0 && text::has_prefix(name, "."@) {
        assert(name.take(1)[0] == name[0]);
    }
}
/// A directory that stands in no other is taken to stand in the current one.
pub proof fn law_root_above(dir: Seq<char>)
    ensures
        paths::parent_of(dir) is None ==> root_above(dir) == "."@,
        paths::parent_of(dir) matches Some(p) ==> root_above(dir) == p,
{
}
} // verus!
