//! What a command would do, told in lines: the answer to `--explain`.

use vstd::prelude::*;
use vstd::string::*;
use crate::convert::show_option;
use crate::convert;
use crate::download::{aws_sync_command, bool_text_of, AwsAccess, SyncRequest};
use crate::download;
use crate::pipeline::AllResolved;
use crate::plan::Tuning;
use crate::schema::{SchemaFormat, SchemaFrom};
use crate::settings::{
    CheckArgs, ConvertArgs, DownloadArgs, ExtractArgs, IndexArgs, RepairArgs, SchemaArgs,
    ValidateDownloadArgs, VerifyArgs, VerifyIndexArgs,
};
use crate::templates::{skills_templates, ConfigTemplateMode};
use crate::templates;
use crate::text::{decimal_string, joined};
use crate::text;
use crate::verify;
use crate::verify::{VerifyMetadataLevel, VerifyScope};

verus! {

fn say(out: &mut Vec<String>, label: &str, value: &str)
    ensures
        text::texts(final(out)@) == text::texts(old(out)@).push(label@ + value@),
{
    broadcast use text::lemma_texts_push;

    let mut s = label.to_owned();
    s.append(value);
    out.push(s);
}

fn say_all(out: &mut Vec<String>, t: &str)
    ensures
        text::texts(final(out)@) == text::texts(old(out)@).push(t@),
{
    broadcast use text::lemma_texts_push;

    out.push(t.to_owned());
}

fn say_number(out: &mut Vec<String>, label: &str, n: usize)
    ensures
        text::texts(final(out)@) == text::texts(old(out)@).push(label@ + text::decimal(n as nat)),
{
    let t = decimal_string(n as u128);
    say(out, label, t.as_str());
}

fn say_bool(out: &mut Vec<String>, label: &str, b: bool)
    ensures
        text::texts(final(out)@) == text::texts(old(out)@).push(label@ + download::bool_text(b)),
{
    let t = bool_text_of(b);
    say(out, label, t.as_str());
}

fn say_option(out: &mut Vec<String>, label: &str, o: Option<usize>)
    ensures
        text::texts(final(out)@) == text::texts(old(out)@).push(label@ + convert::shown_option(o)),
{
    let t = show_option(o);
    say(out, label, t.as_str());
}

fn say_list(out: &mut Vec<String>, label: &str, v: &Vec<String>)
    ensures
        text::texts(final(out)@) == text::texts(old(out)@).push(
            label@ + text::join(text::texts(v@), ", "@),
        ),
{
    let t = joined(v, ", ");
    say(out, label, t.as_str());
}

pub open spec fn duckdb_bin_of(o: Option<String>) -> Seq<char> {
    match o {
        Some(p) => p@,
        None => "duckdb"@,
    }
}

/// The name of the DuckDB binary.
pub fn duckdb_bin_from_option(o: &Option<String>) -> (r: String)
    ensures
        r@ == duckdb_bin_of(*o),
{
    match o {
        Some(p) => p.clone(),
        None => "duckdb".to_owned(),
    }
}

pub open spec fn from_name(f: SchemaFrom) -> Seq<char> {
    match f {
        SchemaFrom::Auto => "Auto"@,
        SchemaFrom::Source => "Source"@,
        SchemaFrom::Cache => "Cache"@,
        SchemaFrom::Parquet => "Parquet"@,
    }
}

fn name_from(f: SchemaFrom) -> (r: &'static str)
    ensures
        r@ == from_name(f),
{
    match f {
        SchemaFrom::Auto => "Auto",
        SchemaFrom::Source => "Source",
        SchemaFrom::Cache => "Cache",
        SchemaFrom::Parquet => "Parquet",
    }
}

pub open spec fn format_name(f: SchemaFormat) -> Seq<char> {
    match f {
        SchemaFormat::Table => "Table"@,
        SchemaFormat::Json => "Json"@,
        SchemaFormat::Yaml => "Yaml"@,
        SchemaFormat::ArrowR => "ArrowR"@,
    }
}

fn name_format(f: SchemaFormat) -> (r: &'static str)
    ensures
        r@ == format_name(f),
{
    match f {
        SchemaFormat::Table => "Table",
        SchemaFormat::Json => "Json",
        SchemaFormat::Yaml => "Yaml",
        SchemaFormat::ArrowR => "ArrowR",
    }
}

pub open spec fn opt_from_name(o: Option<SchemaFrom>) -> Seq<char> {
    match o {
        Some(f) => "Some("@ + from_name(f) + ")"@,
        None => "None"@,
    }
}

fn name_opt_from(o: Option<SchemaFrom>) -> (r: String)
    ensures
        r@ == opt_from_name(o),
{
    match o {
        Some(f) => {
            let mut s = "Some(".to_owned();
            s.append(name_from(f));
            s.append(")");
            s
        },
        None => "None".to_owned(),
    }
}

fn name_scope(s: VerifyScope) -> (r: &'static str)
    ensures
        r@ == verify::scope_name(s),
{
    match s {
        VerifyScope::File => "File",
        VerifyScope::Dataset => "Dataset",
        VerifyScope::Snapshot => "Snapshot",
    }
}

fn name_level(l: VerifyMetadataLevel) -> (r: &'static str)
    ensures
        r@ == verify::level_name(l),
{
    match l {
        VerifyMetadataLevel::RowCount => "RowCount",
        VerifyMetadataLevel::IdHash => "IdHash",
        VerifyMetadataLevel::Both => "Both",
    }
}

pub open spec fn workers_text(workers: usize) -> Seq<char> {
    if workers == 0 {
        "auto (per profile)"@
    } else {
        text::decimal(workers as nat)
    }
}

fn show_workers(workers: usize) -> (r: String)
    ensures
        r@ == workers_text(workers),
{
    if workers == 0 {
        "auto (per profile)".to_owned()
    } else {
        decimal_string(workers as u128)
    }
}

pub open spec fn filter_text(n: nat) -> Seq<char> {
    if n == 0 {
        "all files"@
    } else {
        text::decimal(n)
    }
}

fn show_filter(n: usize) -> (r: String)
    ensures
        r@ == filter_text(n as nat),
{
    if n == 0 {
        "all files".to_owned()
    } else {
        decimal_string(n as u128)
    }
}

pub open spec fn output_text(o: Option<String>) -> Seq<char> {
    match o {
        Some(p) => p@,
        None => "stdout"@,
    }
}

fn show_output(o: &Option<String>) -> (r: String)
    ensures
        r@ == output_text(*o),
{
    match o {
        Some(p) => p.clone(),
        None => "stdout".to_owned(),
    }
}

pub open spec fn mode_name(m: Option<ConfigTemplateMode>) -> Seq<char> {
    match m {
        Some(ConfigTemplateMode::Complete) => "complete"@,
        Some(ConfigTemplateMode::Safe) => "safe"@,
        Some(ConfigTemplateMode::Fast) => "fast"@,
        None => "-"@,
    }
}

fn name_mode(m: Option<ConfigTemplateMode>) -> (r: &'static str)
    ensures
        r@ == mode_name(m),
{
    match m {
        Some(ConfigTemplateMode::Complete) => "complete",
        Some(ConfigTemplateMode::Safe) => "safe",
        Some(ConfigTemplateMode::Fast) => "fast",
        None => "-",
    }
}

/// What is asked of the remote side of a download.
pub open spec fn request_of(a: DownloadArgs, q: SyncRequest, s: AwsAccess) -> bool {
    &&& q.s3_uri == a.s3_uri
    &&& q.snapshot_dir == a.snapshot_dir
    &&& q.dataset == a.dataset
    &&& q.delete_files == a.delete_files
    &&& q.no_delete == a.no_delete
    &&& s.endpoint_url == a.endpoint_url
    &&& s.region == a.region
    &&& s.profile_name == a.profile_name
    &&& s.no_sign_request == a.no_sign_request
    &&& s.signed == a.signed
}

fn copy_text(o: &Option<String>) -> (r: Option<String>)
    ensures
        r == *o,
{
    match o {
        Some(t) => Some(t.clone()),
        None => None,
    }
}

/// What a download asks for, and how it is signed.
pub fn download_request(a: &DownloadArgs) -> (r: (SyncRequest, AwsAccess))
    ensures
        request_of(*a, r.0, r.1),
{
    (
        SyncRequest {
            s3_uri: a.s3_uri.clone(),
            snapshot_dir: a.snapshot_dir.clone(),
            dataset: a.dataset.clone(),
            delete_files: a.delete_files,
            no_delete: a.no_delete,
        },
        AwsAccess {
            endpoint_url: copy_text(&a.endpoint_url),
            region: copy_text(&a.region),
            profile_name: copy_text(&a.profile_name),
            no_sign_request: a.no_sign_request,
            signed: a.signed,
        },
    )
}

/// What `convert` would do.
pub fn explain_convert(args: &ConvertArgs, datasets: &Vec<String>, duckdb_bin: &str) -> (r: Vec<String>)
    ensures
        text::texts(r@) == seq![
            "--explain: convert"@,
            "duckdb_bin: "@ + duckdb_bin@,
            "snapshot_dir: "@ + args.shared.snapshot_dir@,
            "parquet_dir: "@ + args.shared.parquet_dir@,
            "datasets: "@ + text::join(text::texts(datasets@), ", "@),
            "profile: "@ + args.profile@,
            "workers: "@ + workers_text(args.shared.workers),
            "max_memory_mb override: "@ + convert::shown_option(args.max_memory_mb),
            "compression: "@ + args.compression@,
            "row_group_rows: "@ + text::decimal(args.row_group_rows as nat),
            "sample_size(schema): "@ + text::decimal(args.sample_size as nat),
            "refresh_cache: "@ + download::bool_text(args.refresh_cache),
            "input_filter: "@ + filter_text(args.input_files@.len()),
            "verify: not part of convert; run verify_convert separately"@,
        ],
{
    let mut v: Vec<String> = Vec::new();
    say_all(&mut v, "--explain: convert");
    say(&mut v, "duckdb_bin: ", duckdb_bin);
    say(&mut v, "snapshot_dir: ", args.shared.snapshot_dir.as_str());
    say(&mut v, "parquet_dir: ", args.shared.parquet_dir.as_str());
    say_list(&mut v, "datasets: ", datasets);
    say(&mut v, "profile: ", args.profile.as_str());
    say(&mut v, "workers: ", show_workers(args.shared.workers).as_str());
    say_option(&mut v, "max_memory_mb override: ", args.max_memory_mb);
    say(&mut v, "compression: ", args.compression.as_str());
    say_number(&mut v, "row_group_rows: ", args.row_group_rows);
    say_number(&mut v, "sample_size(schema): ", args.sample_size);
    say_bool(&mut v, "refresh_cache: ", args.refresh_cache);
    say(&mut v, "input_filter: ", show_filter(args.input_files.len()).as_str());
    say_all(&mut v, "verify: not part of convert; run verify_convert separately");
    v
}

/// How a verification would go.
pub open spec fn verify_plan_text(args: VerifyArgs) -> Seq<char> {
    "plan: scope="@
        + verify::scope_name(args.scope)
        + ", metadata_level="@
        + verify::level_name(args.metadata_level)
        + ", file_sample_n="@
        + text::decimal(args.file_sample_n as nat)
        + ", seed="@
        + text::decimal(args.seed as nat)
}

fn verify_plan(args: &VerifyArgs) -> (r: String)
    ensures
        r@ == verify_plan_text(*args),
{
    let mut s = "plan: scope=".to_owned();
    s.append(name_scope(args.scope));
    s.append(", metadata_level=");
    s.append(name_level(args.metadata_level));
    s.append(", file_sample_n=");
    let part = decimal_string(args.file_sample_n as u128);
    s.append(part.as_str());
    s.append(", seed=");
    let part = decimal_string(args.seed as u128);
    s.append(part.as_str());
    s
}

/// What `verify_convert` would do.
pub fn explain_verify(args: &VerifyArgs, datasets: &Vec<String>, duckdb_bin: &str, tuning: &Tuning) -> (r: Vec<String>)
    ensures
        text::texts(r@) == seq![
            "--explain: verify"@,
            "duckdb_bin: "@ + duckdb_bin@,
            "snapshot_dir: "@ + args.shared.snapshot_dir@,
            "parquet_dir: "@ + args.shared.parquet_dir@,
            "datasets: "@ + text::join(text::texts(datasets@), ", "@),
            "workers: "@ + text::decimal(tuning.workers as nat),
            "memory_mb: "@ + convert::shown_option(tuning.memory_mb),
            verify_plan_text(*args),
        ],
{
    let mut v: Vec<String> = Vec::new();
    say_all(&mut v, "--explain: verify");
    say(&mut v, "duckdb_bin: ", duckdb_bin);
    say(&mut v, "snapshot_dir: ", args.shared.snapshot_dir.as_str());
    say(&mut v, "parquet_dir: ", args.shared.parquet_dir.as_str());
    say_list(&mut v, "datasets: ", datasets);
    say_number(&mut v, "workers: ", tuning.workers);
    say_option(&mut v, "memory_mb: ", tuning.memory_mb);
    say_all(&mut v, verify_plan(args).as_str());
    v
}

/// How a schema would be found.
pub open spec fn schema_plan_text(args: SchemaArgs) -> Seq<char> {
    "plan: from="@
        + from_name(args.from)
        + ", format="@
        + format_name(args.format)
        + ", diff_with="@
        + opt_from_name(args.diff_with)
        + ", sample_size="@
        + text::decimal(args.sample_size as nat)
        + ", refresh_cache="@
        + download::bool_text(args.refresh_cache)
        + ", state_flush_every="@
        + text::decimal(args.state_flush_every as nat)
}

fn schema_plan(args: &SchemaArgs) -> (r: String)
    ensures
        r@ == schema_plan_text(*args),
{
    let mut s = "plan: from=".to_owned();
    s.append(name_from(args.from));
    s.append(", format=");
    s.append(name_format(args.format));
    s.append(", diff_with=");
    let part = name_opt_from(args.diff_with);
    s.append(part.as_str());
    s.append(", sample_size=");
    let part = decimal_string(args.sample_size as u128);
    s.append(part.as_str());
    s.append(", refresh_cache=");
    let part = bool_text_of(args.refresh_cache);
    s.append(part.as_str());
    s.append(", state_flush_every=");
    let part = decimal_string(args.state_flush_every as u128);
    s.append(part.as_str());
    s
}

/// What `schema` would do.
pub fn explain_schema(args: &SchemaArgs, datasets: &Vec<String>, duckdb_bin: &str, tuning: &Tuning) -> (r: Vec<String>)
    ensures
        text::texts(r@) == seq![
            "--explain: schema"@,
            "duckdb_bin: "@ + duckdb_bin@,
            "snapshot_dir: "@ + args.shared.snapshot_dir@,
            "parquet_dir: "@ + args.shared.parquet_dir@,
            "datasets: "@ + text::join(text::texts(datasets@), ", "@),
            "workers: "@ + text::decimal(tuning.workers as nat),
            "memory_mb: "@ + convert::shown_option(tuning.memory_mb),
            schema_plan_text(*args),
            "output: "@ + output_text(args.output),
        ],
{
    let mut v: Vec<String> = Vec::new();
    say_all(&mut v, "--explain: schema");
    say(&mut v, "duckdb_bin: ", duckdb_bin);
    say(&mut v, "snapshot_dir: ", args.shared.snapshot_dir.as_str());
    say(&mut v, "parquet_dir: ", args.shared.parquet_dir.as_str());
    say_list(&mut v, "datasets: ", datasets);
    say_number(&mut v, "workers: ", tuning.workers);
    say_option(&mut v, "memory_mb: ", tuning.memory_mb);
    say_all(&mut v, schema_plan(args).as_str());
    say(&mut v, "output: ", show_output(&args.output).as_str());
    v
}

/// What `verify_schema` would do.
pub fn explain_verify_schema(
    from: SchemaFrom,
    diff_with: SchemaFrom,
    datasets: &Vec<String>,
    sample_size: usize,
    refresh_cache: bool,
) -> (r: String)
    ensures
        r@ == "--explain: verify_schema from="@ + from_name(from) + " diff_with="@ + from_name(
            diff_with,
        ) + " datasets="@ + text::join(text::texts(datasets@), ","@) + " sample_size="@
            + text::decimal(sample_size as nat) + " refresh_cache="@ + download::bool_text(
            refresh_cache,
        ),
{
    let mut s = "--explain: verify_schema from=".to_owned();
    s.append(name_from(from));
    s.append(" diff_with=");
    s.append(name_from(diff_with));
    s.append(" datasets=");
    let names = joined(datasets, ",");
    s.append(names.as_str());
    s.append(" sample_size=");
    let n = decimal_string(sample_size as u128);
    s.append(n.as_str());
    s.append(" refresh_cache=");
    let b = bool_text_of(refresh_cache);
    s.append(b.as_str());
    s
}

/// What `index` would do.
pub fn explain_index(args: &IndexArgs, duckdb_bin: &str, corpus_dir: &str, index_file: &str, tuning: &Tuning) -> (r: Vec<String>)
    ensures
        text::texts(r@) == seq![
            "--explain: index"@,
            "duckdb_bin: "@ + duckdb_bin@,
            "corpus_dir: "@ + corpus_dir@,
            "index_file: "@ + index_file@,
            "overwrite: "@ + download::bool_text(args.overwrite),
            "workers: "@ + text::decimal(tuning.workers as nat),
            "memory_mb: "@ + convert::shown_option(tuning.memory_mb),
        ],
{
    let mut v: Vec<String> = Vec::new();
    say_all(&mut v, "--explain: index");
    say(&mut v, "duckdb_bin: ", duckdb_bin);
    say(&mut v, "corpus_dir: ", corpus_dir);
    say(&mut v, "index_file: ", index_file);
    say_bool(&mut v, "overwrite: ", args.overwrite);
    say_number(&mut v, "workers: ", tuning.workers);
    say_option(&mut v, "memory_mb: ", tuning.memory_mb);
    v
}

/// What `extract` would do.
pub fn explain_extract(args: &ExtractArgs, duckdb_bin: &str, tuning: &Tuning) -> (r: Vec<String>)
    ensures
        text::texts(r@) == seq![
            "--explain: extract"@,
            "duckdb_bin: "@ + duckdb_bin@,
            "snapshot_dir: "@ + args.shared.snapshot_dir@,
            "parquet_dir: "@ + args.shared.parquet_dir@,
            "dataset filter: "@ + args.shared.dataset@,
            "ids csv: "@ + args.ids@,
            "output base: "@ + args.output@,
            "workers: "@ + text::decimal(tuning.workers as nat),
            "memory_mb: "@ + convert::shown_option(tuning.memory_mb),
        ],
{
    let mut v: Vec<String> = Vec::new();
    say_all(&mut v, "--explain: extract");
    say(&mut v, "duckdb_bin: ", duckdb_bin);
    say(&mut v, "snapshot_dir: ", args.shared.snapshot_dir.as_str());
    say(&mut v, "parquet_dir: ", args.shared.parquet_dir.as_str());
    say(&mut v, "dataset filter: ", args.shared.dataset.as_str());
    say(&mut v, "ids csv: ", args.ids.as_str());
    say(&mut v, "output base: ", args.output.as_str());
    say_number(&mut v, "workers: ", tuning.workers);
    say_option(&mut v, "memory_mb: ", tuning.memory_mb);
    v
}

/// What `verify_index` would do.
pub fn explain_verify_index(args: &VerifyIndexArgs, duckdb_bin: &str, corpus_dir: &str, index_file: &str, tuning: &Tuning) -> (r: Vec<String>)
    ensures
        text::texts(r@) == seq![
            "--explain: verify-index"@,
            "duckdb_bin: "@ + duckdb_bin@,
            "root_dir: "@ + args.root_dir@,
            "dataset: "@ + args.dataset@,
            "corpus_dir: "@ + corpus_dir@,
            "index_file: "@ + index_file@,
            "workers: "@ + text::decimal(tuning.workers as nat),
            "memory_mb: "@ + convert::shown_option(tuning.memory_mb),
        ],
{
    let mut v: Vec<String> = Vec::new();
    say_all(&mut v, "--explain: verify-index");
    say(&mut v, "duckdb_bin: ", duckdb_bin);
    say(&mut v, "root_dir: ", args.root_dir.as_str());
    say(&mut v, "dataset: ", args.dataset.as_str());
    say(&mut v, "corpus_dir: ", corpus_dir);
    say(&mut v, "index_file: ", index_file);
    say_number(&mut v, "workers: ", tuning.workers);
    say_option(&mut v, "memory_mb: ", tuning.memory_mb);
    v
}

/// What `repair_convert` would do with a report in which `selected` files are to be
/// repaired.
pub fn explain_repair(args: &RepairArgs, from: &str, datasets: &Vec<String>, duckdb_bin: &str, tuning: &Tuning, selected: usize) -> (r: Vec<String>)
    ensures
        text::texts(r@) == seq![
            "--explain: repair_convert"@,
            "duckdb_bin: "@ + duckdb_bin@,
            "snapshot_dir: "@ + args.shared.snapshot_dir@,
            "parquet_dir: "@ + args.shared.parquet_dir@,
            "from_verify_report: "@ + from@,
            "datasets filter: "@ + text::join(text::texts(datasets@), ", "@),
            "workers: "@ + text::decimal(tuning.workers as nat),
            "memory_mb: "@ + convert::shown_option(tuning.memory_mb),
            "state_flush_every: "@ + text::decimal(args.state_flush_every as nat),
            "selected_files: "@ + text::decimal(selected as nat),
            "post_verify: targeted file-level verify enabled"@,
        ],
{
    let mut v: Vec<String> = Vec::new();
    say_all(&mut v, "--explain: repair_convert");
    say(&mut v, "duckdb_bin: ", duckdb_bin);
    say(&mut v, "snapshot_dir: ", args.shared.snapshot_dir.as_str());
    say(&mut v, "parquet_dir: ", args.shared.parquet_dir.as_str());
    say(&mut v, "from_verify_report: ", from);
    say_list(&mut v, "datasets filter: ", datasets);
    say_number(&mut v, "workers: ", tuning.workers);
    say_option(&mut v, "memory_mb: ", tuning.memory_mb);
    say_number(&mut v, "state_flush_every: ", args.state_flush_every);
    say_number(&mut v, "selected_files: ", selected);
    say_all(&mut v, "post_verify: targeted file-level verify enabled");
    v
}

/// What `verify_download` would do.
pub fn explain_validate_download(args: &ValidateDownloadArgs, tuning: &Tuning) -> (r: Vec<String>)
    ensures
        text::texts(r@) == seq![
            "--explain: validate-download"@,
            "aws_bin: "@ + args.aws_bin@,
            "snapshot_dir: "@ + args.snapshot_dir@,
            "s3_uri: "@ + args.s3_uri@,
            "dataset: "@ + args.dataset@,
            "check_extra: "@ + download::bool_text(args.check_extra),
            "workers: "@ + text::decimal(tuning.workers as nat),
        ],
{
    let mut v: Vec<String> = Vec::new();
    say_all(&mut v, "--explain: validate-download");
    say(&mut v, "aws_bin: ", args.aws_bin.as_str());
    say(&mut v, "snapshot_dir: ", args.snapshot_dir.as_str());
    say(&mut v, "s3_uri: ", args.s3_uri.as_str());
    say(&mut v, "dataset: ", args.dataset.as_str());
    say_bool(&mut v, "check_extra: ", args.check_extra);
    say_number(&mut v, "workers: ", tuning.workers);
    v
}

/// What `check` would look at.
pub fn explain_check(args: &CheckArgs, duckdb_bin: &str) -> (r: Vec<String>)
    ensures
        text::texts(r@) == seq![
            "--explain: check"@,
            "root_dir: "@ + args.shared.root_dir@,
            "snapshot_dir: "@ + args.shared.snapshot_dir@,
            "parquet_dir: "@ + args.shared.parquet_dir@,
            "dataset: "@ + args.shared.dataset@,
            "duckdb_bin: "@ + duckdb_bin@,
            "aws_bin: "@ + args.aws_bin@,
            "s3_uri: "@ + args.s3_uri@,
            "strict: "@ + download::bool_text(args.strict),
            "precise: "@ + download::bool_text(args.precise),
        ],
{
    let mut v: Vec<String> = Vec::new();
    say_all(&mut v, "--explain: check");
    say(&mut v, "root_dir: ", args.shared.root_dir.as_str());
    say(&mut v, "snapshot_dir: ", args.shared.snapshot_dir.as_str());
    say(&mut v, "parquet_dir: ", args.shared.parquet_dir.as_str());
    say(&mut v, "dataset: ", args.shared.dataset.as_str());
    say(&mut v, "duckdb_bin: ", duckdb_bin);
    say(&mut v, "aws_bin: ", args.aws_bin.as_str());
    say(&mut v, "s3_uri: ", args.s3_uri.as_str());
    say_bool(&mut v, "strict: ", args.strict);
    say_bool(&mut v, "precise: ", args.precise);
    v
}

/// The command that downloads, as it would be typed.
pub open spec fn sync_line(a: DownloadArgs, q: SyncRequest, s: AwsAccess) -> Seq<char> {
    "sync_command: "@ + a.aws_bin@ + " "@ + text::join(download::sync_command(q, s), " "@)
}

/// The lines on a download.
pub open spec fn download_lines(a: DownloadArgs, q: SyncRequest, s: AwsAccess) -> Seq<Seq<char>> {
    seq![
        "--explain: download"@,
        "aws_bin: "@ + a.aws_bin@,
        "snapshot_dir: "@ + a.snapshot_dir@,
        "dataset: "@ + a.dataset@,
        "no_sign_request: "@ + download::bool_text(a.no_sign_request && !a.signed),
        "delete_files: "@ + download::bool_text(a.delete_files && !a.no_delete),
        sync_line(a, q, s),
        "verify: not part of download; run verify_download separately"@,
    ]
}

/// What `download` would do.
pub fn explain_download(args: &DownloadArgs) -> (r: Vec<String>)
    ensures
        exists|q: SyncRequest, s: AwsAccess|
            #![trigger request_of(*args, q, s)]
            request_of(*args, q, s) && text::texts(r@) == download_lines(*args, q, s),
{
    let (q, s) = download_request(args);
    let command = joined(&aws_sync_command(&q, &s), " ");
    let mut line = "sync_command: ".to_owned();
    line.append(args.aws_bin.as_str());
    line.append(" ");
    line.append(command.as_str());
    let mut v: Vec<String> = Vec::new();
    say_all(&mut v, "--explain: download");
    say(&mut v, "aws_bin: ", args.aws_bin.as_str());
    say(&mut v, "snapshot_dir: ", args.snapshot_dir.as_str());
    say(&mut v, "dataset: ", args.dataset.as_str());
    say_bool(&mut v, "no_sign_request: ", args.no_sign_request && !args.signed);
    say_bool(&mut v, "delete_files: ", args.delete_files && !args.no_delete);
    say_all(&mut v, line.as_str());
    say_all(&mut v, "verify: not part of download; run verify_download separately");
    assert(text::texts(v@) =~= download_lines(*args, q, s));
    assert(request_of(*args, q, s));
    v
}

/// Which steps the pipeline would run.
pub open spec fn all_steps_text(args: AllResolved) -> Seq<char> {
    "steps: download="@
        + download::bool_text(args.enable_download)
        + " verify_download="@
        + download::bool_text(args.enable_verify_download)
        + " convert="@
        + download::bool_text(args.enable_convert)
        + " verify_convert="@
        + download::bool_text(args.enable_verify_convert)
        + " repair_convert="@
        + download::bool_text(args.enable_repair_convert)
        + " index="@
        + download::bool_text(args.enable_index)
        + " verify_index="@
        + download::bool_text(args.enable_verify_index)
}

fn all_steps(args: &AllResolved) -> (r: String)
    ensures
        r@ == all_steps_text(*args),
{
    let mut s = "steps: download=".to_owned();
    let part = bool_text_of(args.enable_download);
    s.append(part.as_str());
    s.append(" verify_download=");
    let part = bool_text_of(args.enable_verify_download);
    s.append(part.as_str());
    s.append(" convert=");
    let part = bool_text_of(args.enable_convert);
    s.append(part.as_str());
    s.append(" verify_convert=");
    let part = bool_text_of(args.enable_verify_convert);
    s.append(part.as_str());
    s.append(" repair_convert=");
    let part = bool_text_of(args.enable_repair_convert);
    s.append(part.as_str());
    s.append(" index=");
    let part = bool_text_of(args.enable_index);
    s.append(part.as_str());
    s.append(" verify_index=");
    let part = bool_text_of(args.enable_verify_index);
    s.append(part.as_str());
    s
}

/// What `all` would do.
pub fn explain_all(args: &AllResolved, root_dir: &str) -> (r: Vec<String>)
    ensures
        text::texts(r@) == seq![
            "--explain: all"@,
            "root_dir: "@ + root_dir@,
            "retry: "@ + text::decimal(args.retry as nat),
            all_steps_text(*args),
        ],
{
    let mut v: Vec<String> = Vec::new();
    say_all(&mut v, "--explain: all");
    say(&mut v, "root_dir: ", root_dir);
    say_number(&mut v, "retry: ", args.retry);
    say_all(&mut v, all_steps(args).as_str());
    v
}

/// What `config` would do.
pub fn explain_config(
    create: Option<ConfigTemplateMode>,
    path: &str,
    stdout: bool,
    overwrite: bool,
) -> (r: String)
    ensures
        r@ == "--explain: config mode="@ + (if create is Some {
            "create"@
        } else {
            "verify"@
        }) + " create_template="@ + mode_name(create) + " path="@ + path@ + " stdout="@
            + download::bool_text(stdout) + " overwrite="@ + download::bool_text(overwrite),
{
    let mut s = "--explain: config mode=".to_owned();
    s.append(
        if create.is_some() {
            "create"
        } else {
            "verify"
        },
    );
    s.append(" create_template=");
    s.append(name_mode(create));
    s.append(" path=");
    s.append(path);
    s.append(" stdout=");
    let b = bool_text_of(stdout);
    s.append(b.as_str());
    s.append(" overwrite=");
    let c = bool_text_of(overwrite);
    s.append(c.as_str());
    s
}

pub open spec fn skills_head(root: Seq<char>, overwrite: bool, stdout: bool, n: nat) -> Seq<char> {
    "--explain: skills root_dir="@ + root + " overwrite="@ + download::bool_text(overwrite)
        + " stdout="@ + download::bool_text(stdout) + " files="@ + text::decimal(n)
}

pub open spec fn skills_lines(root: Seq<char>, overwrite: bool, stdout: bool) -> Seq<Seq<char>> {
    let files = templates::skills_of(root);
    seq![skills_head(root, overwrite, stdout, files.len())] + Seq::new(
        files.len(),
        |i: int| "would_write: "@ + files[i].path,
    )
}

/// What `skills` would write.
pub fn explain_skills(root_dir: &str, overwrite: bool, stdout: bool) -> (r: Vec<String>)
    ensures
        text::texts(r@) == skills_lines(root_dir@, overwrite, stdout),
{
    let files = skills_templates(root_dir);
    let ghost all = templates::skills_of(root_dir@);
    let mut s = "--explain: skills root_dir=".to_owned();
    s.append(root_dir);
    s.append(" overwrite=");
    let b = bool_text_of(overwrite);
    s.append(b.as_str());
    s.append(" stdout=");
    let c = bool_text_of(stdout);
    s.append(c.as_str());
    s.append(" files=");
    let n = decimal_string(files.len() as u128);
    s.append(n.as_str());
    assert(templates::file_views(files@).len() == files@.len());
    let mut v: Vec<String> = Vec::new();
    say_all(&mut v, s.as_str());
    let ghost head = s@;
    let mut i: usize = 0;
    assert(text::texts(v@) =~= seq![head] + Seq::new(0, |j: int| "would_write: "@ + all[j].path));
    while i < files.len()
        invariant
            i <= files@.len(),
            templates::file_views(files@) == all,
            text::texts(v@) == seq![head] + Seq::new(
                i as nat,
                |j: int| "would_write: "@ + all[j].path,
            ),
        decreases files@.len() - i,
    {
        let ghost before = text::texts(v@);
        assert(files@[i as int]@ == templates::file_views(files@)[i as int]);
        say(&mut v, "would_write: ", files[i].path.as_str());
        assert(text::texts(v@) =~= seq![head] + Seq::new(
            (i + 1) as nat,
            |j: int| "would_write: "@ + all[j].path,
        ));
        i += 1;
    }
    assert(text::texts(v@) =~= skills_lines(root_dir@, overwrite, stdout));
    v
}

/// What is not set is shown by what it stands for.
pub proof fn law_shown_defaults(n: usize, k: nat)
    ensures
        duckdb_bin_of(None) == "duckdb"@,
        workers_text(0) == "auto (per profile)"@,
        n > 0 ==> workers_text(n) == text::decimal(n as nat),
        filter_text(0) == "all files"@,
        k > 0 ==> filter_text(k) == text::decimal(k),
        output_text(None) == "stdout"@,
        mode_name(None) == "-"@,
        opt_from_name(None) == "None"@,
{
}

/// The choices are shown by their names.
pub proof fn law_shown_names(f: SchemaFrom)
    ensures
        from_name(SchemaFrom::Auto) == "Auto"@,
        from_name(SchemaFrom::Source) == "Source"@,
        from_name(SchemaFrom::Cache) == "Cache"@,
        from_name(SchemaFrom::Parquet) == "Parquet"@,
        opt_from_name(Some(f)) == "Some("@ + from_name(f) + ")"@,
        format_name(SchemaFormat::Table) == "Table"@,
        format_name(SchemaFormat::Json) == "Json"@,
        format_name(SchemaFormat::Yaml) == "Yaml"@,
        format_name(SchemaFormat::ArrowR) == "ArrowR"@,
        mode_name(Some(ConfigTemplateMode::Complete)) == "complete"@,
        mode_name(Some(ConfigTemplateMode::Safe)) == "safe"@,
        mode_name(Some(ConfigTemplateMode::Fast)) == "fast"@,
{
}

/// What is explained of a download is what it would do: it would delete and go out unsigned
/// exactly where the command that is shown does.
pub proof fn law_explained_download(a: DownloadArgs, q: SyncRequest, s: AwsAccess)
    requires
        request_of(a, q, s),
    ensures
        download_lines(a, q, s).len() == 8,
        download_lines(a, q, s)[4] == "no_sign_request: "@ + (if s.no_sign_request && !s.signed {
            "true"@
        } else {
            "false"@
        }),
        download_lines(a, q, s)[5] == "delete_files: "@ + (if q.delete_files && !q.no_delete {
            "true"@
        } else {
            "false"@
        }),
        download_lines(a, q, s)[6] == "sync_command: "@ + a.aws_bin@ + " "@ + text::join(
            download::sync_command(q, s),
            " "@,
        ),
        q.s3_uri == a.s3_uri && q.snapshot_dir == a.snapshot_dir && q.dataset == a.dataset,
        s.endpoint_url == a.endpoint_url && s.region == a.region && s.profile_name
            == a.profile_name,
{
}

/// What is explained of a full run says of each step whether it is switched on.
pub proof fn law_explained_steps(args: AllResolved)
    ensures
        ({
            let on = |b: bool| if b { "true"@ } else { "false"@ };
            all_steps_text(args) == "steps: download="@ + on(args.enable_download)
                + " verify_download="@ + on(args.enable_verify_download) + " convert="@ + on(
                args.enable_convert,
            ) + " verify_convert="@ + on(args.enable_verify_convert) + " repair_convert="@ + on(
                args.enable_repair_convert,
            ) + " index="@ + on(args.enable_index) + " verify_index="@ + on(args.enable_verify_index)
        }),
{
}

/// What is explained of the skills names every file that would be written.
pub proof fn law_explained_skills(root: Seq<char>, overwrite: bool, stdout: bool, i: int)
    requires
        0 <= i < 7,
    ensures
        skills_lines(root, overwrite, stdout).len() == 8,
        skills_lines(root, overwrite, stdout)[i + 1] == "would_write: "@ + templates::skills_of(
            root,
        )[i].path,
{
}
/// What is explained of a verification and of schemas names each setting with its value.
pub proof fn law_explained_plans(v: VerifyArgs, s: SchemaArgs)
    ensures
        verify_plan_text(v) == "plan: scope="@ + verify::scope_name(v.scope) + ", metadata_level="@
            + verify::level_name(v.metadata_level) + ", file_sample_n="@ + text::decimal(
            v.file_sample_n as nat,
        ) + ", seed="@ + text::decimal(v.seed as nat),
        schema_plan_text(s) == "plan: from="@ + from_name(s.from) + ", format="@ + format_name(
            s.format,
        ) + ", diff_with="@ + opt_from_name(s.diff_with) + ", sample_size="@ + text::decimal(
            s.sample_size as nat,
        ) + ", refresh_cache="@ + (if s.refresh_cache { "true"@ } else { "false"@ })
            + ", state_flush_every="@ + text::decimal(s.state_flush_every as nat),
{
}
} // verus!
