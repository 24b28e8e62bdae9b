//! What each command is told: its settings, how the config file bears on them, and
//! what they are when the whole pipeline is run.

use vstd::prelude::*;
use vstd::string::*;
use crate::config::{
    choose_opt, choose_opt_text, choose_text, choose_value, clear, empty_check_config,
    empty_config_defaults, empty_convert_config, empty_download_config, empty_extract_config,
    empty_index_config, empty_progress_config, empty_prune_reports_config, empty_repair_config,
    empty_report_config, empty_schema_config, empty_validate_download_config, empty_verify_config,
    empty_verify_index_config, AppConfig, CheckConfig, ConfigDefaults, ConvertConfig,
    DownloadConfig, Explicit, ExtractConfig, IndexConfig, ProgressConfig, PruneReportsConfig,
    RepairConfig, ReportConfig, ReportSource, SchemaConfig, ValidateDownloadConfig, VerifyConfig,
    VerifyIndexConfig,
};
use crate::config;
use crate::convert::DiskCheckScope;
use crate::layout::{parquet_dir, snapshot_dir};
use crate::layout;
use crate::schema::{SchemaFormat, SchemaFrom};
use crate::verify::{VerifyMetadataLevel, VerifyScope};

verus! {

/// What the commands on data share.
#[derive(Debug)]
pub struct SharedArgs {
    pub root_dir: String,
    pub snapshot_dir: String,
    pub parquet_dir: String,
    pub dataset: String,
    pub workers: usize,
    pub duckdb_bin: Option<String>,
}

/// What `convert` is told.
#[derive(Debug)]
pub struct ConvertArgs {
    pub shared: SharedArgs,
    pub profile: String,
    pub max_memory_mb: Option<usize>,
    pub row_group_rows: usize,
    pub batch_rows: usize,
    pub compression: String,
    pub sample_size: usize,
    pub input_files: Vec<String>,
    pub progress: bool,
    pub seed: u64,
    pub skip_disk_check: bool,
    pub disk_check_scope: DiskCheckScope,
    pub split_size: String,
    pub split_temp_dir: Option<String>,
    pub refresh_cache: bool,
    pub explain: bool,
    pub state_flush_every: usize,
}

/// What `verify_convert` is told.
#[derive(Debug)]
pub struct VerifyArgs {
    pub shared: SharedArgs,
    pub max_memory_mb: Option<usize>,
    pub scope: VerifyScope,
    pub metadata_level: VerifyMetadataLevel,
    pub file_sample_n: usize,
    pub seed: u64,
    pub progress: bool,
    pub explain: bool,
    pub state_flush_every: usize,
}

/// What `schema` is told.
#[derive(Debug)]
pub struct SchemaArgs {
    pub shared: SharedArgs,
    pub max_memory_mb: Option<usize>,
    pub from: SchemaFrom,
    pub format: SchemaFormat,
    pub diff_with: Option<SchemaFrom>,
    pub output: Option<String>,
    pub sample_size: usize,
    pub refresh_cache: bool,
    pub explain: bool,
    pub state_flush_every: usize,
}

/// What `verify_schema` is told.
#[derive(Debug)]
pub struct VerifySchemaArgs {
    pub shared: SharedArgs,
    pub max_memory_mb: Option<usize>,
    pub from: SchemaFrom,
    pub diff_with: SchemaFrom,
    pub sample_size: usize,
    pub refresh_cache: bool,
    pub explain: bool,
    pub state_flush_every: usize,
}

/// What `index` is told.
#[derive(Debug, Clone)]
pub struct IndexArgs {
    pub root_dir: String,
    pub dataset: String,
    pub index_file: Option<String>,
    pub workers: usize,
    pub max_memory_mb: Option<usize>,
    pub duckdb_bin: Option<String>,
    pub progress: bool,
    pub overwrite: bool,
    pub explain: bool,
    pub state_flush_every: usize,
}

/// What `extract` is told.
#[derive(Debug)]
pub struct ExtractArgs {
    pub shared: SharedArgs,
    pub ids: String,
    pub output: String,
    pub max_memory_mb: Option<usize>,
    pub progress: bool,
    pub explain: bool,
    pub state_flush_every: usize,
}

/// What `repair_convert` is told.
#[derive(Debug)]
pub struct RepairArgs {
    pub shared: SharedArgs,
    pub from_verify_report: Option<String>,
    pub profile: String,
    pub max_memory_mb: Option<usize>,
    pub progress: bool,
    pub explain: bool,
    pub state_flush_every: usize,
}

/// What `download` is told.
#[derive(Debug)]
pub struct DownloadArgs {
    pub root_dir: String,
    pub snapshot_dir: String,
    pub s3_uri: String,
    pub dataset: String,
    pub aws_bin: String,
    pub endpoint_url: Option<String>,
    pub region: Option<String>,
    pub profile_name: Option<String>,
    pub no_sign_request: bool,
    pub signed: bool,
    pub delete_files: bool,
    pub no_delete: bool,
    pub skip_disk_check: bool,
    pub progress: bool,
    pub explain: bool,
    pub state_flush_every: usize,
}

/// What `verify_download` is told.
#[derive(Debug)]
pub struct ValidateDownloadArgs {
    pub root_dir: String,
    pub snapshot_dir: String,
    pub s3_uri: String,
    pub dataset: String,
    pub aws_bin: String,
    pub endpoint_url: Option<String>,
    pub region: Option<String>,
    pub profile_name: Option<String>,
    pub no_sign_request: bool,
    pub signed: bool,
    pub check_extra: bool,
    pub workers: usize,
    pub progress: bool,
    pub explain: bool,
    pub state_flush_every: usize,
}

/// What `verify_index` is told.
#[derive(Debug, Clone)]
pub struct VerifyIndexArgs {
    pub root_dir: String,
    pub dataset: String,
    pub index_file: Option<String>,
    pub workers: usize,
    pub max_memory_mb: Option<usize>,
    pub duckdb_bin: Option<String>,
    pub progress: bool,
    pub explain: bool,
}

/// What `report` is told.
#[derive(Debug)]
pub struct ReportArgs {
    pub root_dir: String,
    pub snapshot_dir: String,
    pub parquet_dir: String,
    pub source: ReportSource,
    pub command: Option<String>,
    pub latest: bool,
    pub summary: bool,
    pub full: bool,
}

/// What `prune_reports` is told.
#[derive(Debug)]
pub struct PruneReportsArgs {
    pub root_dir: String,
    pub snapshot_dir: String,
    pub parquet_dir: String,
    pub source: ReportSource,
    pub command: Option<String>,
    pub keep_per_command: usize,
    pub dry_run: bool,
}

/// What `progress` is told.
#[derive(Debug)]
pub struct ProgressArgs {
    pub root_dir: String,
    pub snapshot_dir: String,
    pub parquet_dir: String,
    pub command: Option<String>,
    pub dataset: String,
    pub watch: bool,
    pub once: bool,
    pub interval_sec: u64,
    pub json: bool,
}

/// What `check` is told.
#[derive(Debug)]
pub struct CheckArgs {
    pub shared: SharedArgs,
    pub aws_bin: String,
    pub s3_uri: String,
    pub endpoint_url: Option<String>,
    pub region: Option<String>,
    pub profile_name: Option<String>,
    pub no_sign_request: bool,
    pub signed: bool,
    pub max_memory_mb: Option<usize>,
    pub precise: bool,
    pub strict: bool,
    pub json: bool,
    pub explain: bool,
}

/// The directories of data under the root directory.
pub open spec fn has_dirs(s: SharedArgs) -> bool {
    &&& s.snapshot_dir@ == layout::snapshot_dir_of(s.root_dir@)
    &&& s.parquet_dir@ == layout::parquet_dir_of(s.root_dir@)
}

/// Two settings that differ in the directories of data at most.
pub open spec fn same_shared(a: SharedArgs, b: SharedArgs) -> bool {
    &&& a.root_dir == b.root_dir
    &&& a.dataset == b.dataset
    &&& a.workers == b.workers
    &&& a.duckdb_bin == b.duckdb_bin
}

/// Puts the directories of data under the root directory.
pub fn fill_shared_dirs(shared: SharedArgs) -> (r: SharedArgs)
    ensures
        has_dirs(r),
        same_shared(r, shared),
{
    let snapshot = snapshot_dir(shared.root_dir.as_str());
    let parquet = parquet_dir(shared.root_dir.as_str());
    SharedArgs { snapshot_dir: snapshot, parquet_dir: parquet, ..shared }
}

/// What the config file says of every command.
pub open spec fn defaults_of(cfg: Option<&AppConfig>) -> ConfigDefaults {
    match cfg {
        Some(cfg) => match cfg.defaults {
            Some(d) => d,
            None => config::no_config_defaults(),
        },
        None => config::no_config_defaults(),
    }
}

/// Whether the config file has defaults.
pub open spec fn has_defaults(cfg: Option<&AppConfig>) -> bool {
    cfg is Some && cfg->Some_0.defaults is Some
}

/// What the config file says of `convert`.
pub open spec fn convert_section(cfg: Option<&AppConfig>) -> ConvertConfig {
    match cfg {
        Some(cfg) => match cfg.convert {
            Some(c) => c,
            None => config::no_convert_config(),
        },
        None => config::no_convert_config(),
    }
}

/// `r` is the settings `a` with each one chosen among the command line, the section `c`,
/// the defaults `d` and what `a` holds.
pub open spec fn convert_chosen(
    a: ConvertArgs,
    d: ConfigDefaults,
    c: ConvertConfig,
    has_d: bool,
    explicit: Set<Seq<char>>,
    r: ConvertArgs,
) -> bool {
    &&& r.shared.root_dir == config::chosen(
        explicit.contains("root_dir"@),
        a.shared.root_dir,
        c.root_dir,
        d.root_dir,
    )
    &&& r.shared.dataset == config::chosen(
        explicit.contains("dataset"@),
        a.shared.dataset,
        c.dataset,
        d.dataset,
    )
    &&& r.shared.workers == config::chosen(
        explicit.contains("workers"@),
        a.shared.workers,
        c.workers,
        d.workers,
    )
    &&& r.shared.duckdb_bin == config::chosen_opt(
        explicit.contains("duckdb_bin"@),
        a.shared.duckdb_bin,
        c.duckdb_bin,
        d.duckdb_bin,
    )
    &&& r.profile == config::chosen(explicit.contains("profile"@), a.profile, c.profile, d.profile)
    &&& r.max_memory_mb == config::chosen_opt(
        explicit.contains("max_memory_mb"@),
        config::cleared(explicit.contains("max_memory_mb"@), has_d, a.max_memory_mb),
        c.max_memory_mb,
        d.max_memory_mb,
    )
    &&& r.row_group_rows == config::chosen(
        explicit.contains("row_group_rows"@),
        a.row_group_rows,
        c.row_group_rows,
        None,
    )
    &&& r.batch_rows == config::chosen(
        explicit.contains("batch_rows"@),
        a.batch_rows,
        c.batch_rows,
        None,
    )
    &&& r.compression == config::chosen(
        explicit.contains("compression"@),
        a.compression,
        c.compression,
        None,
    )
    &&& r.sample_size == config::chosen(
        explicit.contains("sample_size"@),
        a.sample_size,
        c.sample_size,
        None,
    )
    &&& r.input_files == a.input_files
    &&& r.progress == config::chosen(
        explicit.contains("progress"@),
        a.progress,
        c.progress,
        d.progress,
    )
    &&& r.seed == config::chosen(explicit.contains("seed"@), a.seed, c.seed, None)
    &&& r.skip_disk_check == config::chosen(
        explicit.contains("skip_disk_check"@),
        a.skip_disk_check,
        c.skip_disk_check,
        None,
    )
    &&& r.disk_check_scope == a.disk_check_scope
    &&& r.split_size == config::chosen(
        explicit.contains("split_size"@),
        a.split_size,
        c.split_size,
        None,
    )
    &&& r.split_temp_dir == config::chosen_opt(
        explicit.contains("split_temp_dir"@),
        a.split_temp_dir,
        c.split_temp_dir,
        None,
    )
    &&& r.refresh_cache == config::chosen(
        explicit.contains("refresh_cache"@),
        a.refresh_cache,
        c.refresh_cache,
        None,
    )
    &&& r.explain == a.explain
    &&& r.state_flush_every == config::chosen(
        explicit.contains("state_flush_every"@),
        a.state_flush_every,
        c.state_flush_every,
        d.state_flush_every,
    )
}

fn choose_convert(
    args: ConvertArgs,
    d: &ConfigDefaults,
    c: &ConvertConfig,
    has_d: bool,
    explicit: &Explicit,
) -> (r: ConvertArgs)
    ensures
        convert_chosen(args, *d, *c, has_d, explicit@, r),
        r.shared.snapshot_dir == args.shared.snapshot_dir,
        r.shared.parquet_dir == args.shared.parquet_dir,
{
    ConvertArgs {
        shared: SharedArgs {
            root_dir: choose_text(
                args.shared.root_dir,
                explicit.has("root_dir"),
                &c.root_dir,
                &d.root_dir,
            ),
            dataset: choose_text(
                args.shared.dataset,
                explicit.has("dataset"),
                &c.dataset,
                &d.dataset,
            ),
            workers: choose_value(
                args.shared.workers,
                explicit.has("workers"),
                &c.workers,
                &d.workers,
            ),
            duckdb_bin: choose_opt_text(
                args.shared.duckdb_bin,
                explicit.has("duckdb_bin"),
                &c.duckdb_bin,
                &d.duckdb_bin,
            ),
            ..args.shared
        },
        profile: choose_text(args.profile, explicit.has("profile"), &c.profile, &d.profile),
        max_memory_mb: choose_opt(
            clear(args.max_memory_mb, explicit.has("max_memory_mb"), has_d),
            explicit.has("max_memory_mb"),
            &c.max_memory_mb,
            &d.max_memory_mb,
        ),
        row_group_rows: choose_value(
            args.row_group_rows,
            explicit.has("row_group_rows"),
            &c.row_group_rows,
            &None,
        ),
        batch_rows: choose_value(args.batch_rows, explicit.has("batch_rows"), &c.batch_rows, &None),
        compression: choose_text(
            args.compression,
            explicit.has("compression"),
            &c.compression,
            &None,
        ),
        sample_size: choose_value(
            args.sample_size,
            explicit.has("sample_size"),
            &c.sample_size,
            &None,
        ),
        progress: choose_value(args.progress, explicit.has("progress"), &c.progress, &d.progress),
        seed: choose_value(args.seed, explicit.has("seed"), &c.seed, &None),
        skip_disk_check: choose_value(
            args.skip_disk_check,
            explicit.has("skip_disk_check"),
            &c.skip_disk_check,
            &None,
        ),
        split_size: choose_text(args.split_size, explicit.has("split_size"), &c.split_size, &None),
        split_temp_dir: choose_opt_text(
            args.split_temp_dir,
            explicit.has("split_temp_dir"),
            &c.split_temp_dir,
            &None,
        ),
        refresh_cache: choose_value(
            args.refresh_cache,
            explicit.has("refresh_cache"),
            &c.refresh_cache,
            &None,
        ),
        state_flush_every: choose_value(
            args.state_flush_every,
            explicit.has("state_flush_every"),
            &c.state_flush_every,
            &d.state_flush_every,
        ),
        ..args
    }
}

/// Chooses the settings of `convert` under a config file.
pub fn apply_convert_config(args: ConvertArgs, cfg: Option<&AppConfig>, explicit: &Explicit) -> (r: ConvertArgs)
    ensures
        convert_chosen(
            args,
            defaults_of(cfg),
            convert_section(cfg),
            has_defaults(cfg),
            explicit@,
            r,
        ),
        r.shared.snapshot_dir == args.shared.snapshot_dir,
        r.shared.parquet_dir == args.shared.parquet_dir,
{
    let no_defaults = empty_config_defaults();
    let no_section = empty_convert_config();
    let d = match cfg {
        Some(cfg) => match &cfg.defaults {
            Some(d) => d,
            None => &no_defaults,
        },
        None => &no_defaults,
    };
    let c = match cfg {
        Some(cfg) => match &cfg.convert {
            Some(c) => c,
            None => &no_section,
        },
        None => &no_section,
    };
    let has_d = match cfg {
        Some(cfg) => cfg.defaults.is_some(),
        None => false,
    };
    choose_convert(args, d, c, has_d, explicit)
}

/// What the config file says of `verify_convert`.
pub open spec fn verify_section(cfg: Option<&AppConfig>) -> VerifyConfig {
    match cfg {
        Some(cfg) => match cfg.verify_convert {
            Some(c) => c,
            None => config::no_verify_config(),
        },
        None => config::no_verify_config(),
    }
}

/// `r` is the settings `a` with each one chosen among the command line, the section `c`,
/// the defaults `d` and what `a` holds.
pub open spec fn verify_chosen(
    a: VerifyArgs,
    d: ConfigDefaults,
    c: VerifyConfig,
    has_d: bool,
    explicit: Set<Seq<char>>,
    r: VerifyArgs,
) -> bool {
    &&& r.shared.root_dir == config::chosen(
        explicit.contains("root_dir"@),
        a.shared.root_dir,
        c.root_dir,
        d.root_dir,
    )
    &&& r.shared.dataset == config::chosen(
        explicit.contains("dataset"@),
        a.shared.dataset,
        c.dataset,
        d.dataset,
    )
    &&& r.shared.workers == config::chosen(
        explicit.contains("workers"@),
        a.shared.workers,
        c.workers,
        d.workers,
    )
    &&& r.shared.duckdb_bin == config::chosen_opt(
        explicit.contains("duckdb_bin"@),
        a.shared.duckdb_bin,
        c.duckdb_bin,
        d.duckdb_bin,
    )
    &&& r.max_memory_mb == config::chosen_opt(
        explicit.contains("max_memory_mb"@),
        config::cleared(explicit.contains("max_memory_mb"@), has_d, a.max_memory_mb),
        c.max_memory_mb,
        d.max_memory_mb,
    )
    &&& r.scope == config::chosen(explicit.contains("scope"@), a.scope, c.scope, None)
    &&& r.metadata_level == config::chosen(
        explicit.contains("metadata_level"@),
        a.metadata_level,
        c.metadata_level,
        None,
    )
    &&& r.file_sample_n == config::chosen(
        explicit.contains("file_sample_n"@),
        a.file_sample_n,
        c.file_sample_n,
        None,
    )
    &&& r.seed == config::chosen(explicit.contains("seed"@), a.seed, c.seed, None)
    &&& r.progress == config::chosen(
        explicit.contains("progress"@),
        a.progress,
        c.progress,
        d.progress,
    )
    &&& r.explain == a.explain
    &&& r.state_flush_every == config::chosen(
        explicit.contains("state_flush_every"@),
        a.state_flush_every,
        c.state_flush_every,
        d.state_flush_every,
    )
}

fn choose_verify(
    args: VerifyArgs,
    d: &ConfigDefaults,
    c: &VerifyConfig,
    has_d: bool,
    explicit: &Explicit,
) -> (r: VerifyArgs)
    ensures
        verify_chosen(args, *d, *c, has_d, explicit@, r),
        r.shared.snapshot_dir == args.shared.snapshot_dir,
        r.shared.parquet_dir == args.shared.parquet_dir,
{
    VerifyArgs {
        shared: SharedArgs {
            root_dir: choose_text(
                args.shared.root_dir,
                explicit.has("root_dir"),
                &c.root_dir,
                &d.root_dir,
            ),
            dataset: choose_text(
                args.shared.dataset,
                explicit.has("dataset"),
                &c.dataset,
                &d.dataset,
            ),
            workers: choose_value(
                args.shared.workers,
                explicit.has("workers"),
                &c.workers,
                &d.workers,
            ),
            duckdb_bin: choose_opt_text(
                args.shared.duckdb_bin,
                explicit.has("duckdb_bin"),
                &c.duckdb_bin,
                &d.duckdb_bin,
            ),
            ..args.shared
        },
        max_memory_mb: choose_opt(
            clear(args.max_memory_mb, explicit.has("max_memory_mb"), has_d),
            explicit.has("max_memory_mb"),
            &c.max_memory_mb,
            &d.max_memory_mb,
        ),
        scope: choose_value(args.scope, explicit.has("scope"), &c.scope, &None),
        metadata_level: choose_value(
            args.metadata_level,
            explicit.has("metadata_level"),
            &c.metadata_level,
            &None,
        ),
        file_sample_n: choose_value(
            args.file_sample_n,
            explicit.has("file_sample_n"),
            &c.file_sample_n,
            &None,
        ),
        seed: choose_value(args.seed, explicit.has("seed"), &c.seed, &None),
        progress: choose_value(args.progress, explicit.has("progress"), &c.progress, &d.progress),
        state_flush_every: choose_value(
            args.state_flush_every,
            explicit.has("state_flush_every"),
            &c.state_flush_every,
            &d.state_flush_every,
        ),
        ..args
    }
}

/// Chooses the settings of `verify_convert` under a config file.
pub fn apply_verify_config(args: VerifyArgs, cfg: Option<&AppConfig>, explicit: &Explicit) -> (r: VerifyArgs)
    ensures
        verify_chosen(
            args,
            defaults_of(cfg),
            verify_section(cfg),
            has_defaults(cfg),
            explicit@,
            r,
        ),
        r.shared.snapshot_dir == args.shared.snapshot_dir,
        r.shared.parquet_dir == args.shared.parquet_dir,
{
    let no_defaults = empty_config_defaults();
    let no_section = empty_verify_config();
    let d = match cfg {
        Some(cfg) => match &cfg.defaults {
            Some(d) => d,
            None => &no_defaults,
        },
        None => &no_defaults,
    };
    let c = match cfg {
        Some(cfg) => match &cfg.verify_convert {
            Some(c) => c,
            None => &no_section,
        },
        None => &no_section,
    };
    let has_d = match cfg {
        Some(cfg) => cfg.defaults.is_some(),
        None => false,
    };
    choose_verify(args, d, c, has_d, explicit)
}

/// What the config file says of `schema`.
pub open spec fn schema_section(cfg: Option<&AppConfig>) -> SchemaConfig {
    match cfg {
        Some(cfg) => match cfg.schema {
            Some(c) => c,
            None => config::no_schema_config(),
        },
        None => config::no_schema_config(),
    }
}

/// `r` is the settings `a` with each one chosen among the command line, the section `c`,
/// the defaults `d` and what `a` holds.
pub open spec fn schema_chosen(
    a: SchemaArgs,
    d: ConfigDefaults,
    c: SchemaConfig,
    has_d: bool,
    has_c: bool,
    explicit: Set<Seq<char>>,
    r: SchemaArgs,
) -> bool {
    &&& r.shared.root_dir == config::chosen(
        explicit.contains("root_dir"@),
        a.shared.root_dir,
        c.root_dir,
        d.root_dir,
    )
    &&& r.shared.dataset == config::chosen(
        explicit.contains("dataset"@),
        a.shared.dataset,
        c.dataset,
        d.dataset,
    )
    &&& r.shared.workers == config::chosen(
        explicit.contains("workers"@),
        a.shared.workers,
        c.workers,
        d.workers,
    )
    &&& r.shared.duckdb_bin == config::chosen_opt(
        explicit.contains("duckdb_bin"@),
        a.shared.duckdb_bin,
        c.duckdb_bin,
        d.duckdb_bin,
    )
    &&& r.max_memory_mb == config::chosen_opt(
        explicit.contains("max_memory_mb"@),
        config::cleared(explicit.contains("max_memory_mb"@), has_d, a.max_memory_mb),
        c.max_memory_mb,
        d.max_memory_mb,
    )
    &&& r.from == config::chosen(explicit.contains("from"@), a.from, c.from, None)
    &&& r.format == config::chosen(explicit.contains("format"@), a.format, c.format, None)
    &&& r.diff_with == config::chosen_opt(
        explicit.contains("diff_with"@),
        config::cleared(explicit.contains("diff_with"@), has_c, a.diff_with),
        c.diff_with,
        None,
    )
    &&& r.output == config::chosen_opt(
        explicit.contains("output"@),
        config::cleared(explicit.contains("output"@), has_c, a.output),
        c.output,
        None,
    )
    &&& r.sample_size == config::chosen(
        explicit.contains("sample_size"@),
        a.sample_size,
        c.sample_size,
        None,
    )
    &&& r.refresh_cache == config::chosen(
        explicit.contains("refresh_cache"@),
        a.refresh_cache,
        c.refresh_cache,
        None,
    )
    &&& r.explain == a.explain
    &&& r.state_flush_every == config::chosen(
        explicit.contains("state_flush_every"@),
        a.state_flush_every,
        c.state_flush_every,
        d.state_flush_every,
    )
}

fn choose_schema(
    args: SchemaArgs,
    d: &ConfigDefaults,
    c: &SchemaConfig,
    has_d: bool,
    has_c: bool,
    explicit: &Explicit,
) -> (r: SchemaArgs)
    ensures
        schema_chosen(args, *d, *c, has_d, has_c, explicit@, r),
        r.shared.snapshot_dir == args.shared.snapshot_dir,
        r.shared.parquet_dir == args.shared.parquet_dir,
{
    SchemaArgs {
        shared: SharedArgs {
            root_dir: choose_text(
                args.shared.root_dir,
                explicit.has("root_dir"),
                &c.root_dir,
                &d.root_dir,
            ),
            dataset: choose_text(
                args.shared.dataset,
                explicit.has("dataset"),
                &c.dataset,
                &d.dataset,
            ),
            workers: choose_value(
                args.shared.workers,
                explicit.has("workers"),
                &c.workers,
                &d.workers,
            ),
            duckdb_bin: choose_opt_text(
                args.shared.duckdb_bin,
                explicit.has("duckdb_bin"),
                &c.duckdb_bin,
                &d.duckdb_bin,
            ),
            ..args.shared
        },
        max_memory_mb: choose_opt(
            clear(args.max_memory_mb, explicit.has("max_memory_mb"), has_d),
            explicit.has("max_memory_mb"),
            &c.max_memory_mb,
            &d.max_memory_mb,
        ),
        from: choose_value(args.from, explicit.has("from"), &c.from, &None),
        format: choose_value(args.format, explicit.has("format"), &c.format, &None),
        diff_with: choose_opt(
            clear(args.diff_with, explicit.has("diff_with"), has_c),
            explicit.has("diff_with"),
            &c.diff_with,
            &None,
        ),
        output: choose_opt_text(
            clear(args.output, explicit.has("output"), has_c),
            explicit.has("output"),
            &c.output,
            &None,
        ),
        sample_size: choose_value(
            args.sample_size,
            explicit.has("sample_size"),
            &c.sample_size,
            &None,
        ),
        refresh_cache: choose_value(
            args.refresh_cache,
            explicit.has("refresh_cache"),
            &c.refresh_cache,
            &None,
        ),
        state_flush_every: choose_value(
            args.state_flush_every,
            explicit.has("state_flush_every"),
            &c.state_flush_every,
            &d.state_flush_every,
        ),
        ..args
    }
}

/// Chooses the settings of `schema` under a config file.
pub fn apply_schema_config(args: SchemaArgs, cfg: Option<&AppConfig>, explicit: &Explicit) -> (r: SchemaArgs)
    ensures
        schema_chosen(
            args,
            defaults_of(cfg),
            schema_section(cfg),
            has_defaults(cfg),
            cfg is Some && cfg->Some_0.schema is Some,
            explicit@,
            r,
        ),
        r.shared.snapshot_dir == args.shared.snapshot_dir,
        r.shared.parquet_dir == args.shared.parquet_dir,
{
    let no_defaults = empty_config_defaults();
    let no_section = empty_schema_config();
    let d = match cfg {
        Some(cfg) => match &cfg.defaults {
            Some(d) => d,
            None => &no_defaults,
        },
        None => &no_defaults,
    };
    let c = match cfg {
        Some(cfg) => match &cfg.schema {
            Some(c) => c,
            None => &no_section,
        },
        None => &no_section,
    };
    let has_d = match cfg {
        Some(cfg) => cfg.defaults.is_some(),
        None => false,
    };
    let has_c = match cfg {
        Some(cfg) => cfg.schema.is_some(),
        None => false,
    };
    choose_schema(args, d, c, has_d, has_c, explicit)
}

/// What the config file says of `index`.
pub open spec fn index_section(cfg: Option<&AppConfig>) -> IndexConfig {
    match cfg {
        Some(cfg) => match cfg.index {
            Some(c) => c,
            None => config::no_index_config(),
        },
        None => config::no_index_config(),
    }
}

/// `r` is the settings `a` with each one chosen among the command line, the section `c`,
/// the defaults `d` and what `a` holds.
pub open spec fn index_chosen(
    a: IndexArgs,
    d: ConfigDefaults,
    c: IndexConfig,
    has_d: bool,
    has_c: bool,
    explicit: Set<Seq<char>>,
    r: IndexArgs,
) -> bool {
    &&& r.root_dir == config::chosen(
        explicit.contains("root_dir"@),
        a.root_dir,
        c.root_dir,
        d.root_dir,
    )
    &&& r.dataset == config::chosen(explicit.contains("dataset"@), a.dataset, c.dataset, d.dataset)
    &&& r.index_file == config::chosen_opt(
        explicit.contains("index_file"@),
        config::cleared(explicit.contains("index_file"@), has_c, a.index_file),
        c.index_file,
        None,
    )
    &&& r.workers == config::chosen(explicit.contains("workers"@), a.workers, c.workers, d.workers)
    &&& r.max_memory_mb == config::chosen_opt(
        explicit.contains("max_memory_mb"@),
        config::cleared(explicit.contains("max_memory_mb"@), has_d, a.max_memory_mb),
        c.max_memory_mb,
        d.max_memory_mb,
    )
    &&& r.duckdb_bin == config::chosen_opt(
        explicit.contains("duckdb_bin"@),
        a.duckdb_bin,
        c.duckdb_bin,
        d.duckdb_bin,
    )
    &&& r.progress == config::chosen(
        explicit.contains("progress"@),
        a.progress,
        c.progress,
        d.progress,
    )
    &&& r.overwrite == config::chosen(
        explicit.contains("overwrite"@),
        a.overwrite,
        c.overwrite,
        None,
    )
    &&& r.explain == a.explain
    &&& r.state_flush_every == config::chosen(
        explicit.contains("state_flush_every"@),
        a.state_flush_every,
        c.state_flush_every,
        d.state_flush_every,
    )
}

fn choose_index(
    args: IndexArgs,
    d: &ConfigDefaults,
    c: &IndexConfig,
    has_d: bool,
    has_c: bool,
    explicit: &Explicit,
) -> (r: IndexArgs)
    ensures
        index_chosen(args, *d, *c, has_d, has_c, explicit@, r),
{
    IndexArgs {
        root_dir: choose_text(args.root_dir, explicit.has("root_dir"), &c.root_dir, &d.root_dir),
        dataset: choose_text(args.dataset, explicit.has("dataset"), &c.dataset, &d.dataset),
        index_file: choose_opt_text(
            clear(args.index_file, explicit.has("index_file"), has_c),
            explicit.has("index_file"),
            &c.index_file,
            &None,
        ),
        workers: choose_value(args.workers, explicit.has("workers"), &c.workers, &d.workers),
        max_memory_mb: choose_opt(
            clear(args.max_memory_mb, explicit.has("max_memory_mb"), has_d),
            explicit.has("max_memory_mb"),
            &c.max_memory_mb,
            &d.max_memory_mb,
        ),
        duckdb_bin: choose_opt_text(
            args.duckdb_bin,
            explicit.has("duckdb_bin"),
            &c.duckdb_bin,
            &d.duckdb_bin,
        ),
        progress: choose_value(args.progress, explicit.has("progress"), &c.progress, &d.progress),
        overwrite: choose_value(args.overwrite, explicit.has("overwrite"), &c.overwrite, &None),
        state_flush_every: choose_value(
            args.state_flush_every,
            explicit.has("state_flush_every"),
            &c.state_flush_every,
            &d.state_flush_every,
        ),
        ..args
    }
}

/// Chooses the settings of `index` under a config file.
pub fn apply_index_config(args: IndexArgs, cfg: Option<&AppConfig>, explicit: &Explicit) -> (r: IndexArgs)
    ensures
        index_chosen(
            args,
            defaults_of(cfg),
            index_section(cfg),
            has_defaults(cfg),
            cfg is Some && cfg->Some_0.index is Some,
            explicit@,
            r,
        ),
{
    let no_defaults = empty_config_defaults();
    let no_section = empty_index_config();
    let d = match cfg {
        Some(cfg) => match &cfg.defaults {
            Some(d) => d,
            None => &no_defaults,
        },
        None => &no_defaults,
    };
    let c = match cfg {
        Some(cfg) => match &cfg.index {
            Some(c) => c,
            None => &no_section,
        },
        None => &no_section,
    };
    let has_d = match cfg {
        Some(cfg) => cfg.defaults.is_some(),
        None => false,
    };
    let has_c = match cfg {
        Some(cfg) => cfg.index.is_some(),
        None => false,
    };
    choose_index(args, d, c, has_d, has_c, explicit)
}

/// What the config file says of `extract`.
pub open spec fn extract_section(cfg: Option<&AppConfig>) -> ExtractConfig {
    match cfg {
        Some(cfg) => match cfg.extract {
            Some(c) => c,
            None => config::no_extract_config(),
        },
        None => config::no_extract_config(),
    }
}

/// `r` is the settings `a` with each one chosen among the command line, the section `c`,
/// the defaults `d` and what `a` holds.
pub open spec fn extract_chosen(
    a: ExtractArgs,
    d: ConfigDefaults,
    c: ExtractConfig,
    has_d: bool,
    explicit: Set<Seq<char>>,
    r: ExtractArgs,
) -> bool {
    &&& r.shared.root_dir == config::chosen(
        explicit.contains("root_dir"@),
        a.shared.root_dir,
        c.root_dir,
        d.root_dir,
    )
    &&& r.shared.dataset == config::chosen(
        explicit.contains("dataset"@),
        a.shared.dataset,
        c.dataset,
        d.dataset,
    )
    &&& r.shared.workers == config::chosen(
        explicit.contains("workers"@),
        a.shared.workers,
        c.workers,
        d.workers,
    )
    &&& r.shared.duckdb_bin == config::chosen_opt(
        explicit.contains("duckdb_bin"@),
        a.shared.duckdb_bin,
        c.duckdb_bin,
        d.duckdb_bin,
    )
    &&& r.ids == config::chosen(explicit.contains("ids"@), a.ids, c.ids, None)
    &&& r.output == config::chosen(explicit.contains("output"@), a.output, c.output, None)
    &&& r.max_memory_mb == config::chosen_opt(
        explicit.contains("max_memory_mb"@),
        config::cleared(explicit.contains("max_memory_mb"@), has_d, a.max_memory_mb),
        c.max_memory_mb,
        d.max_memory_mb,
    )
    &&& r.progress == config::chosen(
        explicit.contains("progress"@),
        a.progress,
        c.progress,
        d.progress,
    )
    &&& r.explain == a.explain
    &&& r.state_flush_every == config::chosen(
        explicit.contains("state_flush_every"@),
        a.state_flush_every,
        c.state_flush_every,
        d.state_flush_every,
    )
}

fn choose_extract(
    args: ExtractArgs,
    d: &ConfigDefaults,
    c: &ExtractConfig,
    has_d: bool,
    explicit: &Explicit,
) -> (r: ExtractArgs)
    ensures
        extract_chosen(args, *d, *c, has_d, explicit@, r),
        r.shared.snapshot_dir == args.shared.snapshot_dir,
        r.shared.parquet_dir == args.shared.parquet_dir,
{
    ExtractArgs {
        shared: SharedArgs {
            root_dir: choose_text(
                args.shared.root_dir,
                explicit.has("root_dir"),
                &c.root_dir,
                &d.root_dir,
            ),
            dataset: choose_text(
                args.shared.dataset,
                explicit.has("dataset"),
                &c.dataset,
                &d.dataset,
            ),
            workers: choose_value(
                args.shared.workers,
                explicit.has("workers"),
                &c.workers,
                &d.workers,
            ),
            duckdb_bin: choose_opt_text(
                args.shared.duckdb_bin,
                explicit.has("duckdb_bin"),
                &c.duckdb_bin,
                &d.duckdb_bin,
            ),
            ..args.shared
        },
        ids: choose_text(args.ids, explicit.has("ids"), &c.ids, &None),
        output: choose_text(args.output, explicit.has("output"), &c.output, &None),
        max_memory_mb: choose_opt(
            clear(args.max_memory_mb, explicit.has("max_memory_mb"), has_d),
            explicit.has("max_memory_mb"),
            &c.max_memory_mb,
            &d.max_memory_mb,
        ),
        progress: choose_value(args.progress, explicit.has("progress"), &c.progress, &d.progress),
        state_flush_every: choose_value(
            args.state_flush_every,
            explicit.has("state_flush_every"),
            &c.state_flush_every,
            &d.state_flush_every,
        ),
        ..args
    }
}

/// Chooses the settings of `extract` under a config file.
pub fn apply_extract_config(args: ExtractArgs, cfg: Option<&AppConfig>, explicit: &Explicit) -> (r: ExtractArgs)
    ensures
        extract_chosen(
            args,
            defaults_of(cfg),
            extract_section(cfg),
            has_defaults(cfg),
            explicit@,
            r,
        ),
        r.shared.snapshot_dir == args.shared.snapshot_dir,
        r.shared.parquet_dir == args.shared.parquet_dir,
{
    let no_defaults = empty_config_defaults();
    let no_section = empty_extract_config();
    let d = match cfg {
        Some(cfg) => match &cfg.defaults {
            Some(d) => d,
            None => &no_defaults,
        },
        None => &no_defaults,
    };
    let c = match cfg {
        Some(cfg) => match &cfg.extract {
            Some(c) => c,
            None => &no_section,
        },
        None => &no_section,
    };
    let has_d = match cfg {
        Some(cfg) => cfg.defaults.is_some(),
        None => false,
    };
    choose_extract(args, d, c, has_d, explicit)
}

/// What the config file says of `repair_convert`.
pub open spec fn repair_section(cfg: Option<&AppConfig>) -> RepairConfig {
    match cfg {
        Some(cfg) => match cfg.repair_convert {
            Some(c) => c,
            None => config::no_repair_config(),
        },
        None => config::no_repair_config(),
    }
}

/// `r` is the settings `a` with each one chosen among the command line, the section `c`,
/// the defaults `d` and what `a` holds.
pub open spec fn repair_chosen(
    a: RepairArgs,
    d: ConfigDefaults,
    c: RepairConfig,
    has_d: bool,
    explicit: Set<Seq<char>>,
    r: RepairArgs,
) -> bool {
    &&& r.shared.root_dir == config::chosen(
        explicit.contains("root_dir"@),
        a.shared.root_dir,
        c.root_dir,
        d.root_dir,
    )
    &&& r.shared.dataset == config::chosen(
        explicit.contains("dataset"@),
        a.shared.dataset,
        c.dataset,
        d.dataset,
    )
    &&& r.shared.workers == config::chosen(
        explicit.contains("workers"@),
        a.shared.workers,
        c.workers,
        d.workers,
    )
    &&& r.shared.duckdb_bin == config::chosen_opt(
        explicit.contains("duckdb_bin"@),
        a.shared.duckdb_bin,
        c.duckdb_bin,
        d.duckdb_bin,
    )
    &&& r.from_verify_report == config::chosen_opt(
        explicit.contains("from_verify_report"@),
        a.from_verify_report,
        c.from_verify_report,
        None,
    )
    &&& r.profile == config::chosen(explicit.contains("profile"@), a.profile, c.profile, d.profile)
    &&& r.max_memory_mb == config::chosen_opt(
        explicit.contains("max_memory_mb"@),
        config::cleared(explicit.contains("max_memory_mb"@), has_d, a.max_memory_mb),
        c.max_memory_mb,
        d.max_memory_mb,
    )
    &&& r.progress == config::chosen(
        explicit.contains("progress"@),
        a.progress,
        c.progress,
        d.progress,
    )
    &&& r.explain == a.explain
    &&& r.state_flush_every == config::chosen(
        explicit.contains("state_flush_every"@),
        a.state_flush_every,
        c.state_flush_every,
        d.state_flush_every,
    )
}

fn choose_repair(
    args: RepairArgs,
    d: &ConfigDefaults,
    c: &RepairConfig,
    has_d: bool,
    explicit: &Explicit,
) -> (r: RepairArgs)
    ensures
        repair_chosen(args, *d, *c, has_d, explicit@, r),
        r.shared.snapshot_dir == args.shared.snapshot_dir,
        r.shared.parquet_dir == args.shared.parquet_dir,
{
    RepairArgs {
        shared: SharedArgs {
            root_dir: choose_text(
                args.shared.root_dir,
                explicit.has("root_dir"),
                &c.root_dir,
                &d.root_dir,
            ),
            dataset: choose_text(
                args.shared.dataset,
                explicit.has("dataset"),
                &c.dataset,
                &d.dataset,
            ),
            workers: choose_value(
                args.shared.workers,
                explicit.has("workers"),
                &c.workers,
                &d.workers,
            ),
            duckdb_bin: choose_opt_text(
                args.shared.duckdb_bin,
                explicit.has("duckdb_bin"),
                &c.duckdb_bin,
                &d.duckdb_bin,
            ),
            ..args.shared
        },
        from_verify_report: choose_opt_text(
            args.from_verify_report,
            explicit.has("from_verify_report"),
            &c.from_verify_report,
            &None,
        ),
        profile: choose_text(args.profile, explicit.has("profile"), &c.profile, &d.profile),
        max_memory_mb: choose_opt(
            clear(args.max_memory_mb, explicit.has("max_memory_mb"), has_d),
            explicit.has("max_memory_mb"),
            &c.max_memory_mb,
            &d.max_memory_mb,
        ),
        progress: choose_value(args.progress, explicit.has("progress"), &c.progress, &d.progress),
        state_flush_every: choose_value(
            args.state_flush_every,
            explicit.has("state_flush_every"),
            &c.state_flush_every,
            &d.state_flush_every,
        ),
        ..args
    }
}

/// Chooses the settings of `repair_convert` under a config file.
pub fn apply_repair_config(args: RepairArgs, cfg: Option<&AppConfig>, explicit: &Explicit) -> (r: RepairArgs)
    ensures
        repair_chosen(
            args,
            defaults_of(cfg),
            repair_section(cfg),
            has_defaults(cfg),
            explicit@,
            r,
        ),
        r.shared.snapshot_dir == args.shared.snapshot_dir,
        r.shared.parquet_dir == args.shared.parquet_dir,
{
    let no_defaults = empty_config_defaults();
    let no_section = empty_repair_config();
    let d = match cfg {
        Some(cfg) => match &cfg.defaults {
            Some(d) => d,
            None => &no_defaults,
        },
        None => &no_defaults,
    };
    let c = match cfg {
        Some(cfg) => match &cfg.repair_convert {
            Some(c) => c,
            None => &no_section,
        },
        None => &no_section,
    };
    let has_d = match cfg {
        Some(cfg) => cfg.defaults.is_some(),
        None => false,
    };
    choose_repair(args, d, c, has_d, explicit)
}

/// What the config file says of `download`.
pub open spec fn download_section(cfg: Option<&AppConfig>) -> DownloadConfig {
    match cfg {
        Some(cfg) => match cfg.download {
            Some(c) => c,
            None => config::no_download_config(),
        },
        None => config::no_download_config(),
    }
}

/// `r` is the settings `a` with each one chosen among the command line, the section `c`,
/// the defaults `d` and what `a` holds.
pub open spec fn download_chosen(
    a: DownloadArgs,
    d: ConfigDefaults,
    c: DownloadConfig,
    has_c: bool,
    explicit: Set<Seq<char>>,
    r: DownloadArgs,
) -> bool {
    &&& r.root_dir == config::chosen(
        explicit.contains("root_dir"@),
        a.root_dir,
        c.root_dir,
        d.root_dir,
    )
    &&& r.s3_uri == config::chosen(explicit.contains("s3_uri"@), a.s3_uri, c.s3_uri, None)
    &&& r.dataset == config::chosen(explicit.contains("dataset"@), a.dataset, c.dataset, d.dataset)
    &&& r.aws_bin == config::chosen(explicit.contains("aws_bin"@), a.aws_bin, c.aws_bin, None)
    &&& r.endpoint_url == config::chosen_opt(
        explicit.contains("endpoint_url"@),
        config::cleared(explicit.contains("endpoint_url"@), has_c, a.endpoint_url),
        c.endpoint_url,
        None,
    )
    &&& r.region == config::chosen_opt(
        explicit.contains("region"@),
        config::cleared(explicit.contains("region"@), has_c, a.region),
        c.region,
        None,
    )
    &&& r.profile_name == config::chosen_opt(
        explicit.contains("profile_name"@),
        config::cleared(explicit.contains("profile_name"@), has_c, a.profile_name),
        c.profile_name,
        None,
    )
    &&& r.no_sign_request == config::chosen(
        explicit.contains("no_sign_request"@),
        a.no_sign_request,
        c.no_sign_request,
        None,
    )
    &&& r.signed == config::chosen(explicit.contains("signed"@), a.signed, c.signed, None)
    &&& r.delete_files == config::chosen(
        explicit.contains("delete_files"@),
        a.delete_files,
        c.delete_files,
        None,
    )
    &&& r.no_delete == config::chosen(
        explicit.contains("no_delete"@),
        a.no_delete,
        c.no_delete,
        None,
    )
    &&& r.skip_disk_check == config::chosen(
        explicit.contains("skip_disk_check"@),
        a.skip_disk_check,
        c.skip_disk_check,
        None,
    )
    &&& r.progress == config::chosen(
        explicit.contains("progress"@),
        a.progress,
        c.progress,
        d.progress,
    )
    &&& r.explain == a.explain
    &&& r.state_flush_every == config::chosen(
        explicit.contains("state_flush_every"@),
        a.state_flush_every,
        c.state_flush_every,
        d.state_flush_every,
    )
}

fn choose_download(
    args: DownloadArgs,
    d: &ConfigDefaults,
    c: &DownloadConfig,
    has_c: bool,
    explicit: &Explicit,
) -> (r: DownloadArgs)
    ensures
        download_chosen(args, *d, *c, has_c, explicit@, r),
        r.snapshot_dir == args.snapshot_dir,
{
    DownloadArgs {
        root_dir: choose_text(args.root_dir, explicit.has("root_dir"), &c.root_dir, &d.root_dir),
        s3_uri: choose_text(args.s3_uri, explicit.has("s3_uri"), &c.s3_uri, &None),
        dataset: choose_text(args.dataset, explicit.has("dataset"), &c.dataset, &d.dataset),
        aws_bin: choose_text(args.aws_bin, explicit.has("aws_bin"), &c.aws_bin, &None),
        endpoint_url: choose_opt_text(
            clear(args.endpoint_url, explicit.has("endpoint_url"), has_c),
            explicit.has("endpoint_url"),
            &c.endpoint_url,
            &None,
        ),
        region: choose_opt_text(
            clear(args.region, explicit.has("region"), has_c),
            explicit.has("region"),
            &c.region,
            &None,
        ),
        profile_name: choose_opt_text(
            clear(args.profile_name, explicit.has("profile_name"), has_c),
            explicit.has("profile_name"),
            &c.profile_name,
            &None,
        ),
        no_sign_request: choose_value(
            args.no_sign_request,
            explicit.has("no_sign_request"),
            &c.no_sign_request,
            &None,
        ),
        signed: choose_value(args.signed, explicit.has("signed"), &c.signed, &None),
        delete_files: choose_value(
            args.delete_files,
            explicit.has("delete_files"),
            &c.delete_files,
            &None,
        ),
        no_delete: choose_value(args.no_delete, explicit.has("no_delete"), &c.no_delete, &None),
        skip_disk_check: choose_value(
            args.skip_disk_check,
            explicit.has("skip_disk_check"),
            &c.skip_disk_check,
            &None,
        ),
        progress: choose_value(args.progress, explicit.has("progress"), &c.progress, &d.progress),
        state_flush_every: choose_value(
            args.state_flush_every,
            explicit.has("state_flush_every"),
            &c.state_flush_every,
            &d.state_flush_every,
        ),
        ..args
    }
}

/// Chooses the settings of `download` under a config file.
pub fn apply_download_config(args: DownloadArgs, cfg: Option<&AppConfig>, explicit: &Explicit) -> (r: DownloadArgs)
    ensures
        download_chosen(
            args,
            defaults_of(cfg),
            download_section(cfg),
            cfg is Some && cfg->Some_0.download is Some,
            explicit@,
            r,
        ),
        r.snapshot_dir == args.snapshot_dir,
{
    let no_defaults = empty_config_defaults();
    let no_section = empty_download_config();
    let d = match cfg {
        Some(cfg) => match &cfg.defaults {
            Some(d) => d,
            None => &no_defaults,
        },
        None => &no_defaults,
    };
    let c = match cfg {
        Some(cfg) => match &cfg.download {
            Some(c) => c,
            None => &no_section,
        },
        None => &no_section,
    };
    let has_c = match cfg {
        Some(cfg) => cfg.download.is_some(),
        None => false,
    };
    choose_download(args, d, c, has_c, explicit)
}

/// What the config file says of `verify_download`.
pub open spec fn validate_download_section(cfg: Option<&AppConfig>) -> ValidateDownloadConfig {
    match cfg {
        Some(cfg) => match cfg.verify_download {
            Some(c) => c,
            None => config::no_validate_download_config(),
        },
        None => config::no_validate_download_config(),
    }
}

/// `r` is the settings `a` with each one chosen among the command line, the section `c`,
/// the defaults `d` and what `a` holds.
pub open spec fn validate_download_chosen(
    a: ValidateDownloadArgs,
    d: ConfigDefaults,
    c: ValidateDownloadConfig,
    has_c: bool,
    explicit: Set<Seq<char>>,
    r: ValidateDownloadArgs,
) -> bool {
    &&& r.root_dir == config::chosen(
        explicit.contains("root_dir"@),
        a.root_dir,
        c.root_dir,
        d.root_dir,
    )
    &&& r.s3_uri == config::chosen(explicit.contains("s3_uri"@), a.s3_uri, c.s3_uri, None)
    &&& r.dataset == config::chosen(explicit.contains("dataset"@), a.dataset, c.dataset, d.dataset)
    &&& r.aws_bin == config::chosen(explicit.contains("aws_bin"@), a.aws_bin, c.aws_bin, None)
    &&& r.endpoint_url == config::chosen_opt(
        explicit.contains("endpoint_url"@),
        config::cleared(explicit.contains("endpoint_url"@), has_c, a.endpoint_url),
        c.endpoint_url,
        None,
    )
    &&& r.region == config::chosen_opt(
        explicit.contains("region"@),
        config::cleared(explicit.contains("region"@), has_c, a.region),
        c.region,
        None,
    )
    &&& r.profile_name == config::chosen_opt(
        explicit.contains("profile_name"@),
        config::cleared(explicit.contains("profile_name"@), has_c, a.profile_name),
        c.profile_name,
        None,
    )
    &&& r.no_sign_request == config::chosen(
        explicit.contains("no_sign_request"@),
        a.no_sign_request,
        c.no_sign_request,
        None,
    )
    &&& r.signed == config::chosen(explicit.contains("signed"@), a.signed, c.signed, None)
    &&& r.check_extra == config::chosen(
        explicit.contains("check_extra"@),
        a.check_extra,
        c.check_extra,
        None,
    )
    &&& r.workers == config::chosen(explicit.contains("workers"@), a.workers, c.workers, d.workers)
    &&& r.progress == config::chosen(
        explicit.contains("progress"@),
        a.progress,
        c.progress,
        d.progress,
    )
    &&& r.explain == a.explain
    &&& r.state_flush_every == config::chosen(
        explicit.contains("state_flush_every"@),
        a.state_flush_every,
        c.state_flush_every,
        d.state_flush_every,
    )
}

fn choose_validate_download(
    args: ValidateDownloadArgs,
    d: &ConfigDefaults,
    c: &ValidateDownloadConfig,
    has_c: bool,
    explicit: &Explicit,
) -> (r: ValidateDownloadArgs)
    ensures
        validate_download_chosen(args, *d, *c, has_c, explicit@, r),
        r.snapshot_dir == args.snapshot_dir,
{
    ValidateDownloadArgs {
        root_dir: choose_text(args.root_dir, explicit.has("root_dir"), &c.root_dir, &d.root_dir),
        s3_uri: choose_text(args.s3_uri, explicit.has("s3_uri"), &c.s3_uri, &None),
        dataset: choose_text(args.dataset, explicit.has("dataset"), &c.dataset, &d.dataset),
        aws_bin: choose_text(args.aws_bin, explicit.has("aws_bin"), &c.aws_bin, &None),
        endpoint_url: choose_opt_text(
            clear(args.endpoint_url, explicit.has("endpoint_url"), has_c),
            explicit.has("endpoint_url"),
            &c.endpoint_url,
            &None,
        ),
        region: choose_opt_text(
            clear(args.region, explicit.has("region"), has_c),
            explicit.has("region"),
            &c.region,
            &None,
        ),
        profile_name: choose_opt_text(
            clear(args.profile_name, explicit.has("profile_name"), has_c),
            explicit.has("profile_name"),
            &c.profile_name,
            &None,
        ),
        no_sign_request: choose_value(
            args.no_sign_request,
            explicit.has("no_sign_request"),
            &c.no_sign_request,
            &None,
        ),
        signed: choose_value(args.signed, explicit.has("signed"), &c.signed, &None),
        check_extra: choose_value(
            args.check_extra,
            explicit.has("check_extra"),
            &c.check_extra,
            &None,
        ),
        workers: choose_value(args.workers, explicit.has("workers"), &c.workers, &d.workers),
        progress: choose_value(args.progress, explicit.has("progress"), &c.progress, &d.progress),
        state_flush_every: choose_value(
            args.state_flush_every,
            explicit.has("state_flush_every"),
            &c.state_flush_every,
            &d.state_flush_every,
        ),
        ..args
    }
}

/// Chooses the settings of `verify_download` under a config file.
pub fn apply_validate_download_config(args: ValidateDownloadArgs, cfg: Option<&AppConfig>, explicit: &Explicit) -> (r: ValidateDownloadArgs)
    ensures
        validate_download_chosen(
            args,
            defaults_of(cfg),
            validate_download_section(cfg),
            cfg is Some && cfg->Some_0.verify_download is Some,
            explicit@,
            r,
        ),
        r.snapshot_dir == args.snapshot_dir,
{
    let no_defaults = empty_config_defaults();
    let no_section = empty_validate_download_config();
    let d = match cfg {
        Some(cfg) => match &cfg.defaults {
            Some(d) => d,
            None => &no_defaults,
        },
        None => &no_defaults,
    };
    let c = match cfg {
        Some(cfg) => match &cfg.verify_download {
            Some(c) => c,
            None => &no_section,
        },
        None => &no_section,
    };
    let has_c = match cfg {
        Some(cfg) => cfg.verify_download.is_some(),
        None => false,
    };
    choose_validate_download(args, d, c, has_c, explicit)
}

/// What the config file says of `verify_index`.
pub open spec fn verify_index_section(cfg: Option<&AppConfig>) -> VerifyIndexConfig {
    match cfg {
        Some(cfg) => match cfg.verify_index {
            Some(c) => c,
            None => config::no_verify_index_config(),
        },
        None => config::no_verify_index_config(),
    }
}

/// `r` is the settings `a` with each one chosen among the command line, the section `c`,
/// the defaults `d` and what `a` holds.
pub open spec fn verify_index_chosen(
    a: VerifyIndexArgs,
    d: ConfigDefaults,
    c: VerifyIndexConfig,
    has_d: bool,
    has_c: bool,
    explicit: Set<Seq<char>>,
    r: VerifyIndexArgs,
) -> bool {
    &&& r.root_dir == config::chosen(
        explicit.contains("root_dir"@),
        a.root_dir,
        c.root_dir,
        d.root_dir,
    )
    &&& r.dataset == config::chosen(explicit.contains("dataset"@), a.dataset, c.dataset, d.dataset)
    &&& r.index_file == config::chosen_opt(
        explicit.contains("index_file"@),
        config::cleared(explicit.contains("index_file"@), has_c, a.index_file),
        c.index_file,
        None,
    )
    &&& r.workers == config::chosen(explicit.contains("workers"@), a.workers, c.workers, d.workers)
    &&& r.max_memory_mb == config::chosen_opt(
        explicit.contains("max_memory_mb"@),
        config::cleared(explicit.contains("max_memory_mb"@), has_d, a.max_memory_mb),
        c.max_memory_mb,
        d.max_memory_mb,
    )
    &&& r.duckdb_bin == config::chosen_opt(
        explicit.contains("duckdb_bin"@),
        a.duckdb_bin,
        c.duckdb_bin,
        d.duckdb_bin,
    )
    &&& r.progress == config::chosen(
        explicit.contains("progress"@),
        a.progress,
        c.progress,
        d.progress,
    )
    &&& r.explain == a.explain
}

fn choose_verify_index(
    args: VerifyIndexArgs,
    d: &ConfigDefaults,
    c: &VerifyIndexConfig,
    has_d: bool,
    has_c: bool,
    explicit: &Explicit,
) -> (r: VerifyIndexArgs)
    ensures
        verify_index_chosen(args, *d, *c, has_d, has_c, explicit@, r),
{
    VerifyIndexArgs {
        root_dir: choose_text(args.root_dir, explicit.has("root_dir"), &c.root_dir, &d.root_dir),
        dataset: choose_text(args.dataset, explicit.has("dataset"), &c.dataset, &d.dataset),
        index_file: choose_opt_text(
            clear(args.index_file, explicit.has("index_file"), has_c),
            explicit.has("index_file"),
            &c.index_file,
            &None,
        ),
        workers: choose_value(args.workers, explicit.has("workers"), &c.workers, &d.workers),
        max_memory_mb: choose_opt(
            clear(args.max_memory_mb, explicit.has("max_memory_mb"), has_d),
            explicit.has("max_memory_mb"),
            &c.max_memory_mb,
            &d.max_memory_mb,
        ),
        duckdb_bin: choose_opt_text(
            args.duckdb_bin,
            explicit.has("duckdb_bin"),
            &c.duckdb_bin,
            &d.duckdb_bin,
        ),
        progress: choose_value(args.progress, explicit.has("progress"), &c.progress, &d.progress),
        ..args
    }
}

/// Chooses the settings of `verify_index` under a config file.
pub fn apply_verify_index_config(args: VerifyIndexArgs, cfg: Option<&AppConfig>, explicit: &Explicit) -> (r: VerifyIndexArgs)
    ensures
        verify_index_chosen(
            args,
            defaults_of(cfg),
            verify_index_section(cfg),
            has_defaults(cfg),
            cfg is Some && cfg->Some_0.verify_index is Some,
            explicit@,
            r,
        ),
{
    let no_defaults = empty_config_defaults();
    let no_section = empty_verify_index_config();
    let d = match cfg {
        Some(cfg) => match &cfg.defaults {
            Some(d) => d,
            None => &no_defaults,
        },
        None => &no_defaults,
    };
    let c = match cfg {
        Some(cfg) => match &cfg.verify_index {
            Some(c) => c,
            None => &no_section,
        },
        None => &no_section,
    };
    let has_d = match cfg {
        Some(cfg) => cfg.defaults.is_some(),
        None => false,
    };
    let has_c = match cfg {
        Some(cfg) => cfg.verify_index.is_some(),
        None => false,
    };
    choose_verify_index(args, d, c, has_d, has_c, explicit)
}

/// What the config file says of `report`.
pub open spec fn report_section(cfg: Option<&AppConfig>) -> ReportConfig {
    match cfg {
        Some(cfg) => match cfg.report {
            Some(c) => c,
            None => config::no_report_config(),
        },
        None => config::no_report_config(),
    }
}

/// `r` is the settings `a` with each one chosen among the command line, the section `c`,
/// the defaults `d` and what `a` holds.
pub open spec fn report_chosen(
    a: ReportArgs,
    d: ConfigDefaults,
    c: ReportConfig,
    has_c: bool,
    explicit: Set<Seq<char>>,
    r: ReportArgs,
) -> bool {
    &&& r.root_dir == config::chosen(
        explicit.contains("root_dir"@),
        a.root_dir,
        c.root_dir,
        d.root_dir,
    )
    &&& r.source == config::chosen(explicit.contains("source"@), a.source, c.source, None)
    &&& r.command == config::chosen_opt(
        explicit.contains("command"@),
        config::cleared(explicit.contains("command"@), has_c, a.command),
        c.command,
        None,
    )
    &&& r.latest == config::chosen(explicit.contains("latest"@), a.latest, c.latest, None)
    &&& r.summary == config::chosen(explicit.contains("summary"@), a.summary, c.summary, None)
    &&& r.full == config::chosen(explicit.contains("full"@), a.full, c.full, None)
}

fn choose_report(
    args: ReportArgs,
    d: &ConfigDefaults,
    c: &ReportConfig,
    has_c: bool,
    explicit: &Explicit,
) -> (r: ReportArgs)
    ensures
        report_chosen(args, *d, *c, has_c, explicit@, r),
        r.snapshot_dir == args.snapshot_dir,
        r.parquet_dir == args.parquet_dir,
{
    ReportArgs {
        root_dir: choose_text(
            args.root_dir,
            explicit.has("root_dir"),
            &c.root_dir,
            &d.root_dir,
        ),
        source: choose_value(args.source, explicit.has("source"), &c.source, &None),
        command: choose_opt_text(
            clear(args.command, explicit.has("command"), has_c),
            explicit.has("command"),
            &c.command,
            &None,
        ),
        latest: choose_value(args.latest, explicit.has("latest"), &c.latest, &None),
        summary: choose_value(args.summary, explicit.has("summary"), &c.summary, &None),
        full: choose_value(args.full, explicit.has("full"), &c.full, &None),
        ..args
    }
}

/// Chooses the settings of `report` under a config file.
pub fn apply_report_config(args: ReportArgs, cfg: Option<&AppConfig>, explicit: &Explicit) -> (r: ReportArgs)
    ensures
        report_chosen(
            args,
            defaults_of(cfg),
            report_section(cfg),
            cfg is Some && cfg->Some_0.report is Some,
            explicit@,
            r,
        ),
        r.snapshot_dir == args.snapshot_dir,
        r.parquet_dir == args.parquet_dir,
{
    let no_defaults = empty_config_defaults();
    let d = match cfg {
        Some(cfg) => match &cfg.defaults {
            Some(d) => d,
            None => &no_defaults,
        },
        None => &no_defaults,
    };
    let no_section = empty_report_config();
    let c = match cfg {
        Some(cfg) => match &cfg.report {
            Some(c) => c,
            None => &no_section,
        },
        None => &no_section,
    };
    let has_c = match cfg {
        Some(cfg) => cfg.report.is_some(),
        None => false,
    };
    choose_report(args, d, c, has_c, explicit)
}

/// What the config file says of `prune_reports`.
pub open spec fn prune_reports_section(cfg: Option<&AppConfig>) -> PruneReportsConfig {
    match cfg {
        Some(cfg) => match cfg.prune_reports {
            Some(c) => c,
            None => config::no_prune_reports_config(),
        },
        None => config::no_prune_reports_config(),
    }
}

/// `r` is the settings `a` with each one chosen among the command line, the section `c`,
/// the defaults `d` and what `a` holds.
pub open spec fn prune_reports_chosen(
    a: PruneReportsArgs,
    d: ConfigDefaults,
    c: PruneReportsConfig,
    has_c: bool,
    explicit: Set<Seq<char>>,
    r: PruneReportsArgs,
) -> bool {
    &&& r.root_dir == config::chosen(
        explicit.contains("root_dir"@),
        a.root_dir,
        c.root_dir,
        d.root_dir,
    )
    &&& r.source == config::chosen(explicit.contains("source"@), a.source, c.source, None)
    &&& r.command == config::chosen_opt(
        explicit.contains("command"@),
        config::cleared(explicit.contains("command"@), has_c, a.command),
        c.command,
        None,
    )
    &&& r.keep_per_command == config::chosen(
        explicit.contains("keep_per_command"@),
        a.keep_per_command,
        c.keep_per_command,
        None,
    )
    &&& r.dry_run == config::chosen(explicit.contains("dry_run"@), a.dry_run, c.dry_run, None)
}

fn choose_prune_reports(
    args: PruneReportsArgs,
    d: &ConfigDefaults,
    c: &PruneReportsConfig,
    has_c: bool,
    explicit: &Explicit,
) -> (r: PruneReportsArgs)
    ensures
        prune_reports_chosen(args, *d, *c, has_c, explicit@, r),
        r.snapshot_dir == args.snapshot_dir,
        r.parquet_dir == args.parquet_dir,
{
    PruneReportsArgs {
        root_dir: choose_text(
            args.root_dir,
            explicit.has("root_dir"),
            &c.root_dir,
            &d.root_dir,
        ),
        source: choose_value(args.source, explicit.has("source"), &c.source, &None),
        command: choose_opt_text(
            clear(args.command, explicit.has("command"), has_c),
            explicit.has("command"),
            &c.command,
            &None,
        ),
        keep_per_command: choose_value(
            args.keep_per_command,
            explicit.has("keep_per_command"),
            &c.keep_per_command,
            &None,
        ),
        dry_run: choose_value(args.dry_run, explicit.has("dry_run"), &c.dry_run, &None),
        ..args
    }
}

/// Chooses the settings of `prune_reports` under a config file.
pub fn apply_prune_reports_config(args: PruneReportsArgs, cfg: Option<&AppConfig>, explicit: &Explicit) -> (r: PruneReportsArgs)
    ensures
        prune_reports_chosen(
            args,
            defaults_of(cfg),
            prune_reports_section(cfg),
            cfg is Some && cfg->Some_0.prune_reports is Some,
            explicit@,
            r,
        ),
        r.snapshot_dir == args.snapshot_dir,
        r.parquet_dir == args.parquet_dir,
{
    let no_defaults = empty_config_defaults();
    let d = match cfg {
        Some(cfg) => match &cfg.defaults {
            Some(d) => d,
            None => &no_defaults,
        },
        None => &no_defaults,
    };
    let no_section = empty_prune_reports_config();
    let c = match cfg {
        Some(cfg) => match &cfg.prune_reports {
            Some(c) => c,
            None => &no_section,
        },
        None => &no_section,
    };
    let has_c = match cfg {
        Some(cfg) => cfg.prune_reports.is_some(),
        None => false,
    };
    choose_prune_reports(args, d, c, has_c, explicit)
}

/// What the config file says of `progress`.
pub open spec fn progress_section(cfg: Option<&AppConfig>) -> ProgressConfig {
    match cfg {
        Some(cfg) => match cfg.progress {
            Some(c) => c,
            None => config::no_progress_config(),
        },
        None => config::no_progress_config(),
    }
}

/// `r` is the settings `a` with each one chosen among the command line, the section `c`,
/// the defaults `d` and what `a` holds.
pub open spec fn progress_chosen(
    a: ProgressArgs,
    d: ConfigDefaults,
    c: ProgressConfig,
    has_c: bool,
    explicit: Set<Seq<char>>,
    r: ProgressArgs,
) -> bool {
    &&& r.root_dir == config::chosen(
        explicit.contains("root_dir"@),
        a.root_dir,
        c.root_dir,
        d.root_dir,
    )
    &&& r.command == config::chosen_opt(
        explicit.contains("command"@),
        config::cleared(explicit.contains("command"@), has_c, a.command),
        c.command,
        None,
    )
    &&& r.dataset == config::chosen(
        explicit.contains("dataset"@),
        a.dataset,
        c.dataset,
        d.dataset,
    )
    &&& r.watch == config::chosen(explicit.contains("watch"@), a.watch, c.watch, None)
    &&& r.once == a.once
    &&& r.interval_sec == config::chosen(
        explicit.contains("interval_sec"@),
        a.interval_sec,
        c.interval_sec,
        None,
    )
    &&& r.json == config::chosen(explicit.contains("json"@), a.json, c.json, None)
}

fn choose_progress(
    args: ProgressArgs,
    d: &ConfigDefaults,
    c: &ProgressConfig,
    has_c: bool,
    explicit: &Explicit,
) -> (r: ProgressArgs)
    ensures
        progress_chosen(args, *d, *c, has_c, explicit@, r),
        r.snapshot_dir == args.snapshot_dir,
        r.parquet_dir == args.parquet_dir,
{
    ProgressArgs {
        root_dir: choose_text(
            args.root_dir,
            explicit.has("root_dir"),
            &c.root_dir,
            &d.root_dir,
        ),
        command: choose_opt_text(
            clear(args.command, explicit.has("command"), has_c),
            explicit.has("command"),
            &c.command,
            &None,
        ),
        dataset: choose_text(
            args.dataset,
            explicit.has("dataset"),
            &c.dataset,
            &d.dataset,
        ),
        watch: choose_value(args.watch, explicit.has("watch"), &c.watch, &None),
        interval_sec: choose_value(
            args.interval_sec,
            explicit.has("interval_sec"),
            &c.interval_sec,
            &None,
        ),
        json: choose_value(args.json, explicit.has("json"), &c.json, &None),
        ..args
    }
}

/// Chooses the settings of `progress` under a config file.
pub fn apply_progress_config(args: ProgressArgs, cfg: Option<&AppConfig>, explicit: &Explicit) -> (r: ProgressArgs)
    ensures
        progress_chosen(
            args,
            defaults_of(cfg),
            progress_section(cfg),
            cfg is Some && cfg->Some_0.progress is Some,
            explicit@,
            r,
        ),
        r.snapshot_dir == args.snapshot_dir,
        r.parquet_dir == args.parquet_dir,
{
    let no_defaults = empty_config_defaults();
    let d = match cfg {
        Some(cfg) => match &cfg.defaults {
            Some(d) => d,
            None => &no_defaults,
        },
        None => &no_defaults,
    };
    let no_section = empty_progress_config();
    let c = match cfg {
        Some(cfg) => match &cfg.progress {
            Some(c) => c,
            None => &no_section,
        },
        None => &no_section,
    };
    let has_c = match cfg {
        Some(cfg) => cfg.progress.is_some(),
        None => false,
    };
    choose_progress(args, d, c, has_c, explicit)
}

/// What the config file says of `check`.
pub open spec fn check_section(cfg: Option<&AppConfig>) -> CheckConfig {
    match cfg {
        Some(cfg) => match cfg.check {
            Some(c) => c,
            None => config::no_check_config(),
        },
        None => config::no_check_config(),
    }
}

/// `r` is the settings `a` with each one chosen among the command line, the section `c`,
/// the defaults `d` and what `a` holds.
pub open spec fn check_chosen(
    a: CheckArgs,
    d: ConfigDefaults,
    c: CheckConfig,
    explicit: Set<Seq<char>>,
    r: CheckArgs,
) -> bool {
    &&& r.shared.root_dir == config::chosen(
        explicit.contains("root_dir"@),
        a.shared.root_dir,
        c.root_dir,
        d.root_dir,
    )
    &&& r.shared.dataset == config::chosen(
        explicit.contains("dataset"@),
        a.shared.dataset,
        c.dataset,
        d.dataset,
    )
    &&& r.shared.workers == config::chosen(
        explicit.contains("workers"@),
        a.shared.workers,
        c.workers,
        d.workers,
    )
    &&& r.shared.duckdb_bin == config::chosen_opt(
        explicit.contains("duckdb_bin"@),
        a.shared.duckdb_bin,
        c.duckdb_bin,
        d.duckdb_bin,
    )
    &&& r.aws_bin == config::chosen(explicit.contains("aws_bin"@), a.aws_bin, c.aws_bin, None)
    &&& r.s3_uri == config::chosen(explicit.contains("s3_uri"@), a.s3_uri, c.s3_uri, None)
    &&& r.endpoint_url == config::chosen_opt(
        explicit.contains("endpoint_url"@),
        a.endpoint_url,
        c.endpoint_url,
        None,
    )
    &&& r.region == config::chosen_opt(explicit.contains("region"@), a.region, c.region, None)
    &&& r.profile_name == config::chosen_opt(
        explicit.contains("profile_name"@),
        a.profile_name,
        c.profile_name,
        None,
    )
    &&& r.no_sign_request == config::chosen(
        explicit.contains("no_sign_request"@),
        a.no_sign_request,
        c.no_sign_request,
        None,
    )
    &&& r.signed == config::chosen(explicit.contains("signed"@), a.signed, c.signed, None)
    &&& r.max_memory_mb == config::chosen_opt(
        explicit.contains("max_memory_mb"@),
        a.max_memory_mb,
        c.max_memory_mb,
        d.max_memory_mb,
    )
    &&& r.precise == config::chosen(explicit.contains("precise"@), a.precise, c.precise, None)
    &&& r.strict == config::chosen(explicit.contains("strict"@), a.strict, c.strict, None)
    &&& r.json == config::chosen(explicit.contains("json"@), a.json, c.json, None)
    &&& r.explain == a.explain
}

fn choose_check(
    args: CheckArgs,
    d: &ConfigDefaults,
    c: &CheckConfig,
    explicit: &Explicit,
) -> (r: CheckArgs)
    ensures
        check_chosen(args, *d, *c, explicit@, r),
        r.shared.snapshot_dir == args.shared.snapshot_dir,
        r.shared.parquet_dir == args.shared.parquet_dir,
{
    CheckArgs {
        shared: SharedArgs {
            root_dir: choose_text(
                args.shared.root_dir,
                explicit.has("root_dir"),
                &c.root_dir,
                &d.root_dir,
            ),
            dataset: choose_text(
                args.shared.dataset,
                explicit.has("dataset"),
                &c.dataset,
                &d.dataset,
            ),
            workers: choose_value(
                args.shared.workers,
                explicit.has("workers"),
                &c.workers,
                &d.workers,
            ),
            duckdb_bin: choose_opt_text(
                args.shared.duckdb_bin,
                explicit.has("duckdb_bin"),
                &c.duckdb_bin,
                &d.duckdb_bin,
            ),
            ..args.shared
        },
        aws_bin: choose_text(args.aws_bin, explicit.has("aws_bin"), &c.aws_bin, &None),
        s3_uri: choose_text(args.s3_uri, explicit.has("s3_uri"), &c.s3_uri, &None),
        endpoint_url: choose_opt_text(
            args.endpoint_url,
            explicit.has("endpoint_url"),
            &c.endpoint_url,
            &None,
        ),
        region: choose_opt_text(args.region, explicit.has("region"), &c.region, &None),
        profile_name: choose_opt_text(
            args.profile_name,
            explicit.has("profile_name"),
            &c.profile_name,
            &None,
        ),
        no_sign_request: choose_value(
            args.no_sign_request,
            explicit.has("no_sign_request"),
            &c.no_sign_request,
            &None,
        ),
        signed: choose_value(args.signed, explicit.has("signed"), &c.signed, &None),
        max_memory_mb: choose_opt(
            args.max_memory_mb,
            explicit.has("max_memory_mb"),
            &c.max_memory_mb,
            &d.max_memory_mb,
        ),
        precise: choose_value(args.precise, explicit.has("precise"), &c.precise, &None),
        strict: choose_value(args.strict, explicit.has("strict"), &c.strict, &None),
        json: choose_value(args.json, explicit.has("json"), &c.json, &None),
        ..args
    }
}

/// Chooses the settings of `check` under a config file.
pub fn apply_check_config(args: CheckArgs, cfg: Option<&AppConfig>, explicit: &Explicit) -> (r: CheckArgs)
    ensures
        check_chosen(
            args,
            defaults_of(cfg),
            check_section(cfg),
            explicit@,
            r,
        ),
        r.shared.snapshot_dir == args.shared.snapshot_dir,
        r.shared.parquet_dir == args.shared.parquet_dir,
{
    let no_defaults = empty_config_defaults();
    let no_section = empty_check_config();
    let d = match cfg {
        Some(cfg) => match &cfg.defaults {
            Some(d) => d,
            None => &no_defaults,
        },
        None => &no_defaults,
    };
    let c = match cfg {
        Some(cfg) => match &cfg.check {
            Some(c) => c,
            None => &no_section,
        },
        None => &no_section,
    };
    choose_check(args, d, c, explicit)
}

/// Settles what `convert` is told: chooses its settings and puts the data under the root
/// directory that was chosen.
pub fn settle_convert(args: ConvertArgs, cfg: Option<&AppConfig>, explicit: &Explicit) -> (r: ConvertArgs)
    ensures
        convert_chosen(
            args,
            defaults_of(cfg),
            convert_section(cfg),
            has_defaults(cfg),
            explicit@,
            r,
        ),
        has_dirs(r.shared),
{
    let a = apply_convert_config(args, cfg, explicit);
    let shared = fill_shared_dirs(a.shared);
    ConvertArgs { shared, ..a }
}

/// Settles what `verify_convert` is told: chooses its settings and puts the data under the root
/// directory that was chosen.
pub fn settle_verify(args: VerifyArgs, cfg: Option<&AppConfig>, explicit: &Explicit) -> (r: VerifyArgs)
    ensures
        verify_chosen(
            args,
            defaults_of(cfg),
            verify_section(cfg),
            has_defaults(cfg),
            explicit@,
            r,
        ),
        has_dirs(r.shared),
{
    let a = apply_verify_config(args, cfg, explicit);
    let shared = fill_shared_dirs(a.shared);
    VerifyArgs { shared, ..a }
}

/// Settles what `schema` is told: chooses its settings and puts the data under the root
/// directory that was chosen.
pub fn settle_schema(args: SchemaArgs, cfg: Option<&AppConfig>, explicit: &Explicit) -> (r: SchemaArgs)
    ensures
        schema_chosen(
            args,
            defaults_of(cfg),
            schema_section(cfg),
            has_defaults(cfg),
            cfg is Some && cfg->Some_0.schema is Some,
            explicit@,
            r,
        ),
        has_dirs(r.shared),
{
    let a = apply_schema_config(args, cfg, explicit);
    let shared = fill_shared_dirs(a.shared);
    SchemaArgs { shared, ..a }
}

/// Settles what `extract` is told: chooses its settings and puts the data under the root
/// directory that was chosen.
pub fn settle_extract(args: ExtractArgs, cfg: Option<&AppConfig>, explicit: &Explicit) -> (r: ExtractArgs)
    ensures
        extract_chosen(
            args,
            defaults_of(cfg),
            extract_section(cfg),
            has_defaults(cfg),
            explicit@,
            r,
        ),
        has_dirs(r.shared),
{
    let a = apply_extract_config(args, cfg, explicit);
    let shared = fill_shared_dirs(a.shared);
    ExtractArgs { shared, ..a }
}

/// Settles what `repair_convert` is told: chooses its settings and puts the data under the root
/// directory that was chosen.
pub fn settle_repair(args: RepairArgs, cfg: Option<&AppConfig>, explicit: &Explicit) -> (r: RepairArgs)
    ensures
        repair_chosen(
            args,
            defaults_of(cfg),
            repair_section(cfg),
            has_defaults(cfg),
            explicit@,
            r,
        ),
        has_dirs(r.shared),
{
    let a = apply_repair_config(args, cfg, explicit);
    let shared = fill_shared_dirs(a.shared);
    RepairArgs { shared, ..a }
}

/// Puts the directory of data under the root directory.
pub fn fill_download_dirs(args: DownloadArgs) -> (r: DownloadArgs)
    ensures
        r.snapshot_dir@ == layout::snapshot_dir_of(args.root_dir@),
        r.root_dir == args.root_dir,
        r.s3_uri == args.s3_uri,
        r.dataset == args.dataset,
        r.aws_bin == args.aws_bin,
        r.endpoint_url == args.endpoint_url,
        r.region == args.region,
        r.profile_name == args.profile_name,
        r.no_sign_request == args.no_sign_request,
        r.signed == args.signed,
        r.delete_files == args.delete_files,
        r.no_delete == args.no_delete,
        r.skip_disk_check == args.skip_disk_check,
        r.progress == args.progress,
        r.explain == args.explain,
        r.state_flush_every == args.state_flush_every,
{
    let snapshot = snapshot_dir(args.root_dir.as_str());
    DownloadArgs { snapshot_dir: snapshot, ..args }
}

/// Settles what `download` is told: chooses its settings and puts the data under the root
/// directory that was chosen.
pub fn settle_download(args: DownloadArgs, cfg: Option<&AppConfig>, explicit: &Explicit) -> (r: DownloadArgs)
    ensures
        download_chosen(
            args,
            defaults_of(cfg),
            download_section(cfg),
            cfg is Some && cfg->Some_0.download is Some,
            explicit@,
            r,
        ),
        r.snapshot_dir@ == layout::snapshot_dir_of(r.root_dir@),
{
    let a = apply_download_config(args, cfg, explicit);
    fill_download_dirs(a)
}

/// Puts the directory of data under the root directory.
pub fn fill_validate_download_dirs(args: ValidateDownloadArgs) -> (r: ValidateDownloadArgs)
    ensures
        r.snapshot_dir@ == layout::snapshot_dir_of(args.root_dir@),
        r.root_dir == args.root_dir,
        r.s3_uri == args.s3_uri,
        r.dataset == args.dataset,
        r.aws_bin == args.aws_bin,
        r.endpoint_url == args.endpoint_url,
        r.region == args.region,
        r.profile_name == args.profile_name,
        r.no_sign_request == args.no_sign_request,
        r.signed == args.signed,
        r.check_extra == args.check_extra,
        r.workers == args.workers,
        r.progress == args.progress,
        r.explain == args.explain,
        r.state_flush_every == args.state_flush_every,
{
    let snapshot = snapshot_dir(args.root_dir.as_str());
    ValidateDownloadArgs { snapshot_dir: snapshot, ..args }
}

/// Settles what `verify_download` is told: chooses its settings and puts the data under the root
/// directory that was chosen.
pub fn settle_validate_download(args: ValidateDownloadArgs, cfg: Option<&AppConfig>, explicit: &Explicit) -> (r: ValidateDownloadArgs)
    ensures
        validate_download_chosen(
            args,
            defaults_of(cfg),
            validate_download_section(cfg),
            cfg is Some && cfg->Some_0.verify_download is Some,
            explicit@,
            r,
        ),
        r.snapshot_dir@ == layout::snapshot_dir_of(r.root_dir@),
{
    let a = apply_validate_download_config(args, cfg, explicit);
    fill_validate_download_dirs(a)
}

/// Puts the directories of data under the root directory.
pub fn fill_report_dirs(args: ReportArgs) -> (r: ReportArgs)
    ensures
        r.snapshot_dir@ == layout::snapshot_dir_of(args.root_dir@),
        r.parquet_dir@ == layout::parquet_dir_of(args.root_dir@),
        r.root_dir == args.root_dir,
        r.source == args.source,
        r.command == args.command,
        r.latest == args.latest,
        r.summary == args.summary,
        r.full == args.full,
{
    let snapshot = snapshot_dir(args.root_dir.as_str());
    let parquet = parquet_dir(args.root_dir.as_str());
    ReportArgs { snapshot_dir: snapshot, parquet_dir: parquet, ..args }
}

/// Settles what `report` is told: chooses its settings and puts the data under the root
/// directory that was chosen.
pub fn settle_report(args: ReportArgs, cfg: Option<&AppConfig>, explicit: &Explicit) -> (r: ReportArgs)
    ensures
        report_chosen(
            args,
            defaults_of(cfg),
            report_section(cfg),
            cfg is Some && cfg->Some_0.report is Some,
            explicit@,
            r,
        ),
        r.snapshot_dir@ == layout::snapshot_dir_of(r.root_dir@),
        r.parquet_dir@ == layout::parquet_dir_of(r.root_dir@),
{
    let a = apply_report_config(args, cfg, explicit);
    fill_report_dirs(a)
}

/// Puts the directories of data under the root directory.
pub fn fill_prune_report_dirs(args: PruneReportsArgs) -> (r: PruneReportsArgs)
    ensures
        r.snapshot_dir@ == layout::snapshot_dir_of(args.root_dir@),
        r.parquet_dir@ == layout::parquet_dir_of(args.root_dir@),
        r.root_dir == args.root_dir,
        r.source == args.source,
        r.command == args.command,
        r.keep_per_command == args.keep_per_command,
        r.dry_run == args.dry_run,
{
    let snapshot = snapshot_dir(args.root_dir.as_str());
    let parquet = parquet_dir(args.root_dir.as_str());
    PruneReportsArgs { snapshot_dir: snapshot, parquet_dir: parquet, ..args }
}

/// Settles what `prune_reports` is told: chooses its settings and puts the data under the root
/// directory that was chosen.
pub fn settle_prune_reports(args: PruneReportsArgs, cfg: Option<&AppConfig>, explicit: &Explicit) -> (r: PruneReportsArgs)
    ensures
        prune_reports_chosen(
            args,
            defaults_of(cfg),
            prune_reports_section(cfg),
            cfg is Some && cfg->Some_0.prune_reports is Some,
            explicit@,
            r,
        ),
        r.snapshot_dir@ == layout::snapshot_dir_of(r.root_dir@),
        r.parquet_dir@ == layout::parquet_dir_of(r.root_dir@),
{
    let a = apply_prune_reports_config(args, cfg, explicit);
    fill_prune_report_dirs(a)
}

/// Puts the directories of data under the root directory.
pub fn fill_progress_dirs(args: ProgressArgs) -> (r: ProgressArgs)
    ensures
        r.snapshot_dir@ == layout::snapshot_dir_of(args.root_dir@),
        r.parquet_dir@ == layout::parquet_dir_of(args.root_dir@),
        r.root_dir == args.root_dir,
        r.command == args.command,
        r.dataset == args.dataset,
        r.watch == args.watch,
        r.once == args.once,
        r.interval_sec == args.interval_sec,
        r.json == args.json,
{
    let snapshot = snapshot_dir(args.root_dir.as_str());
    let parquet = parquet_dir(args.root_dir.as_str());
    ProgressArgs { snapshot_dir: snapshot, parquet_dir: parquet, ..args }
}

/// Settles what `progress` is told: chooses its settings and puts the data under the root
/// directory that was chosen.
pub fn settle_progress(args: ProgressArgs, cfg: Option<&AppConfig>, explicit: &Explicit) -> (r: ProgressArgs)
    ensures
        progress_chosen(
            args,
            defaults_of(cfg),
            progress_section(cfg),
            cfg is Some && cfg->Some_0.progress is Some,
            explicit@,
            r,
        ),
        r.snapshot_dir@ == layout::snapshot_dir_of(r.root_dir@),
        r.parquet_dir@ == layout::parquet_dir_of(r.root_dir@),
{
    let a = apply_progress_config(args, cfg, explicit);
    fill_progress_dirs(a)
}

/// Settles what `check` is told: chooses its settings and puts the data under the root
/// directory that was chosen.
pub fn settle_check(args: CheckArgs, cfg: Option<&AppConfig>, explicit: &Explicit) -> (r: CheckArgs)
    ensures
        check_chosen(
            args,
            defaults_of(cfg),
            check_section(cfg),
            explicit@,
            r,
        ),
        has_dirs(r.shared),
{
    let a = apply_check_config(args, cfg, explicit);
    let shared = fill_shared_dirs(a.shared);
    CheckArgs { shared, ..a }
}

/// `r` is the settings `a` with each one chosen among the command line, the defaults `d` and
/// what `a` holds: the command has no section of its own.
pub open spec fn verify_schema_chosen(
    a: VerifySchemaArgs,
    d: ConfigDefaults,
    explicit: Set<Seq<char>>,
    r: VerifySchemaArgs,
) -> bool {
    &&& r.shared.root_dir == config::chosen(
        explicit.contains("root_dir"@),
        a.shared.root_dir,
        None,
        d.root_dir,
    )
    &&& r.shared.dataset == config::chosen(
        explicit.contains("dataset"@),
        a.shared.dataset,
        None,
        d.dataset,
    )
    &&& r.shared.workers == config::chosen(
        explicit.contains("workers"@),
        a.shared.workers,
        None,
        d.workers,
    )
    &&& r.shared.duckdb_bin == config::chosen_opt(
        explicit.contains("duckdb_bin"@),
        a.shared.duckdb_bin,
        None,
        d.duckdb_bin,
    )
    &&& r.max_memory_mb == config::chosen_opt(
        explicit.contains("max_memory_mb"@),
        a.max_memory_mb,
        None,
        d.max_memory_mb,
    )
    &&& r.from == a.from
    &&& r.diff_with == a.diff_with
    &&& r.sample_size == a.sample_size
    &&& r.refresh_cache == a.refresh_cache
    &&& r.explain == a.explain
    &&& r.state_flush_every == config::chosen(
        explicit.contains("state_flush_every"@),
        a.state_flush_every,
        None,
        d.state_flush_every,
    )
}

fn choose_verify_schema(args: VerifySchemaArgs, d: &ConfigDefaults, explicit: &Explicit) -> (r:
    VerifySchemaArgs)
    ensures
        verify_schema_chosen(args, *d, explicit@, r),
{
    let shared = SharedArgs {
        root_dir: choose_text(
            args.shared.root_dir,
            explicit.has("root_dir"),
            &None,
            &d.root_dir,
        ),
        dataset: choose_text(args.shared.dataset, explicit.has("dataset"), &None, &d.dataset),
        workers: choose_value(args.shared.workers, explicit.has("workers"), &None, &d.workers),
        duckdb_bin: choose_opt_text(
            args.shared.duckdb_bin,
            explicit.has("duckdb_bin"),
            &None,
            &d.duckdb_bin,
        ),
        ..args.shared
    };
    VerifySchemaArgs {
        shared,
        max_memory_mb: choose_opt(
            args.max_memory_mb,
            explicit.has("max_memory_mb"),
            &None,
            &d.max_memory_mb,
        ),
        state_flush_every: choose_value(
            args.state_flush_every,
            explicit.has("state_flush_every"),
            &None,
            &d.state_flush_every,
        ),
        ..args
    }
}

/// Settles what `verify_schema` is told: chooses its settings and puts the data under the
/// root directory that was chosen.
pub fn settle_verify_schema(
    args: VerifySchemaArgs,
    cfg: Option<&AppConfig>,
    explicit: &Explicit,
) -> (r: VerifySchemaArgs)
    ensures
        verify_schema_chosen(args, defaults_of(cfg), explicit@, r),
        has_dirs(r.shared),
{
    let no_defaults = empty_config_defaults();
    let d = match cfg {
        Some(cfg) => match &cfg.defaults {
            Some(d) => d,
            None => &no_defaults,
        },
        None => &no_defaults,
    };
    let a = choose_verify_schema(args, d, explicit);
    let shared = fill_shared_dirs(a.shared);
    VerifySchemaArgs { shared, ..a }
}

/// The options that count as set on the command line when the pipeline runs a step: what
/// is set there for the whole pipeline.
pub open spec fn step_options(root_set: bool, skip_disk_check: bool) -> Set<Seq<char>> {
    let root = if root_set {
        Set::<Seq<char>>::empty().insert("root_dir"@)
    } else {
        Set::<Seq<char>>::empty()
    };
    if skip_disk_check {
        root.insert("skip_disk_check"@)
    } else {
        root
    }
}

fn step_explicit(root_set: bool, skip_disk_check: bool) -> (r: Explicit)
    ensures
        r@ == step_options(root_set, skip_disk_check),
{
    let mut r = Explicit::new();
    if root_set {
        r.insert("root_dir");
    }
    if skip_disk_check {
        r.insert("skip_disk_check");
    }
    r
}

/// What is built in of the shared settings.
pub open spec fn shared_built_in(s: SharedArgs, root: Seq<char>) -> bool {
    &&& s.root_dir@ == root
    &&& s.dataset@ == "all"@
    &&& s.workers == 0
    &&& s.duckdb_bin is None
}

fn built_in_shared(root_dir: &str) -> (r: SharedArgs)
    ensures
        shared_built_in(r, root_dir@),
{
    SharedArgs {
        root_dir: root_dir.to_owned(),
        snapshot_dir: String::new(),
        parquet_dir: String::new(),
        dataset: "all".to_owned(),
        workers: 0,
        duckdb_bin: None,
    }
}

/// What `download` is told where the pipeline runs it and no config file says otherwise.
pub open spec fn download_built_in(a: DownloadArgs, root: Seq<char>, skip_disk_check: bool) -> bool {
    &&& a.root_dir@ == root
    &&& a.s3_uri@ == "s3://openalex"@
    &&& a.dataset@ == "all"@
    &&& a.aws_bin@ == "aws"@
    &&& a.endpoint_url is None
    &&& a.region is None
    &&& a.profile_name is None
    &&& a.no_sign_request
    &&& !a.signed
    &&& a.delete_files
    &&& !a.no_delete
    &&& a.skip_disk_check == skip_disk_check
    &&& a.progress
    &&& !a.explain
    &&& a.state_flush_every == 25
}

/// `r` is what `download` is told as a step of the pipeline under a config file. An asked-for
/// `skip_disk_check` holds whatever the file says.
pub open spec fn download_step_of(
    b: DownloadArgs,
    root: Seq<char>,
    root_set: bool,
    skip_disk_check: bool,
    cfg: &AppConfig,
    r: DownloadArgs,
) -> bool {
    &&& download_built_in(b, root, skip_disk_check)
    &&& download_chosen(
        b,
        defaults_of(Some(cfg)),
        download_section(Some(cfg)),
        cfg.download is Some,
        step_options(root_set, skip_disk_check),
        r,
    )
}

/// What `download` is told as a step of the pipeline.
pub fn download_step(
    root_dir: &str,
    root_set: bool,
    skip_disk_check: bool,
    cfg: &AppConfig,
) -> (r: DownloadArgs)
    ensures
        exists|b: DownloadArgs|
            download_step_of(b, root_dir@, root_set, skip_disk_check, cfg, r),
        r.snapshot_dir@ == layout::snapshot_dir_of(r.root_dir@),
{
    let args = DownloadArgs {
        root_dir: root_dir.to_owned(),
        snapshot_dir: String::new(),
        s3_uri: "s3://openalex".to_owned(),
        dataset: "all".to_owned(),
        aws_bin: "aws".to_owned(),
        endpoint_url: None,
        region: None,
        profile_name: None,
        no_sign_request: true,
        signed: false,
        delete_files: true,
        no_delete: false,
        skip_disk_check,
        progress: true,
        explain: false,
        state_flush_every: 25,
    };
    let ghost b = args;
    let explicit = step_explicit(root_set, skip_disk_check);
    let r = settle_download(args, Some(cfg), &explicit);
    assert(download_step_of(b, root_dir@, root_set, skip_disk_check, cfg, r));
    r
}

/// What `verify_download` is told where the pipeline runs it and no config file says otherwise.
pub open spec fn validate_download_built_in(a: ValidateDownloadArgs, root: Seq<char>) -> bool {
    &&& a.root_dir@ == root
    &&& a.s3_uri@ == "s3://openalex"@
    &&& a.dataset@ == "all"@
    &&& a.aws_bin@ == "aws"@
    &&& a.endpoint_url is None
    &&& a.region is None
    &&& a.profile_name is None
    &&& a.no_sign_request
    &&& !a.signed
    &&& a.check_extra
    &&& a.workers == 0
    &&& a.progress
    &&& !a.explain
    &&& a.state_flush_every == 25
}

/// `r` is what `verify_download` is told as a step of the pipeline under a config file.
pub open spec fn validate_download_step_of(
    b: ValidateDownloadArgs,
    root: Seq<char>,
    root_set: bool,
    cfg: &AppConfig,
    r: ValidateDownloadArgs,
) -> bool {
    &&& validate_download_built_in(b, root)
    &&& validate_download_chosen(
        b,
        defaults_of(Some(cfg)),
        validate_download_section(Some(cfg)),
        cfg.verify_download is Some,
        step_options(root_set, false),
        r,
    )
}

/// What `verify_download` is told as a step of the pipeline.
pub fn validate_download_step(
    root_dir: &str,
    root_set: bool,
    cfg: &AppConfig,
) -> (r: ValidateDownloadArgs)
    ensures
        exists|b: ValidateDownloadArgs|
            validate_download_step_of(b, root_dir@, root_set, cfg, r),
        r.snapshot_dir@ == layout::snapshot_dir_of(r.root_dir@),
{
    let args = ValidateDownloadArgs {
        root_dir: root_dir.to_owned(),
        snapshot_dir: String::new(),
        s3_uri: "s3://openalex".to_owned(),
        dataset: "all".to_owned(),
        aws_bin: "aws".to_owned(),
        endpoint_url: None,
        region: None,
        profile_name: None,
        no_sign_request: true,
        signed: false,
        check_extra: true,
        workers: 0,
        progress: true,
        explain: false,
        state_flush_every: 25,
    };
    let ghost b = args;
    let explicit = step_explicit(root_set, false);
    let r = settle_validate_download(args, Some(cfg), &explicit);
    assert(validate_download_step_of(b, root_dir@, root_set, cfg, r));
    r
}

/// What `convert` is told where the pipeline runs it and no config file says otherwise.
pub open spec fn convert_built_in(a: ConvertArgs, root: Seq<char>, skip_disk_check: bool) -> bool {
    &&& shared_built_in(a.shared, root)
    &&& a.profile@ == "safe"@
    &&& a.max_memory_mb is None
    &&& a.row_group_rows == 100_000
    &&& a.batch_rows == 5_000
    &&& a.compression@ == "snappy"@
    &&& a.sample_size == 100
    &&& a.input_files@ == Seq::<String>::empty()
    &&& a.progress
    &&& a.seed == 42
    &&& a.skip_disk_check == skip_disk_check
    &&& a.disk_check_scope == DiskCheckScope::Dataset
    &&& a.split_size@ == "0"@
    &&& a.split_temp_dir is None
    &&& !a.refresh_cache
    &&& !a.explain
    &&& a.state_flush_every == 25
}

/// `r` is what `convert` is told as a step of the pipeline under a config file. An asked-for
/// `skip_disk_check` holds whatever the file says.
pub open spec fn convert_step_of(
    b: ConvertArgs,
    root: Seq<char>,
    root_set: bool,
    skip_disk_check: bool,
    cfg: &AppConfig,
    r: ConvertArgs,
) -> bool {
    &&& convert_built_in(b, root, skip_disk_check)
    &&& convert_chosen(
        b,
        defaults_of(Some(cfg)),
        convert_section(Some(cfg)),
        cfg.defaults is Some,
        step_options(root_set, skip_disk_check),
        r,
    )
}

/// What `convert` is told as a step of the pipeline.
pub fn convert_step(
    root_dir: &str,
    root_set: bool,
    skip_disk_check: bool,
    cfg: &AppConfig,
) -> (r: ConvertArgs)
    ensures
        exists|b: ConvertArgs|
            convert_step_of(b, root_dir@, root_set, skip_disk_check, cfg, r),
        has_dirs(r.shared),
{
    let args = ConvertArgs {
        shared: built_in_shared(root_dir),
        profile: "safe".to_owned(),
        max_memory_mb: None,
        row_group_rows: 100_000,
        batch_rows: 5_000,
        compression: "snappy".to_owned(),
        sample_size: 100,
        input_files: Vec::new(),
        progress: true,
        seed: 42,
        skip_disk_check,
        disk_check_scope: DiskCheckScope::Dataset,
        split_size: "0".to_owned(),
        split_temp_dir: None,
        refresh_cache: false,
        explain: false,
        state_flush_every: 25,
    };
    let ghost b = args;
    let explicit = step_explicit(root_set, skip_disk_check);
    let r = settle_convert(args, Some(cfg), &explicit);
    assert(convert_step_of(b, root_dir@, root_set, skip_disk_check, cfg, r));
    r
}

/// What `verify_convert` is told where the pipeline runs it and no config file says otherwise.
pub open spec fn verify_built_in(a: VerifyArgs, root: Seq<char>) -> bool {
    &&& shared_built_in(a.shared, root)
    &&& a.max_memory_mb is None
    &&& a.scope == VerifyScope::Snapshot
    &&& a.metadata_level == VerifyMetadataLevel::Both
    &&& a.file_sample_n == 50
    &&& a.seed == 42
    &&& a.progress
    &&& !a.explain
    &&& a.state_flush_every == 25
}

/// `r` is what `verify_convert` is told as a step of the pipeline under a config file.
pub open spec fn verify_step_of(
    b: VerifyArgs,
    root: Seq<char>,
    root_set: bool,
    cfg: &AppConfig,
    r: VerifyArgs,
) -> bool {
    &&& verify_built_in(b, root)
    &&& verify_chosen(
        b,
        defaults_of(Some(cfg)),
        verify_section(Some(cfg)),
        cfg.defaults is Some,
        step_options(root_set, false),
        r,
    )
}

/// What `verify_convert` is told as a step of the pipeline.
pub fn verify_step(
    root_dir: &str,
    root_set: bool,
    cfg: &AppConfig,
) -> (r: VerifyArgs)
    ensures
        exists|b: VerifyArgs|
            verify_step_of(b, root_dir@, root_set, cfg, r),
        has_dirs(r.shared),
{
    let args = VerifyArgs {
        shared: built_in_shared(root_dir),
        max_memory_mb: None,
        scope: VerifyScope::Snapshot,
        metadata_level: VerifyMetadataLevel::Both,
        file_sample_n: 50,
        seed: 42,
        progress: true,
        explain: false,
        state_flush_every: 25,
    };
    let ghost b = args;
    let explicit = step_explicit(root_set, false);
    let r = settle_verify(args, Some(cfg), &explicit);
    assert(verify_step_of(b, root_dir@, root_set, cfg, r));
    r
}

/// What `repair_convert` is told where the pipeline runs it and no config file says otherwise.
pub open spec fn repair_built_in(a: RepairArgs, root: Seq<char>, report_path: Seq<char>) -> bool {
    &&& shared_built_in(a.shared, root)
    &&& a.from_verify_report is Some && a.from_verify_report->Some_0@ == report_path
    &&& a.profile@ == "safe"@
    &&& a.max_memory_mb is None
    &&& a.progress
    &&& !a.explain
    &&& a.state_flush_every == 25
}

/// `r` is what `repair_convert` is told as a step of the pipeline under a config file. The report that
/// the step starts from is the given one, whatever the file says.
pub open spec fn repair_step_of(
    b: RepairArgs,
    root: Seq<char>,
    root_set: bool,
    report_path: Seq<char>,
    cfg: &AppConfig,
    r: RepairArgs,
) -> bool {
    &&& repair_built_in(b, root, report_path)
    &&& repair_chosen(
        b,
        defaults_of(Some(cfg)),
        repair_section(Some(cfg)),
        cfg.defaults is Some,
        step_options(root_set, false).insert("from_verify_report"@),
        r,
    )
}

/// What `repair_convert` is told as a step of the pipeline.
pub fn repair_step(
    root_dir: &str,
    root_set: bool,
    report_path: &str,
    cfg: &AppConfig,
) -> (r: RepairArgs)
    ensures
        exists|b: RepairArgs|
            repair_step_of(b, root_dir@, root_set, report_path@, cfg, r),
        has_dirs(r.shared),
{
    let args = RepairArgs {
        shared: built_in_shared(root_dir),
        from_verify_report: Some(report_path.to_owned()),
        profile: "safe".to_owned(),
        max_memory_mb: None,
        progress: true,
        explain: false,
        state_flush_every: 25,
    };
    let ghost b = args;
    let mut explicit = step_explicit(root_set, false);
    explicit.insert("from_verify_report");
    let r = settle_repair(args, Some(cfg), &explicit);
    assert(repair_step_of(b, root_dir@, root_set, report_path@, cfg, r));
    r
}

/// What `index` is told where the pipeline runs it and no config file says otherwise.
pub open spec fn index_built_in(a: IndexArgs, root: Seq<char>) -> bool {
    &&& a.root_dir@ == root
    &&& a.dataset@ == "all"@
    &&& a.index_file is None
    &&& a.workers == 0
    &&& a.max_memory_mb is None
    &&& a.duckdb_bin is None
    &&& a.progress
    &&& !a.overwrite
    &&& !a.explain
    &&& a.state_flush_every == 25
}

/// `r` is what `index` is told as a step of the pipeline under a config file.
pub open spec fn index_step_of(
    b: IndexArgs,
    root: Seq<char>,
    root_set: bool,
    cfg: &AppConfig,
    r: IndexArgs,
) -> bool {
    &&& index_built_in(b, root)
    &&& index_chosen(
        b,
        defaults_of(Some(cfg)),
        index_section(Some(cfg)),
        cfg.defaults is Some,
        cfg.index is Some,
        step_options(root_set, false),
        r,
    )
}

/// What `index` is told as a step of the pipeline.
pub fn index_step(
    root_dir: &str,
    root_set: bool,
    cfg: &AppConfig,
) -> (r: IndexArgs)
    ensures
        exists|b: IndexArgs|
            index_step_of(b, root_dir@, root_set, cfg, r),
{
    let args = IndexArgs {
        root_dir: root_dir.to_owned(),
        dataset: "all".to_owned(),
        index_file: None,
        workers: 0,
        max_memory_mb: None,
        duckdb_bin: None,
        progress: true,
        overwrite: false,
        explain: false,
        state_flush_every: 25,
    };
    let ghost b = args;
    let explicit = step_explicit(root_set, false);
    let r = apply_index_config(args, Some(cfg), &explicit);
    assert(index_step_of(b, root_dir@, root_set, cfg, r));
    r
}

/// What `verify_index` is told where the pipeline runs it and no config file says otherwise.
pub open spec fn verify_index_built_in(a: VerifyIndexArgs, root: Seq<char>) -> bool {
    &&& a.root_dir@ == root
    &&& a.dataset@ == "all"@
    &&& a.index_file is None
    &&& a.workers == 0
    &&& a.max_memory_mb is None
    &&& a.duckdb_bin is None
    &&& a.progress
    &&& !a.explain
}

/// `r` is what `verify_index` is told as a step of the pipeline under a config file.
pub open spec fn verify_index_step_of(
    b: VerifyIndexArgs,
    root: Seq<char>,
    root_set: bool,
    cfg: &AppConfig,
    r: VerifyIndexArgs,
) -> bool {
    &&& verify_index_built_in(b, root)
    &&& verify_index_chosen(
        b,
        defaults_of(Some(cfg)),
        verify_index_section(Some(cfg)),
        cfg.defaults is Some,
        cfg.verify_index is Some,
        step_options(root_set, false),
        r,
    )
}

/// What `verify_index` is told as a step of the pipeline.
pub fn verify_index_step(
    root_dir: &str,
    root_set: bool,
    cfg: &AppConfig,
) -> (r: VerifyIndexArgs)
    ensures
        exists|b: VerifyIndexArgs|
            verify_index_step_of(b, root_dir@, root_set, cfg, r),
{
    let args = VerifyIndexArgs {
        root_dir: root_dir.to_owned(),
        dataset: "all".to_owned(),
        index_file: None,
        workers: 0,
        max_memory_mb: None,
        duckdb_bin: None,
        progress: true,
        explain: false,
    };
    let ghost b = args;
    let explicit = step_explicit(root_set, false);
    let r = apply_verify_index_config(args, Some(cfg), &explicit);
    assert(verify_index_step_of(b, root_dir@, root_set, cfg, r));
    r
}

/// The root directory of a command that has no section of its own.
pub fn settle_root(root_dir: String, cfg: Option<&AppConfig>, explicit: &Explicit) -> (r: String)
    ensures
        r == config::chosen(
            explicit@.contains("root_dir"@),
            root_dir,
            None,
            defaults_of(cfg).root_dir,
        ),
{
    match cfg {
        Some(cfg) => match &cfg.defaults {
            Some(d) => choose_text(root_dir, explicit.has("root_dir"), &None, &d.root_dir),
            None => root_dir,
        },
        None => root_dir,
    }
}

/// A step of the pipeline that is to skip the disk check does so whatever the config
/// file says.
pub proof fn law_asked_skip_holds(
    b: ConvertArgs,
    c: DownloadArgs,
    root: Seq<char>,
    root_set: bool,
    cfg: &AppConfig,
    r: ConvertArgs,
    s: DownloadArgs,
)
    requires
        convert_step_of(b, root, root_set, true, cfg, r),
        download_step_of(c, root, root_set, true, cfg, s),
    ensures
        r.skip_disk_check,
        s.skip_disk_check,
{
}

/// A repair step of the pipeline starts from the report that it was given.
pub proof fn law_repair_starts_from_the_given_report(
    b: RepairArgs,
    root: Seq<char>,
    root_set: bool,
    report_path: Seq<char>,
    cfg: &AppConfig,
    r: RepairArgs,
)
    requires
        repair_step_of(b, root, root_set, report_path, cfg, r),
    ensures
        r.from_verify_report is Some,
        r.from_verify_report->Some_0@ == report_path,
{
}

/// A root directory that is set on the command line holds for every step of the
/// pipeline, whatever the config file says.
pub proof fn law_set_root_holds_for_every_step(
    root: Seq<char>,
    skip_disk_check: bool,
    report_path: Seq<char>,
    cfg: &AppConfig,
)
    ensures
        forall|b: DownloadArgs, r: DownloadArgs| #[trigger]
            download_step_of(b, root, true, skip_disk_check, cfg, r) ==> r.root_dir@ == root,
        forall|b: ValidateDownloadArgs, r: ValidateDownloadArgs| #[trigger]
            validate_download_step_of(b, root, true, cfg, r) ==> r.root_dir@ == root,
        forall|b: ConvertArgs, r: ConvertArgs| #[trigger]
            convert_step_of(b, root, true, skip_disk_check, cfg, r) ==> r.shared.root_dir@ == root,
        forall|b: VerifyArgs, r: VerifyArgs| #[trigger]
            verify_step_of(b, root, true, cfg, r) ==> r.shared.root_dir@ == root,
        forall|b: RepairArgs, r: RepairArgs| #[trigger]
            repair_step_of(b, root, true, report_path, cfg, r) ==> r.shared.root_dir@ == root,
        forall|b: IndexArgs, r: IndexArgs| #[trigger]
            index_step_of(b, root, true, cfg, r) ==> r.root_dir@ == root,
        forall|b: VerifyIndexArgs, r: VerifyIndexArgs| #[trigger]
            verify_index_step_of(b, root, true, cfg, r) ==> r.root_dir@ == root,
{
}

/// Each setting of a conversion is the one that was set on the command line;
/// where it was not, that of its section in the file, then that of the defaults there,
/// then the built-in one.
pub proof fn law_settings_of_convert(
    a: ConvertArgs,
    d: ConfigDefaults,
    c: ConvertConfig,
    has_d: bool,
    explicit: Set<Seq<char>>,
    r: ConvertArgs,
)
    requires
        convert_chosen(a, d, c, has_d, explicit, r),
    ensures
        explicit.contains("root_dir"@) ==> r.shared.root_dir == a.shared.root_dir,
        !explicit.contains("root_dir"@) && c.root_dir is Some
            ==> c.root_dir == Some(r.shared.root_dir),
        !explicit.contains("root_dir"@) && c.root_dir is None && d.root_dir is Some
            ==> d.root_dir == Some(r.shared.root_dir),
        !explicit.contains("root_dir"@) && c.root_dir is None && d.root_dir is None
            ==> r.shared.root_dir == a.shared.root_dir,
        explicit.contains("dataset"@) ==> r.shared.dataset == a.shared.dataset,
        !explicit.contains("dataset"@) && c.dataset is Some ==> c.dataset == Some(r.shared.dataset),
        !explicit.contains("dataset"@) && c.dataset is None && d.dataset is Some
            ==> d.dataset == Some(r.shared.dataset),
        !explicit.contains("dataset"@) && c.dataset is None && d.dataset is None
            ==> r.shared.dataset == a.shared.dataset,
        explicit.contains("workers"@) ==> r.shared.workers == a.shared.workers,
        !explicit.contains("workers"@) && c.workers is Some ==> c.workers == Some(r.shared.workers),
        !explicit.contains("workers"@) && c.workers is None && d.workers is Some
            ==> d.workers == Some(r.shared.workers),
        !explicit.contains("workers"@) && c.workers is None && d.workers is None
            ==> r.shared.workers == a.shared.workers,
        explicit.contains("duckdb_bin"@) ==> r.shared.duckdb_bin == a.shared.duckdb_bin,
        !explicit.contains("duckdb_bin"@) && c.duckdb_bin is Some
            ==> c.duckdb_bin == r.shared.duckdb_bin,
        !explicit.contains("duckdb_bin"@) && c.duckdb_bin is None && d.duckdb_bin is Some
            ==> d.duckdb_bin == r.shared.duckdb_bin,
        !explicit.contains("duckdb_bin"@) && c.duckdb_bin is None && d.duckdb_bin is None
            ==> r.shared.duckdb_bin == a.shared.duckdb_bin,
        explicit.contains("profile"@) ==> r.profile == a.profile,
        !explicit.contains("profile"@) && c.profile is Some ==> c.profile == Some(r.profile),
        !explicit.contains("profile"@) && c.profile is None && d.profile is Some
            ==> d.profile == Some(r.profile),
        !explicit.contains("profile"@) && c.profile is None && d.profile is None
            ==> r.profile == a.profile,
        explicit.contains("max_memory_mb"@) ==> r.max_memory_mb == a.max_memory_mb,
        !explicit.contains("max_memory_mb"@) && c.max_memory_mb is Some
            ==> c.max_memory_mb == r.max_memory_mb,
        !explicit.contains("max_memory_mb"@) && c.max_memory_mb is None && d.max_memory_mb is Some
            ==> d.max_memory_mb == r.max_memory_mb,
        !explicit.contains("max_memory_mb"@) && c.max_memory_mb is None && d.max_memory_mb is None
            && has_d ==> r.max_memory_mb is None,
        !explicit.contains("max_memory_mb"@) && c.max_memory_mb is None && d.max_memory_mb is None
            && !has_d ==> r.max_memory_mb == a.max_memory_mb,
        explicit.contains("row_group_rows"@) ==> r.row_group_rows == a.row_group_rows,
        !explicit.contains("row_group_rows"@) && c.row_group_rows is Some
            ==> c.row_group_rows == Some(r.row_group_rows),
        !explicit.contains("row_group_rows"@) && c.row_group_rows is None
            ==> r.row_group_rows == a.row_group_rows,
        explicit.contains("batch_rows"@) ==> r.batch_rows == a.batch_rows,
        !explicit.contains("batch_rows"@) && c.batch_rows is Some
            ==> c.batch_rows == Some(r.batch_rows),
        !explicit.contains("batch_rows"@) && c.batch_rows is None ==> r.batch_rows == a.batch_rows,
        explicit.contains("compression"@) ==> r.compression == a.compression,
        !explicit.contains("compression"@) && c.compression is Some
            ==> c.compression == Some(r.compression),
        !explicit.contains("compression"@) && c.compression is None
            ==> r.compression == a.compression,
        explicit.contains("sample_size"@) ==> r.sample_size == a.sample_size,
        !explicit.contains("sample_size"@) && c.sample_size is Some
            ==> c.sample_size == Some(r.sample_size),
        !explicit.contains("sample_size"@) && c.sample_size is None
            ==> r.sample_size == a.sample_size,
        r.input_files == a.input_files,
        explicit.contains("progress"@) ==> r.progress == a.progress,
        !explicit.contains("progress"@) && c.progress is Some ==> c.progress == Some(r.progress),
        !explicit.contains("progress"@) && c.progress is None && d.progress is Some
            ==> d.progress == Some(r.progress),
        !explicit.contains("progress"@) && c.progress is None && d.progress is None
            ==> r.progress == a.progress,
        explicit.contains("seed"@) ==> r.seed == a.seed,
        !explicit.contains("seed"@) && c.seed is Some ==> c.seed == Some(r.seed),
        !explicit.contains("seed"@) && c.seed is None ==> r.seed == a.seed,
        explicit.contains("skip_disk_check"@) ==> r.skip_disk_check == a.skip_disk_check,
        !explicit.contains("skip_disk_check"@) && c.skip_disk_check is Some
            ==> c.skip_disk_check == Some(r.skip_disk_check),
        !explicit.contains("skip_disk_check"@) && c.skip_disk_check is None
            ==> r.skip_disk_check == a.skip_disk_check,
        r.disk_check_scope == a.disk_check_scope,
        explicit.contains("split_size"@) ==> r.split_size == a.split_size,
        !explicit.contains("split_size"@) && c.split_size is Some
            ==> c.split_size == Some(r.split_size),
        !explicit.contains("split_size"@) && c.split_size is None ==> r.split_size == a.split_size,
        explicit.contains("split_temp_dir"@) ==> r.split_temp_dir == a.split_temp_dir,
        !explicit.contains("split_temp_dir"@) && c.split_temp_dir is Some
            ==> c.split_temp_dir == r.split_temp_dir,
        !explicit.contains("split_temp_dir"@) && c.split_temp_dir is None
            ==> r.split_temp_dir == a.split_temp_dir,
        explicit.contains("refresh_cache"@) ==> r.refresh_cache == a.refresh_cache,
        !explicit.contains("refresh_cache"@) && c.refresh_cache is Some
            ==> c.refresh_cache == Some(r.refresh_cache),
        !explicit.contains("refresh_cache"@) && c.refresh_cache is None
            ==> r.refresh_cache == a.refresh_cache,
        r.explain == a.explain,
        explicit.contains("state_flush_every"@) ==> r.state_flush_every == a.state_flush_every,
        !explicit.contains("state_flush_every"@) && c.state_flush_every is Some
            ==> c.state_flush_every == Some(r.state_flush_every),
        !explicit.contains("state_flush_every"@) && c.state_flush_every is None
            && d.state_flush_every is Some ==> d.state_flush_every == Some(r.state_flush_every),
        !explicit.contains("state_flush_every"@) && c.state_flush_every is None
            && d.state_flush_every is None ==> r.state_flush_every == a.state_flush_every,
{
}

/// Each setting of the verification of a conversion is the one that was set on the command line;
/// where it was not, that of its section in the file, then that of the defaults there,
/// then the built-in one.
pub proof fn law_settings_of_verify(
    a: VerifyArgs,
    d: ConfigDefaults,
    c: VerifyConfig,
    has_d: bool,
    explicit: Set<Seq<char>>,
    r: VerifyArgs,
)
    requires
        verify_chosen(a, d, c, has_d, explicit, r),
    ensures
        explicit.contains("root_dir"@) ==> r.shared.root_dir == a.shared.root_dir,
        !explicit.contains("root_dir"@) && c.root_dir is Some
            ==> c.root_dir == Some(r.shared.root_dir),
        !explicit.contains("root_dir"@) && c.root_dir is None && d.root_dir is Some
            ==> d.root_dir == Some(r.shared.root_dir),
        !explicit.contains("root_dir"@) && c.root_dir is None && d.root_dir is None
            ==> r.shared.root_dir == a.shared.root_dir,
        explicit.contains("dataset"@) ==> r.shared.dataset == a.shared.dataset,
        !explicit.contains("dataset"@) && c.dataset is Some ==> c.dataset == Some(r.shared.dataset),
        !explicit.contains("dataset"@) && c.dataset is None && d.dataset is Some
            ==> d.dataset == Some(r.shared.dataset),
        !explicit.contains("dataset"@) && c.dataset is None && d.dataset is None
            ==> r.shared.dataset == a.shared.dataset,
        explicit.contains("workers"@) ==> r.shared.workers == a.shared.workers,
        !explicit.contains("workers"@) && c.workers is Some ==> c.workers == Some(r.shared.workers),
        !explicit.contains("workers"@) && c.workers is None && d.workers is Some
            ==> d.workers == Some(r.shared.workers),
        !explicit.contains("workers"@) && c.workers is None && d.workers is None
            ==> r.shared.workers == a.shared.workers,
        explicit.contains("duckdb_bin"@) ==> r.shared.duckdb_bin == a.shared.duckdb_bin,
        !explicit.contains("duckdb_bin"@) && c.duckdb_bin is Some
            ==> c.duckdb_bin == r.shared.duckdb_bin,
        !explicit.contains("duckdb_bin"@) && c.duckdb_bin is None && d.duckdb_bin is Some
            ==> d.duckdb_bin == r.shared.duckdb_bin,
        !explicit.contains("duckdb_bin"@) && c.duckdb_bin is None && d.duckdb_bin is None
            ==> r.shared.duckdb_bin == a.shared.duckdb_bin,
        explicit.contains("max_memory_mb"@) ==> r.max_memory_mb == a.max_memory_mb,
        !explicit.contains("max_memory_mb"@) && c.max_memory_mb is Some
            ==> c.max_memory_mb == r.max_memory_mb,
        !explicit.contains("max_memory_mb"@) && c.max_memory_mb is None && d.max_memory_mb is Some
            ==> d.max_memory_mb == r.max_memory_mb,
        !explicit.contains("max_memory_mb"@) && c.max_memory_mb is None && d.max_memory_mb is None
            && has_d ==> r.max_memory_mb is None,
        !explicit.contains("max_memory_mb"@) && c.max_memory_mb is None && d.max_memory_mb is None
            && !has_d ==> r.max_memory_mb == a.max_memory_mb,
        explicit.contains("scope"@) ==> r.scope == a.scope,
        !explicit.contains("scope"@) && c.scope is Some ==> c.scope == Some(r.scope),
        !explicit.contains("scope"@) && c.scope is None ==> r.scope == a.scope,
        explicit.contains("metadata_level"@) ==> r.metadata_level == a.metadata_level,
        !explicit.contains("metadata_level"@) && c.metadata_level is Some
            ==> c.metadata_level == Some(r.metadata_level),
        !explicit.contains("metadata_level"@) && c.metadata_level is None
            ==> r.metadata_level == a.metadata_level,
        explicit.contains("file_sample_n"@) ==> r.file_sample_n == a.file_sample_n,
        !explicit.contains("file_sample_n"@) && c.file_sample_n is Some
            ==> c.file_sample_n == Some(r.file_sample_n),
        !explicit.contains("file_sample_n"@) && c.file_sample_n is None
            ==> r.file_sample_n == a.file_sample_n,
        explicit.contains("seed"@) ==> r.seed == a.seed,
        !explicit.contains("seed"@) && c.seed is Some ==> c.seed == Some(r.seed),
        !explicit.contains("seed"@) && c.seed is None ==> r.seed == a.seed,
        explicit.contains("progress"@) ==> r.progress == a.progress,
        !explicit.contains("progress"@) && c.progress is Some ==> c.progress == Some(r.progress),
        !explicit.contains("progress"@) && c.progress is None && d.progress is Some
            ==> d.progress == Some(r.progress),
        !explicit.contains("progress"@) && c.progress is None && d.progress is None
            ==> r.progress == a.progress,
        r.explain == a.explain,
        explicit.contains("state_flush_every"@) ==> r.state_flush_every == a.state_flush_every,
        !explicit.contains("state_flush_every"@) && c.state_flush_every is Some
            ==> c.state_flush_every == Some(r.state_flush_every),
        !explicit.contains("state_flush_every"@) && c.state_flush_every is None
            && d.state_flush_every is Some ==> d.state_flush_every == Some(r.state_flush_every),
        !explicit.contains("state_flush_every"@) && c.state_flush_every is None
            && d.state_flush_every is None ==> r.state_flush_every == a.state_flush_every,
{
}

/// Each setting of what is shown of schemas is the one that was set on the command line;
/// where it was not, that of its section in the file, then that of the defaults there,
/// then the built-in one.
pub proof fn law_settings_of_schema(
    a: SchemaArgs,
    d: ConfigDefaults,
    c: SchemaConfig,
    has_d: bool,
    has_c: bool,
    explicit: Set<Seq<char>>,
    r: SchemaArgs,
)
    requires
        schema_chosen(a, d, c, has_d, has_c, explicit, r),
    ensures
        explicit.contains("root_dir"@) ==> r.shared.root_dir == a.shared.root_dir,
        !explicit.contains("root_dir"@) && c.root_dir is Some
            ==> c.root_dir == Some(r.shared.root_dir),
        !explicit.contains("root_dir"@) && c.root_dir is None && d.root_dir is Some
            ==> d.root_dir == Some(r.shared.root_dir),
        !explicit.contains("root_dir"@) && c.root_dir is None && d.root_dir is None
            ==> r.shared.root_dir == a.shared.root_dir,
        explicit.contains("dataset"@) ==> r.shared.dataset == a.shared.dataset,
        !explicit.contains("dataset"@) && c.dataset is Some ==> c.dataset == Some(r.shared.dataset),
        !explicit.contains("dataset"@) && c.dataset is None && d.dataset is Some
            ==> d.dataset == Some(r.shared.dataset),
        !explicit.contains("dataset"@) && c.dataset is None && d.dataset is None
            ==> r.shared.dataset == a.shared.dataset,
        explicit.contains("workers"@) ==> r.shared.workers == a.shared.workers,
        !explicit.contains("workers"@) && c.workers is Some ==> c.workers == Some(r.shared.workers),
        !explicit.contains("workers"@) && c.workers is None && d.workers is Some
            ==> d.workers == Some(r.shared.workers),
        !explicit.contains("workers"@) && c.workers is None && d.workers is None
            ==> r.shared.workers == a.shared.workers,
        explicit.contains("duckdb_bin"@) ==> r.shared.duckdb_bin == a.shared.duckdb_bin,
        !explicit.contains("duckdb_bin"@) && c.duckdb_bin is Some
            ==> c.duckdb_bin == r.shared.duckdb_bin,
        !explicit.contains("duckdb_bin"@) && c.duckdb_bin is None && d.duckdb_bin is Some
            ==> d.duckdb_bin == r.shared.duckdb_bin,
        !explicit.contains("duckdb_bin"@) && c.duckdb_bin is None && d.duckdb_bin is None
            ==> r.shared.duckdb_bin == a.shared.duckdb_bin,
        explicit.contains("max_memory_mb"@) ==> r.max_memory_mb == a.max_memory_mb,
        !explicit.contains("max_memory_mb"@) && c.max_memory_mb is Some
            ==> c.max_memory_mb == r.max_memory_mb,
        !explicit.contains("max_memory_mb"@) && c.max_memory_mb is None && d.max_memory_mb is Some
            ==> d.max_memory_mb == r.max_memory_mb,
        !explicit.contains("max_memory_mb"@) && c.max_memory_mb is None && d.max_memory_mb is None
            && has_d ==> r.max_memory_mb is None,
        !explicit.contains("max_memory_mb"@) && c.max_memory_mb is None && d.max_memory_mb is None
            && !has_d ==> r.max_memory_mb == a.max_memory_mb,
        explicit.contains("from"@) ==> r.from == a.from,
        !explicit.contains("from"@) && c.from is Some ==> c.from == Some(r.from),
        !explicit.contains("from"@) && c.from is None ==> r.from == a.from,
        explicit.contains("format"@) ==> r.format == a.format,
        !explicit.contains("format"@) && c.format is Some ==> c.format == Some(r.format),
        !explicit.contains("format"@) && c.format is None ==> r.format == a.format,
        explicit.contains("diff_with"@) ==> r.diff_with == a.diff_with,
        !explicit.contains("diff_with"@) && c.diff_with is Some ==> c.diff_with == r.diff_with,
        !explicit.contains("diff_with"@) && c.diff_with is None && has_c ==> r.diff_with is None,
        !explicit.contains("diff_with"@) && c.diff_with is None && !has_c
            ==> r.diff_with == a.diff_with,
        explicit.contains("output"@) ==> r.output == a.output,
        !explicit.contains("output"@) && c.output is Some ==> c.output == r.output,
        !explicit.contains("output"@) && c.output is None && has_c ==> r.output is None,
        !explicit.contains("output"@) && c.output is None && !has_c ==> r.output == a.output,
        explicit.contains("sample_size"@) ==> r.sample_size == a.sample_size,
        !explicit.contains("sample_size"@) && c.sample_size is Some
            ==> c.sample_size == Some(r.sample_size),
        !explicit.contains("sample_size"@) && c.sample_size is None
            ==> r.sample_size == a.sample_size,
        explicit.contains("refresh_cache"@) ==> r.refresh_cache == a.refresh_cache,
        !explicit.contains("refresh_cache"@) && c.refresh_cache is Some
            ==> c.refresh_cache == Some(r.refresh_cache),
        !explicit.contains("refresh_cache"@) && c.refresh_cache is None
            ==> r.refresh_cache == a.refresh_cache,
        r.explain == a.explain,
        explicit.contains("state_flush_every"@) ==> r.state_flush_every == a.state_flush_every,
        !explicit.contains("state_flush_every"@) && c.state_flush_every is Some
            ==> c.state_flush_every == Some(r.state_flush_every),
        !explicit.contains("state_flush_every"@) && c.state_flush_every is None
            && d.state_flush_every is Some ==> d.state_flush_every == Some(r.state_flush_every),
        !explicit.contains("state_flush_every"@) && c.state_flush_every is None
            && d.state_flush_every is None ==> r.state_flush_every == a.state_flush_every,
{
}

/// Each setting of an index is the one that was set on the command line;
/// where it was not, that of its section in the file, then that of the defaults there,
/// then the built-in one.
pub proof fn law_settings_of_index(
    a: IndexArgs,
    d: ConfigDefaults,
    c: IndexConfig,
    has_d: bool,
    has_c: bool,
    explicit: Set<Seq<char>>,
    r: IndexArgs,
)
    requires
        index_chosen(a, d, c, has_d, has_c, explicit, r),
    ensures
        explicit.contains("root_dir"@) ==> r.root_dir == a.root_dir,
        !explicit.contains("root_dir"@) && c.root_dir is Some ==> c.root_dir == Some(r.root_dir),
        !explicit.contains("root_dir"@) && c.root_dir is None && d.root_dir is Some
            ==> d.root_dir == Some(r.root_dir),
        !explicit.contains("root_dir"@) && c.root_dir is None && d.root_dir is None
            ==> r.root_dir == a.root_dir,
        explicit.contains("dataset"@) ==> r.dataset == a.dataset,
        !explicit.contains("dataset"@) && c.dataset is Some ==> c.dataset == Some(r.dataset),
        !explicit.contains("dataset"@) && c.dataset is None && d.dataset is Some
            ==> d.dataset == Some(r.dataset),
        !explicit.contains("dataset"@) && c.dataset is None && d.dataset is None
            ==> r.dataset == a.dataset,
        explicit.contains("index_file"@) ==> r.index_file == a.index_file,
        !explicit.contains("index_file"@) && c.index_file is Some ==> c.index_file == r.index_file,
        !explicit.contains("index_file"@) && c.index_file is None && has_c ==> r.index_file is None,
        !explicit.contains("index_file"@) && c.index_file is None && !has_c
            ==> r.index_file == a.index_file,
        explicit.contains("workers"@) ==> r.workers == a.workers,
        !explicit.contains("workers"@) && c.workers is Some ==> c.workers == Some(r.workers),
        !explicit.contains("workers"@) && c.workers is None && d.workers is Some
            ==> d.workers == Some(r.workers),
        !explicit.contains("workers"@) && c.workers is None && d.workers is None
            ==> r.workers == a.workers,
        explicit.contains("max_memory_mb"@) ==> r.max_memory_mb == a.max_memory_mb,
        !explicit.contains("max_memory_mb"@) && c.max_memory_mb is Some
            ==> c.max_memory_mb == r.max_memory_mb,
        !explicit.contains("max_memory_mb"@) && c.max_memory_mb is None && d.max_memory_mb is Some
            ==> d.max_memory_mb == r.max_memory_mb,
        !explicit.contains("max_memory_mb"@) && c.max_memory_mb is None && d.max_memory_mb is None
            && has_d ==> r.max_memory_mb is None,
        !explicit.contains("max_memory_mb"@) && c.max_memory_mb is None && d.max_memory_mb is None
            && !has_d ==> r.max_memory_mb == a.max_memory_mb,
        explicit.contains("duckdb_bin"@) ==> r.duckdb_bin == a.duckdb_bin,
        !explicit.contains("duckdb_bin"@) && c.duckdb_bin is Some ==> c.duckdb_bin == r.duckdb_bin,
        !explicit.contains("duckdb_bin"@) && c.duckdb_bin is None && d.duckdb_bin is Some
            ==> d.duckdb_bin == r.duckdb_bin,
        !explicit.contains("duckdb_bin"@) && c.duckdb_bin is None && d.duckdb_bin is None
            ==> r.duckdb_bin == a.duckdb_bin,
        explicit.contains("progress"@) ==> r.progress == a.progress,
        !explicit.contains("progress"@) && c.progress is Some ==> c.progress == Some(r.progress),
        !explicit.contains("progress"@) && c.progress is None && d.progress is Some
            ==> d.progress == Some(r.progress),
        !explicit.contains("progress"@) && c.progress is None && d.progress is None
            ==> r.progress == a.progress,
        explicit.contains("overwrite"@) ==> r.overwrite == a.overwrite,
        !explicit.contains("overwrite"@) && c.overwrite is Some
            ==> c.overwrite == Some(r.overwrite),
        !explicit.contains("overwrite"@) && c.overwrite is None ==> r.overwrite == a.overwrite,
        r.explain == a.explain,
        explicit.contains("state_flush_every"@) ==> r.state_flush_every == a.state_flush_every,
        !explicit.contains("state_flush_every"@) && c.state_flush_every is Some
            ==> c.state_flush_every == Some(r.state_flush_every),
        !explicit.contains("state_flush_every"@) && c.state_flush_every is None
            && d.state_flush_every is Some ==> d.state_flush_every == Some(r.state_flush_every),
        !explicit.contains("state_flush_every"@) && c.state_flush_every is None
            && d.state_flush_every is None ==> r.state_flush_every == a.state_flush_every,
{
}

/// Each setting of an extraction is the one that was set on the command line;
/// where it was not, that of its section in the file, then that of the defaults there,
/// then the built-in one.
pub proof fn law_settings_of_extract(
    a: ExtractArgs,
    d: ConfigDefaults,
    c: ExtractConfig,
    has_d: bool,
    explicit: Set<Seq<char>>,
    r: ExtractArgs,
)
    requires
        extract_chosen(a, d, c, has_d, explicit, r),
    ensures
        explicit.contains("root_dir"@) ==> r.shared.root_dir == a.shared.root_dir,
        !explicit.contains("root_dir"@) && c.root_dir is Some
            ==> c.root_dir == Some(r.shared.root_dir),
        !explicit.contains("root_dir"@) && c.root_dir is None && d.root_dir is Some
            ==> d.root_dir == Some(r.shared.root_dir),
        !explicit.contains("root_dir"@) && c.root_dir is None && d.root_dir is None
            ==> r.shared.root_dir == a.shared.root_dir,
        explicit.contains("dataset"@) ==> r.shared.dataset == a.shared.dataset,
        !explicit.contains("dataset"@) && c.dataset is Some ==> c.dataset == Some(r.shared.dataset),
        !explicit.contains("dataset"@) && c.dataset is None && d.dataset is Some
            ==> d.dataset == Some(r.shared.dataset),
        !explicit.contains("dataset"@) && c.dataset is None && d.dataset is None
            ==> r.shared.dataset == a.shared.dataset,
        explicit.contains("workers"@) ==> r.shared.workers == a.shared.workers,
        !explicit.contains("workers"@) && c.workers is Some ==> c.workers == Some(r.shared.workers),
        !explicit.contains("workers"@) && c.workers is None && d.workers is Some
            ==> d.workers == Some(r.shared.workers),
        !explicit.contains("workers"@) && c.workers is None && d.workers is None
            ==> r.shared.workers == a.shared.workers,
        explicit.contains("duckdb_bin"@) ==> r.shared.duckdb_bin == a.shared.duckdb_bin,
        !explicit.contains("duckdb_bin"@) && c.duckdb_bin is Some
            ==> c.duckdb_bin == r.shared.duckdb_bin,
        !explicit.contains("duckdb_bin"@) && c.duckdb_bin is None && d.duckdb_bin is Some
            ==> d.duckdb_bin == r.shared.duckdb_bin,
        !explicit.contains("duckdb_bin"@) && c.duckdb_bin is None && d.duckdb_bin is None
            ==> r.shared.duckdb_bin == a.shared.duckdb_bin,
        explicit.contains("ids"@) ==> r.ids == a.ids,
        !explicit.contains("ids"@) && c.ids is Some ==> c.ids == Some(r.ids),
        !explicit.contains("ids"@) && c.ids is None ==> r.ids == a.ids,
        explicit.contains("output"@) ==> r.output == a.output,
        !explicit.contains("output"@) && c.output is Some ==> c.output == Some(r.output),
        !explicit.contains("output"@) && c.output is None ==> r.output == a.output,
        explicit.contains("max_memory_mb"@) ==> r.max_memory_mb == a.max_memory_mb,
        !explicit.contains("max_memory_mb"@) && c.max_memory_mb is Some
            ==> c.max_memory_mb == r.max_memory_mb,
        !explicit.contains("max_memory_mb"@) && c.max_memory_mb is None && d.max_memory_mb is Some
            ==> d.max_memory_mb == r.max_memory_mb,
        !explicit.contains("max_memory_mb"@) && c.max_memory_mb is None && d.max_memory_mb is None
            && has_d ==> r.max_memory_mb is None,
        !explicit.contains("max_memory_mb"@) && c.max_memory_mb is None && d.max_memory_mb is None
            && !has_d ==> r.max_memory_mb == a.max_memory_mb,
        explicit.contains("progress"@) ==> r.progress == a.progress,
        !explicit.contains("progress"@) && c.progress is Some ==> c.progress == Some(r.progress),
        !explicit.contains("progress"@) && c.progress is None && d.progress is Some
            ==> d.progress == Some(r.progress),
        !explicit.contains("progress"@) && c.progress is None && d.progress is None
            ==> r.progress == a.progress,
        r.explain == a.explain,
        explicit.contains("state_flush_every"@) ==> r.state_flush_every == a.state_flush_every,
        !explicit.contains("state_flush_every"@) && c.state_flush_every is Some
            ==> c.state_flush_every == Some(r.state_flush_every),
        !explicit.contains("state_flush_every"@) && c.state_flush_every is None
            && d.state_flush_every is Some ==> d.state_flush_every == Some(r.state_flush_every),
        !explicit.contains("state_flush_every"@) && c.state_flush_every is None
            && d.state_flush_every is None ==> r.state_flush_every == a.state_flush_every,
{
}

/// Each setting of a repair is the one that was set on the command line;
/// where it was not, that of its section in the file, then that of the defaults there,
/// then the built-in one.
pub proof fn law_settings_of_repair(
    a: RepairArgs,
    d: ConfigDefaults,
    c: RepairConfig,
    has_d: bool,
    explicit: Set<Seq<char>>,
    r: RepairArgs,
)
    requires
        repair_chosen(a, d, c, has_d, explicit, r),
    ensures
        explicit.contains("root_dir"@) ==> r.shared.root_dir == a.shared.root_dir,
        !explicit.contains("root_dir"@) && c.root_dir is Some
            ==> c.root_dir == Some(r.shared.root_dir),
        !explicit.contains("root_dir"@) && c.root_dir is None && d.root_dir is Some
            ==> d.root_dir == Some(r.shared.root_dir),
        !explicit.contains("root_dir"@) && c.root_dir is None && d.root_dir is None
            ==> r.shared.root_dir == a.shared.root_dir,
        explicit.contains("dataset"@) ==> r.shared.dataset == a.shared.dataset,
        !explicit.contains("dataset"@) && c.dataset is Some ==> c.dataset == Some(r.shared.dataset),
        !explicit.contains("dataset"@) && c.dataset is None && d.dataset is Some
            ==> d.dataset == Some(r.shared.dataset),
        !explicit.contains("dataset"@) && c.dataset is None && d.dataset is None
            ==> r.shared.dataset == a.shared.dataset,
        explicit.contains("workers"@) ==> r.shared.workers == a.shared.workers,
        !explicit.contains("workers"@) && c.workers is Some ==> c.workers == Some(r.shared.workers),
        !explicit.contains("workers"@) && c.workers is None && d.workers is Some
            ==> d.workers == Some(r.shared.workers),
        !explicit.contains("workers"@) && c.workers is None && d.workers is None
            ==> r.shared.workers == a.shared.workers,
        explicit.contains("duckdb_bin"@) ==> r.shared.duckdb_bin == a.shared.duckdb_bin,
        !explicit.contains("duckdb_bin"@) && c.duckdb_bin is Some
            ==> c.duckdb_bin == r.shared.duckdb_bin,
        !explicit.contains("duckdb_bin"@) && c.duckdb_bin is None && d.duckdb_bin is Some
            ==> d.duckdb_bin == r.shared.duckdb_bin,
        !explicit.contains("duckdb_bin"@) && c.duckdb_bin is None && d.duckdb_bin is None
            ==> r.shared.duckdb_bin == a.shared.duckdb_bin,
        explicit.contains("from_verify_report"@) ==> r.from_verify_report == a.from_verify_report,
        !explicit.contains("from_verify_report"@) && c.from_verify_report is Some
            ==> c.from_verify_report == r.from_verify_report,
        !explicit.contains("from_verify_report"@) && c.from_verify_report is None
            ==> r.from_verify_report == a.from_verify_report,
        explicit.contains("profile"@) ==> r.profile == a.profile,
        !explicit.contains("profile"@) && c.profile is Some ==> c.profile == Some(r.profile),
        !explicit.contains("profile"@) && c.profile is None && d.profile is Some
            ==> d.profile == Some(r.profile),
        !explicit.contains("profile"@) && c.profile is None && d.profile is None
            ==> r.profile == a.profile,
        explicit.contains("max_memory_mb"@) ==> r.max_memory_mb == a.max_memory_mb,
        !explicit.contains("max_memory_mb"@) && c.max_memory_mb is Some
            ==> c.max_memory_mb == r.max_memory_mb,
        !explicit.contains("max_memory_mb"@) && c.max_memory_mb is None && d.max_memory_mb is Some
            ==> d.max_memory_mb == r.max_memory_mb,
        !explicit.contains("max_memory_mb"@) && c.max_memory_mb is None && d.max_memory_mb is None
            && has_d ==> r.max_memory_mb is None,
        !explicit.contains("max_memory_mb"@) && c.max_memory_mb is None && d.max_memory_mb is None
            && !has_d ==> r.max_memory_mb == a.max_memory_mb,
        explicit.contains("progress"@) ==> r.progress == a.progress,
        !explicit.contains("progress"@) && c.progress is Some ==> c.progress == Some(r.progress),
        !explicit.contains("progress"@) && c.progress is None && d.progress is Some
            ==> d.progress == Some(r.progress),
        !explicit.contains("progress"@) && c.progress is None && d.progress is None
            ==> r.progress == a.progress,
        r.explain == a.explain,
        explicit.contains("state_flush_every"@) ==> r.state_flush_every == a.state_flush_every,
        !explicit.contains("state_flush_every"@) && c.state_flush_every is Some
            ==> c.state_flush_every == Some(r.state_flush_every),
        !explicit.contains("state_flush_every"@) && c.state_flush_every is None
            && d.state_flush_every is Some ==> d.state_flush_every == Some(r.state_flush_every),
        !explicit.contains("state_flush_every"@) && c.state_flush_every is None
            && d.state_flush_every is None ==> r.state_flush_every == a.state_flush_every,
{
}

/// Each setting of a download is the one that was set on the command line;
/// where it was not, that of its section in the file, then that of the defaults there,
/// then the built-in one.
pub proof fn law_settings_of_download(
    a: DownloadArgs,
    d: ConfigDefaults,
    c: DownloadConfig,
    has_c: bool,
    explicit: Set<Seq<char>>,
    r: DownloadArgs,
)
    requires
        download_chosen(a, d, c, has_c, explicit, r),
    ensures
        explicit.contains("root_dir"@) ==> r.root_dir == a.root_dir,
        !explicit.contains("root_dir"@) && c.root_dir is Some ==> c.root_dir == Some(r.root_dir),
        !explicit.contains("root_dir"@) && c.root_dir is None && d.root_dir is Some
            ==> d.root_dir == Some(r.root_dir),
        !explicit.contains("root_dir"@) && c.root_dir is None && d.root_dir is None
            ==> r.root_dir == a.root_dir,
        explicit.contains("s3_uri"@) ==> r.s3_uri == a.s3_uri,
        !explicit.contains("s3_uri"@) && c.s3_uri is Some ==> c.s3_uri == Some(r.s3_uri),
        !explicit.contains("s3_uri"@) && c.s3_uri is None ==> r.s3_uri == a.s3_uri,
        explicit.contains("dataset"@) ==> r.dataset == a.dataset,
        !explicit.contains("dataset"@) && c.dataset is Some ==> c.dataset == Some(r.dataset),
        !explicit.contains("dataset"@) && c.dataset is None && d.dataset is Some
            ==> d.dataset == Some(r.dataset),
        !explicit.contains("dataset"@) && c.dataset is None && d.dataset is None
            ==> r.dataset == a.dataset,
        explicit.contains("aws_bin"@) ==> r.aws_bin == a.aws_bin,
        !explicit.contains("aws_bin"@) && c.aws_bin is Some ==> c.aws_bin == Some(r.aws_bin),
        !explicit.contains("aws_bin"@) && c.aws_bin is None ==> r.aws_bin == a.aws_bin,
        explicit.contains("endpoint_url"@) ==> r.endpoint_url == a.endpoint_url,
        !explicit.contains("endpoint_url"@) && c.endpoint_url is Some
            ==> c.endpoint_url == r.endpoint_url,
        !explicit.contains("endpoint_url"@) && c.endpoint_url is None && has_c
            ==> r.endpoint_url is None,
        !explicit.contains("endpoint_url"@) && c.endpoint_url is None && !has_c
            ==> r.endpoint_url == a.endpoint_url,
        explicit.contains("region"@) ==> r.region == a.region,
        !explicit.contains("region"@) && c.region is Some ==> c.region == r.region,
        !explicit.contains("region"@) && c.region is None && has_c ==> r.region is None,
        !explicit.contains("region"@) && c.region is None && !has_c ==> r.region == a.region,
        explicit.contains("profile_name"@) ==> r.profile_name == a.profile_name,
        !explicit.contains("profile_name"@) && c.profile_name is Some
            ==> c.profile_name == r.profile_name,
        !explicit.contains("profile_name"@) && c.profile_name is None && has_c
            ==> r.profile_name is None,
        !explicit.contains("profile_name"@) && c.profile_name is None && !has_c
            ==> r.profile_name == a.profile_name,
        explicit.contains("no_sign_request"@) ==> r.no_sign_request == a.no_sign_request,
        !explicit.contains("no_sign_request"@) && c.no_sign_request is Some
            ==> c.no_sign_request == Some(r.no_sign_request),
        !explicit.contains("no_sign_request"@) && c.no_sign_request is None
            ==> r.no_sign_request == a.no_sign_request,
        explicit.contains("signed"@) ==> r.signed == a.signed,
        !explicit.contains("signed"@) && c.signed is Some ==> c.signed == Some(r.signed),
        !explicit.contains("signed"@) && c.signed is None ==> r.signed == a.signed,
        explicit.contains("delete_files"@) ==> r.delete_files == a.delete_files,
        !explicit.contains("delete_files"@) && c.delete_files is Some
            ==> c.delete_files == Some(r.delete_files),
        !explicit.contains("delete_files"@) && c.delete_files is None
            ==> r.delete_files == a.delete_files,
        explicit.contains("no_delete"@) ==> r.no_delete == a.no_delete,
        !explicit.contains("no_delete"@) && c.no_delete is Some
            ==> c.no_delete == Some(r.no_delete),
        !explicit.contains("no_delete"@) && c.no_delete is None ==> r.no_delete == a.no_delete,
        explicit.contains("skip_disk_check"@) ==> r.skip_disk_check == a.skip_disk_check,
        !explicit.contains("skip_disk_check"@) && c.skip_disk_check is Some
            ==> c.skip_disk_check == Some(r.skip_disk_check),
        !explicit.contains("skip_disk_check"@) && c.skip_disk_check is None
            ==> r.skip_disk_check == a.skip_disk_check,
        explicit.contains("progress"@) ==> r.progress == a.progress,
        !explicit.contains("progress"@) && c.progress is Some ==> c.progress == Some(r.progress),
        !explicit.contains("progress"@) && c.progress is None && d.progress is Some
            ==> d.progress == Some(r.progress),
        !explicit.contains("progress"@) && c.progress is None && d.progress is None
            ==> r.progress == a.progress,
        r.explain == a.explain,
        explicit.contains("state_flush_every"@) ==> r.state_flush_every == a.state_flush_every,
        !explicit.contains("state_flush_every"@) && c.state_flush_every is Some
            ==> c.state_flush_every == Some(r.state_flush_every),
        !explicit.contains("state_flush_every"@) && c.state_flush_every is None
            && d.state_flush_every is Some ==> d.state_flush_every == Some(r.state_flush_every),
        !explicit.contains("state_flush_every"@) && c.state_flush_every is None
            && d.state_flush_every is None ==> r.state_flush_every == a.state_flush_every,
{
}

/// Each setting of the verification of a download is the one that was set on the command line;
/// where it was not, that of its section in the file, then that of the defaults there,
/// then the built-in one.
pub proof fn law_settings_of_validate_download(
    a: ValidateDownloadArgs,
    d: ConfigDefaults,
    c: ValidateDownloadConfig,
    has_c: bool,
    explicit: Set<Seq<char>>,
    r: ValidateDownloadArgs,
)
    requires
        validate_download_chosen(a, d, c, has_c, explicit, r),
    ensures
        explicit.contains("root_dir"@) ==> r.root_dir == a.root_dir,
        !explicit.contains("root_dir"@) && c.root_dir is Some ==> c.root_dir == Some(r.root_dir),
        !explicit.contains("root_dir"@) && c.root_dir is None && d.root_dir is Some
            ==> d.root_dir == Some(r.root_dir),
        !explicit.contains("root_dir"@) && c.root_dir is None && d.root_dir is None
            ==> r.root_dir == a.root_dir,
        explicit.contains("s3_uri"@) ==> r.s3_uri == a.s3_uri,
        !explicit.contains("s3_uri"@) && c.s3_uri is Some ==> c.s3_uri == Some(r.s3_uri),
        !explicit.contains("s3_uri"@) && c.s3_uri is None ==> r.s3_uri == a.s3_uri,
        explicit.contains("dataset"@) ==> r.dataset == a.dataset,
        !explicit.contains("dataset"@) && c.dataset is Some ==> c.dataset == Some(r.dataset),
        !explicit.contains("dataset"@) && c.dataset is None && d.dataset is Some
            ==> d.dataset == Some(r.dataset),
        !explicit.contains("dataset"@) && c.dataset is None && d.dataset is None
            ==> r.dataset == a.dataset,
        explicit.contains("aws_bin"@) ==> r.aws_bin == a.aws_bin,
        !explicit.contains("aws_bin"@) && c.aws_bin is Some ==> c.aws_bin == Some(r.aws_bin),
        !explicit.contains("aws_bin"@) && c.aws_bin is None ==> r.aws_bin == a.aws_bin,
        explicit.contains("endpoint_url"@) ==> r.endpoint_url == a.endpoint_url,
        !explicit.contains("endpoint_url"@) && c.endpoint_url is Some
            ==> c.endpoint_url == r.endpoint_url,
        !explicit.contains("endpoint_url"@) && c.endpoint_url is None && has_c
            ==> r.endpoint_url is None,
        !explicit.contains("endpoint_url"@) && c.endpoint_url is None && !has_c
            ==> r.endpoint_url == a.endpoint_url,
        explicit.contains("region"@) ==> r.region == a.region,
        !explicit.contains("region"@) && c.region is Some ==> c.region == r.region,
        !explicit.contains("region"@) && c.region is None && has_c ==> r.region is None,
        !explicit.contains("region"@) && c.region is None && !has_c ==> r.region == a.region,
        explicit.contains("profile_name"@) ==> r.profile_name == a.profile_name,
        !explicit.contains("profile_name"@) && c.profile_name is Some
            ==> c.profile_name == r.profile_name,
        !explicit.contains("profile_name"@) && c.profile_name is None && has_c
            ==> r.profile_name is None,
        !explicit.contains("profile_name"@) && c.profile_name is None && !has_c
            ==> r.profile_name == a.profile_name,
        explicit.contains("no_sign_request"@) ==> r.no_sign_request == a.no_sign_request,
        !explicit.contains("no_sign_request"@) && c.no_sign_request is Some
            ==> c.no_sign_request == Some(r.no_sign_request),
        !explicit.contains("no_sign_request"@) && c.no_sign_request is None
            ==> r.no_sign_request == a.no_sign_request,
        explicit.contains("signed"@) ==> r.signed == a.signed,
        !explicit.contains("signed"@) && c.signed is Some ==> c.signed == Some(r.signed),
        !explicit.contains("signed"@) && c.signed is None ==> r.signed == a.signed,
        explicit.contains("check_extra"@) ==> r.check_extra == a.check_extra,
        !explicit.contains("check_extra"@) && c.check_extra is Some
            ==> c.check_extra == Some(r.check_extra),
        !explicit.contains("check_extra"@) && c.check_extra is None
            ==> r.check_extra == a.check_extra,
        explicit.contains("workers"@) ==> r.workers == a.workers,
        !explicit.contains("workers"@) && c.workers is Some ==> c.workers == Some(r.workers),
        !explicit.contains("workers"@) && c.workers is None && d.workers is Some
            ==> d.workers == Some(r.workers),
        !explicit.contains("workers"@) && c.workers is None && d.workers is None
            ==> r.workers == a.workers,
        explicit.contains("progress"@) ==> r.progress == a.progress,
        !explicit.contains("progress"@) && c.progress is Some ==> c.progress == Some(r.progress),
        !explicit.contains("progress"@) && c.progress is None && d.progress is Some
            ==> d.progress == Some(r.progress),
        !explicit.contains("progress"@) && c.progress is None && d.progress is None
            ==> r.progress == a.progress,
        r.explain == a.explain,
        explicit.contains("state_flush_every"@) ==> r.state_flush_every == a.state_flush_every,
        !explicit.contains("state_flush_every"@) && c.state_flush_every is Some
            ==> c.state_flush_every == Some(r.state_flush_every),
        !explicit.contains("state_flush_every"@) && c.state_flush_every is None
            && d.state_flush_every is Some ==> d.state_flush_every == Some(r.state_flush_every),
        !explicit.contains("state_flush_every"@) && c.state_flush_every is None
            && d.state_flush_every is None ==> r.state_flush_every == a.state_flush_every,
{
}

/// Each setting of the verification of an index is the one that was set on the command line;
/// where it was not, that of its section in the file, then that of the defaults there,
/// then the built-in one.
pub proof fn law_settings_of_verify_index(
    a: VerifyIndexArgs,
    d: ConfigDefaults,
    c: VerifyIndexConfig,
    has_d: bool,
    has_c: bool,
    explicit: Set<Seq<char>>,
    r: VerifyIndexArgs,
)
    requires
        verify_index_chosen(a, d, c, has_d, has_c, explicit, r),
    ensures
        explicit.contains("root_dir"@) ==> r.root_dir == a.root_dir,
        !explicit.contains("root_dir"@) && c.root_dir is Some ==> c.root_dir == Some(r.root_dir),
        !explicit.contains("root_dir"@) && c.root_dir is None && d.root_dir is Some
            ==> d.root_dir == Some(r.root_dir),
        !explicit.contains("root_dir"@) && c.root_dir is None && d.root_dir is None
            ==> r.root_dir == a.root_dir,
        explicit.contains("dataset"@) ==> r.dataset == a.dataset,
        !explicit.contains("dataset"@) && c.dataset is Some ==> c.dataset == Some(r.dataset),
        !explicit.contains("dataset"@) && c.dataset is None && d.dataset is Some
            ==> d.dataset == Some(r.dataset),
        !explicit.contains("dataset"@) && c.dataset is None && d.dataset is None
            ==> r.dataset == a.dataset,
        explicit.contains("index_file"@) ==> r.index_file == a.index_file,
        !explicit.contains("index_file"@) && c.index_file is Some ==> c.index_file == r.index_file,
        !explicit.contains("index_file"@) && c.index_file is None && has_c ==> r.index_file is None,
        !explicit.contains("index_file"@) && c.index_file is None && !has_c
            ==> r.index_file == a.index_file,
        explicit.contains("workers"@) ==> r.workers == a.workers,
        !explicit.contains("workers"@) && c.workers is Some ==> c.workers == Some(r.workers),
        !explicit.contains("workers"@) && c.workers is None && d.workers is Some
            ==> d.workers == Some(r.workers),
        !explicit.contains("workers"@) && c.workers is None && d.workers is None
            ==> r.workers == a.workers,
        explicit.contains("max_memory_mb"@) ==> r.max_memory_mb == a.max_memory_mb,
        !explicit.contains("max_memory_mb"@) && c.max_memory_mb is Some
            ==> c.max_memory_mb == r.max_memory_mb,
        !explicit.contains("max_memory_mb"@) && c.max_memory_mb is None && d.max_memory_mb is Some
            ==> d.max_memory_mb == r.max_memory_mb,
        !explicit.contains("max_memory_mb"@) && c.max_memory_mb is None && d.max_memory_mb is None
            && has_d ==> r.max_memory_mb is None,
        !explicit.contains("max_memory_mb"@) && c.max_memory_mb is None && d.max_memory_mb is None
            && !has_d ==> r.max_memory_mb == a.max_memory_mb,
        explicit.contains("duckdb_bin"@) ==> r.duckdb_bin == a.duckdb_bin,
        !explicit.contains("duckdb_bin"@) && c.duckdb_bin is Some ==> c.duckdb_bin == r.duckdb_bin,
        !explicit.contains("duckdb_bin"@) && c.duckdb_bin is None && d.duckdb_bin is Some
            ==> d.duckdb_bin == r.duckdb_bin,
        !explicit.contains("duckdb_bin"@) && c.duckdb_bin is None && d.duckdb_bin is None
            ==> r.duckdb_bin == a.duckdb_bin,
        explicit.contains("progress"@) ==> r.progress == a.progress,
        !explicit.contains("progress"@) && c.progress is Some ==> c.progress == Some(r.progress),
        !explicit.contains("progress"@) && c.progress is None && d.progress is Some
            ==> d.progress == Some(r.progress),
        !explicit.contains("progress"@) && c.progress is None && d.progress is None
            ==> r.progress == a.progress,
        r.explain == a.explain,
{
}

/// Each setting of what is listed of reports is the one that was set on the command line;
/// where it was not, that of its section in the file, then that of the defaults there,
/// then the built-in one.
pub proof fn law_settings_of_report(
    a: ReportArgs,
    d: ConfigDefaults,
    c: ReportConfig,
    has_c: bool,
    explicit: Set<Seq<char>>,
    r: ReportArgs,
)
    requires
        report_chosen(a, d, c, has_c, explicit, r),
    ensures
        explicit.contains("root_dir"@) ==> r.root_dir == a.root_dir,
        !explicit.contains("root_dir"@) && c.root_dir is Some ==> c.root_dir == Some(r.root_dir),
        !explicit.contains("root_dir"@) && c.root_dir is None && d.root_dir is Some
            ==> d.root_dir == Some(r.root_dir),
        !explicit.contains("root_dir"@) && c.root_dir is None && d.root_dir is None
            ==> r.root_dir == a.root_dir,
        explicit.contains("source"@) ==> r.source == a.source,
        !explicit.contains("source"@) && c.source is Some ==> c.source == Some(r.source),
        !explicit.contains("source"@) && c.source is None ==> r.source == a.source,
        explicit.contains("command"@) ==> r.command == a.command,
        !explicit.contains("command"@) && c.command is Some ==> c.command == r.command,
        !explicit.contains("command"@) && c.command is None && has_c ==> r.command is None,
        !explicit.contains("command"@) && c.command is None && !has_c ==> r.command == a.command,
        explicit.contains("latest"@) ==> r.latest == a.latest,
        !explicit.contains("latest"@) && c.latest is Some ==> c.latest == Some(r.latest),
        !explicit.contains("latest"@) && c.latest is None ==> r.latest == a.latest,
        explicit.contains("summary"@) ==> r.summary == a.summary,
        !explicit.contains("summary"@) && c.summary is Some ==> c.summary == Some(r.summary),
        !explicit.contains("summary"@) && c.summary is None ==> r.summary == a.summary,
        explicit.contains("full"@) ==> r.full == a.full,
        !explicit.contains("full"@) && c.full is Some ==> c.full == Some(r.full),
        !explicit.contains("full"@) && c.full is None ==> r.full == a.full,
{
}

/// Each setting of the pruning of reports is the one that was set on the command line;
/// where it was not, that of its section in the file, then that of the defaults there,
/// then the built-in one.
pub proof fn law_settings_of_prune_reports(
    a: PruneReportsArgs,
    d: ConfigDefaults,
    c: PruneReportsConfig,
    has_c: bool,
    explicit: Set<Seq<char>>,
    r: PruneReportsArgs,
)
    requires
        prune_reports_chosen(a, d, c, has_c, explicit, r),
    ensures
        explicit.contains("root_dir"@) ==> r.root_dir == a.root_dir,
        !explicit.contains("root_dir"@) && c.root_dir is Some ==> c.root_dir == Some(r.root_dir),
        !explicit.contains("root_dir"@) && c.root_dir is None && d.root_dir is Some
            ==> d.root_dir == Some(r.root_dir),
        !explicit.contains("root_dir"@) && c.root_dir is None && d.root_dir is None
            ==> r.root_dir == a.root_dir,
        explicit.contains("source"@) ==> r.source == a.source,
        !explicit.contains("source"@) && c.source is Some ==> c.source == Some(r.source),
        !explicit.contains("source"@) && c.source is None ==> r.source == a.source,
        explicit.contains("command"@) ==> r.command == a.command,
        !explicit.contains("command"@) && c.command is Some ==> c.command == r.command,
        !explicit.contains("command"@) && c.command is None && has_c ==> r.command is None,
        !explicit.contains("command"@) && c.command is None && !has_c ==> r.command == a.command,
        explicit.contains("keep_per_command"@) ==> r.keep_per_command == a.keep_per_command,
        !explicit.contains("keep_per_command"@) && c.keep_per_command is Some
            ==> c.keep_per_command == Some(r.keep_per_command),
        !explicit.contains("keep_per_command"@) && c.keep_per_command is None
            ==> r.keep_per_command == a.keep_per_command,
        explicit.contains("dry_run"@) ==> r.dry_run == a.dry_run,
        !explicit.contains("dry_run"@) && c.dry_run is Some ==> c.dry_run == Some(r.dry_run),
        !explicit.contains("dry_run"@) && c.dry_run is None ==> r.dry_run == a.dry_run,
{
}

/// Each setting of what is shown of progress is the one that was set on the command line;
/// where it was not, that of its section in the file, then that of the defaults there,
/// then the built-in one.
pub proof fn law_settings_of_progress(
    a: ProgressArgs,
    d: ConfigDefaults,
    c: ProgressConfig,
    has_c: bool,
    explicit: Set<Seq<char>>,
    r: ProgressArgs,
)
    requires
        progress_chosen(a, d, c, has_c, explicit, r),
    ensures
        explicit.contains("root_dir"@) ==> r.root_dir == a.root_dir,
        !explicit.contains("root_dir"@) && c.root_dir is Some ==> c.root_dir == Some(r.root_dir),
        !explicit.contains("root_dir"@) && c.root_dir is None && d.root_dir is Some
            ==> d.root_dir == Some(r.root_dir),
        !explicit.contains("root_dir"@) && c.root_dir is None && d.root_dir is None
            ==> r.root_dir == a.root_dir,
        explicit.contains("command"@) ==> r.command == a.command,
        !explicit.contains("command"@) && c.command is Some ==> c.command == r.command,
        !explicit.contains("command"@) && c.command is None && has_c ==> r.command is None,
        !explicit.contains("command"@) && c.command is None && !has_c ==> r.command == a.command,
        explicit.contains("dataset"@) ==> r.dataset == a.dataset,
        !explicit.contains("dataset"@) && c.dataset is Some ==> c.dataset == Some(r.dataset),
        !explicit.contains("dataset"@) && c.dataset is None && d.dataset is Some
            ==> d.dataset == Some(r.dataset),
        !explicit.contains("dataset"@) && c.dataset is None && d.dataset is None
            ==> r.dataset == a.dataset,
        explicit.contains("watch"@) ==> r.watch == a.watch,
        !explicit.contains("watch"@) && c.watch is Some ==> c.watch == Some(r.watch),
        !explicit.contains("watch"@) && c.watch is None ==> r.watch == a.watch,
        r.once == a.once,
        explicit.contains("interval_sec"@) ==> r.interval_sec == a.interval_sec,
        !explicit.contains("interval_sec"@) && c.interval_sec is Some
            ==> c.interval_sec == Some(r.interval_sec),
        !explicit.contains("interval_sec"@) && c.interval_sec is None
            ==> r.interval_sec == a.interval_sec,
        explicit.contains("json"@) ==> r.json == a.json,
        !explicit.contains("json"@) && c.json is Some ==> c.json == Some(r.json),
        !explicit.contains("json"@) && c.json is None ==> r.json == a.json,
{
}

/// Each setting of a check is the one that was set on the command line;
/// where it was not, that of its section in the file, then that of the defaults there,
/// then the built-in one.
pub proof fn law_settings_of_check(
    a: CheckArgs,
    d: ConfigDefaults,
    c: CheckConfig,
    explicit: Set<Seq<char>>,
    r: CheckArgs,
)
    requires
        check_chosen(a, d, c, explicit, r),
    ensures
        explicit.contains("root_dir"@) ==> r.shared.root_dir == a.shared.root_dir,
        !explicit.contains("root_dir"@) && c.root_dir is Some
            ==> c.root_dir == Some(r.shared.root_dir),
        !explicit.contains("root_dir"@) && c.root_dir is None && d.root_dir is Some
            ==> d.root_dir == Some(r.shared.root_dir),
        !explicit.contains("root_dir"@) && c.root_dir is None && d.root_dir is None
            ==> r.shared.root_dir == a.shared.root_dir,
        explicit.contains("dataset"@) ==> r.shared.dataset == a.shared.dataset,
        !explicit.contains("dataset"@) && c.dataset is Some ==> c.dataset == Some(r.shared.dataset),
        !explicit.contains("dataset"@) && c.dataset is None && d.dataset is Some
            ==> d.dataset == Some(r.shared.dataset),
        !explicit.contains("dataset"@) && c.dataset is None && d.dataset is None
            ==> r.shared.dataset == a.shared.dataset,
        explicit.contains("workers"@) ==> r.shared.workers == a.shared.workers,
        !explicit.contains("workers"@) && c.workers is Some ==> c.workers == Some(r.shared.workers),
        !explicit.contains("workers"@) && c.workers is None && d.workers is Some
            ==> d.workers == Some(r.shared.workers),
        !explicit.contains("workers"@) && c.workers is None && d.workers is None
            ==> r.shared.workers == a.shared.workers,
        explicit.contains("duckdb_bin"@) ==> r.shared.duckdb_bin == a.shared.duckdb_bin,
        !explicit.contains("duckdb_bin"@) && c.duckdb_bin is Some
            ==> c.duckdb_bin == r.shared.duckdb_bin,
        !explicit.contains("duckdb_bin"@) && c.duckdb_bin is None && d.duckdb_bin is Some
            ==> d.duckdb_bin == r.shared.duckdb_bin,
        !explicit.contains("duckdb_bin"@) && c.duckdb_bin is None && d.duckdb_bin is None
            ==> r.shared.duckdb_bin == a.shared.duckdb_bin,
        explicit.contains("aws_bin"@) ==> r.aws_bin == a.aws_bin,
        !explicit.contains("aws_bin"@) && c.aws_bin is Some ==> c.aws_bin == Some(r.aws_bin),
        !explicit.contains("aws_bin"@) && c.aws_bin is None ==> r.aws_bin == a.aws_bin,
        explicit.contains("s3_uri"@) ==> r.s3_uri == a.s3_uri,
        !explicit.contains("s3_uri"@) && c.s3_uri is Some ==> c.s3_uri == Some(r.s3_uri),
        !explicit.contains("s3_uri"@) && c.s3_uri is None ==> r.s3_uri == a.s3_uri,
        explicit.contains("endpoint_url"@) ==> r.endpoint_url == a.endpoint_url,
        !explicit.contains("endpoint_url"@) && c.endpoint_url is Some
            ==> c.endpoint_url == r.endpoint_url,
        !explicit.contains("endpoint_url"@) && c.endpoint_url is None
            ==> r.endpoint_url == a.endpoint_url,
        explicit.contains("region"@) ==> r.region == a.region,
        !explicit.contains("region"@) && c.region is Some ==> c.region == r.region,
        !explicit.contains("region"@) && c.region is None ==> r.region == a.region,
        explicit.contains("profile_name"@) ==> r.profile_name == a.profile_name,
        !explicit.contains("profile_name"@) && c.profile_name is Some
            ==> c.profile_name == r.profile_name,
        !explicit.contains("profile_name"@) && c.profile_name is None
            ==> r.profile_name == a.profile_name,
        explicit.contains("no_sign_request"@) ==> r.no_sign_request == a.no_sign_request,
        !explicit.contains("no_sign_request"@) && c.no_sign_request is Some
            ==> c.no_sign_request == Some(r.no_sign_request),
        !explicit.contains("no_sign_request"@) && c.no_sign_request is None
            ==> r.no_sign_request == a.no_sign_request,
        explicit.contains("signed"@) ==> r.signed == a.signed,
        !explicit.contains("signed"@) && c.signed is Some ==> c.signed == Some(r.signed),
        !explicit.contains("signed"@) && c.signed is None ==> r.signed == a.signed,
        explicit.contains("max_memory_mb"@) ==> r.max_memory_mb == a.max_memory_mb,
        !explicit.contains("max_memory_mb"@) && c.max_memory_mb is Some
            ==> c.max_memory_mb == r.max_memory_mb,
        !explicit.contains("max_memory_mb"@) && c.max_memory_mb is None && d.max_memory_mb is Some
            ==> d.max_memory_mb == r.max_memory_mb,
        !explicit.contains("max_memory_mb"@) && c.max_memory_mb is None && d.max_memory_mb is None
            ==> r.max_memory_mb == a.max_memory_mb,
        explicit.contains("precise"@) ==> r.precise == a.precise,
        !explicit.contains("precise"@) && c.precise is Some ==> c.precise == Some(r.precise),
        !explicit.contains("precise"@) && c.precise is None ==> r.precise == a.precise,
        explicit.contains("strict"@) ==> r.strict == a.strict,
        !explicit.contains("strict"@) && c.strict is Some ==> c.strict == Some(r.strict),
        !explicit.contains("strict"@) && c.strict is None ==> r.strict == a.strict,
        explicit.contains("json"@) ==> r.json == a.json,
        !explicit.contains("json"@) && c.json is Some ==> c.json == Some(r.json),
        !explicit.contains("json"@) && c.json is None ==> r.json == a.json,
        r.explain == a.explain,
{
}

/// Each setting of the verification of schemas is the one that was set on the command line;
/// where it was not, that of its section in the file, then that of the defaults there,
/// then the built-in one.
pub proof fn law_settings_of_verify_schema(
    a: VerifySchemaArgs,
    d: ConfigDefaults,
    explicit: Set<Seq<char>>,
    r: VerifySchemaArgs,
)
    requires
        verify_schema_chosen(a, d, explicit, r),
    ensures
        explicit.contains("root_dir"@) ==> r.shared.root_dir == a.shared.root_dir,
        !explicit.contains("root_dir"@) && d.root_dir is Some
            ==> d.root_dir == Some(r.shared.root_dir),
        !explicit.contains("root_dir"@) && d.root_dir is None
            ==> r.shared.root_dir == a.shared.root_dir,
        explicit.contains("dataset"@) ==> r.shared.dataset == a.shared.dataset,
        !explicit.contains("dataset"@) && d.dataset is Some ==> d.dataset == Some(r.shared.dataset),
        !explicit.contains("dataset"@) && d.dataset is None
            ==> r.shared.dataset == a.shared.dataset,
        explicit.contains("workers"@) ==> r.shared.workers == a.shared.workers,
        !explicit.contains("workers"@) && d.workers is Some ==> d.workers == Some(r.shared.workers),
        !explicit.contains("workers"@) && d.workers is None
            ==> r.shared.workers == a.shared.workers,
        explicit.contains("duckdb_bin"@) ==> r.shared.duckdb_bin == a.shared.duckdb_bin,
        !explicit.contains("duckdb_bin"@) && d.duckdb_bin is Some
            ==> d.duckdb_bin == r.shared.duckdb_bin,
        !explicit.contains("duckdb_bin"@) && d.duckdb_bin is None
            ==> r.shared.duckdb_bin == a.shared.duckdb_bin,
        explicit.contains("max_memory_mb"@) ==> r.max_memory_mb == a.max_memory_mb,
        !explicit.contains("max_memory_mb"@) && d.max_memory_mb is Some
            ==> d.max_memory_mb == r.max_memory_mb,
        !explicit.contains("max_memory_mb"@) && d.max_memory_mb is None
            ==> r.max_memory_mb == a.max_memory_mb,
        r.from == a.from,
        r.diff_with == a.diff_with,
        r.sample_size == a.sample_size,
        r.refresh_cache == a.refresh_cache,
        r.explain == a.explain,
        explicit.contains("state_flush_every"@) ==> r.state_flush_every == a.state_flush_every,
        !explicit.contains("state_flush_every"@) && d.state_flush_every is Some
            ==> d.state_flush_every == Some(r.state_flush_every),
        !explicit.contains("state_flush_every"@) && d.state_flush_every is None
            ==> r.state_flush_every == a.state_flush_every,
{
}
/// Each command reads its own section of the file, and a section that is not there sets
/// nothing.
pub proof fn law_sections(cfg: &AppConfig)
    ensures
        cfg.convert matches Some(c) ==> convert_section(Some(cfg)) == c,
        cfg.convert is None ==> convert_section(Some(cfg)) == convert_section(None),
        ({
            let s = convert_section(None);
            s.root_dir is None && s.dataset is None && s.workers is None && s.duckdb_bin is None
                && s.profile is None && s.max_memory_mb is None && s.progress is None
                && s.state_flush_every is None && s.row_group_rows is None && s.batch_rows is None
                && s.compression is None && s.sample_size is None && s.seed is None
                && s.refresh_cache is None && s.skip_disk_check is None && s.split_size is None
                && s.split_temp_dir is None
        }),
        cfg.verify_convert matches Some(c) ==> verify_section(Some(cfg)) == c,
        cfg.verify_convert is None ==> verify_section(Some(cfg)) == verify_section(None),
        ({
            let s = verify_section(None);
            s.root_dir is None && s.dataset is None && s.workers is None && s.duckdb_bin is None
                && s.max_memory_mb is None && s.progress is None && s.state_flush_every is None
                && s.scope is None && s.metadata_level is None && s.file_sample_n is None
                && s.seed is None
        }),
        cfg.schema matches Some(c) ==> schema_section(Some(cfg)) == c,
        cfg.schema is None ==> schema_section(Some(cfg)) == schema_section(None),
        ({
            let s = schema_section(None);
            s.root_dir is None && s.dataset is None && s.workers is None && s.duckdb_bin is None
                && s.max_memory_mb is None && s.state_flush_every is None && s.from is None
                && s.format is None && s.diff_with is None && s.output is None
                && s.sample_size is None && s.refresh_cache is None
        }),
        cfg.index matches Some(c) ==> index_section(Some(cfg)) == c,
        cfg.index is None ==> index_section(Some(cfg)) == index_section(None),
        ({
            let s = index_section(None);
            s.root_dir is None && s.dataset is None && s.workers is None && s.duckdb_bin is None
                && s.max_memory_mb is None && s.progress is None && s.state_flush_every is None
                && s.index_file is None && s.overwrite is None
        }),
        cfg.extract matches Some(c) ==> extract_section(Some(cfg)) == c,
        cfg.extract is None ==> extract_section(Some(cfg)) == extract_section(None),
        ({
            let s = extract_section(None);
            s.root_dir is None && s.dataset is None && s.workers is None && s.duckdb_bin is None
                && s.max_memory_mb is None && s.progress is None && s.state_flush_every is None
                && s.ids is None && s.output is None
        }),
        cfg.repair_convert matches Some(c) ==> repair_section(Some(cfg)) == c,
        cfg.repair_convert is None ==> repair_section(Some(cfg)) == repair_section(None),
        ({
            let s = repair_section(None);
            s.root_dir is None && s.dataset is None && s.workers is None && s.duckdb_bin is None
                && s.profile is None && s.max_memory_mb is None && s.progress is None
                && s.state_flush_every is None && s.from_verify_report is None
        }),
        cfg.download matches Some(c) ==> download_section(Some(cfg)) == c,
        cfg.download is None ==> download_section(Some(cfg)) == download_section(None),
        ({
            let s = download_section(None);
            s.root_dir is None && s.s3_uri is None && s.dataset is None && s.progress is None
                && s.state_flush_every is None && s.aws_bin is None && s.endpoint_url is None
                && s.region is None && s.profile_name is None && s.no_sign_request is None
                && s.signed is None && s.delete_files is None && s.no_delete is None
                && s.skip_disk_check is None
        }),
        cfg.verify_download matches Some(c) ==> validate_download_section(Some(cfg)) == c,
        cfg.verify_download is None
            ==> validate_download_section(Some(cfg)) == validate_download_section(None),
        ({
            let s = validate_download_section(None);
            s.root_dir is None && s.s3_uri is None && s.dataset is None && s.workers is None
                && s.progress is None && s.state_flush_every is None && s.aws_bin is None
                && s.endpoint_url is None && s.region is None && s.profile_name is None
                && s.no_sign_request is None && s.signed is None && s.check_extra is None
        }),
        cfg.verify_index matches Some(c) ==> verify_index_section(Some(cfg)) == c,
        cfg.verify_index is None ==> verify_index_section(Some(cfg)) == verify_index_section(None),
        ({
            let s = verify_index_section(None);
            s.root_dir is None && s.dataset is None && s.workers is None && s.duckdb_bin is None
                && s.max_memory_mb is None && s.progress is None && s.index_file is None
        }),
        cfg.report matches Some(c) ==> report_section(Some(cfg)) == c,
        cfg.report is None ==> report_section(Some(cfg)) == report_section(None),
        ({
            let s = report_section(None);
            s.root_dir is None && s.source is None && s.command is None && s.latest is None
                && s.summary is None && s.full is None
        }),
        cfg.prune_reports matches Some(c) ==> prune_reports_section(Some(cfg)) == c,
        cfg.prune_reports is None
            ==> prune_reports_section(Some(cfg)) == prune_reports_section(None),
        ({
            let s = prune_reports_section(None);
            s.root_dir is None && s.source is None && s.command is None
                && s.keep_per_command is None && s.dry_run is None
        }),
        cfg.progress matches Some(c) ==> progress_section(Some(cfg)) == c,
        cfg.progress is None ==> progress_section(Some(cfg)) == progress_section(None),
        ({
            let s = progress_section(None);
            s.root_dir is None && s.command is None && s.dataset is None && s.interval_sec is None
                && s.watch is None && s.json is None
        }),
        cfg.check matches Some(c) ==> check_section(Some(cfg)) == c,
        cfg.check is None ==> check_section(Some(cfg)) == check_section(None),
        ({
            let s = check_section(None);
            s.root_dir is None && s.dataset is None && s.workers is None && s.duckdb_bin is None
                && s.aws_bin is None && s.s3_uri is None && s.endpoint_url is None
                && s.region is None && s.profile_name is None && s.no_sign_request is None
                && s.signed is None && s.max_memory_mb is None && s.precise is None
                && s.strict is None && s.json is None
        }),
        cfg.defaults matches Some(d) ==> defaults_of(Some(cfg)) == d,
{
}

/// The options of a step of a full run that count as set are its root where that was set
/// and the disk check where it is to be skipped.
pub proof fn law_options_of_a_step(root_set: bool, skip_disk_check: bool, name: Seq<char>)
    ensures
        step_options(root_set, skip_disk_check).contains(name) <==> (root_set && name
            == "root_dir"@) || (skip_disk_check && name == "skip_disk_check"@),
{
}

/// Where the file sets nothing, a full run works with the built-in settings: everything
/// from the public bucket, unsigned, deleting what is gone; a cautious conversion; a
/// verification of all rows of the snapshot by count and ids.
pub proof fn law_full_run_without_settings(
    root: Seq<char>,
    skip_disk_check: bool,
    report_path: Seq<char>,
    cfg: &AppConfig,
    b: (DownloadArgs, ValidateDownloadArgs, ConvertArgs, VerifyArgs, RepairArgs),
    r: (DownloadArgs, ValidateDownloadArgs, ConvertArgs, VerifyArgs, RepairArgs),
)
    requires
        cfg.defaults is None,
        cfg.download is None,
        cfg.verify_download is None,
        cfg.convert is None,
        cfg.verify_convert is None,
        cfg.repair_convert is None,
        download_step_of(b.0, root, true, skip_disk_check, cfg, r.0),
        validate_download_step_of(b.1, root, true, cfg, r.1),
        convert_step_of(b.2, root, true, skip_disk_check, cfg, r.2),
        verify_step_of(b.3, root, true, cfg, r.3),
        repair_step_of(b.4, root, true, report_path, cfg, r.4),
    ensures
        r.0.root_dir@ == root && r.0.s3_uri@ == "s3://openalex"@ && r.0.dataset@ == "all"@
            && r.0.aws_bin@ == "aws"@ && r.0.endpoint_url is None && r.0.region is None
            && r.0.profile_name is None && r.0.no_sign_request && !r.0.signed && r.0.delete_files
            && !r.0.no_delete && r.0.skip_disk_check == skip_disk_check && r.0.progress
            && !r.0.explain && r.0.state_flush_every == 25,
        r.1.root_dir@ == root && r.1.s3_uri@ == "s3://openalex"@ && r.1.dataset@ == "all"@
            && r.1.aws_bin@ == "aws"@ && r.1.no_sign_request && !r.1.signed && r.1.check_extra
            && r.1.workers == 0 && r.1.progress && !r.1.explain && r.1.state_flush_every == 25,
        r.2.shared.root_dir@ == root && r.2.shared.dataset@ == "all"@ && r.2.shared.workers == 0
            && r.2.profile@ == "safe"@ && r.2.max_memory_mb is None && r.2.row_group_rows == 100000
            && r.2.batch_rows == 5000 && r.2.compression@ == "snappy"@ && r.2.sample_size == 100
            && r.2.seed == 42 && r.2.skip_disk_check == skip_disk_check && r.2.split_size@ == "0"@
            && !r.2.refresh_cache && r.2.input_files@.len() == 0 && r.2.progress && !r.2.explain
            && r.2.state_flush_every == 25,
        r.3.shared.root_dir@ == root && r.3.shared.dataset@ == "all"@ && r.3.shared.workers == 0
            && r.3.scope is Snapshot && r.3.metadata_level is Both && r.3.file_sample_n == 50
            && r.3.seed == 42 && r.3.max_memory_mb is None && r.3.progress && !r.3.explain
            && r.3.state_flush_every == 25,
        r.4.shared.root_dir@ == root && r.4.shared.dataset@ == "all"@ && r.4.shared.workers == 0
            && r.4.profile@ == "safe"@ && r.4.from_verify_report is Some
            && r.4.from_verify_report->0@ == report_path && r.4.max_memory_mb is None
            && r.4.progress && !r.4.explain && r.4.state_flush_every == 25,
{
}

/// Where the file sets nothing, a full run indexes every dataset where the index belongs
/// and checks it there, without replacing what is there.
pub proof fn law_index_without_settings(
    root: Seq<char>,
    cfg: &AppConfig,
    b: (IndexArgs, VerifyIndexArgs),
    r: (IndexArgs, VerifyIndexArgs),
)
    requires
        cfg.defaults is None,
        cfg.index is None,
        cfg.verify_index is None,
        index_step_of(b.0, root, true, cfg, r.0),
        verify_index_step_of(b.1, root, true, cfg, r.1),
    ensures
        r.0.root_dir@ == root && r.0.dataset@ == "all"@ && r.0.index_file is None && r.0.workers
            == 0 && r.0.max_memory_mb is None && r.0.duckdb_bin is None && r.0.progress
            && !r.0.overwrite && !r.0.explain && r.0.state_flush_every == 25,
        r.1.root_dir@ == root && r.1.dataset@ == "all"@ && r.1.index_file is None && r.1.workers
            == 0 && r.1.max_memory_mb is None && r.1.duckdb_bin is None && r.1.progress
            && !r.1.explain,
{
}
/// The snapshot and the parquet files of a run stand in its root.
pub proof fn law_directories_of_a_run(s: SharedArgs)
    requires
        has_dirs(s),
    ensures
        s.snapshot_dir@ == crate::paths::join_of(s.root_dir@, "snapshot"@),
        s.parquet_dir@ == crate::paths::join_of(s.root_dir@, "parquet"@),
{
}
} // verus!
