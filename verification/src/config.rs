//! The config file: what its sections can say, and how a value is chosen among
//! the command line, a section, the defaults and what is built in.

use vstd::prelude::*;
use vstd::string::*;
use crate::pipeline::AllConfig;
use crate::schema::{SchemaFormat, SchemaFrom};
use crate::text::member;
use crate::text;
use crate::verify::{VerifyMetadataLevel, VerifyScope};

verus! {

/// Which reports are looked at.
#[derive(Clone, Copy, Debug, PartialEq, Eq, Structural)]
pub enum ReportSource {
    /// All of them.
    All,
    /// Those beside the converted corpus.
    Parquet,
    /// Those beside the downloaded snapshot.
    Download,
}

/// What holds for every command unless its own section says otherwise.
#[derive(Debug)]
pub struct ConfigDefaults {
    pub root_dir: Option<String>,
    pub dataset: Option<String>,
    pub workers: Option<usize>,
    pub duckdb_bin: Option<String>,
    pub profile: Option<String>,
    pub max_memory_mb: Option<usize>,
    pub progress: Option<bool>,
    pub state_flush_every: Option<usize>,
}

/// The section `convert`.
#[derive(Debug)]
pub struct ConvertConfig {
    pub root_dir: Option<String>,
    pub dataset: Option<String>,
    pub workers: Option<usize>,
    pub duckdb_bin: Option<String>,
    pub profile: Option<String>,
    pub max_memory_mb: Option<usize>,
    pub progress: Option<bool>,
    pub state_flush_every: Option<usize>,
    pub row_group_rows: Option<usize>,
    pub batch_rows: Option<usize>,
    pub compression: Option<String>,
    pub sample_size: Option<usize>,
    pub seed: Option<u64>,
    pub refresh_cache: Option<bool>,
    pub skip_disk_check: Option<bool>,
    pub split_size: Option<String>,
    pub split_temp_dir: Option<String>,
}

/// The section `verify_convert`.
#[derive(Debug)]
pub struct VerifyConfig {
    pub root_dir: Option<String>,
    pub dataset: Option<String>,
    pub workers: Option<usize>,
    pub duckdb_bin: Option<String>,
    pub max_memory_mb: Option<usize>,
    pub progress: Option<bool>,
    pub state_flush_every: Option<usize>,
    pub scope: Option<VerifyScope>,
    pub metadata_level: Option<VerifyMetadataLevel>,
    pub file_sample_n: Option<usize>,
    pub seed: Option<u64>,
}

/// The section `schema`.
#[derive(Debug)]
pub struct SchemaConfig {
    pub root_dir: Option<String>,
    pub dataset: Option<String>,
    pub workers: Option<usize>,
    pub duckdb_bin: Option<String>,
    pub max_memory_mb: Option<usize>,
    pub state_flush_every: Option<usize>,
    pub from: Option<SchemaFrom>,
    pub format: Option<SchemaFormat>,
    pub diff_with: Option<SchemaFrom>,
    pub output: Option<String>,
    pub sample_size: Option<usize>,
    pub refresh_cache: Option<bool>,
}

/// The section `index`.
#[derive(Debug)]
pub struct IndexConfig {
    pub root_dir: Option<String>,
    pub dataset: Option<String>,
    pub workers: Option<usize>,
    pub duckdb_bin: Option<String>,
    pub max_memory_mb: Option<usize>,
    pub progress: Option<bool>,
    pub state_flush_every: Option<usize>,
    pub index_file: Option<String>,
    pub overwrite: Option<bool>,
}

/// The section `extract`.
#[derive(Debug)]
pub struct ExtractConfig {
    pub root_dir: Option<String>,
    pub dataset: Option<String>,
    pub workers: Option<usize>,
    pub duckdb_bin: Option<String>,
    pub max_memory_mb: Option<usize>,
    pub progress: Option<bool>,
    pub state_flush_every: Option<usize>,
    pub ids: Option<String>,
    pub output: Option<String>,
}

/// The section `repair_convert`.
#[derive(Debug)]
pub struct RepairConfig {
    pub root_dir: Option<String>,
    pub dataset: Option<String>,
    pub workers: Option<usize>,
    pub duckdb_bin: Option<String>,
    pub profile: Option<String>,
    pub max_memory_mb: Option<usize>,
    pub progress: Option<bool>,
    pub state_flush_every: Option<usize>,
    pub from_verify_report: Option<String>,
}

/// The section `download`.
#[derive(Debug)]
pub struct DownloadConfig {
    pub root_dir: Option<String>,
    pub s3_uri: Option<String>,
    pub dataset: Option<String>,
    pub progress: Option<bool>,
    pub state_flush_every: Option<usize>,
    pub aws_bin: Option<String>,
    pub endpoint_url: Option<String>,
    pub region: Option<String>,
    pub profile_name: Option<String>,
    pub no_sign_request: Option<bool>,
    pub signed: Option<bool>,
    pub delete_files: Option<bool>,
    pub no_delete: Option<bool>,
    pub skip_disk_check: Option<bool>,
}

/// The section `verify_download`.
#[derive(Debug)]
pub struct ValidateDownloadConfig {
    pub root_dir: Option<String>,
    pub s3_uri: Option<String>,
    pub dataset: Option<String>,
    pub workers: Option<usize>,
    pub progress: Option<bool>,
    pub state_flush_every: Option<usize>,
    pub aws_bin: Option<String>,
    pub endpoint_url: Option<String>,
    pub region: Option<String>,
    pub profile_name: Option<String>,
    pub no_sign_request: Option<bool>,
    pub signed: Option<bool>,
    pub check_extra: Option<bool>,
}

/// The section `verify_index`.
#[derive(Debug)]
pub struct VerifyIndexConfig {
    pub root_dir: Option<String>,
    pub dataset: Option<String>,
    pub workers: Option<usize>,
    pub duckdb_bin: Option<String>,
    pub max_memory_mb: Option<usize>,
    pub progress: Option<bool>,
    pub index_file: Option<String>,
}

/// The section `report`.
#[derive(Debug)]
pub struct ReportConfig {
    pub root_dir: Option<String>,
    pub source: Option<ReportSource>,
    pub command: Option<String>,
    pub latest: Option<bool>,
    pub summary: Option<bool>,
    pub full: Option<bool>,
}

/// The section `prune_reports`.
#[derive(Debug)]
pub struct PruneReportsConfig {
    pub root_dir: Option<String>,
    pub source: Option<ReportSource>,
    pub command: Option<String>,
    pub keep_per_command: Option<usize>,
    pub dry_run: Option<bool>,
}

/// The section `progress`.
#[derive(Debug)]
pub struct ProgressConfig {
    pub root_dir: Option<String>,
    pub command: Option<String>,
    pub dataset: Option<String>,
    pub interval_sec: Option<u64>,
    pub watch: Option<bool>,
    pub json: Option<bool>,
}

/// The section `check`.
#[derive(Debug)]
pub struct CheckConfig {
    pub root_dir: Option<String>,
    pub dataset: Option<String>,
    pub workers: Option<usize>,
    pub duckdb_bin: Option<String>,
    pub aws_bin: Option<String>,
    pub s3_uri: Option<String>,
    pub endpoint_url: Option<String>,
    pub region: Option<String>,
    pub profile_name: Option<String>,
    pub no_sign_request: Option<bool>,
    pub signed: Option<bool>,
    pub max_memory_mb: Option<usize>,
    pub precise: Option<bool>,
    pub strict: Option<bool>,
    pub json: Option<bool>,
}

/// Defaults that says nothing.
pub open spec fn no_config_defaults() -> ConfigDefaults {
    ConfigDefaults {
        root_dir: None,
        dataset: None,
        workers: None,
        duckdb_bin: None,
        profile: None,
        max_memory_mb: None,
        progress: None,
        state_flush_every: None,
    }
}

/// Makes it.
pub fn empty_config_defaults() -> (r: ConfigDefaults)
    ensures
        r == no_config_defaults(),
{
    ConfigDefaults {
        root_dir: None,
        dataset: None,
        workers: None,
        duckdb_bin: None,
        profile: None,
        max_memory_mb: None,
        progress: None,
        state_flush_every: None,
    }
}

/// A section `convert` that says nothing.
pub open spec fn no_convert_config() -> ConvertConfig {
    ConvertConfig {
        root_dir: None,
        dataset: None,
        workers: None,
        duckdb_bin: None,
        profile: None,
        max_memory_mb: None,
        progress: None,
        state_flush_every: None,
        row_group_rows: None,
        batch_rows: None,
        compression: None,
        sample_size: None,
        seed: None,
        refresh_cache: None,
        skip_disk_check: None,
        split_size: None,
        split_temp_dir: None,
    }
}

/// Makes it.
pub fn empty_convert_config() -> (r: ConvertConfig)
    ensures
        r == no_convert_config(),
{
    ConvertConfig {
        root_dir: None,
        dataset: None,
        workers: None,
        duckdb_bin: None,
        profile: None,
        max_memory_mb: None,
        progress: None,
        state_flush_every: None,
        row_group_rows: None,
        batch_rows: None,
        compression: None,
        sample_size: None,
        seed: None,
        refresh_cache: None,
        skip_disk_check: None,
        split_size: None,
        split_temp_dir: None,
    }
}

/// A section `verify_convert` that says nothing.
pub open spec fn no_verify_config() -> VerifyConfig {
    VerifyConfig {
        root_dir: None,
        dataset: None,
        workers: None,
        duckdb_bin: None,
        max_memory_mb: None,
        progress: None,
        state_flush_every: None,
        scope: None,
        metadata_level: None,
        file_sample_n: None,
        seed: None,
    }
}

/// Makes it.
pub fn empty_verify_config() -> (r: VerifyConfig)
    ensures
        r == no_verify_config(),
{
    VerifyConfig {
        root_dir: None,
        dataset: None,
        workers: None,
        duckdb_bin: None,
        max_memory_mb: None,
        progress: None,
        state_flush_every: None,
        scope: None,
        metadata_level: None,
        file_sample_n: None,
        seed: None,
    }
}

/// A section `schema` that says nothing.
pub open spec fn no_schema_config() -> SchemaConfig {
    SchemaConfig {
        root_dir: None,
        dataset: None,
        workers: None,
        duckdb_bin: None,
        max_memory_mb: None,
        state_flush_every: None,
        from: None,
        format: None,
        diff_with: None,
        output: None,
        sample_size: None,
        refresh_cache: None,
    }
}

/// Makes it.
pub fn empty_schema_config() -> (r: SchemaConfig)
    ensures
        r == no_schema_config(),
{
    SchemaConfig {
        root_dir: None,
        dataset: None,
        workers: None,
        duckdb_bin: None,
        max_memory_mb: None,
        state_flush_every: None,
        from: None,
        format: None,
        diff_with: None,
        output: None,
        sample_size: None,
        refresh_cache: None,
    }
}

/// A section `index` that says nothing.
pub open spec fn no_index_config() -> IndexConfig {
    IndexConfig {
        root_dir: None,
        dataset: None,
        workers: None,
        duckdb_bin: None,
        max_memory_mb: None,
        progress: None,
        state_flush_every: None,
        index_file: None,
        overwrite: None,
    }
}

/// Makes it.
pub fn empty_index_config() -> (r: IndexConfig)
    ensures
        r == no_index_config(),
{
    IndexConfig {
        root_dir: None,
        dataset: None,
        workers: None,
        duckdb_bin: None,
        max_memory_mb: None,
        progress: None,
        state_flush_every: None,
        index_file: None,
        overwrite: None,
    }
}

/// A section `extract` that says nothing.
pub open spec fn no_extract_config() -> ExtractConfig {
    ExtractConfig {
        root_dir: None,
        dataset: None,
        workers: None,
        duckdb_bin: None,
        max_memory_mb: None,
        progress: None,
        state_flush_every: None,
        ids: None,
        output: None,
    }
}

/// Makes it.
pub fn empty_extract_config() -> (r: ExtractConfig)
    ensures
        r == no_extract_config(),
{
    ExtractConfig {
        root_dir: None,
        dataset: None,
        workers: None,
        duckdb_bin: None,
        max_memory_mb: None,
        progress: None,
        state_flush_every: None,
        ids: None,
        output: None,
    }
}

/// A section `repair_convert` that says nothing.
pub open spec fn no_repair_config() -> RepairConfig {
    RepairConfig {
        root_dir: None,
        dataset: None,
        workers: None,
        duckdb_bin: None,
        profile: None,
        max_memory_mb: None,
        progress: None,
        state_flush_every: None,
        from_verify_report: None,
    }
}

/// Makes it.
pub fn empty_repair_config() -> (r: RepairConfig)
    ensures
        r == no_repair_config(),
{
    RepairConfig {
        root_dir: None,
        dataset: None,
        workers: None,
        duckdb_bin: None,
        profile: None,
        max_memory_mb: None,
        progress: None,
        state_flush_every: None,
        from_verify_report: None,
    }
}

/// A section `download` that says nothing.
pub open spec fn no_download_config() -> DownloadConfig {
    DownloadConfig {
        root_dir: None,
        s3_uri: None,
        dataset: None,
        progress: None,
        state_flush_every: None,
        aws_bin: None,
        endpoint_url: None,
        region: None,
        profile_name: None,
        no_sign_request: None,
        signed: None,
        delete_files: None,
        no_delete: None,
        skip_disk_check: None,
    }
}

/// Makes it.
pub fn empty_download_config() -> (r: DownloadConfig)
    ensures
        r == no_download_config(),
{
    DownloadConfig {
        root_dir: None,
        s3_uri: None,
        dataset: None,
        progress: None,
        state_flush_every: None,
        aws_bin: None,
        endpoint_url: None,
        region: None,
        profile_name: None,
        no_sign_request: None,
        signed: None,
        delete_files: None,
        no_delete: None,
        skip_disk_check: None,
    }
}

/// A section `verify_download` that says nothing.
pub open spec fn no_validate_download_config() -> ValidateDownloadConfig {
    ValidateDownloadConfig {
        root_dir: None,
        s3_uri: None,
        dataset: None,
        workers: None,
        progress: None,
        state_flush_every: None,
        aws_bin: None,
        endpoint_url: None,
        region: None,
        profile_name: None,
        no_sign_request: None,
        signed: None,
        check_extra: None,
    }
}

/// Makes it.
pub fn empty_validate_download_config() -> (r: ValidateDownloadConfig)
    ensures
        r == no_validate_download_config(),
{
    ValidateDownloadConfig {
        root_dir: None,
        s3_uri: None,
        dataset: None,
        workers: None,
        progress: None,
        state_flush_every: None,
        aws_bin: None,
        endpoint_url: None,
        region: None,
        profile_name: None,
        no_sign_request: None,
        signed: None,
        check_extra: None,
    }
}

/// A section `verify_index` that says nothing.
pub open spec fn no_verify_index_config() -> VerifyIndexConfig {
    VerifyIndexConfig {
        root_dir: None,
        dataset: None,
        workers: None,
        duckdb_bin: None,
        max_memory_mb: None,
        progress: None,
        index_file: None,
    }
}

/// Makes it.
pub fn empty_verify_index_config() -> (r: VerifyIndexConfig)
    ensures
        r == no_verify_index_config(),
{
    VerifyIndexConfig {
        root_dir: None,
        dataset: None,
        workers: None,
        duckdb_bin: None,
        max_memory_mb: None,
        progress: None,
        index_file: None,
    }
}

/// A section `report` that says nothing.
pub open spec fn no_report_config() -> ReportConfig {
    ReportConfig {
        root_dir: None,
        source: None,
        command: None,
        latest: None,
        summary: None,
        full: None,
    }
}

/// Makes it.
pub fn empty_report_config() -> (r: ReportConfig)
    ensures
        r == no_report_config(),
{
    ReportConfig {
        root_dir: None,
        source: None,
        command: None,
        latest: None,
        summary: None,
        full: None,
    }
}

/// A section `prune_reports` that says nothing.
pub open spec fn no_prune_reports_config() -> PruneReportsConfig {
    PruneReportsConfig {
        root_dir: None,
        source: None,
        command: None,
        keep_per_command: None,
        dry_run: None,
    }
}

/// Makes it.
pub fn empty_prune_reports_config() -> (r: PruneReportsConfig)
    ensures
        r == no_prune_reports_config(),
{
    PruneReportsConfig {
        root_dir: None,
        source: None,
        command: None,
        keep_per_command: None,
        dry_run: None,
    }
}

/// A section `progress` that says nothing.
pub open spec fn no_progress_config() -> ProgressConfig {
    ProgressConfig {
        root_dir: None,
        command: None,
        dataset: None,
        interval_sec: None,
        watch: None,
        json: None,
    }
}

/// Makes it.
pub fn empty_progress_config() -> (r: ProgressConfig)
    ensures
        r == no_progress_config(),
{
    ProgressConfig {
        root_dir: None,
        command: None,
        dataset: None,
        interval_sec: None,
        watch: None,
        json: None,
    }
}

/// A section `check` that says nothing.
pub open spec fn no_check_config() -> CheckConfig {
    CheckConfig {
        root_dir: None,
        dataset: None,
        workers: None,
        duckdb_bin: None,
        aws_bin: None,
        s3_uri: None,
        endpoint_url: None,
        region: None,
        profile_name: None,
        no_sign_request: None,
        signed: None,
        max_memory_mb: None,
        precise: None,
        strict: None,
        json: None,
    }
}

/// Makes it.
pub fn empty_check_config() -> (r: CheckConfig)
    ensures
        r == no_check_config(),
{
    CheckConfig {
        root_dir: None,
        dataset: None,
        workers: None,
        duckdb_bin: None,
        aws_bin: None,
        s3_uri: None,
        endpoint_url: None,
        region: None,
        profile_name: None,
        no_sign_request: None,
        signed: None,
        max_memory_mb: None,
        precise: None,
        strict: None,
        json: None,
    }
}

/// A config file.
#[derive(Debug)]
pub struct AppConfig {
    pub defaults: Option<ConfigDefaults>,
    pub all: Option<AllConfig>,
    pub convert: Option<ConvertConfig>,
    pub verify_convert: Option<VerifyConfig>,
    pub schema: Option<SchemaConfig>,
    pub index: Option<IndexConfig>,
    pub extract: Option<ExtractConfig>,
    pub repair_convert: Option<RepairConfig>,
    pub download: Option<DownloadConfig>,
    pub verify_download: Option<ValidateDownloadConfig>,
    pub verify_index: Option<VerifyIndexConfig>,
    pub report: Option<ReportConfig>,
    pub prune_reports: Option<PruneReportsConfig>,
    pub progress: Option<ProgressConfig>,
    pub check: Option<CheckConfig>,
}

/// The options that the command line set, by their names.
#[derive(Debug)]
pub struct Explicit {
    names: Vec<String>,
}

impl View for Explicit {
    type V = Set<Seq<char>>;

    closed spec fn view(&self) -> Set<Seq<char>> {
        text::texts(self.names@).to_set()
    }
}

impl Explicit {
    /// Nothing was set.
    pub fn new() -> (r: Self)
        ensures
            r@ == Set::<Seq<char>>::empty(),
    {
        let r = Explicit { names: Vec::new() };
        proof {
            assert(text::texts(r.names@) =~= Seq::<Seq<char>>::empty());
            assert(r@ =~= Set::<Seq<char>>::empty());
        }
        r
    }

    /// Notes that `name` was set.
    pub fn insert(&mut self, name: &str)
        ensures
            final(self)@ == old(self)@.insert(name@),
    {
        let ghost before = self.names@;
        self.names.push(name.to_owned());
        proof {
            let all = text::texts(self.names@);
            assert(all =~= text::texts(before).push(name@));
            assert forall|t: Seq<char>|
                #![auto]
                all.contains(t) == (text::texts(before).contains(t) || t == name@) by {
                if text::texts(before).contains(t) {
                    let i = text::texts(before).index_of(t);
                    assert(all[i] == t);
                }
                assert(all[all.len() - 1] == name@);
            }
            assert(self@ =~= old(self)@.insert(name@));
        }
    }

    /// Whether `id` was set.
    pub fn has(&self, id: &str) -> (r: bool)
        ensures
            r == self@.contains(id@),
    {
        member(&self.names, id)
    }
}

/// The value of highest precedence: from the command line, else from the section,
/// else from the defaults, else what is built in.
pub open spec fn chosen<T>(explicit: bool, set: T, section: Option<T>, defaults: Option<T>) -> T {
    if explicit {
        set
    } else {
        match section {
            Some(v) => v,
            None => match defaults {
                Some(v) => v,
                None => set,
            },
        }
    }
}

/// As [`chosen`], of a setting that can be absent.
pub open spec fn chosen_opt<T>(
    explicit: bool,
    set: Option<T>,
    section: Option<T>,
    defaults: Option<T>,
) -> Option<T> {
    if explicit {
        set
    } else if section is Some {
        section
    } else if defaults is Some {
        defaults
    } else {
        set
    }
}

/// What is left of a setting that can be absent where a layer that is there decides
/// alone whether it is.
pub open spec fn cleared<T>(explicit: bool, present: bool, set: Option<T>) -> Option<T> {
    if !explicit && present {
        None
    } else {
        set
    }
}

/// What the command line sets, no config file changes.
pub proof fn law_command_line_wins<T>(set: T, section: Option<T>, defaults: Option<T>)
    ensures
        chosen(true, set, section, defaults) == set,
{
}

/// What a section sets, the defaults do not change.
pub proof fn law_section_wins<T>(set: T, section: T, defaults: Option<T>)
    ensures
        chosen(false, set, Some(section), defaults) == section,
{
}

/// What neither the section nor the defaults speak of stays as it is.
pub proof fn law_silence_changes_nothing<T>(explicit: bool, set: T)
    ensures
        chosen(explicit, set, None, None) == set,
{
}

/// A setting that is absent unless something sets it follows the same precedence,
/// whether or not a layer that is silent on it clears it.
pub proof fn law_clearing_changes_nothing<T>(
    explicit: bool,
    present: bool,
    set: Option<T>,
    section: Option<T>,
    defaults: Option<T>,
)
    requires
        !explicit ==> set is None,
    ensures
        chosen_opt(explicit, cleared(explicit, present, set), section, defaults) == chosen_opt(
            explicit,
            set,
            section,
            defaults,
        ),
{
}

/// Chooses a setting.
pub fn choose_value<T: Copy>(set: T, explicit: bool, section: &Option<T>, defaults: &Option<T>) -> (r:
    T)
    ensures
        r == chosen(explicit, set, *section, *defaults),
{
    if explicit {
        set
    } else {
        match section {
            Some(v) => *v,
            None => match defaults {
                Some(v) => *v,
                None => set,
            },
        }
    }
}

/// Chooses a setting that can be absent.
pub fn choose_opt<T: Copy>(
    set: Option<T>,
    explicit: bool,
    section: &Option<T>,
    defaults: &Option<T>,
) -> (r: Option<T>)
    ensures
        r == chosen_opt(explicit, set, *section, *defaults),
{
    if explicit {
        set
    } else if section.is_some() {
        *section
    } else if defaults.is_some() {
        *defaults
    } else {
        set
    }
}

/// Chooses a text.
pub fn choose_text(
    set: String,
    explicit: bool,
    section: &Option<String>,
    defaults: &Option<String>,
) -> (r: String)
    ensures
        r == chosen(explicit, set, *section, *defaults),
{
    if explicit {
        set
    } else {
        match section {
            Some(v) => v.clone(),
            None => match defaults {
                Some(v) => v.clone(),
                None => set,
            },
        }
    }
}

/// Chooses a text that can be absent.
pub fn choose_opt_text(
    set: Option<String>,
    explicit: bool,
    section: &Option<String>,
    defaults: &Option<String>,
) -> (r: Option<String>)
    ensures
        r == chosen_opt(explicit, set, *section, *defaults),
{
    if explicit {
        set
    } else {
        match section {
            Some(v) => Some(v.clone()),
            None => match defaults {
                Some(v) => Some(v.clone()),
                None => set,
            },
        }
    }
}

/// Clears a setting that a layer decides alone.
pub fn clear<T>(set: Option<T>, explicit: bool, present: bool) -> (r: Option<T>)
    ensures
        r == cleared(explicit, present, set),
{
    if !explicit && present {
        None
    } else {
        set
    }
}

} // verus!
