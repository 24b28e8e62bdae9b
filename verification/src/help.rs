//! The help texts of the commands.

use vstd::prelude::*;

verus! {

/// The help on `cli`.
pub const CLI_LONG_ABOUT: &'static str = "\
Standalone OpenAlex snapshot tooling.

Argument precedence (highest wins):
  1) explicit CLI arguments
  2) config subcommand section values
  3) config defaults section values
  4) built-in defaults

This binary provides:
- config: create or verify YAML configuration
- all: run full config-driven pipeline
- download: sync OpenAlex snapshot from S3-compatible source (AWS CLI wrapper)
- verify_download: strict integrity validation for downloaded snapshot
- convert: snapshot .json.gz -> parquet
- verify_convert: structural and file-level data checks between snapshot and parquet
- schema: inspect schema from source/cache/parquet, including arrow-r JSON
- verify_schema: assert schema parity across schema sources
- index: build *_id_idx.parquet lookup index
- extract: extract rows by OpenAlex IDs using per-dataset indexes
- verify_index: validate index integrity and coverage
- repair_convert: re-convert files that failed prior verify runs
- report: view stored reports
- prune-reports: remove old report files
- progress: monitor live status from reports/logs
- skills: create AI skills starter pack under root_dir/skills
- check: run dependency/path/disk/memory preflight checks

convert (detailed):
  - reads <snapshot_dir>/data/<dataset>/**/*.gz
  - writes <parquet_dir>/<dataset>/... with preserved relative structure
  - infers unified dataset schema and uses cache
  - verification is handled separately by verify_convert

verify_convert (detailed):
  - checks .gz -> .parquet mapping and folder structure parity
  - checks per-file row count parity

schema (detailed):
  - supports sources: auto|source|cache|parquet
  - supports formats: table|json|yaml|arrow-r
  - supports source-vs-source diff via --diff-with

verify_schema (detailed):
  - compares schema sources and exits non-zero on differences
  - default comparison: source vs parquet

index (detailed):
  - stage 1: per-file shard index build (resumable)
  - stage 2: shard combine into *_id_idx.parquet
  - outputs columns: id, id_block, parquet_file, file_row_number

extract (detailed):
  - reads IDs from CSV
  - routes IDs by entity prefix / taxonomy namespace
  - resolves files via *_id_idx.parquet
  - writes one parquet output per dataset

repair_convert (detailed):
  - reads a verify report JSON
  - selects file-level verify failures (phase=verify_metrics)
  - deletes failed parquet files and re-converts only those files
  - runs targeted re-verify for repaired files

download/verify_download (detailed):
  - default sync command:
    aws s3 sync --delete s3://openalex ./snapshot --no-sign-request
  - disk preflight:
    required free space = remote manifest size + 10%
  - strict validation compares remote manifest vs local files
  - validates file presence, size parity, and gzip integrity for .json.gz

Examples:
  openalex-snapshot convert --root-dir /data --dataset works
  openalex-snapshot verify_convert --root-dir /data --dataset works --scope dataset --metadata-level both
  openalex-snapshot schema --root-dir /data --dataset works --format arrow-r
  openalex-snapshot verify_schema --root-dir /data --dataset works
  openalex-snapshot index --root-dir /data --dataset works --profile balanced
  openalex-snapshot extract --root-dir /data --ids /data/ids.csv --output /data/extract.parquet
  openalex-snapshot verify_index --root-dir /data --dataset works
  openalex-snapshot repair_convert --root-dir /data --from-verify-report /data/openalex-snapshot_metadata/reports/verify_convert-123456.json
  openalex-snapshot report --root-dir /data --latest
  openalex-snapshot prune-reports --root-dir /data
  openalex-snapshot skills --root-dir /data
  openalex-snapshot check --root-dir /data --dataset all
  openalex-snapshot download --root-dir /data
  openalex-snapshot verify_download --root-dir /data
  openalex-snapshot convert --root-dir /data --dataset all
  openalex-snapshot verify_convert --root-dir /data --dataset all --scope snapshot
  openalex-snapshot progress --root-dir /data
  openalex-snapshot config --create complete
  openalex-snapshot config --create safe
  openalex-snapshot config --create fast
  openalex-snapshot all --config ./openalex-snapshot.yaml --retry 2
";

/// The help on `repair`.
pub const REPAIR_LONG_ABOUT: &'static str = "\
Repair parquet outputs based on verify report failures.

Behavior:
1) Reads a verify report JSON from --from-verify-report
2) Selects actionable file failures with phase=verify_metrics
3) Deletes mapped parquet output files (if present)
4) Re-converts only selected source .gz files to parquet
5) Re-verifies repaired files and records outcome

Selection rules:
  - only failures with phase=verify_metrics are eligible
  - requires actionable source/output paths (or resolvable rel_path)
  - deduplicates by output parquet file path
  - optional --dataset filter limits selected repairs

Output:
  - shared run report schema written to:
    <root>/openalex-snapshot_metadata/reports/repair_convert-<timestamp>.json
  - non-zero exit if any repair/delete/re-verify failures remain
";

/// The help on `download`.
pub const DOWNLOAD_LONG_ABOUT: &'static str = "\
Download OpenAlex snapshot via AWS CLI sync.

Defaults (zero-config):
  aws s3 sync --delete s3://openalex ./snapshot --no-sign-request
  dataset scope: all
  disk preflight: remote manifest size + 10% free space required

Optional overrides:
  --root-dir, --s3-uri, --endpoint-url, --region, --aws-bin
  --signed/--no-sign-request
  --delete/--no-delete
  --dataset <name|all>
";

/// The help on `validate-download`.
pub const VALIDATE_DOWNLOAD_LONG_ABOUT: &'static str = "\
Strictly validate downloaded snapshot integrity.

Validation checks:
  - remote manifest fetch via aws s3api list-objects-v2
  - missing local files
  - local size mismatch
  - unexpected local files under validated scope
  - gzip integrity check for every .json.gz

Defaults:
  root_dir: .
  s3_uri: s3://openalex
  dataset: all
  no-sign-request: true
";

/// The help on `verify-index`.
pub const VERIFY_INDEX_LONG_ABOUT: &'static str = "\
Verify index integrity for a parquet corpus index file.

Checks:
  - index parquet exists and is readable
  - required columns exist: id, id_block, parquet_file, file_row_number
  - index row count matches total rows across corpus parquet files
  - parquet_file references in index resolve to existing files
";

/// The help on `extract`.
pub const EXTRACT_LONG_ABOUT: &'static str = "\
Extract records by OpenAlex IDs using parquet indexes.

Behavior:
  - reads IDs from CSV
  - routes IDs by entity prefix or taxonomy namespace
  - uses <root>/parquet/<dataset>_id_idx.parquet
  - writes <output_base>_<dataset>.parquet

Entity prefixes:
  W works, A authors, S sources, I institutions, T topics,
  K keywords, P publishers, F funders, G awards, C concepts (deprecated)

Taxonomy namespaces:
  institution-types, work-types, source-types, licenses,
  countries, continents, languages, domains, fields, subfields, sdgs
";

/// The help on `config`.
pub const CONFIG_LONG_ABOUT: &'static str = "\
Manage openalex-snapshot YAML configuration.

Modes:
  --create <complete|safe|fast>  Generate annotated config template
  --verify  Validate an existing config file strictly

Defaults:
  config path: ./openalex-snapshot.yaml

Argument precedence (highest wins):
  1) explicit CLI arguments
  2) config subcommand section values
  3) config defaults section values
  4) built-in defaults
";

/// The help on `report`.
pub const REPORT_LONG_ABOUT: &'static str = "\
View stored report files from parquet and/or download metadata roots.

By default this lists report summaries. Use --full to print JSON payloads.
Use --latest to show only newest report per command type.
";

/// The help on `prune-reports`.
pub const PRUNE_REPORTS_LONG_ABOUT: &'static str = "\
Prune old report files and keep only newest reports per command type.

Defaults:
  keep_per_command: 1
  source: all (parquet + download report roots)
";

/// The help on `progress`.
pub const PROGRESS_LONG_ABOUT: &'static str = "\
Monitor run progress from report and log files.

Behavior:
  - selects latest active run (unfinished report) by default
  - falls back to newest run with fresh logs in the last 5 minutes
  - shows totals, per-dataset summary, and latest log lines

Defaults:
  watch: true
  interval_sec: 2
";

/// The help on `skills`.
pub const SKILLS_LONG_ABOUT: &'static str = "\
Bootstrap AI skills scaffolding for this project.

Generated skills:
  - cli-operations/SKILL.md    command patterns and decision rules
  - pipeline-runbook/SKILL.md  end-to-end flow and orchestration
  - debug-and-recovery/SKILL.md  failure triage and OOM recovery
  - development/SKILL.md       build, test, deploy, architecture notes
  - release-and-docs/SKILL.md  release checklist and docs hygiene

Behavior:
  - creates <root_dir>/skills
  - default safe mode: create missing files only
  - use --overwrite to rewrite generated files
";

/// The help on `check`.
pub const CHECK_LONG_ABOUT: &'static str = "\
Run environment and capacity preflight checks.

Checks:
  - required binaries (aws for download; duckdb is bundled — no external binary needed)
  - root/snapshot/parquet/metadata path writability
  - download disk estimate from remote manifest (+10%)
  - convert disk estimate from source inventory (precise)
  - tuning/memory risk hints from profile/workers/memory

Exit behavior:
  - default: warn-only (non-zero only on hard failures)
  - --strict: non-zero on warnings and failures
";

/// The help on `all`.
pub const ALL_LONG_ABOUT: &'static str = "\
Run the end-to-end pipeline from config.

Behavior:
  - Requires explicit --config (no auto-discovery fallback)
  - Runs enabled stages from config in pipeline order
  - Applies bounded verify/repair loop controlled by --retry

Default stage order:
  1) download
  2) verify_download
  3) convert
  4) verify_convert
  5) repair_convert (loop action)
  6) index
  7) verify_index
";

/// The help on `index`.
pub const INDEX_LONG_ABOUT: &'static str = "\
Build a parquet lookup index for a parquet dataset corpus.

Behavior:
1) Stage 1 creates per-file shard indexes in <index_file>_tmp/
2) Stage 2 combines shards into a single <dataset>_id_idx.parquet

Index columns:
  id, id_block, parquet_file, file_row_number

Defaults:
  dataset: all
  corpus path: <root_dir>/parquet/<dataset>
  index path: <root_dir>/parquet/<dataset>_id_idx.parquet
  existing index: skip (use --overwrite to rebuild)
  --index-file is ignored with --dataset all

Profile / tuning:
  Profile controls the DuckDB memory budget per worker (80% of RAM × fraction,
  clamped to a min/max). Workers is only capped by 'safe'.

  profile    workers cap   memory fraction   memory range
  safe       max 2         15% of usable     1 – 8 GiB
  balanced   (none)        35% of usable     4 – 24 GiB
  fast       (none)        55% of usable     8 – 32 GiB

  Fallback when RAM cannot be detected: safe=2 GiB, balanced=6 GiB, fast=12 GiB.
  Set --max-memory-mb to override the profile memory calculation entirely.
";

/// The help on `convert`.
pub const CONVERT_LONG_ABOUT: &'static str = "\
Convert OpenAlex snapshot JSON.GZ files into parquet files.

Behavior:
1) Discovers source files under <root_dir>/snapshot/data/<dataset>/**/*.gz
2) Infers a unified schema per dataset (with cache + optional refresh)
3) Converts each source file to one parquet file
4) Preserves dataset-relative folder/file structure in output

Output:
  parquet root: <root_dir>/parquet
  dataset path: <root_dir>/parquet/<dataset>/...
  mapping: every input .gz maps to exactly one output .parquet
  optional: limit conversion to selected files via --input-file

Defaults:
  profile: safe
  memory: auto-detected from system RAM unless --max-memory-mb is provided
  disk preflight: requires at least 900 GiB free at <root_dir>/parquet

Profile / tuning:
  Profile controls the global DuckDB memory budget (shared across all in-process
  worker connections, 80% of RAM × fraction, clamped to a min/max range).
  Workers is only capped by 'safe'.

  profile    workers cap   memory fraction   memory range
  auto       (none)        65% of usable     4 – 32 GiB   (alias for balanced)
  safe       max 2         15% of usable     1 –  8 GiB
  balanced   (none)        65% of usable     4 – 32 GiB
  fast       (none)        80% of usable     8 – 48 GiB

  Fallback when RAM cannot be detected: safe=2 GiB, balanced=6 GiB, fast=12 GiB.
  Set --max-memory-mb to override the profile memory calculation entirely.
";

/// The help on `verify`.
pub const VERIFY_LONG_ABOUT: &'static str = "\
Verify snapshot/parquet consistency.

Checks include:
1) Structure parity:
   - .gz -> .parquet mapping exists for all expected files
   - relative folder structure is preserved
   - no unexpected extra parquet files for selected dataset(s)
2) Per-file data parity:
   - row count in each input .gz equals row count in mapped .parquet
Defaults:
  seed: 42

Scope:
  - file: sampled file-pair row-count checks
  - dataset: full structure + full file-pair row-count
  - snapshot: same as dataset, intended for --dataset all
";

/// The help on `verify-schema`.
pub const VERIFY_SCHEMA_LONG_ABOUT: &'static str = "\
Verify schema parity across schema sources.

Behavior:
  - loads left schema from --from
  - loads right schema from --diff-with
  - reports added/removed/changed fields
  - exits non-zero when any difference exists

Defaults:
  from: source
  diff-with: parquet
";

/// The help on `schema`.
pub const SCHEMA_LONG_ABOUT: &'static str = "\
Inspect and compare schemas.

Sources:
  source: infer from snapshot JSON.GZ
  cache: read cached source schema
  parquet: infer from parquet files
  auto: source > cache > parquet

Formats:
  table: human-readable overview
  json: machine-readable schema document
  yaml: machine-readable YAML representation
  arrow-r: stable JSON shape for R Arrow comparisons

Comparison:
  use --diff-with <source> to compare schema variants
  output reports added/removed fields and changed types

Defaults:
  from: auto
  format: table
  output: stdout

Cache contract:
  canonical cache artifact is .<dataset>_metadata/schemata/unified_schema.csv
  source_schema.json is optional derived metadata and is not authoritative
";

} // verus!
