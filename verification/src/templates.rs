//! Texts that the tool hands out: templates of a config file, and notes on how the
//! tool is worked with.

use vstd::prelude::*;
use vstd::string::*;
use crate::paths::join_path;
use crate::paths;

verus! {

/// Which template of a config file is asked for.
#[derive(Clone, Copy, Debug, PartialEq, Eq, Structural)]
pub enum ConfigTemplateMode {
    Complete,
    Safe,
    Fast,
}

/// A config file for a host with little memory.
pub const CONFIG_TEMPLATE_SAFE: &'static str = r#"# openalex-snapshot.yaml (safe)
# Minimal low-memory preset.
# Only profile-relevant overrides are set here.
# Everything else falls back to built-in defaults (or CLI).

defaults:
  # Keep root explicit so path model remains obvious.
  root_dir: .

  # Safe profile: conservative memory and throughput.
  profile: safe
  workers: 1

  # Optional explicit cap for constrained systems.
  # max_memory_mb: 4096
"#;

/// A config file for throughput.
pub const CONFIG_TEMPLATE_FAST: &'static str = r#"# openalex-snapshot.yaml (fast)
# Minimal high-throughput preset.
# Only profile-relevant overrides are set here.
# Everything else falls back to built-in defaults (or CLI).

defaults:
  # Keep root explicit so path model remains obvious.
  root_dir: .

  # Fast profile: favors throughput, may increase resource usage.
  profile: fast
  workers: 8

  # Optional explicit cap for high-memory hosts.
  # max_memory_mb: 16384
"#;

/// A config file that names every option.
pub const CONFIG_TEMPLATE_COMPLETE: &'static str = r#"# openalex-snapshot.yaml (complete)
# Full operational template for openalex-snapshot.
# This template is intentionally verbose and designed as living documentation.
# Read top-to-bottom once before first pipeline run.
#
# ---------------------------------------------------------------------------
# 0) Quick start (recommended)
# ---------------------------------------------------------------------------
# 1) Edit root_dir to your working location.
# 2) Keep profile/workers conservative until first successful full run.
# 3) Verify config:
#      openalex-snapshot config --verify --config ./openalex-snapshot.yaml
# 4) Run pipeline:
#      openalex-snapshot all --config ./openalex-snapshot.yaml --retry 2
#
# ---------------------------------------------------------------------------
# 1) How values are resolved
# ---------------------------------------------------------------------------
# Highest precedence wins:
#   1) explicit CLI flags
#   2) config file values (defaults + command section)
#   3) built-in defaults
#
# Example:
# - config sets workers: 4
# - CLI passes --workers 1
# -> effective workers = 1 for that run only.
#
# ---------------------------------------------------------------------------
# 2) Path model (root-centric)
# ---------------------------------------------------------------------------
# With root_dir="." the tool uses:
#   ./snapshot                         (download/source snapshot)
#   ./parquet                         (converted parquet outputs)
#   ./openalex-snapshot_metadata      (reports, logs, caches, manifests)
#
# Metadata is centralized under openalex-snapshot_metadata.
# Avoid editing metadata files manually unless debugging.
#
# ---------------------------------------------------------------------------
# 3) Pipeline order (all command)
# ---------------------------------------------------------------------------
#   1) download
#   2) verify_download
#   3) convert
#   4) verify_convert
#   5) repair_convert (only if verify_convert fails)
#   6) index
#   7) verify_index
#
# Stages can be disabled in `all:` for partial/local workflows.
#
# This is the default template mode for:
#   openalex-snapshot config --create

defaults:
  # ---------------------------------------------------------------------------
  # Global defaults
  # Applied to most commands unless overridden by command section and/or CLI.
  # ---------------------------------------------------------------------------

  # Global default root for root-based commands.
  # allowed values: any valid path
  root_dir: .

  # Default dataset scope — set once here, applies to all commands.
  # Use "all" or a single dataset name (works, authors, ...).
  # allowed values: all | <dataset-name>
  dataset: all

  # Shared runtime defaults — leave commented to use built-in auto mode.
  # allowed values: any valid executable path
  # duckdb_bin: /usr/local/bin/duckdb
  # Profile controls DuckDB memory budget and worker count.
  # safe (default) — single-pass, single worker, generous per-worker memory
  #   (45% of usable RAM, clamped 8-24 GiB).  Reliable on any host; uses DuckDB
  #   spill-to-disk for files larger than the memory budget.
  # stratified-36 — multi-pass; partitions files by gz size and runs one rayon
  #   pass per non-empty stratum (4-/3-/2-/1-workers on <400/400-600/600-800/800+ MB).
  #   Empirically tuned for ~36 GB RAM hosts.
  # Custom profiles for other RAM tiers go in a sibling `openalex-snapshot.profiles.yaml`
  # (auto-discovered) — see `docs/commands/convert.md` for the schema.
  # allowed values: safe | stratified-36 | <user-defined>
  # profile: safe
  # Workers: 0 (default) = auto-detect per profile. `--workers N` on a stratified
  # profile collapses it into a single flat pass.
  # Override only if you want to pin a specific value.
  # allowed values: integer >= 0 (0 = auto)
  # workers: 0
  # allowed values: integer >= 1
  # max_memory_mb: 8192
  # allowed values: true | false
  progress: true

  # Crash-resilience: flush state/report every N items.
  # allowed values: integer >= 1
  state_flush_every: 25

all:
  # ---------------------------------------------------------------------------
  # Full pipeline orchestrator (openalex-snapshot all --config ...)
  # ---------------------------------------------------------------------------

  # Max number of repair_convert attempts in verify/repair loop.
  # 0 means: run verify_convert once and fail immediately on errors.
  # allowed values: integer >= 0
  retry: 1

  # Stage toggles (default pipeline shown below).
  # Disable stages you do not want in `all` (e.g., skip download for local runs).
  # allowed values: true | false
  enable_download: true
  # allowed values: true | false
  enable_verify_download: true
  # allowed values: true | false
  enable_convert: true
  # allowed values: true | false
  enable_verify_convert: true
  # allowed values: true | false
  enable_repair_convert: true
  # allowed values: true | false
  enable_index: true
  # allowed values: true | false
  enable_verify_index: true

  # Skip disk space checks for all stages that support it (download, convert).
  # Use when disk check estimates are too conservative for partial dataset runs.
  # allowed values: true | false
  # skip_disk_check: false

download:
  # ---------------------------------------------------------------------------
  # Download snapshot from OpenAlex S3
  # Uses AWS CLI wrapper behavior; defaults follow OpenAlex guidance.
  # ---------------------------------------------------------------------------
  # Shared-default overrides supported here (optional, uncomment to override defaults):
  # root_dir: .
  # dataset: all
  # progress: true
  # state_flush_every: 25

  # Defaults mirror OpenAlex recommendation.
  # allowed values: any valid path
  root_dir: .
  # allowed values: any valid s3:// URI
  s3_uri: s3://openalex
  # allowed values: any valid executable path
  aws_bin: aws
  # allowed values: any valid URL
  # endpoint_url: https://s3.amazonaws.com
  # allowed values: any valid AWS region string
  # region: us-east-1
  # allowed values: any configured AWS profile name
  # profile_name: default
  # allowed values: true | false
  no_sign_request: true
  # allowed values: true | false
  signed: false
  # allowed values: true | false
  delete_files: true
  # allowed values: true | false
  no_delete: false

  # Skip free disk space preflight check for download.
  # allowed values: true | false
  # skip_disk_check: false

verify_download:
  # ---------------------------------------------------------------------------
  # Verify downloaded snapshot against remote manifest + gzip integrity
  # ---------------------------------------------------------------------------
  # Shared-default overrides supported here (optional, uncomment to override defaults):
  # root_dir: .
  # dataset: all
  # workers: 4
  # progress: true
  # state_flush_every: 25

  # allowed values: any valid path
  root_dir: .
  # allowed values: any valid s3:// URI
  # s3_uri: s3://openalex
  # allowed values: any valid executable path
  aws_bin: aws
  # allowed values: true | false
  no_sign_request: true
  # allowed values: true | false
  signed: false
  # allowed values: true | false
  check_extra: true

convert:
  # ---------------------------------------------------------------------------
  # Convert snapshot JSON.GZ files into parquet (core data build step)
  # ---------------------------------------------------------------------------
  # Shared-default overrides supported here (optional, uncomment to override defaults):
  # root_dir: .
  # dataset: all
  # workers: 4
  # duckdb_bin: /usr/local/bin/duckdb
  # profile: safe
  # max_memory_mb: 8192
  # progress: true
  # state_flush_every: 25

  # Parquet write behavior.
  # row_group_rows:
  #   Larger row groups can improve scan speed but increase write memory pressure.
  # batch_rows:
  #   Controls chunk size for conversion internals; smaller can reduce peak memory.
  # allowed values: integer >= 1
  row_group_rows: 100000
  # allowed values: integer >= 1
  batch_rows: 5000
  # allowed values: snappy | zstd | gzip | uncompressed
  compression: snappy

  # Schema inference behavior.
  # sample_size controls how many files are sampled during schema inference.
  # refresh_cache forces schema cache rebuild.
  # allowed values: integer >= 1
  sample_size: 100
  # allowed values: true | false
  refresh_cache: false

  # allowed values: integer >= 0
  seed: 42

  # Skip free disk space preflight check for conversion.
  # Useful when converting a single small dataset where the global estimate is too conservative.
  # allowed values: true | false
  # skip_disk_check: false

  # Pre-split large gz files before converting.
  # Files larger than split_size are decompressed and split into chunks of this size,
  # then each chunk is converted separately.
  # 0 (default) = disabled: in-process DuckDB handles large files via streaming
  # and memory-limit spill without needing pre-splitting.
  # Only set this if a specific file causes DuckDB to OOM even with memory limits.
  # Accepts human-readable sizes: 0 | 128mb | 256mb | 512mb | 1gb | 1gib etc.
  # allowed values: 0 (disabled) | <size with suffix>
  split_size: 0
  # Directory for temporary split gz chunks. Must be on the same filesystem as parquet_dir
  # to allow efficient renames. Defaults to <parquet_dir>/.split_tmp if not set.
  # allowed values: any valid path
  # split_temp_dir: /Volumes/openalex/.split_tmp

verify_convert:
  # ---------------------------------------------------------------------------
  # Verify converted parquet against snapshot source (integrity gate)
  # ---------------------------------------------------------------------------
  # Shared-default overrides supported here (optional, uncomment to override defaults):
  # root_dir: .
  # dataset: all
  # workers: 4
  # duckdb_bin: /usr/local/bin/duckdb
  # max_memory_mb: 8192
  # progress: true
  # state_flush_every: 25

  # Verification scope:
  # - file: sample of file pairs
  # - dataset: all files in dataset
  # - snapshot: all selected datasets
  # allowed values: file | dataset | snapshot
  scope: dataset
  # allowed values: row-count | id-hash | both
  metadata_level: both
  # allowed values: integer >= 1
  file_sample_n: 50
  # allowed values: integer >= 0
  seed: 42

repair_convert:
  # ---------------------------------------------------------------------------
  # Repair failed conversion outputs based on verify_convert report
  # Typical use: rerun only broken files after a failed verify_convert.
  # ---------------------------------------------------------------------------
  # Shared-default overrides supported here (optional, uncomment to override defaults):
  # root_dir: .
  # dataset: all
  # workers: 4
  # duckdb_bin: /usr/local/bin/duckdb
  # profile: safe
  # max_memory_mb: 8192
  # progress: true
  # state_flush_every: 25

  # Repair is driven by an existing verify_convert report.
  # No corpus_dir here by design (root_dir + dataset model).
  # allowed values: any valid report path
  # from_verify_report: ./openalex-snapshot_metadata/reports/verify_convert-123456.json

index:
  # ---------------------------------------------------------------------------
  # Build *_id_idx.parquet lookup index for parquet corpus (ID lookups)
  # ---------------------------------------------------------------------------
  # Shared-default overrides supported here (optional, uncomment to override defaults):
  # root_dir: .
  # dataset: all
  # workers: 4
  # duckdb_bin: /usr/local/bin/duckdb
  # max_memory_mb: 8192
  # progress: true
  # state_flush_every: 25

  # allowed values: any valid path
  root_dir: .

  # Optional index output file.
  # allowed values: any valid path
  # index_file: ./parquet/all_id_idx.parquet

  # allowed values: true | false
  overwrite: false

verify_index:
  # ---------------------------------------------------------------------------
  # Verify index integrity and corpus coverage
  # ---------------------------------------------------------------------------
  # Shared-default overrides supported here (optional, uncomment to override defaults):
  # root_dir: .
  # dataset: all
  # workers: 4
  # duckdb_bin: /usr/local/bin/duckdb
  # max_memory_mb: 8192
  # progress: true

  # allowed values: any valid path
  root_dir: .
  # allowed values: any valid path
  # index_file: ./parquet/all_id_idx.parquet

schema:
  # ---------------------------------------------------------------------------
  # Schema inspection and cache management (source/cache/parquet)
  # ---------------------------------------------------------------------------
  # Shared-default overrides supported here (optional, uncomment to override defaults):
  # root_dir: .
  # dataset: all
  # workers: 4
  # duckdb_bin: /usr/local/bin/duckdb
  # max_memory_mb: 8192
  # state_flush_every: 25

  # Schema source preference: auto|source|cache|parquet
  # allowed values: auto | source | cache | parquet
  from: auto

  # Output format: table|json|yaml|arrow-r
  # allowed values: table | json | yaml | arrow-r
  format: table

  # Optional comparison source.
  # allowed values: source | cache | parquet
  # diff_with: parquet

  # Optional output file (stdout if omitted).
  # allowed values: any valid path
  # output: ./schema.json

  # allowed values: integer >= 1
  sample_size: 100
  # allowed values: true | false
  refresh_cache: false

extract:
  # ---------------------------------------------------------------------------
  # Extract rows by OpenAlex IDs from CSV using per-dataset indexes
  # ---------------------------------------------------------------------------
  # Shared-default overrides supported here (optional, uncomment to override defaults):
  # root_dir: .
  # dataset: all
  # workers: 4
  # duckdb_bin: /usr/local/bin/duckdb
  # max_memory_mb: 8192
  # progress: true
  # state_flush_every: 25

  # Input CSV with IDs (column auto-detected: id/openalex_id/work_id/first column).
  # allowed values: any valid path
  # ids: ./ids.csv

  # Output base path. Command writes one file per dataset:
  # <base>_<dataset>.parquet
  # allowed values: any valid path
  # output: ./extract.parquet

report:
  # ---------------------------------------------------------------------------
  # Read and display stored reports
  # ---------------------------------------------------------------------------
  # Shared-default overrides supported here (optional, uncomment to override defaults):
  # root_dir: .

  # allowed values: any valid path
  root_dir: .
  # allowed values: all | parquet-global | download
  source: all
  # allowed values: any command name
  # command: verify_convert
  # allowed values: true | false
  latest: false
  # allowed values: true | false
  full: false
  # Show only aggregate totals; suppress per-dataset breakdown (default: false = show per-dataset)
  # allowed values: true | false
  # summary: false

prune_reports:
  # ---------------------------------------------------------------------------
  # Prune old reports while keeping the newest per command
  # ---------------------------------------------------------------------------
  # Shared-default overrides supported here (optional, uncomment to override defaults):
  # root_dir: .

  # allowed values: any valid path
  root_dir: .
  # allowed values: all | parquet-global | download
  source: all
  # allowed values: any command name
  # command: verify_convert
  # allowed values: integer >= 1
  keep_per_command: 1
  # allowed values: true | false
  dry_run: false

progress:
  # ---------------------------------------------------------------------------
  # Monitor active/recent runs from reports and logs
  # ---------------------------------------------------------------------------
  # Shared-default overrides supported here (optional, uncomment to override defaults):
  # root_dir: .
  # dataset: all

  # allowed values: any valid path
  root_dir: .
  # allowed values: any command name
  # command: convert
  # allowed values: integer >= 1
  interval_sec: 2
  # allowed values: true | false
  watch: true
  # allowed values: true | false
  json: false

check:
  # ---------------------------------------------------------------------------
  # Preflight dependency/path/disk/memory checks before running pipeline
  # Recommended before first full run on a new machine or mount.
  # ---------------------------------------------------------------------------
  # Shared-default overrides supported here (optional, uncomment to override defaults):
  # root_dir: .
  # dataset: all

  # allowed values: any valid path
  root_dir: .
  # allowed values: true | false
  precise: true
  # allowed values: true | false
  strict: false
  # allowed values: true | false
  json: false

# ---------------------------------------------------------------------------
# 4) Example workflow
# ---------------------------------------------------------------------------
#   openalex-snapshot config --verify --config ./openalex-snapshot.yaml
#   openalex-snapshot all --config ./openalex-snapshot.yaml --retry 2
"#;

/// What the notes are.
pub const SKILL_README: &'static str = r#"# Project Skills

These skills help AI coding agents operate and develop `openalex-snapshot` safely and consistently.

## Program Summary

`openalex-snapshot` is a root-dir-first CLI for OpenAlex snapshot workflows:

1. `download` / `verify_download`
2. `convert` / `verify_convert` / `repair_convert`
3. `index` / `verify_index`
4. `extract`
5. `schema` / `verify_schema`
6. reporting and progress (`report`, `prune-reports`, `progress`)

Runtime requirements:
- `aws` CLI for download/verify_download paths only
- No external `duckdb` binary needed — DuckDB is statically linked in the binary

Argument precedence to apply in all commands:
1. explicit CLI flags
2. config subcommand section values
3. config defaults section values
4. built-in defaults

Note: `--config` is a **global** flag and must precede the subcommand:
  `openalex-snapshot --config ./openalex-snapshot.yaml report`

## How to use these skills

- Start with `cli-operations/SKILL.md` for day-to-day operation.
- Use `pipeline-runbook/SKILL.md` for end-to-end execution.
- Use `debug-and-recovery/SKILL.md` when any command fails.
- Use `development/SKILL.md` when modifying source code.
- Use `release-and-docs/SKILL.md` when releasing or updating docs.

Canonical references:
- `ARCHITECTURE_AND_DECISIONS.md`
- `NEWS.md`
- CLI help and man pages
"#;

/// How the commands are run.
pub const SKILL_CLI_OPERATIONS: &'static str = r#"# CLI Operations Skill

## Purpose
Run subcommands with correct root-dir model and predictable outputs.

## Required Inputs
- `root_dir`
- target `dataset` or `all`
- resource settings (`profile`, `workers`, `max-memory-mb`) when needed

## Command Pattern
- Always prefer `--root-dir` or a `--config` file.
- `--config` is a global flag — place it before the subcommand:
  `openalex-snapshot --config ./openalex-snapshot.yaml <subcommand>`
- Use `--explain` before long runs to preview what will happen.
- Use `report` and `progress` for run-state visibility.

## Common command snippets

```bash
# Preflight check
openalex-snapshot check --root-dir <root> --dataset all

# Convert one dataset — default `safe` profile (single-worker, max memory) works on any host
openalex-snapshot convert --root-dir <root> --dataset works

# Faster on 32+ GB hosts: empirically tuned stratified profile partitions files by gz size
openalex-snapshot convert --root-dir <root> --dataset works --profile stratified-36

# Verify one dataset
openalex-snapshot verify_convert --root-dir <root> --dataset works --scope dataset --metadata-level both

# Show latest reports with per-dataset breakdown
openalex-snapshot --config ./openalex-snapshot.yaml report --latest

# Show aggregate totals only
openalex-snapshot --config ./openalex-snapshot.yaml report --latest --summary

# Extract by IDs
openalex-snapshot extract --root-dir <root> --ids <ids.csv> --output <extract.parquet>

# Repair from verify report
openalex-snapshot repair_convert --root-dir <root> --from-verify-report <report.json>
```

## Failure Handling
- On non-zero exit, inspect latest report: `report --latest --full`.
- Datasets with failures are marked `!` in the default report view.
- Use `repair_convert` for verify-driven reconversion.

## Decision rules
- Default profile is `safe` for `convert` / `repair_convert`: single worker, generous per-worker memory (~45% of usable RAM, clamped 8–24 GiB on single-worker mode).  Works on any host; the most reliable choice for the worst-case files.
- On a 32+ GB host, use `--profile stratified-36` for a faster run: it partitions the file list by gz size (4-/3-/2-/1-worker buckets) and runs one rayon pass per bucket.
- Custom RAM tiers (e.g. 16 GB, 64 GB) need a user-supplied `openalex-snapshot.profiles.yaml` — see [`docs/commands/convert.md`](../../docs/commands/convert.md#custom-profiles-via-profilesyaml).
- To isolate a single problematic file: repeated `--input-file` on `convert`.
- Prefer `verify_convert --scope file` for quick spot checks; `--scope dataset|snapshot` for full checks.
- Run `index` before `extract`; extraction requires `<dataset>_id_idx.parquet`.

## Done Criteria
- Command exits 0.
- Expected report written to `openalex-snapshot_metadata/reports/`.
"#;

/// How the whole pipeline is run.
pub const SKILL_PIPELINE_RUNBOOK: &'static str = r#"# Pipeline Runbook Skill

## Purpose
Execute the recommended end-to-end flow safely.

## Full flow
1. `check`
2. `download`
3. `verify_download`
4. `convert`
5. `verify_convert`
6. `repair_convert` (only when verify reports failures)
7. `index`
8. `verify_index`
9. `extract`

## Auto orchestration (recommended)
```bash
openalex-snapshot all --config <path> --retry 2
```
Runs all enabled stages in order with a bounded verify/repair loop.
Edit `all:` section in the config to disable stages you don't need (e.g. `enable_download: false`).

## Local snapshot already present (skip download)
```bash
openalex-snapshot convert --root-dir <root> --dataset all
openalex-snapshot verify_convert --root-dir <root> --scope snapshot
openalex-snapshot index --root-dir <root> --dataset all
openalex-snapshot verify_index --root-dir <root>
```

## Decision Rules
- Default profile is `safe`: single worker, generous memory, works on any host.  Use this for unattended runs and unfamiliar hardware.
- On a 32+ GB host where speed matters, set `profile: stratified-36` under `defaults:` in the config (or pass `--profile stratified-36` to `convert`).  It partitions files by gz size and parallelises each bucket.
- For other RAM tiers, supply a user-defined profile in `openalex-snapshot.profiles.yaml` (sibling to the main config or via `--profiles-config`).
- Use `--dataset <name>` to rerun a single dataset without touching others.
- Check `report --latest` after each stage to confirm success before proceeding.
- Keep reports: they drive `repair_convert` and provide audit trails.
"#;

/// What to do when a command fails.
pub const SKILL_DEBUG_AND_RECOVERY: &'static str = r#"# Debug and Recovery Skill

## Purpose
Triage failures using metadata and reports.

## Steps
1. `openalex-snapshot --config <cfg> report --latest` — scan per-dataset table for `!` rows
2. `openalex-snapshot --config <cfg> report --latest --full` — full JSON for root cause
3. `progress --once` — check if a run is still live
4. Run targeted command with `--explain` to preview what it would do
5. Rerun failed dataset or use `repair_convert` as indicated

## Common Traps
- Wrong `root-dir` (snapshot/parquet/metadata dirs won't be found)
- Missing `aws` binary (only needed for download steps)
- Low disk space (`check --root-dir <root>` reports estimates)
- Using `--config` after the subcommand instead of before it

## Failure phase hints
- `check_dependency`: missing `aws` binary (duckdb is bundled — not an external dep)
- `check_download_disk` / `check_convert_disk`: insufficient free space
- `verify_metrics`: file-level parity mismatch — run `repair_convert`
- `download_sync`: S3 sync / auth / endpoint failure
- `validate_gzip_integrity`: corrupted `.json.gz` file

## OOM during convert
- `safe` is the default profile and should handle the largest works files via DuckDB spill-to-disk.  If you're explicitly running another profile, retry with `--profile safe`.
- Run `check --root-dir <root>` to see memory estimates.
- Use `--max-memory-mb <N>` to force a smaller DuckDB cap so spill kicks in earlier.
- Use `--split-size 256mb` to pre-chunk very large gz files before conversion.
- If a specific file is always failing, isolate it with `--input-file <rel-path>` and retry.
"#;

/// How the tool is changed.
pub const SKILL_DEVELOPMENT: &'static str = r#"# Development Skill

## Purpose
Build, test, and deploy `openalex-snapshot` source changes safely.

## Repository layout
- All logic lives in `src/main.rs` (single file, ~10 000+ lines).
- Tests live in `tests/cli_smoke.rs`.
- Skills templates are embedded in `skills_templates()` near the end of `src/main.rs`.
- Config templates are embedded as `config_template_*()` functions in `src/main.rs`.

## Build / test loop
```bash
cargo build --release                     # production binary
cargo test --all-targets --locked         # run all 27 tests
cargo clippy --all-targets -- -D warnings # lint (must be clean)
cargo fmt --all                           # format (CI enforces)
```

Tests require the `duckdb` CLI binary in PATH for parquet-reading verification steps;
they skip gracefully when it is absent. The main binary does NOT need it — DuckDB is
statically linked via `duckdb = { version = "1", features = ["bundled", "json", "parquet"] }`.

## Deploy pattern
```bash
cargo build --release
cp target/release/openalex-snapshot <target-dir>/openalex-snapshot
```

## DuckDB in-process architecture
- A global `Connection` lives in `OnceLock<Mutex<Connection>>` (see `master_conn()`).
- Each rayon worker thread calls `master.try_clone()` once and stores it in `thread_local!`.
- The global DuckDB memory limit (`SET memory_limit`) is shared across ALL connections on
  the same database.  It's set **per stratum** to `stratum.memory_mb × stratum.workers` at
  the start of each rayon pass; changes are safe between passes.
- Spill-to-disk is enabled by `SET temp_directory='<root>/openalex-snapshot_metadata/duckdb_tmp/'`
  on the master connection (OnceLock-guarded so the assignment runs exactly once per process).
  Without this, an in-memory connection has no temp dir and OOMs when memory_limit is hit.

## Profiles and the stratified plan
- `convert` and `repair_convert` resolve `--profile <name>` against a `ProfileRegistry`
  populated from `builtin_profiles()` plus an optional user `openalex-snapshot.profiles.yaml`.
- Built-in profiles:
  - `safe` (default) — single pass, workers clamped 1..=2, generous per-worker memory
    (`auto_profile_single_worker_safe_memory_mb` returns 45% of usable RAM clamped 8–24 GiB
    on workers=1).
  - `stratified-36` — 4 strata tuned for ~36 GB hosts (4×4800 / 3×6400 / 2×9600 / 1×13000).
- `build_convert_plan(profile, workers_override, max_mem_mb_override, total_ram_mb, todo, &registry)`
  produces a `ConvertPlan { strata: Vec<StratumPlan>, flat: bool }`.
  - Safe → one flat stratum.
  - Stratified → file list partitioned by `gz_size_bytes`; one StratumPlan per non-empty
    bucket; largest-files-first execution order.
  - `--workers N` collapses stratified into one flat pass (largest stratum's memory).
- `run_convert` / `run_repair` iterate `plan.strata`, reconfiguring DuckDB + rayon per stratum.

## Worktree and PR conventions
- All changes go through a PR from a worktree branch.
- Never commit directly to `main` except for trivial fixes.
- Tag releases on `main` after merge; pushing a `v*` tag triggers the release workflow.

## Required updates on any behavior change
1. `NEWS.md` — add entry under `[Unreleased]`
2. `docs/commands/<name>.md` — update affected command doc
3. `ARCHITECTURE_AND_DECISIONS.md` — update if invariants changed
4. Help text in `src/main.rs` (`*_LONG_ABOUT` constants, `#[arg(help = ...)]`)
5. Config template embedded in `src/main.rs` (if new options added)
6. Skills templates in `skills_templates()` in `src/main.rs` (if operational behavior changed)

## Adding a subcommand
1. Add `*_LONG_ABOUT` constant and register in top-level `CLI_LONG_ABOUT`.
2. Add `*Args` struct with `#[command]` derive.
3. Add config section struct and `apply_*_config()` wiring.
4. Add report persistence if command has operational outcomes.
5. Add tests in `tests/cli_smoke.rs`.
6. Update `NEWS.md`, `docs/commands/<name>.md`, `AI_SKILLS_USAGE.md`.

## Done Criteria
- `cargo test --all-targets --locked` passes (all 27 tests green).
- `cargo clippy --all-targets -- -D warnings` is clean.
- Binary deployed and smoke-tested against real data.
- `NEWS.md` and affected docs updated in the same commit.
"#;

/// How the tool is released.
pub const SKILL_RELEASE_AND_DOCS: &'static str = r#"# Release and Docs Hygiene Skill

## Purpose
Keep docs, help text, and release notes in sync with behavior changes.

## Required updates on any feature change
- `NEWS.md` — add entry under `[Unreleased]`
- `docs/commands/<name>.md` — update command-specific docs
- `ARCHITECTURE_AND_DECISIONS.md` — update if invariants changed
- Help text in `src/main.rs` (`*_LONG_ABOUT`, `#[arg(help = ...)]`, profile tables)
- Config template in `src/main.rs` (if new options added)
- Skills templates in `skills_templates()` in `src/main.rs` (if operational behavior changed)
- `AI_SKILLS_USAGE.md` — if skill structure changes

## Acceptance criteria
- New flags/commands appear in: `--help`, `README.md`, `docs/`, and `NEWS.md`
- Profile/memory tables in docs and help text match `builtin_profiles()` (in particular
  `stratified_baseline_36gb_strata()`) and `auto_profile_single_worker_safe_memory_mb`
- Tests cover CLI parsing + behavior + edge cases
- `openalex-snapshot --version` reflects the correct `Cargo.toml` version

## Release checklist
```bash
# 1. Bump version in Cargo.toml
# 2. Move [Unreleased] entries to [X.Y.Z] - YYYY-MM-DD in NEWS.md
cargo test --all-targets --locked
cargo clippy --all-targets -- -D warnings
cargo build --release
openalex-snapshot --help
openalex-snapshot --version
# 3. Commit, merge PR to main, push v* tag to trigger release workflow
```
"#;

/// A note to fill in.
pub const SKILL_TEMPLATE: &'static str = r#"# Skill Name

## Purpose
One-sentence objective.

## Required Inputs
- required context/flags

## Commands
Concrete command patterns.

## Decision Rules
When to choose one path vs another.

## Failure Handling
How to diagnose and recover.

## Done Criteria
What must be true to mark complete.
"#;

/// The template of a mode.
pub open spec fn template_of(mode: ConfigTemplateMode) -> Seq<char> {
    match mode {
        ConfigTemplateMode::Complete => CONFIG_TEMPLATE_COMPLETE@,
        ConfigTemplateMode::Safe => CONFIG_TEMPLATE_SAFE@,
        ConfigTemplateMode::Fast => CONFIG_TEMPLATE_FAST@,
    }
}

/// Gives a template.
pub fn config_template(mode: ConfigTemplateMode) -> (r: String)
    ensures
        r@ == template_of(mode),
{
    match mode {
        ConfigTemplateMode::Complete => CONFIG_TEMPLATE_COMPLETE.to_owned(),
        ConfigTemplateMode::Safe => CONFIG_TEMPLATE_SAFE.to_owned(),
        ConfigTemplateMode::Fast => CONFIG_TEMPLATE_FAST.to_owned(),
    }
}


/// A file to write.
#[derive(Debug)]
pub struct TextFile {
    pub path: String,
    pub content: String,
}

/// Where a file lies and what it holds.
pub struct FileView {
    pub path: Seq<char>,
    pub content: Seq<char>,
}

impl View for TextFile {
    type V = FileView;

    open spec fn view(&self) -> FileView {
        FileView { path: self.path@, content: self.content@ }
    }
}

/// What the files of `v` are.
pub open spec fn file_views(v: Seq<TextFile>) -> Seq<FileView> {
    Seq::new(v.len(), |i: int| v[i]@)
}

/// The directory of the notes.
pub open spec fn skills_dir_of(root: Seq<char>) -> Seq<char> {
    paths::join_of(root, "skills"@)
}

/// Gives the directory of the notes.
pub fn skills_dir(root_dir: &str) -> (r: String)
    ensures
        r@ == skills_dir_of(root_dir@),
{
    join_path(root_dir, "skills")
}

/// The notes under a root directory.
pub open spec fn skills_of(root: Seq<char>) -> Seq<FileView> {
    let base = skills_dir_of(root);
    seq![
        FileView { path: paths::join_of(base, "README.md"@), content: SKILL_README@ },
        FileView { path: paths::join_of(paths::join_of(base, "cli-operations"@), "SKILL.md"@), content: SKILL_CLI_OPERATIONS@ },
        FileView { path: paths::join_of(paths::join_of(base, "pipeline-runbook"@), "SKILL.md"@), content: SKILL_PIPELINE_RUNBOOK@ },
        FileView { path: paths::join_of(paths::join_of(base, "debug-and-recovery"@), "SKILL.md"@), content: SKILL_DEBUG_AND_RECOVERY@ },
        FileView { path: paths::join_of(paths::join_of(base, "development"@), "SKILL.md"@), content: SKILL_DEVELOPMENT@ },
        FileView { path: paths::join_of(paths::join_of(base, "release-and-docs"@), "SKILL.md"@), content: SKILL_RELEASE_AND_DOCS@ },
        FileView { path: paths::join_of(paths::join_of(base, "_templates"@), "skill-template.md"@), content: SKILL_TEMPLATE@ },
    ]
}

/// Gives the notes.
pub fn skills_templates(root_dir: &str) -> (r: Vec<TextFile>)
    ensures
        file_views(r@) == skills_of(root_dir@),
{
    let base = skills_dir(root_dir);
    let base = base.as_str();
    let mut r: Vec<TextFile> = Vec::new();
    r.push(TextFile { path: join_path(base, "README.md"), content: SKILL_README.to_owned() });
    r.push(TextFile { path: join_path(join_path(base, "cli-operations").as_str(), "SKILL.md"), content: SKILL_CLI_OPERATIONS.to_owned() });
    r.push(TextFile { path: join_path(join_path(base, "pipeline-runbook").as_str(), "SKILL.md"), content: SKILL_PIPELINE_RUNBOOK.to_owned() });
    r.push(TextFile { path: join_path(join_path(base, "debug-and-recovery").as_str(), "SKILL.md"), content: SKILL_DEBUG_AND_RECOVERY.to_owned() });
    r.push(TextFile { path: join_path(join_path(base, "development").as_str(), "SKILL.md"), content: SKILL_DEVELOPMENT.to_owned() });
    r.push(TextFile { path: join_path(join_path(base, "release-and-docs").as_str(), "SKILL.md"), content: SKILL_RELEASE_AND_DOCS.to_owned() });
    r.push(TextFile { path: join_path(join_path(base, "_templates").as_str(), "skill-template.md"), content: SKILL_TEMPLATE.to_owned() });
    assert(file_views(r@) =~= skills_of(root_dir@));
    r
}

/// Each mode has its own template.
pub proof fn law_templates()
    ensures
        template_of(ConfigTemplateMode::Safe) == CONFIG_TEMPLATE_SAFE@,
        template_of(ConfigTemplateMode::Fast) == CONFIG_TEMPLATE_FAST@,
        template_of(ConfigTemplateMode::Complete) == CONFIG_TEMPLATE_COMPLETE@,
{
}

/// The skills stand below the root, the overview first, each in its own directory.
pub proof fn law_skills(root: Seq<char>)
    ensures
        skills_of(root).len() == 7,
        ({
            let base = paths::join_of(root, "skills"@);
            let f = skills_of(root);
            &&& f[0].path == paths::join_of(base, "README.md"@) && f[0].content == SKILL_README@
            &&& f[1].path == paths::join_of(paths::join_of(base, "cli-operations"@), "SKILL.md"@)
                && f[1].content == SKILL_CLI_OPERATIONS@
            &&& f[2].path == paths::join_of(paths::join_of(base, "pipeline-runbook"@), "SKILL.md"@)
                && f[2].content == SKILL_PIPELINE_RUNBOOK@
            &&& f[3].path == paths::join_of(
                paths::join_of(base, "debug-and-recovery"@),
                "SKILL.md"@,
            ) && f[3].content == SKILL_DEBUG_AND_RECOVERY@
            &&& f[4].path == paths::join_of(paths::join_of(base, "development"@), "SKILL.md"@)
                && f[4].content == SKILL_DEVELOPMENT@
            &&& f[5].path == paths::join_of(paths::join_of(base, "release-and-docs"@), "SKILL.md"@)
                && f[5].content == SKILL_RELEASE_AND_DOCS@
            &&& f[6].path == paths::join_of(paths::join_of(base, "_templates"@), "skill-template.md"@)
                && f[6].content == SKILL_TEMPLATE@
        }),
{
}
} // verus!
