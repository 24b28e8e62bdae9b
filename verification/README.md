# openalex-snapshot

A command line tool that downloads snapshots of OpenAlex, converts them to Parquet with
DuckDB, verifies and repairs the result, indexes it, and extracts records by their ids.

The rules of the tool are a library, in `src/`, which is verified with Verus, but for the
small functions that call other crates or std (see below): what a command asks for after
all config layers, which files are left to convert, how they are split and planned into
passes, what a verification compares, what a repair selects, how an index is built and
checked, how ids are routed, which objects a download lacks, how a pipeline goes on, and
what each run records in its report. The program around it, in `app/`, reads and writes
files, runs the AWS command line client, asks DuckDB, and prints.

| Where | What |
| --- | --- |
| `src/text.rs`, `textmap.rs`, `order.rs`, `paths.rs` | texts, maps, sorting, paths |
| `src/csvfile.rs`, `json.rs`, `split.rs` | CSV, JSON and gzip |
| `src/layout.rs`, `housekeeping.rs`, `records.rs` | where metadata lie, and how long |
| `src/config.rs`, `settings.rs`, `explain.rs` | options, config files, and what comes of both |
| `src/profile.rs`, `plan.rs`, `runs.rs` | profiles, passes and batches |
| `src/files.rs`, `convert.rs`, `verify.rs`, `repair.rs` | the work on source files |
| `src/schema.rs`, `inference.rs`, `sql.rs` | schemas, and what DuckDB is asked |
| `src/index.rs`, `extract.rs` | the index and what is looked up in it |
| `src/download.rs`, `check.rs` | the snapshot at its source, and the checks beforehand |
| `src/pipeline.rs` | all steps, one after another |
| `src/report.rs`, `display.rs`, `progress.rs` | reports and how they are shown |
| `src/jobs.rs`, `templates.rs`, `help.rs` | config templates, notes and help |
| `tests/` | the library on given values |

What holds for all inputs is stated in `pub proof fn law_...`, next to the functions it
is about. What the library takes from other crates (`csv`, `flate2`, `rand`, `serde_json`,
`serde_yaml`), and a few texts that std writes, stand behind small functions marked
`#[verifier::external_body]`, each with the contract that the rest relies on.
