//! The schema commands: where the columns of a dataset are looked up, how they are
//! gathered from a sample of its sources, and what comes of it.

use vstd::prelude::*;
use vstd::string::*;
use crate::convert::show_option;
use crate::convert;
use crate::explain;
use crate::layout::source_dir;
use crate::layout;
use crate::order;
use crate::paths::join_path;
use crate::paths;
use crate::plan::Tuning;
use crate::report::{failure, report_arg, DatasetReportSummary, ReportArg, RunReport};
use crate::report;
use crate::schema::{
    datasets_len_hint, extension_for_format, find_first_set, is_checkpoint, merge_columns, Column,
    SchemaDiff, SchemaFormat, SchemaFrom,
};
use crate::schema;
use crate::text::{decimal_string, push_decimal};
use crate::text;
use crate::textmap::TextMap;

verus! {

/// Where the schema of the sources of a dataset comes from.
#[derive(Debug)]
pub enum SourceSchema {
    /// From the cache in CSV: the candidate of this index.
    Csv(usize),
    /// From the sources themselves.
    Infer,
    /// From nowhere: there are no sources.
    NoSources(String),
}

/// Decides it: the first candidate that is there, unless the cache is to be refreshed;
/// else the sources, if there are any.
pub fn source_schema(dataset: &str, refresh: bool, csv_exists: &Vec<bool>, files: usize) -> (r:
    SourceSchema)
    ensures
        match r {
            SourceSchema::Csv(i) => !refresh && schema::first_set(csv_exists@, 0) == Some(i as int),
            SourceSchema::Infer => files > 0 && (refresh || schema::first_set(csv_exists@, 0) is None),
            SourceSchema::NoSources(e) => {
                &&& files == 0 && (refresh || schema::first_set(csv_exists@, 0) is None)
                &&& e@ == "no source .gz files found for dataset "@ + dataset@
            },
        },
{
    if !refresh {
        if let Some(i) = find_first_set(csv_exists) {
            return SourceSchema::Csv(i);
        }
    }
    if files == 0 {
        let mut e = "no source .gz files found for dataset ".to_owned();
        e.append(dataset);
        return SourceSchema::NoSources(e);
    }
    SourceSchema::Infer
}

/// The columns gathered so far from a sample of sources.
#[derive(Debug)]
pub struct Inference {
    pub merged: TextMap,
    /// How many sources were taken in.
    pub taken: usize,
    /// How many the sample has.
    pub total: usize,
    pub flush_every: usize,
}

impl Inference {
    pub open spec fn wf(self) -> bool {
        self.merged.wf() && self.taken <= self.total
    }

    /// Before the first source.
    pub fn start(total: usize, flush_every: usize) -> (r: Self)
        ensures
            r.wf(),
            r.merged@ == Map::<Seq<char>, Seq<char>>::empty(),
            r.taken == 0,
            r.total == total,
            r.flush_every == flush_every,
    {
        Inference { merged: TextMap::new(), taken: 0, total, flush_every }
    }

    /// Takes in the columns of the next source, and says whether what is known is to be
    /// written down.
    pub fn take(&mut self, cols: &Vec<Column>) -> (r: bool)
        requires
            old(self).wf(),
            old(self).taken < old(self).total,
        ensures
            final(self).wf(),
            final(self).merged@ == schema::merge_all(
                old(self).merged@,
                schema::column_views(cols@),
            ),
            final(self).taken == old(self).taken + 1,
            final(self).total == old(self).total,
            final(self).flush_every == old(self).flush_every,
            r == (final(self).taken as int % (if old(self).flush_every >= 1 {
                old(self).flush_every as int
            } else {
                1
            }) == 0 || final(self).taken == final(self).total),
    {
        merge_columns(&mut self.merged, cols);
        let flush = is_checkpoint(self.taken, self.total, self.flush_every);
        self.taken = self.taken + 1;
        flush
    }
}

/// What is known after two sources is what is known after the columns of both, one
/// after the other.
pub proof fn law_columns_are_taken_in_order(
    known: Map<Seq<char>, Seq<char>>,
    a: Seq<(Seq<char>, Seq<char>)>,
    b: Seq<(Seq<char>, Seq<char>)>,
)
    ensures
        schema::merge_all(schema::merge_all(known, a), b) == schema::merge_all(known, a + b),
    decreases b.len(),
{
    if b.len() == 0 {
        assert(a + b =~= a);
    } else {
        law_columns_are_taken_in_order(known, a, b.drop_last());
        assert((a + b).drop_last() =~= a + b.drop_last());
        assert((a + b).last() == b.last());
    }
}

/// What is known after a source was taken in is what was known before and the columns of
/// the source, and no other column.
pub proof fn law_known_columns_were_seen(
    known: Map<Seq<char>, Seq<char>>,
    cols: Seq<(Seq<char>, Seq<char>)>,
    name: Seq<char>,
)
    ensures
        schema::merge_all(known, cols).dom().contains(name) <==> known.dom().contains(name)
            || exists|i: int| 0 <= i < cols.len() && #[trigger] cols[i].0 == name,
    decreases cols.len(),
{
    if cols.len() > 0 {
        let front = cols.drop_last();
        law_known_columns_were_seen(known, front, name);
        if exists|i: int| 0 <= i < front.len() && #[trigger] front[i].0 == name {
            let i = choose|i: int| 0 <= i < front.len() && #[trigger] front[i].0 == name;
            assert(cols[i].0 == name);
        }
        if cols.last().0 == name {
            assert(cols[cols.len() - 1].0 == name);
        }
        if exists|i: int| 0 <= i < cols.len() && #[trigger] cols[i].0 == name {
            let i = choose|i: int| 0 <= i < cols.len() && #[trigger] cols[i].0 == name;
            if i < front.len() {
                assert(front[i].0 == name);
            }
        }
    }
}

/// The columns that a map from names to types holds, by name.
pub open spec fn are_columns(c: Seq<Column>, m: Map<Seq<char>, Seq<char>>) -> bool {
    &&& order::strictly_ascending(names_of(c))
    &&& forall|k: Seq<char>| #[trigger] names_of(c).contains(k) <==> m.dom().contains(k)
    &&& forall|i: int| 0 <= i < c.len() ==> (#[trigger] c[i]).duckdb_type@ == m[c[i].name@]
}

pub open spec fn names_of(c: Seq<Column>) -> Seq<Seq<char>> {
    Seq::new(c.len(), |i: int| c[i].name@)
}

/// Gives them.
pub fn columns_of(m: &TextMap) -> (r: Vec<Column>)
    requires
        m.wf(),
    ensures
        are_columns(r@, m@),
{
    let keys = m.sorted_keys();
    let ghost all = text::texts(keys@);
    let mut out: Vec<Column> = Vec::new();
    let mut i: usize = 0;
    while i < keys.len()
        invariant
            m.wf(),
            i <= keys@.len(),
            all == text::texts(keys@),
            forall|k: Seq<char>| #[trigger] all.contains(k) <==> m@.dom().contains(k),
            out@.len() == i,
            forall|j: int| 0 <= j < i ==> (#[trigger] out@[j]).name@ == all[j],
            forall|j: int| 0 <= j < i ==> (#[trigger] out@[j]).duckdb_type@ == m@[out@[j].name@],
        decreases keys@.len() - i,
    {
        assert(all[i as int] == keys@[i as int]@);
        assert(all.contains(keys@[i as int]@));
        match m.get(keys[i].as_str()) {
            Some(t) => {
                out.push(Column { name: keys[i].clone(), duckdb_type: t });
            },
            None => {},
        }
        i += 1;
    }
    assert(names_of(out@) =~= all);
    out
}

pub open spec fn glob_of(parquet_dir: Seq<char>, dataset: Seq<char>) -> Seq<char> {
    paths::join_of(layout::below2(parquet_dir, dataset, "**"@), "*.parquet"@)
}

/// The pattern of all parquet files of a dataset.
pub fn parquet_glob(parquet_dir: &str, dataset: &str) -> (r: String)
    ensures
        r@ == glob_of(parquet_dir@, dataset@),
{
    let dir = join_path(parquet_dir, dataset);
    let deep = join_path(dir.as_str(), "**");
    join_path(deep.as_str(), "*.parquet")
}

pub open spec fn schema_output_of(
    base: Seq<char>,
    dataset_arg: Seq<char>,
    dataset: Seq<char>,
    extension: Seq<char>,
) -> Seq<char> {
    if dataset_arg == "all"@ {
        paths::join_of(base, dataset + "_schema."@ + extension)
    } else {
        base
    }
}

/// The file that the schema of a dataset is written to: below `base` where all datasets
/// are asked for, and `base` itself where one is.
pub fn schema_output_path(base: &str, dataset_arg: &str, dataset: &str, format: SchemaFormat) -> (r:
    String)
    ensures
        r@ == schema_output_of(
            base@,
            dataset_arg@,
            dataset@,
            match format {
                SchemaFormat::Table => "txt"@,
                SchemaFormat::Json | SchemaFormat::ArrowR => "json"@,
                SchemaFormat::Yaml => "yaml"@,
            },
        ),
{
    if datasets_len_hint(dataset_arg) > 1 {
        let mut name = dataset.to_owned();
        name.append("_schema.");
        let ext = extension_for_format(format);
        name.append(ext.as_str());
        join_path(base, name.as_str())
    } else {
        base.to_owned()
    }
}

/// What came of showing the schema of a dataset.
#[derive(Debug)]
pub enum SchemaOutcome {
    /// It could not be told.
    NoSchema(String),
    /// What it was to be compared with could not be told.
    NoOther(String),
    /// It could not be written to a file.
    NotWritten { path: String, error: String },
    /// It was shown.
    Shown,
}

/// What is recorded of it.
pub open spec fn schema_failure_of(
    o: SchemaOutcome,
    dataset: Seq<char>,
    snapshot_dir: Seq<char>,
    parquet_dir: Seq<char>,
) -> Seq<report::FailureView> {
    match o {
        SchemaOutcome::NoSchema(e) => seq![
            report::FailureView {
                dataset,
                phase: "schema_load"@,
                rel_path: None,
                source_path: Some(layout::source_dir_of(snapshot_dir, dataset)),
                output_path: Some(paths::join_of(parquet_dir, dataset)),
                error_message: e@,
                suggested_recovery: Some("check schema cache/source availability and retry"@),
            },
        ],
        SchemaOutcome::NoOther(e) => seq![
            report::FailureView {
                dataset,
                phase: "schema_diff_rhs"@,
                rel_path: None,
                source_path: None,
                output_path: None,
                error_message: e@,
                suggested_recovery: Some("retry without --diff-with or fix right-hand source"@),
            },
        ],
        SchemaOutcome::NotWritten { path, error } => seq![
            report::FailureView {
                dataset,
                phase: "schema_output"@,
                rel_path: None,
                source_path: None,
                output_path: Some(path@),
                error_message: error@,
                suggested_recovery: Some("check output path permissions"@),
            },
        ],
        SchemaOutcome::Shown => Seq::empty(),
    }
}

/// Ends the work on a dataset, which is one item.
pub fn end_schema(
    report: &mut RunReport,
    dataset: &str,
    outcome: SchemaOutcome,
    snapshot_dir: &str,
    parquet_dir: &str,
)
    ensures
        *final(report) == (RunReport {
            failures: final(report).failures,
            datasets: final(report).datasets,
            ..*old(report)
        }),
        report::failure_views(final(report).failures@) == report::failure_views(
            old(report).failures@,
        ) + schema_failure_of(outcome, dataset@, snapshot_dir@, parquet_dir@),
        final(report).datasets@ == old(report).datasets@.push(final(report).datasets@.last()),
        final(report).datasets@.last().dataset@ == dataset@,
        final(report).datasets@.last().items_scanned == 1,
        final(report).datasets@.last().succeeded == (if outcome is Shown {
            1u64
        } else {
            0
        }),
        final(report).datasets@.last().failed == (if outcome is Shown {
            0u64
        } else {
            1
        }),
        final(report).datasets@.last().skipped == 0,
{
    broadcast use report::lemma_failure_views_push;

    let ghost before = report::failure_views(report.failures@);
    let ghost wanted = schema_failure_of(outcome, dataset@, snapshot_dir@, parquet_dir@);
    let mut ds = DatasetReportSummary::new(dataset);
    ds.items_scanned = 1;
    match outcome {
        SchemaOutcome::NoSchema(e) => {
            let source = source_dir(snapshot_dir, dataset);
            let output = join_path(parquet_dir, dataset);
            let f = failure(
                dataset,
                "schema_load",
                None,
                Some(source.as_str()),
                Some(output.as_str()),
                e,
                Some("check schema cache/source availability and retry".to_owned()),
            );
            report.failures.push(f);
            ds.failed = 1;
        },
        SchemaOutcome::NoOther(e) => {
            let f = failure(
                dataset,
                "schema_diff_rhs",
                None,
                None,
                None,
                e,
                Some("retry without --diff-with or fix right-hand source".to_owned()),
            );
            report.failures.push(f);
            ds.failed = 1;
        },
        SchemaOutcome::NotWritten { path, error } => {
            let f = failure(
                dataset,
                "schema_output",
                None,
                None,
                Some(path.as_str()),
                error,
                Some("check output path permissions".to_owned()),
            );
            report.failures.push(f);
            ds.failed = 1;
        },
        SchemaOutcome::Shown => {
            ds.succeeded = 1;
        },
    }
    assert(report::failure_views(report.failures@) =~= before + wanted);
    report.datasets.push(ds);
}

/// The settings that the report of `schema` records.
pub fn schema_args(
    dataset: &str,
    from: SchemaFrom,
    format: SchemaFormat,
    tuning: &Tuning,
    state_flush_every: usize,
) -> (r: Vec<ReportArg>)
    ensures
        convert::arg_views(r@) == seq![
            ("dataset"@, dataset@),
            ("from"@, explain::from_name(from)),
            ("format"@, explain::format_name(format)),
            ("workers"@, text::decimal(tuning.workers as nat)),
            ("memory_mb"@, convert::shown_option(tuning.memory_mb)),
            ("state_flush_every"@, text::decimal(state_flush_every as nat)),
        ],
{
    let mut v: Vec<ReportArg> = Vec::new();
    let from_text = match from {
        SchemaFrom::Auto => "Auto",
        SchemaFrom::Source => "Source",
        SchemaFrom::Cache => "Cache",
        SchemaFrom::Parquet => "Parquet",
    };
    let format_text = match format {
        SchemaFormat::Table => "Table",
        SchemaFormat::Json => "Json",
        SchemaFormat::Yaml => "Yaml",
        SchemaFormat::ArrowR => "ArrowR",
    };
    let workers = decimal_string(tuning.workers as u128);
    let memory = show_option(tuning.memory_mb);
    let flush = decimal_string(state_flush_every as u128);
    v.push(report_arg("dataset", dataset));
    v.push(report_arg("from", from_text));
    v.push(report_arg("format", format_text));
    v.push(report_arg("workers", workers.as_str()));
    v.push(report_arg("memory_mb", memory.as_str()));
    v.push(report_arg("state_flush_every", flush.as_str()));
    v
}

/// The line on two schemas of a dataset.
pub open spec fn diff_line_of(
    dataset: Seq<char>,
    added: nat,
    removed: nat,
    changed: nat,
    from: SchemaFrom,
    with: SchemaFrom,
) -> Seq<char> {
    let head = "[verify_schema] dataset="@ + dataset;
    let counts = if added + removed + changed == 0 {
        head + " status=ok"@
    } else {
        head + " status=failed added="@ + text::decimal(added) + " removed="@ + text::decimal(
            removed,
        ) + " changed_types="@ + text::decimal(changed)
    };
    counts + " from="@ + explain::from_name(from) + " diff_with="@ + explain::from_name(with)
}

/// Tells whether two schemas of a dataset agree, and says so in a line.
pub fn compare_schemas(dataset: &str, diff: &SchemaDiff, from: SchemaFrom, with: SchemaFrom) -> (r: (
    bool,
    String,
))
    ensures
        r.0 == (diff.added@.len() + diff.removed@.len() + diff.changed_types@.len() == 0),
        r.1@ == diff_line_of(
            dataset@,
            diff.added@.len(),
            diff.removed@.len(),
            diff.changed_types@.len(),
            from,
            with,
        ),
{
    let agree = diff.is_empty();
    let mut s = "[verify_schema] dataset=".to_owned();
    s.append(dataset);
    if agree {
        s.append(" status=ok");
    } else {
        s.append(" status=failed added=");
        push_decimal(&mut s, diff.added.len() as u128);
        s.append(" removed=");
        push_decimal(&mut s, diff.removed.len() as u128);
        s.append(" changed_types=");
        push_decimal(&mut s, diff.changed_types.len() as u128);
    }
    s.append(" from=");
    s.append(
        match from {
            SchemaFrom::Auto => "Auto",
            SchemaFrom::Source => "Source",
            SchemaFrom::Cache => "Cache",
            SchemaFrom::Parquet => "Parquet",
        },
    );
    s.append(" diff_with=");
    s.append(
        match with {
            SchemaFrom::Auto => "Auto",
            SchemaFrom::Source => "Source",
            SchemaFrom::Cache => "Cache",
            SchemaFrom::Parquet => "Parquet",
        },
    );
    (agree, s)
}

/// How `verify_schema` ends: it fails if the schemas of any dataset differ.
pub fn verify_schema_verdict(failures: usize) -> (r: Result<(), String>)
    ensures
        match r {
            Ok(_) => failures == 0,
            Err(e) => failures > 0 && e@ == "[verify_schema] schema differences detected in "@
                + text::decimal(failures as nat) + " dataset(s)"@,
        },
{
    if failures == 0 {
        return Ok(());
    }
    let mut m = "[verify_schema] schema differences detected in ".to_owned();
    push_decimal(&mut m, failures as u128);
    m.append(" dataset(s)");
    Err(m)
}

/// The parquet files of a dataset are those at any depth below its directory; its schema
/// goes to the file that was named or, for all datasets, to one of its name in that
/// directory.
pub proof fn law_places_of_a_schema(
    parquet_dir: Seq<char>,
    base: Seq<char>,
    named: Seq<char>,
    dataset: Seq<char>,
    extension: Seq<char>,
)
    ensures
        glob_of(parquet_dir, dataset) == paths::join_of(
            paths::join_of(paths::join_of(parquet_dir, dataset), "**"@),
            "*.parquet"@,
        ),
        named != "all"@ ==> schema_output_of(base, named, dataset, extension) == base,
        schema_output_of(base, "all"@, dataset, extension) == paths::join_of(
            base,
            dataset + "_schema."@ + extension,
        ),
{
}

/// A dataset whose schema was shown has no failure; any other has one, of the step that
/// failed, with what went wrong.
pub proof fn law_schema_failures(
    dataset: Seq<char>,
    snapshot_dir: Seq<char>,
    parquet_dir: Seq<char>,
    path: String,
    e: String,
)
    ensures
        schema_failure_of(SchemaOutcome::Shown, dataset, snapshot_dir, parquet_dir).len() == 0,
        ({
            let f = schema_failure_of(SchemaOutcome::NoSchema(e), dataset, snapshot_dir, parquet_dir);
            f.len() == 1 && f[0].dataset == dataset && f[0].phase == "schema_load"@
                && f[0].error_message == e@ && f[0].source_path == Some(
                layout::source_dir_of(snapshot_dir, dataset),
            ) && f[0].output_path == Some(paths::join_of(parquet_dir, dataset))
        }),
        ({
            let f = schema_failure_of(SchemaOutcome::NoOther(e), dataset, snapshot_dir, parquet_dir);
            f.len() == 1 && f[0].dataset == dataset && f[0].phase == "schema_diff_rhs"@
                && f[0].error_message == e@
        }),
        ({
            let f = schema_failure_of(
                SchemaOutcome::NotWritten { path, error: e },
                dataset,
                snapshot_dir,
                parquet_dir,
            );
            f.len() == 1 && f[0].dataset == dataset && f[0].phase == "schema_output"@
                && f[0].error_message == e@ && f[0].output_path == Some(path@)
        }),
{
}

/// Two schemas agree exactly where nothing was added, removed or changed, and the line on
/// them says so.
pub proof fn law_line_on_a_difference(
    dataset: Seq<char>,
    added: nat,
    removed: nat,
    changed: nat,
    from: SchemaFrom,
    with: SchemaFrom,
)
    ensures
        ({
            let ends = " from="@ + explain::from_name(from) + " diff_with="@ + explain::from_name(
                with,
            );
            &&& diff_line_of(dataset, 0, 0, 0, from, with) == "[verify_schema] dataset="@ + dataset
                + " status=ok"@ + ends
            &&& added > 0 || removed > 0 || changed > 0 ==> diff_line_of(
                dataset,
                added,
                removed,
                changed,
                from,
                with,
            ) == "[verify_schema] dataset="@ + dataset + " status=failed added="@ + text::decimal(
                added,
            ) + " removed="@ + text::decimal(removed) + " changed_types="@ + text::decimal(changed)
                + ends
        }),
{
    let ends = " from="@ + explain::from_name(from) + " diff_with="@ + explain::from_name(with);
    assert(diff_line_of(dataset, 0, 0, 0, from, with) =~= "[verify_schema] dataset="@ + dataset
        + " status=ok"@ + ends);
    if added > 0 || removed > 0 || changed > 0 {
        assert(diff_line_of(dataset, added, removed, changed, from, with)
            =~= "[verify_schema] dataset="@ + dataset + " status=failed added="@ + text::decimal(
            added,
        ) + " removed="@ + text::decimal(removed) + " changed_types="@ + text::decimal(changed)
            + ends);
    }
}
/// The columns that are written are those that are known, each once, in the order of their
/// names, with the types that are known of them.
pub proof fn law_columns_are_those_known(c: Seq<Column>, m: Map<Seq<char>, Seq<char>>, i: int)
    requires
        are_columns(c, m),
        0 <= i < c.len(),
    ensures
        m.dom().contains(c[i].name@),
        c[i].duckdb_type@ == m[c[i].name@],
        forall|k: Seq<char>| #[trigger] m.dom().contains(k) ==> exists|j: int|
            0 <= j < c.len() && (#[trigger] c[j]).name@ == k,
        forall|j: int| 0 <= j < i ==> text::text_lt((#[trigger] c[j]).name@, c[i].name@),
{
    let names = names_of(c);
    assert(names[i] == c[i].name@);
    assert(names.contains(c[i].name@));
    assert forall|k: Seq<char>| #[trigger] m.dom().contains(k) implies exists|j: int|
        0 <= j < c.len() && (#[trigger] c[j]).name@ == k by {
        assert(names.contains(k));
        let j = choose|j: int| 0 <= j < names.len() && names[j] == k;
        assert(c[j].name@ == k);
    }
    assert forall|j: int| 0 <= j < i implies text::text_lt((#[trigger] c[j]).name@, c[i].name@) by {
        assert(names[j] == c[j].name@);
    }
}
} // verus!
