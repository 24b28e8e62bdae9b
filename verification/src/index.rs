//! Indexes of parquet datasets: which datasets are indexed, how an index is built
//! from shards, and what makes it sound.

use vstd::prelude::*;
use vstd::string::*;
use crate::convert::show_option;
use crate::convert;
use crate::order::sorted_strings;
use crate::order;
use crate::paths::{join_path, strip_base};
use crate::paths;
use crate::plan::Tuning;
use crate::report::{failure, report_arg, DatasetReportSummary, FailureEntry, ReportArg, RunReport};
use crate::report;
use crate::text::{
    decimal_string, parse_unsigned, push_decimal, push_zero_padded, replaced, starts_with, str_eq,
};
use crate::text;
use crate::textmap::TextMap;

verus! {

/// Whether a directory below the parquet directory is a dataset that has an index:
/// the works as they were fetched have none.
pub open spec fn is_indexed(name: Seq<char>) -> bool {
    !text::has_prefix(name, "."@) && name != "works_aws"@
}

/// The names that pass, in order, or why there are none.
pub open spec fn is_choice(
    r: Result<Seq<Seq<char>>, Seq<char>>,
    found: Seq<Seq<char>>,
    parquet_dir: Seq<char>,
) -> bool {
    match r {
        Ok(v) => v.len() > 0 && order::ascending(v) && v.to_multiset() == found.filter(
            |n: Seq<char>| is_indexed(n),
        ).to_multiset(),
        Err(e) => found.filter(|n: Seq<char>| is_indexed(n)).len() == 0 && e == "no parquet datasets found under "@
            + parquet_dir,
    }
}

pub open spec fn choice_view(r: Result<Vec<String>, String>) -> Result<Seq<Seq<char>>, Seq<char>> {
    match r {
        Ok(v) => Ok(text::texts(v@)),
        Err(e) => Err(e@),
    }
}

/// The datasets that get an index, and those whose index is verified; `found` are
/// the directories below the parquet directory.
pub fn index_datasets(found: &Vec<String>, parquet_dir: &str) -> (r: Result<Vec<String>, String>)
    ensures
        is_choice(choice_view(r), text::texts(found@), parquet_dir@),
{
    broadcast use vstd::seq_lib::to_multiset_len;

    let ghost keep = |n: Seq<char>| is_indexed(n);
    let ghost all = text::texts(found@);
    let mut out: Vec<String> = Vec::new();
    let mut i: usize = 0;
    proof {
        reveal(Seq::filter);
        assert(text::texts(out@) =~= all.take(0).filter(keep));
    }
    while i < found.len()
        invariant
            i <= found@.len(),
            all == text::texts(found@),
            keep == (|n: Seq<char>| is_indexed(n)),
            text::texts(out@) == all.take(i as int).filter(keep),
        decreases found@.len() - i,
    {
        broadcast use text::lemma_texts_push;

        proof {
            reveal(Seq::filter);
            assert(all.take(i + 1).drop_last() =~= all.take(i as int));
        }
        if !starts_with(found[i].as_str(), ".") && !str_eq(found[i].as_str(), "works_aws") {
            out.push(found[i].clone());
        }
        i += 1;
    }
    assert(all.take(i as int) =~= all);
    assert(text::texts(out@).len() == out@.len());
    if out.len() == 0 {
        let mut m = "no parquet datasets found under ".to_owned();
        m.append(parquet_dir);
        return Err(m);
    }
    let sorted = sorted_strings(&out);
    assert(text::texts(sorted@).to_multiset().len() == text::texts(out@).to_multiset().len());
    Ok(sorted)
}

/// How a command over all datasets ends.
pub fn all_datasets_verdict(command: &str, failures: u64) -> (r: Result<(), String>)
    ensures
        match r {
            Ok(_) => failures == 0,
            Err(e) => failures > 0 && e@ == "["@ + command@ + "] failures detected across datasets: "@
                + text::decimal(failures as nat),
        },
{
    if failures == 0 {
        return Ok(());
    }
    let mut m = "[".to_owned();
    m.append(command);
    m.append("] failures detected across datasets: ");
    push_decimal(&mut m, failures as u128);
    Err(m)
}

/// Where the index of a dataset stands.
pub open spec fn index_file_of(parquet_dir: Seq<char>, dataset: Seq<char>) -> Seq<char> {
    paths::join_of(parquet_dir, dataset + "_id_idx.parquet"@)
}

/// Where the index of a dataset stands.
pub fn index_file(parquet_dir: &str, dataset: &str) -> (r: String)
    ensures
        r@ == index_file_of(parquet_dir@, dataset@),
{
    let mut name = dataset.to_owned();
    name.append("_id_idx.parquet");
    join_path(parquet_dir, name.as_str())
}

/// What happens to an index that is there already.
#[derive(Debug, Clone, Copy, PartialEq, Eq, Structural)]
pub enum ExistingIndex {
    /// There is none.
    Absent,
    /// It is built again.
    Replace,
    /// It stays, and nothing is done.
    Keep,
}

/// What happens to an index that is there already.
pub fn existing_index(is_there: bool, overwrite: bool) -> (r: ExistingIndex)
    ensures
        r == (if !is_there {
            ExistingIndex::Absent
        } else if overwrite {
            ExistingIndex::Replace
        } else {
            ExistingIndex::Keep
        }),
{
    if !is_there {
        ExistingIndex::Absent
    } else if overwrite {
        ExistingIndex::Replace
    } else {
        ExistingIndex::Keep
    }
}

/// Where the shards of an index are built.
pub open spec fn shard_dir_of(index_file: Seq<char>) -> Seq<char> {
    index_file + "_tmp"@
}

/// Where the shards of an index are built.
pub fn shard_dir(index_file: &str) -> (r: String)
    ensures
        r@ == shard_dir_of(index_file@),
{
    let mut s = index_file.to_owned();
    s.append("_tmp");
    s
}

/// Where the shard of a file stands; `i` is the position of the file.
pub open spec fn shard_file_of(dir: Seq<char>, i: int) -> Seq<char> {
    paths::join_of(dir, "idx_"@ + text::zero_padded((i + 1) as nat, 5) + ".parquet"@)
}

/// Where the shard of a file stands; `i` is the position of the file.
pub fn shard_file(dir: &str, i: usize) -> (r: String)
    ensures
        r@ == shard_file_of(dir@, i as int),
{
    let mut name = "idx_".to_owned();
    push_zero_padded(&mut name, i as u128 + 1, 5);
    name.append(".parquet");
    join_path(dir, name.as_str())
}

/// What the index says of where a file stands: its path below the parquet
/// directory, with `/` for every `\`.
pub open spec fn indexed_path(parquet_dir: Seq<char>, file: Seq<char>) -> Option<Seq<char>> {
    match paths::relative_to(file, parquet_dir) {
        Some(r) => Some(text::replace_char(r, '\\', "/"@)),
        None => None,
    }
}

pub open spec fn shard_failure(
    dataset: Seq<char>,
    rel: Option<Seq<char>>,
    file: Seq<char>,
    shard: Seq<char>,
    e: Seq<char>,
    recovery: Option<Seq<char>>,
) -> report::FailureView {
    report::FailureView {
        dataset,
        phase: "index_stage1"@,
        rel_path: rel,
        source_path: Some(file),
        output_path: Some(shard),
        error_message: e,
        suggested_recovery: recovery,
    }
}

/// What the index will say of where a file stands, or what is recorded of a file
/// outside the parquet directory.
pub fn shard_path(dataset: &str, parquet_dir: &str, file: &str, shard: &str) -> (r: Result<
    String,
    FailureEntry,
>)
    ensures
        match (r, indexed_path(parquet_dir@, file@)) {
            (Ok(p), Some(v)) => p@ == v,
            (Err(f), None) => f@ == shard_failure(
                dataset@,
                None,
                file@,
                shard@,
                "prefix not found"@,
                None,
            ),
            _ => false,
        },
{
    match strip_base(file, parquet_dir) {
        Some(rel) => Ok(replaced(rel.as_str(), '\\', "/")),
        None => Err(
            failure(
                dataset,
                "index_stage1",
                None,
                Some(file),
                Some(shard),
                "prefix not found".to_owned(),
                None,
            ),
        ),
    }
}

/// What is recorded of a file whose shard could not be built.
pub fn shard_failed(dataset: &str, rel: &str, file: &str, shard: &str, e: String) -> (r: FailureEntry)
    ensures
        r@ == shard_failure(
            dataset@,
            Some(rel@),
            file@,
            shard@,
            e@,
            Some("repair/reconvert parquet file and rerun index"@),
        ),
{
    failure(
        dataset,
        "index_stage1",
        Some(rel),
        Some(file),
        Some(shard),
        e,
        Some("repair/reconvert parquet file and rerun index".to_owned()),
    )
}

/// What became of the shard of a file.
pub enum ShardOutcome {
    Built,
    /// It was there already.
    Present,
    Failed(FailureEntry),
}

pub open spec fn shards_present(o: Seq<ShardOutcome>) -> nat
    decreases o.len(),
{
    if o.len() == 0 {
        0
    } else {
        shards_present(o.drop_last()) + (if o.last() is Present {
            1nat
        } else {
            0nat
        })
    }
}

pub open spec fn shards_failed(o: Seq<ShardOutcome>) -> Seq<FailureEntry>
    decreases o.len(),
{
    if o.len() == 0 {
        Seq::empty()
    } else {
        match o.last() {
            ShardOutcome::Failed(f) => shards_failed(o.drop_last()).push(f),
            _ => shards_failed(o.drop_last()),
        }
    }
}

/// What of the scanned items neither failed nor was skipped.
pub open spec fn succeeded_of(ds: DatasetReportSummary) -> u64 {
    report::minus(ds.items_scanned, (ds.failed + ds.skipped) as u64)
}

fn count_rest(ds: &mut DatasetReportSummary)
    requires
        old(ds).failed + old(ds).skipped <= u64::MAX,
    ensures
        *final(ds) == (DatasetReportSummary { succeeded: succeeded_of(*old(ds)), ..*old(ds) }),
{
    let done: u64 = ds.failed + ds.skipped;
    ds.succeeded = if ds.items_scanned >= done {
        ds.items_scanned - done
    } else {
        0
    };
}

/// Counts what became of some shards.
pub fn count_shards(outcomes: &Vec<ShardOutcome>, report: &mut RunReport, ds: &mut DatasetReportSummary)
    requires
        old(ds).failed + old(ds).skipped + outcomes@.len() <= u64::MAX,
    ensures
        *final(report) == (RunReport { failures: final(report).failures, ..*old(report) }),
        final(report).failures@ == old(report).failures@ + shards_failed(outcomes@),
        final(ds).dataset == old(ds).dataset,
        final(ds).items_scanned == old(ds).items_scanned,
        final(ds).skipped == old(ds).skipped + shards_present(outcomes@),
        final(ds).failed == old(ds).failed + shards_failed(outcomes@).len(),
        final(ds).succeeded == succeeded_of(*final(ds)),
        shards_present(outcomes@) + shards_failed(outcomes@).len() <= outcomes@.len(),
{
    let ghost r0 = *report;
    let ghost d0 = *ds;
    let ghost all = outcomes@;
    let mut i: usize = 0;
    assert(report.failures@ =~= r0.failures@ + shards_failed(all.take(0)));
    while i < outcomes.len()
        invariant
            i <= outcomes@.len(),
            all == outcomes@,
            d0.failed + d0.skipped + outcomes@.len() <= u64::MAX,
            *report == (RunReport { failures: report.failures, ..r0 }),
            report.failures@ == r0.failures@ + shards_failed(all.take(i as int)),
            *ds == (DatasetReportSummary { skipped: ds.skipped, failed: ds.failed, ..d0 }),
            ds.skipped == d0.skipped + shards_present(all.take(i as int)),
            ds.failed == d0.failed + shards_failed(all.take(i as int)).len(),
            shards_present(all.take(i as int)) + shards_failed(all.take(i as int)).len() <= i,
        decreases outcomes@.len() - i,
    {
        assert(all.take(i + 1).drop_last() =~= all.take(i as int));
        match &outcomes[i] {
            ShardOutcome::Built => {},
            ShardOutcome::Present => {
                ds.skipped = ds.skipped + 1;
            },
            ShardOutcome::Failed(f) => {
                ds.failed = ds.failed + 1;
                report.failures.push(f.clone());
                assert(report.failures@ =~= r0.failures@ + shards_failed(all.take(i + 1)));
            },
        }
        i += 1;
    }
    assert(all.take(i as int) =~= all);
    count_rest(ds);
}

/// All files of an index are accounted for once its shards are counted: built,
/// present or failed.
pub proof fn law_shards_add_up(ds: DatasetReportSummary)
    requires
        ds.failed + ds.skipped <= ds.items_scanned,
    ensures
        succeeded_of(ds) + ds.failed + ds.skipped == ds.items_scanned,
{
}

pub open spec fn combine_failure(
    dataset: Seq<char>,
    index_file: Seq<char>,
    e: Seq<char>,
    recovery: Seq<char>,
) -> report::FailureView {
    report::FailureView {
        dataset,
        phase: "index_stage2"@,
        rel_path: None,
        source_path: Some(shard_dir_of(index_file)),
        output_path: Some(index_file),
        error_message: e,
        suggested_recovery: Some(recovery),
    }
}

/// Begins the building of an index over so many files, or refuses where there are none.
pub fn start_index(dataset: &str, corpus_dir: &str, files: usize) -> (r: Result<
    DatasetReportSummary,
    String,
>)
    ensures
        match r {
            Ok(ds) => {
                &&& files > 0
                &&& ds.dataset@ == dataset@
                &&& ds.items_scanned == files
                &&& ds.succeeded == 0 && ds.failed == 0 && ds.skipped == 0
            },
            Err(e) => files == 0 && e@ == "no parquet files found under "@ + corpus_dir@,
        },
{
    if files == 0 {
        let mut m = "no parquet files found under ".to_owned();
        m.append(corpus_dir);
        return Err(m);
    }
    let mut ds = DatasetReportSummary::new(dataset);
    ds.items_scanned = files as u64;
    Ok(ds)
}

/// Records that an index was there already and is kept.
pub fn keep_index(report: &mut RunReport, dataset: &str)
    ensures
        *final(report) == (RunReport { datasets: final(report).datasets, ..*old(report) }),
        final(report).datasets@.len() == old(report).datasets@.len() + 1,
        final(report).datasets@.drop_last() == old(report).datasets@,
        final(report).datasets@.last().dataset@ == dataset@,
        final(report).datasets@.last().items_scanned == 0,
        final(report).datasets@.last().succeeded == 0,
        final(report).datasets@.last().failed == 0,
        final(report).datasets@.last().skipped == 1,
{
    let mut ds = DatasetReportSummary::new(dataset);
    ds.skipped = 1;
    report.datasets.push(ds);
    assert(report.datasets@.drop_last() =~= old(report).datasets@);
}

/// Whether the shards are put together: all of them have to be there.
pub fn may_combine(ds: &DatasetReportSummary) -> (r: bool)
    ensures
        r == (ds.failed == 0),
{
    ds.failed == 0
}

/// Ends the building of an index. `combined` says how putting the shards together
/// went; it is missing where shards failed.
pub fn end_index(
    report: &mut RunReport,
    ds: DatasetReportSummary,
    index_file: &str,
    combined: Option<Result<(), String>>,
)
    requires
        combined is Some <==> ds.failed == 0,
        ds.failed + ds.skipped < u64::MAX,
    ensures
        *final(report) == (RunReport {
            failures: final(report).failures,
            datasets: final(report).datasets,
            ..*old(report)
        }),
        match combined {
            Some(Ok(_)) => final(report).failures@ == old(report).failures@,
            Some(Err(e)) => report::failure_views(final(report).failures@) == report::failure_views(
                old(report).failures@,
            ).push(
                combine_failure(
                    ds.dataset@,
                    index_file@,
                    e@,
                    "fix stage1 failures and rerun index"@,
                ),
            ),
            None => report::failure_views(final(report).failures@) == report::failure_views(
                old(report).failures@,
            ).push(
                combine_failure(
                    ds.dataset@,
                    index_file@,
                    "stage1 failed for "@ + text::decimal(ds.failed as nat)
                        + " shard(s), stage2 skipped"@,
                    "fix/reconvert failed files and rerun index"@,
                ),
            ),
        },
        ({
            let failed = (ds.failed + (if combined matches Some(Err(_)) {
                1int
            } else {
                0int
            })) as u64;
            let done = DatasetReportSummary { failed, ..ds };
            final(report).datasets@ == seq![
                DatasetReportSummary { succeeded: succeeded_of(done), ..done },
            ]
        }),
{
    broadcast use report::lemma_failure_views_push;

    let dir = shard_dir(index_file);
    let mut ds = ds;
    match combined {
        Some(Ok(_)) => {},
        Some(Err(e)) => {
            let f = failure(
                ds.dataset.as_str(),
                "index_stage2",
                None,
                Some(dir.as_str()),
                Some(index_file),
                e,
                Some("fix stage1 failures and rerun index".to_owned()),
            );
            ds.failed = ds.failed + 1;
            report.failures.push(f);
        },
        None => {
            let mut m = "stage1 failed for ".to_owned();
            push_decimal(&mut m, ds.failed as u128);
            m.append(" shard(s), stage2 skipped");
            let f = failure(
                ds.dataset.as_str(),
                "index_stage2",
                None,
                Some(dir.as_str()),
                Some(index_file),
                m,
                Some("fix/reconvert failed files and rerun index".to_owned()),
            );
            report.failures.push(f);
        },
    }
    count_rest(&mut ds);
    let mut datasets: Vec<DatasetReportSummary> = Vec::new();
    datasets.push(ds);
    report.datasets = datasets;
    assert(report.datasets@ =~= seq![ds]);
}

/// The settings that the report of an index records.
pub fn index_args(root_dir: &str, dataset: &str, tuning: &Tuning, state_flush_every: usize) -> (r: Vec<
    ReportArg,
>)
    ensures
        convert::arg_views(r@) == seq![
            ("root_dir"@, root_dir@),
            ("dataset"@, dataset@),
            ("workers"@, text::decimal(tuning.workers as nat)),
            ("memory_mb"@, convert::shown_option(tuning.memory_mb)),
            ("state_flush_every"@, text::decimal(state_flush_every as nat)),
        ],
{
    let mut v: Vec<ReportArg> = Vec::new();
    let workers = decimal_string(tuning.workers as u128);
    let memory = show_option(tuning.memory_mb);
    let flush = decimal_string(state_flush_every as u128);
    v.push(report_arg("root_dir", root_dir));
    v.push(report_arg("dataset", dataset));
    v.push(report_arg("workers", workers.as_str()));
    v.push(report_arg("memory_mb", memory.as_str()));
    v.push(report_arg("state_flush_every", flush.as_str()));
    v
}

/// The check of an index, step by step: what it has found so far.
pub struct IndexCheck {
    pub dataset: String,
    pub index_file: String,
    pub corpus_dir: String,
    pub failures: Vec<FailureEntry>,
}

/// One thing that is wrong with an index.
pub open spec fn check_failure(
    c: IndexCheck,
    phase: Seq<char>,
    rel: Option<Seq<char>>,
    source: Seq<char>,
    output: Option<Seq<char>>,
    e: Seq<char>,
    recovery: Option<Seq<char>>,
) -> report::FailureView {
    report::FailureView {
        dataset: c.dataset@,
        phase,
        rel_path: rel,
        source_path: Some(source),
        output_path: output,
        error_message: e,
        suggested_recovery: recovery,
    }
}

/// The columns that every index has.
pub open spec fn index_columns() -> Seq<Seq<char>> {
    seq!["id"@, "id_block"@, "parquet_file"@, "file_row_number"@]
}

pub open spec fn rebuild_text() -> Seq<char> {
    "rebuild index with `openalex-snapshot index --overwrite`"@
}

/// What is recorded of those of the first `n` columns that are missing.
pub open spec fn column_failures(c: IndexCheck, cols: Map<Seq<char>, Seq<char>>, n: int) -> Seq<
    report::FailureView,
>
    decreases n,
{
    if n <= 0 {
        Seq::empty()
    } else {
        let rest = column_failures(c, cols, n - 1);
        if cols.dom().contains(index_columns()[n - 1]) {
            rest
        } else {
            rest.push(
                check_failure(
                    c,
                    "verify_index_schema"@,
                    None,
                    c.index_file@,
                    None,
                    "required column missing: "@ + index_columns()[n - 1],
                    Some(rebuild_text()),
                ),
            )
        }
    }
}

/// The number in a cell, or zero where there is none.
pub open spec fn count_in(row: Map<Seq<char>, Seq<char>>, name: Seq<char>) -> nat {
    if row.dom().contains(name) {
        text::unsigned_of(row[name], u64::MAX as nat).unwrap_or(0)
    } else {
        0
    }
}

fn read_count(row: &TextMap, name: &str) -> (r: u64)
    requires
        row.wf(),
    ensures
        r == count_in(row@, name@),
{
    match row.get(name) {
        Some(s) => match parse_unsigned(s.as_str(), u64::MAX as u128) {
            Some(n) => n as u64,
            None => 0,
        },
        None => 0,
    }
}

/// What is recorded of the files that the index refers to and that are missing.
pub open spec fn ref_failures(
    c: IndexCheck,
    parquet_dir: Seq<char>,
    refs: Seq<Seq<char>>,
    is_there: Seq<bool>,
) -> Seq<report::FailureView>
    decreases refs.len(),
{
    if refs.len() == 0 {
        Seq::empty()
    } else {
        let rest = ref_failures(c, parquet_dir, refs.drop_last(), is_there);
        if is_there[refs.len() - 1] {
            rest
        } else {
            rest.push(
                check_failure(
                    c,
                    "verify_index_path"@,
                    Some(refs.last()),
                    c.index_file@,
                    Some(paths::join_of(parquet_dir, refs.last())),
                    "index references missing parquet file"@,
                    Some("re-run convert for missing files then rebuild index"@),
                ),
            )
        }
    }
}

impl IndexCheck {
    /// What the failures say.
    pub open spec fn found(self) -> Seq<report::FailureView> {
        report::failure_views(self.failures@)
    }

    /// Whether only what was found differs.
    pub open spec fn same_subject(self, other: Self) -> bool {
        self.dataset == other.dataset && self.index_file == other.index_file && self.corpus_dir
            == other.corpus_dir
    }

    /// Begins a check: the index has to be there.
    pub fn start(dataset: &str, index_file: &str, corpus_dir: &str, is_there: bool) -> (r: Self)
        ensures
            r.dataset@ == dataset@,
            r.index_file@ == index_file@,
            r.corpus_dir@ == corpus_dir@,
            r.found() == (if is_there {
                Seq::empty()
            } else {
                seq![
                    check_failure(
                        r,
                        "verify_index_exists"@,
                        None,
                        index_file@,
                        None,
                        "index file missing"@,
                        Some("run index subcommand first"@),
                    ),
                ]
            }),
    {
        broadcast use report::lemma_failure_views_push;

        let mut failures: Vec<FailureEntry> = Vec::new();
        assert(report::failure_views(failures@) =~= Seq::<report::FailureView>::empty());
        if !is_there {
            failures.push(
                failure(
                    dataset,
                    "verify_index_exists",
                    None,
                    Some(index_file),
                    None,
                    "index file missing".to_owned(),
                    Some("run index subcommand first".to_owned()),
                ),
            );
        }
        let r = IndexCheck {
            dataset: dataset.to_owned(),
            index_file: index_file.to_owned(),
            corpus_dir: corpus_dir.to_owned(),
            failures,
        };
        proof {
            if !is_there {
                assert(r.found() =~= seq![
                    check_failure(
                        r,
                        "verify_index_exists"@,
                        None,
                        index_file@,
                        None,
                        "index file missing"@,
                        Some("run index subcommand first"@),
                    ),
                ]);
            }
        }
        r
    }

    /// Whether nothing is wrong so far. Columns, counts and references are looked
    /// at only then.
    pub fn is_clean(&self) -> (r: bool)
        ensures
            r == (self.found().len() == 0),
    {
        self.failures.len() == 0
    }

    /// Looks at the columns of the index.
    pub fn check_columns(&mut self, cols: &TextMap)
        requires
            cols.wf(),
        ensures
            final(self).same_subject(*old(self)),
            final(self).found() == old(self).found() + column_failures(*old(self), cols@, 4),
    {
        let ghost c0 = *self;
        let mut i: usize = 0;
        assert(self.found() =~= c0.found() + column_failures(c0, cols@, 0));
        while i < 4
            invariant
                i <= 4,
                cols.wf(),
                self.same_subject(c0),
                self.found() == c0.found() + column_failures(c0, cols@, i as int),
            decreases 4 - i,
        {
            broadcast use report::lemma_failure_views_push;

            let name = if i == 0 {
                "id"
            } else if i == 1 {
                "id_block"
            } else if i == 2 {
                "parquet_file"
            } else {
                "file_row_number"
            };
            assert(name@ == index_columns()[i as int]);
            if !cols.contains_key(name) {
                let mut e = "required column missing: ".to_owned();
                e.append(name);
                let f = failure(
                    self.dataset.as_str(),
                    "verify_index_schema",
                    None,
                    Some(self.index_file.as_str()),
                    None,
                    e,
                    Some("rebuild index with `openalex-snapshot index --overwrite`".to_owned()),
                );
                self.failures.push(f);
            }
            i += 1;
            assert(self.found() =~= c0.found() + column_failures(c0, cols@, i as int));
        }
    }

    /// Looks at the corpus, which has to hold files.
    pub fn check_corpus(&mut self, files: usize)
        ensures
            final(self).same_subject(*old(self)),
            final(self).found() == (if files == 0 {
                old(self).found().push(
                    check_failure(
                        *old(self),
                        "verify_index_corpus"@,
                        None,
                        old(self).corpus_dir@,
                        None,
                        "no parquet files found in corpus"@,
                        None,
                    ),
                )
            } else {
                old(self).found()
            }),
    {
        broadcast use report::lemma_failure_views_push;

        if files == 0 {
            let f = failure(
                self.dataset.as_str(),
                "verify_index_corpus",
                None,
                Some(self.corpus_dir.as_str()),
                None,
                "no parquet files found in corpus".to_owned(),
                None,
            );
            self.failures.push(f);
        }
    }

    /// Compares the numbers of rows of the index and of the corpus.
    pub fn check_counts(&mut self, row: &TextMap)
        requires
            row.wf(),
        ensures
            final(self).same_subject(*old(self)),
            ({
                let n = count_in(row@, "idx_count"@);
                let m = count_in(row@, "corpus_count"@);
                final(self).found() == (if n == m {
                    old(self).found()
                } else {
                    old(self).found().push(
                        check_failure(
                            *old(self),
                            "verify_index_count"@,
                            None,
                            old(self).index_file@,
                            Some(old(self).corpus_dir@),
                            "row count mismatch: index="@ + text::decimal(n) + " corpus="@
                                + text::decimal(m),
                            Some(rebuild_text()),
                        ),
                    )
                })
            }),
            forall|n: nat, m: nat|
                n <= u64::MAX && m <= u64::MAX && row@.dom().contains("idx_count"@)
                    && row@["idx_count"@] == #[trigger] text::decimal(n) && row@.dom().contains(
                    "corpus_count"@,
                ) && row@["corpus_count"@] == #[trigger] text::decimal(m) ==> (final(self).found()
                    == old(self).found() <==> n == m),
    {
        broadcast use report::lemma_failure_views_push;

        proof {
            assert forall|n: nat, m: nat|
                n <= u64::MAX && m <= u64::MAX && row@.dom().contains("idx_count"@)
                    && row@["idx_count"@] == #[trigger] text::decimal(n) && row@.dom().contains(
                    "corpus_count"@,
                ) && row@["corpus_count"@] == #[trigger] text::decimal(m) implies count_in(
                row@,
                "idx_count"@,
            ) == n && count_in(row@, "corpus_count"@) == m by {
                law_count_in_a_row(row@, "idx_count"@, n);
                law_count_in_a_row(row@, "corpus_count"@, m);
            }
        }
        let n: u64 = read_count(row, "idx_count");
        let m: u64 = read_count(row, "corpus_count");
        if n != m {
            let mut e = "row count mismatch: index=".to_owned();
            push_decimal(&mut e, n as u128);
            e.append(" corpus=");
            push_decimal(&mut e, m as u128);
            let f = failure(
                self.dataset.as_str(),
                "verify_index_count",
                None,
                Some(self.index_file.as_str()),
                Some(self.corpus_dir.as_str()),
                e,
                Some("rebuild index with `openalex-snapshot index --overwrite`".to_owned()),
            );
            self.failures.push(f);
            assert(self.found().len() == old(self).found().len() + 1);
        }
    }

    /// Looks at the files that the index refers to; `is_there` says which of them
    /// exist below the parquet directory.
    pub fn check_refs(&mut self, parquet_dir: &str, refs: &Vec<String>, is_there: &Vec<bool>)
        requires
            is_there@.len() == refs@.len(),
        ensures
            final(self).same_subject(*old(self)),
            final(self).found() == old(self).found() + ref_failures(
                *old(self),
                parquet_dir@,
                text::texts(refs@),
                is_there@,
            ),
    {
        let ghost c0 = *self;
        let ghost all = text::texts(refs@);
        let mut i: usize = 0;
        assert(self.found() =~= c0.found() + ref_failures(c0, parquet_dir@, all.take(0), is_there@));
        while i < refs.len()
            invariant
                i <= refs@.len(),
                is_there@.len() == refs@.len(),
                all == text::texts(refs@),
                self.same_subject(c0),
                self.found() == c0.found() + ref_failures(
                    c0,
                    parquet_dir@,
                    all.take(i as int),
                    is_there@,
                ),
            decreases refs@.len() - i,
        {
            broadcast use report::lemma_failure_views_push;

            proof {
                assert(all.take(i + 1).drop_last() =~= all.take(i as int));
                assert(all.take(i + 1).last() == refs@[i as int]@);
            }
            if !is_there[i] {
                let p = join_path(parquet_dir, refs[i].as_str());
                let f = failure(
                    self.dataset.as_str(),
                    "verify_index_path",
                    Some(refs[i].as_str()),
                    Some(self.index_file.as_str()),
                    Some(p.as_str()),
                    "index references missing parquet file".to_owned(),
                    Some("re-run convert for missing files then rebuild index".to_owned()),
                );
                self.failures.push(f);
            }
            i += 1;
            assert(self.found() =~= c0.found() + ref_failures(
                c0,
                parquet_dir@,
                all.take(i as int),
                is_there@,
            ));
        }
        assert(all.take(i as int) =~= all);
    }

    /// Ends a check: the index counts as one item, which succeeded if nothing is
    /// wrong with it.
    pub fn finish(self, report: &mut RunReport)
        ensures
            *final(report) == (RunReport {
                failures: final(report).failures,
                datasets: final(report).datasets,
                ..*old(report)
            }),
            final(report).failures@ == old(report).failures@ + self.failures@,
            final(report).datasets@.len() == 1,
            final(report).datasets@[0].dataset@ == self.dataset@,
            final(report).datasets@[0].items_scanned == 1,
            final(report).datasets@[0].skipped == 0,
            final(report).datasets@[0].failed == self.found().len(),
            final(report).datasets@[0].succeeded == (if self.found().len() == 0 {
                1int
            } else {
                0int
            }),
    {
        let mut failures = self.failures;
        let failed: u64 = failures.len() as u64;
        let ds = DatasetReportSummary {
            dataset: self.dataset,
            items_scanned: 1,
            succeeded: if failed == 0 {
                1
            } else {
                0
            },
            failed,
            skipped: 0,
        };
        let mut datasets: Vec<DatasetReportSummary> = Vec::new();
        datasets.push(ds);
        report.datasets = datasets;
        report.failures.append(&mut failures);
    }
}

/// An index passes exactly if it has every column: no column is recorded as
/// missing that is there, and none is passed over.
pub proof fn law_index_needs_every_column(c: IndexCheck, cols: Map<Seq<char>, Seq<char>>, n: int)
    requires
        0 <= n <= 4,
    ensures
        column_failures(c, cols, n).len() == 0 <==> forall|i: int|
            0 <= i < n ==> cols.dom().contains(#[trigger] index_columns()[i]),
    decreases n,
{
    if n > 0 {
        law_index_needs_every_column(c, cols, n - 1);
        if forall|i: int| 0 <= i < n ==> cols.dom().contains(#[trigger] index_columns()[i]) {
            assert(cols.dom().contains(index_columns()[n - 1]));
        }
        if column_failures(c, cols, n).len() == 0 {
            assert forall|i: int| 0 <= i < n implies cols.dom().contains(
                #[trigger] index_columns()[i],
            ) by {}
        }
    }
}

/// An index passes only if every file that it refers to exists.
pub proof fn law_index_refers_to_files(
    c: IndexCheck,
    parquet_dir: Seq<char>,
    refs: Seq<Seq<char>>,
    is_there: Seq<bool>,
)
    requires
        is_there.len() >= refs.len(),
    ensures
        ref_failures(c, parquet_dir, refs, is_there).len() == 0 <==> forall|i: int|
            0 <= i < refs.len() ==> #[trigger] is_there[i],
    decreases refs.len(),
{
    if refs.len() > 0 {
        law_index_refers_to_files(c, parquet_dir, refs.drop_last(), is_there);
        if forall|i: int| 0 <= i < refs.len() ==> #[trigger] is_there[i] {
            assert(is_there[refs.len() - 1]);
        }
    }
}

/// The settings that the report of the check of an index records.
pub fn verify_index_args(root_dir: &str, dataset: &str, index_file: &str) -> (r: Vec<ReportArg>)
    ensures
        convert::arg_views(r@) == seq![
            ("root_dir"@, root_dir@),
            ("dataset"@, dataset@),
            ("index_file"@, index_file@),
        ],
{
    let mut v: Vec<ReportArg> = Vec::new();
    v.push(report_arg("root_dir", root_dir));
    v.push(report_arg("dataset", dataset));
    v.push(report_arg("index_file", index_file));
    v
}

/// A cell that holds a number in decimal counts as that number, and nothing but a number
/// counts as more than zero.
pub proof fn law_count_in_a_row(row: Map<Seq<char>, Seq<char>>, name: Seq<char>, n: nat)
    requires
        n <= u64::MAX,
    ensures
        row.dom().contains(name) && row[name] == text::decimal(n) ==> count_in(row, name) == n,
        !row.dom().contains(name) ==> count_in(row, name) == 0,
        row.dom().contains(name) && !(text::is_decimal(row[name]) || row[name].len() > 0
            && row[name][0] == '+') ==> count_in(row, name) == 0,
{
    text::law_decimal_round_trip(n);
}

/// An index and its corpus whose numbers of rows are known agree exactly if the numbers are
/// the same.
pub proof fn law_counts_agree_as_numbers(row: Map<Seq<char>, Seq<char>>, n: nat, m: nat)
    requires
        n <= u64::MAX,
        m <= u64::MAX,
        row.dom().contains("idx_count"@),
        row.dom().contains("corpus_count"@),
        row["idx_count"@] == text::decimal(n),
        row["corpus_count"@] == text::decimal(m),
    ensures
        count_in(row, "idx_count"@) == count_in(row, "corpus_count"@) <==> n == m,
        count_in(row, "idx_count"@) == n,
        count_in(row, "corpus_count"@) == m,
{
    law_count_in_a_row(row, "idx_count"@, n);
    law_count_in_a_row(row, "corpus_count"@, m);
}

/// Every file of a dataset has a shard of its own, which carries the number of the file,
/// counted from one, in at least five digits.
pub proof fn law_every_file_has_its_shard(dir: Seq<char>, i: nat, j: nat)
    ensures
        i != j ==> shard_file_of(dir, i as int) != shard_file_of(dir, j as int),
        exists|d: Seq<char>|
            text::is_decimal(d) && text::decimal_value(d) == i + 1 && d.len() >= 5
                && shard_file_of(dir, i as int) == #[trigger] paths::join_of(
                dir,
                "idx_"@ + d + ".parquet"@,
            ),
{
    reveal_strlit("idx_");
    reveal_strlit(".parquet");
    let a = text::zero_padded(i + 1, 5);
    let b = text::zero_padded(j + 1, 5);
    text::law_zero_padded_is_the_number(i + 1, 5);
    text::law_zero_padded_is_the_number(j + 1, 5);
    let x = "idx_"@ + a + ".parquet"@;
    let y = "idx_"@ + b + ".parquet"@;
    assert(shard_file_of(dir, i as int) == paths::join_of(dir, x));
    assert(shard_file_of(dir, j as int) == paths::join_of(dir, y));
    assert(x[0] == 'i' && y[0] == 'i');
    if shard_file_of(dir, i as int) == shard_file_of(dir, j as int) {
        let p = paths::join_of(dir, x);
        assert(p.len() == paths::join_of(dir, y).len());
        assert(x.len() == y.len());
        assert(p.skip(p.len() - x.len()) =~= x);
        assert(paths::join_of(dir, y).skip(p.len() - y.len()) =~= y);
        assert(x.subrange(4, x.len() - 8) =~= a);
        assert(y.subrange(4, y.len() - 8) =~= b);
    }
}

/// The shards of an index lie in a directory that is named after it, and the indexes of two
/// datasets are two files, each named after its dataset.
pub proof fn law_indexes_are_apart(parquet_dir: Seq<char>, a: Seq<char>, b: Seq<char>)
    requires
        paths::is_component(a + "_id_idx.parquet"@),
        paths::is_component(b + "_id_idx.parquet"@),
        paths::is_tidy(parquet_dir),
    ensures
        a != b ==> index_file_of(parquet_dir, a) != index_file_of(parquet_dir, b),
        paths::file_name_of(index_file_of(parquet_dir, a)) == Some(a + "_id_idx.parquet"@),
        paths::parent_of(index_file_of(parquet_dir, a)) == Some(parquet_dir),
        shard_dir_of(index_file_of(parquet_dir, a)) == index_file_of(parquet_dir, a) + "_tmp"@,
{
    paths::law_parent_and_file_name_of_a_joined_path(parquet_dir, a + "_id_idx.parquet"@);
    paths::law_parent_and_file_name_of_a_joined_path(parquet_dir, b + "_id_idx.parquet"@);
    let end = "_id_idx.parquet"@;
    if a + end == b + end {
        assert((a + end).len() == (b + end).len());
        assert((a + end).take(a.len() as int) =~= a);
        assert((b + end).take(b.len() as int) =~= b);
    }
}

/// What the index says of a file leads back to the file: it is the path of the file below
/// the parquet directory.
pub proof fn law_indexed_path_leads_back(parquet_dir: Seq<char>, rel: Seq<char>)
    requires
        paths::is_tidy(rel),
        rel.len() > 0,
        !paths::is_rooted(rel),
        paths::body_start(rel) == 0,
        !rel.contains('\\'),
    ensures
        indexed_path(parquet_dir, paths::join_of(parquet_dir, rel)) == Some(rel),
{
    paths::law_joined_path_is_below_its_base(parquet_dir, rel);
    text::law_replacing_what_is_not_there(rel, '\\', "/"@);
}

/// The indexes of a corpus are those of its directories that are not hidden, but for the
/// works as they were fetched.
pub proof fn law_indexed_datasets(name: Seq<char>)
    ensures
        is_indexed(name) <==> name != "works_aws"@ && (name.len() == 0 || name[0] != '.'),
{
    reveal_strlit(".");
    reveal_strlit("works_aws");
    if name.len() > 0 {
        assert(name.take(1)[0] == name[0]);
        if name[0] == '.' {
            assert(name.take(1) =~= "."@);
        }
    }
}

/// An index is sound only with the columns `id`, `id_block`, `parquet_file` and
/// `file_row_number`, and each that is missing is recorded under its name.
pub proof fn law_index_has_its_four_columns(c: IndexCheck, cols: Map<Seq<char>, Seq<char>>)
    ensures
        index_columns().len() == 4,
        column_failures(c, cols, 4).len() == 0 <==> cols.dom().contains("id"@)
            && cols.dom().contains("id_block"@) && cols.dom().contains("parquet_file"@)
            && cols.dom().contains("file_row_number"@),
        column_failures(c, cols, 4).len() == 4 - (if cols.dom().contains("id"@) {
            1int
        } else {
            0
        }) - (if cols.dom().contains("id_block"@) {
            1int
        } else {
            0
        }) - (if cols.dom().contains("parquet_file"@) {
            1int
        } else {
            0
        }) - (if cols.dom().contains("file_row_number"@) {
            1int
        } else {
            0
        }),
{
    reveal_with_fuel(column_failures, 5);
}

/// Every file that an index refers to and that is missing is recorded once, with its path,
/// as a failure of this dataset.
pub proof fn law_missing_files_are_named(
    c: IndexCheck,
    parquet_dir: Seq<char>,
    refs: Seq<Seq<char>>,
    is_there: Seq<bool>,
    r: Seq<char>,
    there: bool,
)
    requires
        is_there.len() == refs.len(),
    ensures
        ({
            let before = ref_failures(c, parquet_dir, refs, is_there);
            let after = ref_failures(c, parquet_dir, refs.push(r), is_there.push(there));
            &&& there ==> after == before
            &&& !there ==> after.drop_last() == before && after.len() == before.len() + 1
                && after.last().rel_path == Some(r) && after.last().dataset == c.dataset@
                && after.last().source_path == Some(c.index_file@) && after.last().output_path
                == Some(paths::join_of(parquet_dir, r))
        }),
{
    lemma_ref_failures_prefix(c, parquet_dir, refs, is_there, is_there.push(there));
    assert(refs.push(r).drop_last() =~= refs);
    let after = ref_failures(c, parquet_dir, refs.push(r), is_there.push(there));
    if !there {
        assert(after.drop_last() =~= ref_failures(c, parquet_dir, refs, is_there));
    }
}

proof fn lemma_ref_failures_prefix(
    c: IndexCheck,
    parquet_dir: Seq<char>,
    refs: Seq<Seq<char>>,
    a: Seq<bool>,
    b: Seq<bool>,
)
    requires
        refs.len() <= a.len() <= b.len(),
        forall|i: int| 0 <= i < refs.len() ==> a[i] == b[i],
    ensures
        ref_failures(c, parquet_dir, refs, a) == ref_failures(c, parquet_dir, refs, b),
    decreases refs.len(),
{
    if refs.len() > 0 {
        lemma_ref_failures_prefix(c, parquet_dir, refs.drop_last(), a, b);
    }
}

/// Shards that were there already count as skipped, one by one, and those that failed are
/// recorded, each as it was told.
pub proof fn law_shards_are_counted(o: Seq<ShardOutcome>)
    ensures
        shards_present(o) == o.filter(|x: ShardOutcome| x is Present).len(),
        shards_failed(o).len() == o.filter(|x: ShardOutcome| x is Failed).len(),
        forall|i: int|
            0 <= i < shards_failed(o).len() ==> o.filter(|x: ShardOutcome| x is Failed)[i]
                == ShardOutcome::Failed(#[trigger] shards_failed(o)[i]),
    decreases o.len(),
{
    reveal(Seq::filter);
    if o.len() > 0 {
        law_shards_are_counted(o.drop_last());
    }
}
/// A fault of an index is recorded under its dataset and phase, with the paths and the words
/// that it was found with.
pub proof fn law_fault_is_recorded_as_found(
    c: IndexCheck,
    phase: Seq<char>,
    rel: Option<Seq<char>>,
    source: Seq<char>,
    output: Option<Seq<char>>,
    e: Seq<char>,
    recovery: Option<Seq<char>>,
)
    ensures
        ({
            let f = check_failure(c, phase, rel, source, output, e, recovery);
            &&& f.dataset == c.dataset@
            &&& f.phase == phase
            &&& f.rel_path == rel
            &&& f.source_path == Some(source)
            &&& f.output_path == output
            &&& f.error_message == e
            &&& f.suggested_recovery == recovery
        }),
{
}
/// What goes wrong with a shard or with the index is told with what was read and what was
/// to be written.
pub proof fn law_failures_of_indexing(
    dataset: Seq<char>,
    rel: Option<Seq<char>>,
    file: Seq<char>,
    shard: Seq<char>,
    index_file: Seq<char>,
    e: Seq<char>,
    recovery: Seq<char>,
)
    ensures
        ({
            let f = shard_failure(dataset, rel, file, shard, e, Some(recovery));
            &&& f.dataset == dataset && f.phase == "index_stage1"@ && f.rel_path == rel
            &&& f.source_path == Some(file) && f.output_path == Some(shard)
            &&& f.error_message == e && f.suggested_recovery == Some(recovery)
        }),
        ({
            let f = combine_failure(dataset, index_file, e, recovery);
            &&& f.dataset == dataset && f.phase == "index_stage2"@ && f.rel_path is None
            &&& f.source_path == Some(index_file + "_tmp"@) && f.output_path == Some(index_file)
            &&& f.error_message == e && f.suggested_recovery == Some(recovery)
        }),
        rebuild_text() == "rebuild index with `openalex-snapshot index --overwrite`"@,
{
}

/// The datasets that are indexed are those found that can be; there is an error exactly
/// where there is none.
pub proof fn law_chosen_for_indexing(
    r: Result<Seq<Seq<char>>, Seq<char>>,
    found: Seq<Seq<char>>,
    parquet_dir: Seq<char>,
    name: Seq<char>,
)
    requires
        is_choice(r, found, parquet_dir),
    ensures
        r is Err <==> forall|n: Seq<char>| #[trigger] found.contains(n) ==> !is_indexed(n),
        r matches Ok(v) ==> (v.contains(name) <==> found.contains(name) && is_indexed(name)),
{
    broadcast use vstd::seq_lib::group_to_multiset_ensures;

    let f = |n: Seq<char>| is_indexed(n);
    let kept = found.filter(f);
    assert forall|n: Seq<char>| kept.contains(n) <==> found.contains(n) && is_indexed(n) by {
        lemma_indexed_filter(found, n);
    }
    match r {
        Ok(v) => {
            assert(v.to_multiset().count(name) == kept.to_multiset().count(name));
            assert(v.contains(name) <==> kept.contains(name));
            assert(v.to_multiset().len() == kept.to_multiset().len());
            assert(kept.len() > 0);
            assert(kept.contains(kept[0]));
            assert(found.contains(kept[0]) && is_indexed(kept[0]));
        },
        Err(_) => {
            assert forall|n: Seq<char>| #[trigger] found.contains(n) implies !is_indexed(n) by {
                assert(!kept.contains(n));
            }
        },
    }
}

proof fn lemma_indexed_filter(found: Seq<Seq<char>>, n: Seq<char>)
    ensures
        found.filter(|n: Seq<char>| is_indexed(n)).contains(n) <==> found.contains(n) && is_indexed(
            n,
        ),
    decreases found.len(),
{
    let f = |n: Seq<char>| is_indexed(n);
    let kept = found.filter(f);
    reveal(Seq::filter);
    if found.len() > 0 {
        let init = found.drop_last();
        lemma_indexed_filter(init, n);
        let rest = init.filter(f);
        if kept.contains(n) {
            let i = choose|i: int| 0 <= i < kept.len() && kept[i] == n;
            if i < rest.len() {
                assert(rest[i] == n);
                let k = choose|k: int| 0 <= k < init.len() && init[k] == n;
                assert(found[k] == n);
            } else {
                assert(found[found.len() - 1] == n);
            }
        }
        if found.contains(n) && is_indexed(n) {
            if n == found.last() {
                assert(kept[kept.len() - 1] == n);
            } else {
                let k = choose|k: int| 0 <= k < found.len() && found[k] == n;
                assert(init[k] == n);
                let i = choose|i: int| 0 <= i < rest.len() && rest[i] == n;
                assert(kept[i] == n);
            }
        }
    }
}
/// A column that is missing, and a file that is, are told by name, with what can be done.
pub proof fn law_words_on_an_index(
    c: IndexCheck,
    cols: Map<Seq<char>, Seq<char>>,
    parquet_dir: Seq<char>,
    refs: Seq<Seq<char>>,
    is_there: Seq<bool>,
    n: int,
)
    requires
        0 <= n < 4,
        refs.len() > 0,
        !is_there[refs.len() - 1],
    ensures
        !cols.dom().contains(index_columns()[n]) ==> {
            let f = column_failures(c, cols, n + 1).last();
            &&& f.phase == "verify_index_schema"@
            &&& f.error_message == "required column missing: "@ + index_columns()[n]
            &&& f.suggested_recovery == Some(rebuild_text())
        },
        ({
            let f = ref_failures(c, parquet_dir, refs, is_there).last();
            &&& f.phase == "verify_index_path"@
            &&& f.error_message == "index references missing parquet file"@
            &&& f.suggested_recovery == Some(
                "re-run convert for missing files then rebuild index"@,
            )
        }),
{
}
} // verus!
