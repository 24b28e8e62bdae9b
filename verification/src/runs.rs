//! The run of a command over datasets: which dataset is next, in which batches its
//! items are worked on, and what the report says after each step.

use vstd::prelude::*;
use vstd::string::*;
use crate::convert::{expand, give_up_dataset, start_dataset, ConvertStart, Expanded, SplitOutcome};
use crate::convert;
use crate::plan::{build_convert_plan, ConvertPlan, FilePair};
use crate::plan;
use crate::profile::ProfileRegistry;
use crate::profile;
use crate::repair::give_up_repair;
use crate::report::{count_failures, DatasetReportSummary, FailureEntry, RunReport};
use crate::report;
use crate::verify::{begin_full_check, end_dataset};

verus! {

/// Items `from` to `to`, the last one not among them, of one pass.
#[derive(Clone, Copy, Debug, PartialEq, Eq, Structural)]
pub struct Batch {
    pub pass: usize,
    pub from: usize,
    pub to: usize,
}

impl Batch {
    /// The items of a batch, each by its pass and its place in it.
    pub open spec fn items(self) -> Seq<(int, int)> {
        Seq::new((self.to - self.from) as nat, |i: int| (self.pass as int, self.from + i))
    }
}

/// The items of passes of so many items each, from item `from` of pass `pass` on.
pub open spec fn items_from(counts: Seq<usize>, pass: int, from: int) -> Seq<(int, int)>
    decreases counts.len() - pass,
{
    if pass < 0 || pass >= counts.len() {
        Seq::empty()
    } else {
        Seq::new((counts[pass] - from) as nat, |i: int| (pass, from + i)) + items_from(
            counts,
            pass + 1,
            0,
        )
    }
}

/// How far the work on passes of items has come.
#[derive(Debug)]
pub struct Cursor {
    /// How many items each pass has.
    pub counts: Vec<usize>,
    pub pass: usize,
    pub from: usize,
    /// How many items a batch has at most.
    pub size: usize,
}

impl Cursor {
    pub open spec fn wf(self) -> bool {
        &&& self.size > 0
        &&& self.pass <= self.counts@.len()
        &&& self.pass < self.counts@.len() ==> self.from <= self.counts@[self.pass as int]
    }

    /// The items that are left, in the order in which they are worked on.
    pub open spec fn left(self) -> Seq<(int, int)> {
        items_from(self.counts@, self.pass as int, self.from as int)
    }

    /// Before the first item. A batch has one item at least.
    pub fn start(counts: Vec<usize>, flush_every: usize) -> (r: Self)
        ensures
            r.wf(),
            r.left() == items_from(counts@, 0, 0),
            r.size == (if flush_every == 0 {
                1usize
            } else {
                flush_every
            }),
            r.counts@ == counts@,
    {
        let size: usize = if flush_every == 0 {
            1
        } else {
            flush_every
        };
        Cursor { counts, pass: 0, from: 0, size }
    }

    /// The next batch; none when no item is left. No batch goes beyond its pass.
    pub fn next(&self) -> (r: Option<Batch>)
        requires
            self.wf(),
        ensures
            match r {
                Some(b) => {
                    &&& b.from < b.to <= self.counts@[b.pass as int]
                    &&& self.pass <= b.pass < self.counts@.len()
                    &&& b.to - b.from == plan::min_int(
                        self.size as int,
                        self.counts@[b.pass as int] - b.from,
                    )
                    &&& self.left() == b.items() + items_from(
                        self.counts@,
                        b.pass as int,
                        b.to as int,
                    )
                },
                None => self.left().len() == 0,
            },
    {
        let n: usize = self.counts.len();
        let mut pass: usize = self.pass;
        let mut from: usize = self.from;
        while pass < n
            invariant
                self.wf(),
                n == self.counts@.len(),
                self.pass <= pass <= n,
                pass < n ==> from <= self.counts@[pass as int],
                self.left() == items_from(self.counts@, pass as int, from as int),
            decreases n - pass,
        {
            let count: usize = self.counts[pass];
            if from < count {
                let to: usize = if count - from > self.size {
                    from + self.size
                } else {
                    count
                };
                let b = Batch { pass, from, to };
                assert(self.left() =~= b.items() + items_from(
                    self.counts@,
                    pass as int,
                    to as int,
                ));
                return Some(b);
            }
            assert(self.left() =~= items_from(self.counts@, pass + 1, 0));
            pass += 1;
            from = 0;
        }
        None
    }

    /// Passes the items of a batch.
    pub fn pass_batch(&mut self, b: Batch)
        requires
            old(self).wf(),
            b.pass < old(self).counts@.len(),
            b.to <= old(self).counts@[b.pass as int],
        ensures
            final(self).wf(),
            final(self).counts == old(self).counts,
            final(self).size == old(self).size,
            final(self).left() == items_from(old(self).counts@, b.pass as int, b.to as int),
    {
        self.pass = b.pass;
        self.from = b.to;
    }
}

/// A pass over the items: the batches, one after another, are all of the items, each
/// of them once and in order.
pub open spec fn all_batches(counts: Seq<usize>, pass: int, from: int, b: Seq<Batch>) -> bool
    decreases b.len(),
{
    if b.len() == 0 {
        items_from(counts, pass, from).len() == 0
    } else {
        &&& items_from(counts, pass, from) == b.first().items() + items_from(
            counts,
            b.first().pass as int,
            b.first().to as int,
        )
        &&& all_batches(counts, b.first().pass as int, b.first().to as int, b.drop_first())
    }
}

/// The items of batches, put together.
pub open spec fn items_of(b: Seq<Batch>) -> Seq<(int, int)>
    decreases b.len(),
{
    if b.len() == 0 {
        Seq::empty()
    } else {
        b.first().items() + items_of(b.drop_first())
    }
}

/// Taking batches until none is left works on every item once, in order.
pub proof fn law_every_item_is_worked_on_once(
    counts: Seq<usize>,
    pass: int,
    from: int,
    b: Seq<Batch>,
)
    requires
        all_batches(counts, pass, from, b),
    ensures
        items_of(b) == items_from(counts, pass, from),
    decreases b.len(),
{
    if b.len() == 0 {
        assert(items_of(b) =~= items_from(counts, pass, from));
    } else {
        law_every_item_is_worked_on_once(
            counts,
            b.first().pass as int,
            b.first().to as int,
            b.drop_first(),
        );
    }
}

/// What a run over datasets is about to do.
#[derive(Clone, Copy, Debug, PartialEq, Eq, Structural)]
pub enum RunStage {
    /// Look at the items of the dataset.
    Scan,
    /// Split those of them that are large.
    Split,
    /// Tell the columns of the dataset and plan the work.
    Prepare,
    /// Work on a batch, or end the dataset if none is left.
    Work,
    /// Nothing: all datasets are done.
    Done,
}

/// The run of a command over datasets.
#[derive(Debug)]
pub struct DatasetsRun {
    pub report: RunReport,
    pub datasets: Vec<String>,
    /// Which dataset is worked on.
    pub at: usize,
    /// What is counted of it.
    pub ds: DatasetReportSummary,
    pub cursor: Cursor,
    pub stage: RunStage,
}

/// A dataset of which nothing has been counted.
pub open spec fn is_fresh(ds: DatasetReportSummary, name: Seq<char>) -> bool {
    &&& ds.dataset@ == name
    &&& ds.items_scanned == 0
    &&& ds.succeeded == 0
    &&& ds.failed == 0
    &&& ds.skipped == 0
}

impl DatasetsRun {
    pub open spec fn wf(self) -> bool {
        &&& self.cursor.wf()
        &&& self.at <= self.datasets@.len()
        &&& self.stage == RunStage::Done <==> self.at == self.datasets@.len()
        &&& self.at < self.datasets@.len() ==> self.ds.dataset@ == self.datasets@[self.at as int]@
    }

    /// The run stands before the dataset at `at`, with nothing counted of it.
    pub open spec fn is_before(self, at: int) -> bool {
        &&& self.wf()
        &&& self.at == at
        &&& at < self.datasets@.len() ==> self.stage == RunStage::Scan && is_fresh(
            self.ds,
            self.datasets@[at]@,
        )
    }

    /// The run has the same datasets and batches as `other`.
    pub open spec fn same_frame(self, other: Self) -> bool {
        &&& self.datasets == other.datasets
        &&& self.cursor.size == other.cursor.size
    }

    /// Before the first dataset.
    pub fn start(report: RunReport, datasets: Vec<String>, flush_every: usize) -> (r: Self)
        ensures
            r.is_before(0),
            r.report == report,
            r.datasets == datasets,
            r.cursor.size == (if flush_every == 0 {
                1usize
            } else {
                flush_every
            }),
    {
        let cursor = Cursor::start(Vec::new(), flush_every);
        if datasets.len() == 0 {
            let ds = DatasetReportSummary::new("");
            return DatasetsRun { report, datasets, at: 0, ds, cursor, stage: RunStage::Done };
        }
        let ds = DatasetReportSummary::new(datasets[0].as_str());
        DatasetsRun { report, datasets, at: 0, ds, cursor, stage: RunStage::Scan }
    }

    /// Goes to the next dataset.
    fn go_on(&mut self)
        requires
            old(self).wf(),
            old(self).at < old(self).datasets@.len(),
        ensures
            final(self).is_before(old(self).at + 1),
            final(self).same_frame(*old(self)),
            final(self).report == old(self).report,
    {
        let n: usize = self.datasets.len();
        self.at = self.at + 1;
        if self.at < n {
            self.ds = DatasetReportSummary::new(self.datasets[self.at].as_str());
            self.stage = RunStage::Scan;
        } else {
            self.stage = RunStage::Done;
        }
    }

    fn close_with(&mut self, ds: DatasetReportSummary)
        requires
            old(self).wf(),
            old(self).at < old(self).datasets@.len(),
        ensures
            final(self).is_before(old(self).at + 1),
            final(self).same_frame(*old(self)),
            final(self).report == (RunReport {
                datasets: final(self).report.datasets,
                ..old(self).report
            }),
            final(self).report.datasets@ == old(self).report.datasets@.push(ds),
    {
        self.report.datasets.push(ds);
        self.go_on();
    }

    /// Begins a conversion of the dataset with its sources: `asked` says whether single
    /// files were asked for, `done` which sources are converted. The sources that are left
    /// are to be split; a dataset that has none is closed, and not even mentioned where
    /// none of its sources was asked for.
    pub fn scanned(&mut self, pairs: &Vec<FilePair>, asked: bool, done: &Vec<bool>) -> (r:
        ConvertStart)
        requires
            old(self).wf(),
            old(self).stage == RunStage::Scan,
            is_fresh(old(self).ds, old(self).ds.dataset@),
            done@.len() == pairs@.len(),
        ensures
            final(self).same_frame(*old(self)),
            match r {
                ConvertStart::NoMatch => {
                    &&& pairs@.len() == 0 && asked
                    &&& final(self).is_before(old(self).at + 1)
                    &&& final(self).report == old(self).report
                },
                ConvertStart::NoSources => {
                    &&& pairs@.len() == 0 && !asked
                    &&& final(self).is_before(old(self).at + 1)
                    &&& final(self).report == (RunReport {
                        datasets: final(self).report.datasets,
                        ..old(self).report
                    })
                    &&& final(self).report.datasets@ == old(self).report.datasets@.push(
                        final(self).report.datasets@.last(),
                    )
                    &&& is_fresh(final(self).report.datasets@.last(), old(self).ds.dataset@)
                },
                ConvertStart::AllDone { skipped } => {
                    &&& pairs@.len() > 0 && convert::pending(pairs@, done@).len() == 0
                    &&& skipped == pairs@.len()
                    &&& final(self).is_before(old(self).at + 1)
                    &&& final(self).report == (RunReport {
                        datasets: final(self).report.datasets,
                        ..old(self).report
                    })
                    &&& final(self).report.datasets@ == old(self).report.datasets@.push(
                        (DatasetReportSummary { skipped, ..old(self).ds }),
                    )
                },
                ConvertStart::Todo { files, already_done } => {
                    &&& convert::pending(pairs@, done@).len() > 0
                    &&& files@ == plan::largest_first(convert::pending(pairs@, done@))
                    &&& already_done == pairs@.len() - files@.len()
                    &&& *final(self) == (DatasetsRun { stage: RunStage::Split, ..*old(self) })
                },
            },
    {
        let start = start_dataset(pairs, asked, done);
        match &start {
            ConvertStart::NoMatch => {
                self.go_on();
            },
            ConvertStart::NoSources => {
                let ds = self.ds.clone();
                self.close_with(ds);
            },
            ConvertStart::AllDone { skipped } => {
                let mut ds = self.ds.clone();
                ds.skipped = *skipped;
                self.close_with(ds);
            },
            ConvertStart::Todo { files: _, already_done: _ } => {
                self.stage = RunStage::Split;
            },
        }
        start
    }

    /// Takes in what became of the sources that were to be split.
    pub fn split(&mut self, outcomes: Vec<SplitOutcome>) -> (r: Expanded)
        requires
            old(self).wf(),
            old(self).stage == RunStage::Split,
            convert::outcome_files(outcomes@).len() <= usize::MAX,
            convert::outcome_files(outcomes@).len() + old(self).ds.failed + outcomes@.len()
                <= u64::MAX,
        ensures
            final(self).wf(),
            *final(self) == (DatasetsRun {
                stage: RunStage::Prepare,
                report: final(self).report,
                ds: final(self).ds,
                ..*old(self)
            }),
            r.files@ == convert::outcome_files(outcomes@),
            (r.sources as int, r.chunks as int) == convert::outcome_chunks(outcomes@),
            final(self).report == (RunReport {
                failures: final(self).report.failures,
                ..old(self).report
            }),
            final(self).report.failures@ == old(self).report.failures@ + convert::outcome_failures(
                outcomes@,
            ),
            final(self).ds == (DatasetReportSummary {
                failed: (old(self).ds.failed + convert::outcome_failures(outcomes@).len()) as u64,
                items_scanned: (convert::outcome_files(outcomes@).len() + old(self).ds.failed
                    + convert::outcome_failures(outcomes@).len()) as u64,
                ..old(self).ds
            }),
    {
        let r = expand(outcomes, &mut self.report, &mut self.ds);
        self.stage = RunStage::Prepare;
        r
    }

    /// Gives up the conversion of a dataset whose columns cannot be told.
    pub fn no_columns(&mut self, snapshot_dir: &str, parquet_dir: &str, e: String)
        requires
            old(self).wf(),
            old(self).stage == RunStage::Prepare,
            old(self).ds.failed + old(self).ds.items_scanned <= u64::MAX,
        ensures
            final(self).is_before(old(self).at + 1),
            final(self).same_frame(*old(self)),
            final(self).report == (RunReport {
                failures: final(self).report.failures,
                datasets: final(self).report.datasets,
                ..old(self).report
            }),
            report::failure_views(final(self).report.failures@) == report::failure_views(
                old(self).report.failures@,
            ).push(
                convert::schema_failure(
                    old(self).ds.dataset@,
                    snapshot_dir@,
                    parquet_dir@,
                    e@,
                ),
            ),
            final(self).report.datasets@ == old(self).report.datasets@.push(
                (DatasetReportSummary {
                    failed: (old(self).ds.failed + old(self).ds.items_scanned) as u64,
                    succeeded: 0,
                    ..old(self).ds
                }),
            ),
    {
        let ds = self.ds.clone();
        give_up_dataset(&mut self.report, ds, snapshot_dir, parquet_dir, e);
        self.go_on();
    }

    /// Begins a repair of `files` files of the dataset.
    pub fn repair_files(&mut self, files: usize)
        requires
            old(self).wf(),
            old(self).stage == RunStage::Scan,
        ensures
            final(self).wf(),
            *final(self) == (DatasetsRun {
                stage: RunStage::Prepare,
                ds: (DatasetReportSummary { items_scanned: files as u64, ..old(self).ds }),
                ..*old(self)
            }),
    {
        self.ds.items_scanned = files as u64;
        self.stage = RunStage::Prepare;
    }

    /// Gives up the repair of a dataset whose columns cannot be told.
    pub fn no_repair(&mut self, e: String)
        requires
            old(self).wf(),
            old(self).stage == RunStage::Prepare,
        ensures
            final(self).is_before(old(self).at + 1),
            final(self).same_frame(*old(self)),
            final(self).report.datasets@ == old(self).report.datasets@.push(
                (DatasetReportSummary { failed: old(self).ds.items_scanned, ..old(self).ds }),
            ),
            final(self).report == (RunReport {
                failures: final(self).report.failures,
                datasets: final(self).report.datasets,
                ..old(self).report
            }),
            report::failure_views(final(self).report.failures@) == report::failure_views(
                old(self).report.failures@,
            ).push(
                report::FailureView {
                    dataset: old(self).ds.dataset@,
                    phase: "repair_select"@,
                    rel_path: None,
                    source_path: None,
                    output_path: None,
                    error_message: e@,
                    suggested_recovery: Some("refresh schema cache and retry repair"@),
                },
            ),
    {
        let ds = self.ds.clone();
        give_up_repair(&mut self.report, ds, e);
        self.go_on();
    }

    /// Plans the work on the files of a dataset and begins it. An unknown profile ends the
    /// run.
    pub fn plan(
        &mut self,
        profile_name: &str,
        workers: usize,
        max_memory_mb: Option<usize>,
        total_ram_mb: Option<usize>,
        todo: &Vec<FilePair>,
        registry: &ProfileRegistry,
    ) -> (r: Result<ConvertPlan, String>)
        requires
            old(self).wf(),
            old(self).stage == RunStage::Prepare,
            registry.wf(),
            registry@.dom().contains(profile_name@) && registry@[profile_name@].kind is Stratified
                ==> registry@[profile_name@].strata is Some,
        ensures
            final(self).wf(),
            match r {
                Ok(p) => {
                    &&& registry@.dom().contains(profile_name@)
                    &&& p.profile_name@ == profile_name@
                    &&& (plan::strata_views(p.strata@), p.flat) == plan::planned(
                        registry@[profile_name@],
                        if workers == 0 {
                            None
                        } else {
                            Some(workers)
                        },
                        max_memory_mb,
                        total_ram_mb,
                        todo@,
                    )
                    &&& *final(self) == (DatasetsRun {
                        stage: RunStage::Work,
                        cursor: final(self).cursor,
                        ..*old(self)
                    })
                    &&& final(self).cursor.size == old(self).cursor.size
                    &&& final(self).cursor.left() == items_from(pass_counts(p.strata@), 0, 0)
                },
                Err(e) => {
                    &&& !registry@.dom().contains(profile_name@)
                    &&& profile::is_unknown_profile_error(registry.entries@, profile_name@, e@)
                    &&& *final(self) == *old(self)
                },
            },
    {
        let workers_override = if workers == 0 {
            None
        } else {
            Some(workers)
        };
        let p = match build_convert_plan(
            profile_name,
            workers_override,
            max_memory_mb,
            total_ram_mb,
            todo,
            registry,
        ) {
            Ok(p) => p,
            Err(e) => {
                return Err(e);
            },
        };
        let mut counts: Vec<usize> = Vec::new();
        let mut i: usize = 0;
        assert(counts@ =~= pass_counts(p.strata@.take(0)));
        while i < p.strata.len()
            invariant
                i <= p.strata@.len(),
                counts@ == pass_counts(p.strata@.take(i as int)),
            decreases p.strata@.len() - i,
        {
            counts.push(p.strata[i].files.len());
            assert(counts@ =~= pass_counts(p.strata@.take(i + 1)));
            i += 1;
        }
        assert(p.strata@.take(i as int) =~= p.strata@);
        self.work_on(counts);
        Ok(p)
    }

    fn work_on(&mut self, counts: Vec<usize>)
        requires
            old(self).wf(),
            old(self).stage != RunStage::Done,
        ensures
            final(self).wf(),
            *final(self) == (DatasetsRun {
                stage: RunStage::Work,
                cursor: final(self).cursor,
                ..*old(self)
            }),
            final(self).cursor.size == old(self).cursor.size,
            final(self).cursor.left() == items_from(counts@, 0, 0),
    {
        let size: usize = self.cursor.size;
        self.cursor = Cursor::start(counts, size);
        self.stage = RunStage::Work;
    }

    /// Begins the verification of a sample of the files of a dataset, or closes the dataset
    /// where it has no files at all.
    pub fn verify_sample(&mut self, pairs: usize, sample: usize)
        requires
            old(self).wf(),
            old(self).stage == RunStage::Scan,
        ensures
            final(self).same_frame(*old(self)),
            final(self).wf(),
            pairs == 0 ==> {
                &&& final(self).is_before(old(self).at + 1)
                &&& final(self).report == (RunReport {
                    datasets: final(self).report.datasets,
                    ..old(self).report
                })
                &&& final(self).report.datasets@ == old(self).report.datasets@.push(old(self).ds)
            },
            pairs > 0 ==> {
                &&& *final(self) == (DatasetsRun {
                    stage: RunStage::Work,
                    cursor: final(self).cursor,
                    ds: (DatasetReportSummary { items_scanned: sample as u64, ..old(self).ds }),
                    ..*old(self)
                })
                &&& final(self).cursor.left() == items_from(seq![sample], 0, 0)
            },
    {
        if pairs == 0 {
            let ds = self.ds.clone();
            self.close_with(ds);
            return;
        }
        self.ds.items_scanned = sample as u64;
        let mut counts: Vec<usize> = Vec::new();
        counts.push(sample);
        assert(counts@ =~= seq![sample]);
        self.work_on(counts);
    }

    /// Begins the verification of all files of a dataset, with what was found wrong with
    /// the files as a whole; closes the dataset where it has no files.
    pub fn verify_all(&mut self, pairs: usize, found: Vec<FailureEntry>)
        requires
            old(self).wf(),
            old(self).stage == RunStage::Scan,
            old(self).ds.failed + found@.len() <= u64::MAX,
        ensures
            final(self).same_frame(*old(self)),
            final(self).wf(),
            pairs == 0 ==> {
                &&& final(self).is_before(old(self).at + 1)
                &&& final(self).report == (RunReport {
                    datasets: final(self).report.datasets,
                    ..old(self).report
                })
                &&& final(self).report.datasets@ == old(self).report.datasets@.push(old(self).ds)
            },
            pairs > 0 ==> {
                &&& *final(self) == (DatasetsRun {
                    stage: RunStage::Work,
                    cursor: final(self).cursor,
                    report: final(self).report,
                    ds: (DatasetReportSummary {
                        items_scanned: pairs as u64,
                        failed: (old(self).ds.failed + found@.len()) as u64,
                        ..old(self).ds
                    }),
                    ..*old(self)
                })
                &&& final(self).report == (RunReport {
                    failures: final(self).report.failures,
                    ..old(self).report
                })
                &&& final(self).report.failures@ == old(self).report.failures@ + found@
                &&& final(self).cursor.left() == items_from(seq![pairs], 0, 0)
            },
    {
        if pairs == 0 {
            let ds = self.ds.clone();
            self.close_with(ds);
            return;
        }
        begin_full_check(&mut self.report, &mut self.ds, pairs, found);
        let mut counts: Vec<usize> = Vec::new();
        counts.push(pairs);
        assert(counts@ =~= seq![pairs]);
        self.work_on(counts);
    }

    /// The next batch of the dataset.
    pub fn batch(&self) -> (r: Option<Batch>)
        requires
            self.wf(),
            self.stage == RunStage::Work,
        ensures
            match r {
                Some(b) => {
                    &&& b.from < b.to <= self.cursor.counts@[b.pass as int]
                    &&& b.pass < self.cursor.counts@.len()
                    &&& self.cursor.left() == b.items() + items_from(
                        self.cursor.counts@,
                        b.pass as int,
                        b.to as int,
                    )
                    &&& b.to - b.from == plan::min_int(
                        self.cursor.size as int,
                        self.cursor.counts@[b.pass as int] - b.from,
                    )
                },
                None => self.cursor.left().len() == 0,
            },
    {
        self.cursor.next()
    }

    /// Takes in what failed in a batch.
    pub fn worked(&mut self, b: Batch, found: Vec<FailureEntry>)
        requires
            old(self).wf(),
            old(self).stage == RunStage::Work,
            b.pass < old(self).cursor.counts@.len(),
            b.to <= old(self).cursor.counts@[b.pass as int],
            old(self).ds.failed + found@.len() <= u64::MAX,
        ensures
            final(self).wf(),
            *final(self) == (DatasetsRun {
                report: final(self).report,
                ds: final(self).ds,
                cursor: final(self).cursor,
                ..*old(self)
            }),
            final(self).report == (RunReport {
                failures: final(self).report.failures,
                ..old(self).report
            }),
            final(self).report.failures@ == old(self).report.failures@ + found@,
            final(self).ds == (DatasetReportSummary {
                failed: (old(self).ds.failed + found@.len()) as u64,
                succeeded: report::minus(
                    old(self).ds.items_scanned,
                    (old(self).ds.failed + found@.len()) as u64,
                ),
                ..old(self).ds
            }),
            final(self).cursor.counts == old(self).cursor.counts,
            final(self).cursor.left() == items_from(
                old(self).cursor.counts@,
                b.pass as int,
                b.to as int,
            ),
    {
        count_failures(&mut self.report, &mut self.ds, found);
        self.cursor.pass_batch(b);
    }

    /// Ends the work on a dataset: what did not fail succeeded.
    pub fn end(&mut self)
        requires
            old(self).wf(),
            old(self).stage == RunStage::Work,
        ensures
            final(self).is_before(old(self).at + 1),
            final(self).same_frame(*old(self)),
            final(self).report == (RunReport {
                datasets: final(self).report.datasets,
                ..old(self).report
            }),
            final(self).report.datasets@ == old(self).report.datasets@.push(
                (DatasetReportSummary {
                    succeeded: report::minus(old(self).ds.items_scanned, old(self).ds.failed),
                    ..old(self).ds
                }),
            ),
    {
        let ds = self.ds.clone();
        end_dataset(&mut self.report, ds);
        self.go_on();
    }
}

/// How many files each pass has.
pub open spec fn pass_counts(p: Seq<plan::StratumPlan>) -> Seq<usize> {
    Seq::new(p.len(), |i: int| p[i].files.len())
}

} // verus!
