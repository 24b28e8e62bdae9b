//! Converting sources to parquet: which files are still to be converted, how the
//! large ones are split, and how the run is accounted for.

use vstd::prelude::*;
use vstd::string::*;
use crate::layout::source_dir;
use crate::layout;
use crate::paths::{join_path, strip_base, with_extension};
use crate::paths;
use crate::plan::{parse_size_checked, sort_largest_first, FilePair, StratumPlan, Tuning};
use crate::plan;
use crate::report::{failure, report_arg, DatasetReportSummary, FailureEntry, ReportArg, RunReport};
use crate::report;
use crate::split::chunk_pairs;
use crate::split;
use crate::text::{contains, decimal_string, parse_unsigned, push_decimal};
use crate::text;

verus! {

/// The free space that a conversion asks for where nothing else is set.
pub const CONVERT_MIN_FREE_BYTES: u64 = 966_367_641_600;

pub const GIB: u64 = 1_073_741_824;

/// What is kept free beyond the size of a file when it is converted.
pub const FILE_HEADROOM_BYTES: u64 = 67_108_864;

/// Whole GiB in a number of bytes.
pub fn bytes_to_gib(bytes: u64) -> (r: u64)
    ensures
        r == bytes as int / 1_073_741_824,
{
    bytes / GIB
}

/// When free space is checked.
#[derive(Debug, Clone, Copy, PartialEq, Eq, Structural)]
pub enum DiskCheckScope {
    /// Once, before the first dataset.
    Dataset,
    /// Before each file.
    File,
}

/// The free space that a conversion asks for. A number of GiB that is set wins;
/// below the temporary directory it is one GiB.
pub open spec fn min_free_bytes(
    set_gib: Option<Seq<char>>,
    path: Seq<char>,
    temp_dir: Seq<char>,
) -> int {
    match set_gib {
        Some(s) if text::unsigned_of(s, u64::MAX as nat) is Some => plan::min_int(
            text::unsigned_of(s, u64::MAX as nat)->Some_0 * GIB,
            u64::MAX as int,
        ),
        _ => if paths::is_under(path, temp_dir) {
            GIB as int
        } else {
            CONVERT_MIN_FREE_BYTES as int
        },
    }
}

/// The free space that a conversion to `path` asks for.
pub fn convert_min_free_bytes(set_gib: Option<&str>, path: &str, temp_dir: &str) -> (r: u64)
    ensures
        r == min_free_bytes(report::opt_text(set_gib), path@, temp_dir@),
{
    if let Some(s) = set_gib {
        if let Some(n) = parse_unsigned(s, u64::MAX as u128) {
            let b: u128 = n * GIB as u128;
            return if b <= u64::MAX as u128 {
                b as u64
            } else {
                u64::MAX
            };
        }
    }
    if strip_base(path, temp_dir).is_some() {
        GIB
    } else {
        CONVERT_MIN_FREE_BYTES
    }
}

/// What is said where there is too little space for a run.
pub open spec fn no_space_text(parquet_dir: Seq<char>, free: u64, required: u64) -> Seq<char> {
    "[convert] Not enough disk space.\n  Location : "@ + parquet_dir + "\n  Available: "@
        + text::decimal((free / GIB) as nat) + " GiB\n  Required : "@ + text::decimal(
        (required / GIB) as nat,
    )
        + " GiB (estimated 20% overhead over source size)\n\nTo proceed anyway, either:\n  - Set skip_disk_check: true under the convert: section in your config file\n  - Pass --skip-disk-check when running the convert or all command"@
}

pub open spec fn no_space_failure(
    dataset: Seq<char>,
    parquet_dir: Seq<char>,
    free: u64,
    required: u64,
) -> report::FailureView {
    report::FailureView {
        dataset,
        phase: "convert_disk_space"@,
        rel_path: None,
        source_path: None,
        output_path: Some(parquet_dir),
        error_message: "insufficient free disk space: available="@ + text::decimal(
            (free / GIB) as nat,
        ) + " GiB required_min="@ + text::decimal((required / GIB) as nat) + " GiB"@,
        suggested_recovery: Some(
            "Free up disk space, or set skip_disk_check: true under convert: in your config file, or pass --skip-disk-check to the convert/all command."@,
        ),
    }
}

/// What stops a run before its first dataset.
pub struct NoSpace {
    pub failure: FailureEntry,
    pub message: String,
}

/// Checks the free space before the first dataset.
pub fn check_run_space(
    skip_disk_check: bool,
    scope: DiskCheckScope,
    free_bytes: u64,
    required_min_bytes: u64,
    dataset: &str,
    parquet_dir: &str,
) -> (r: Option<NoSpace>)
    ensures
        r is Some <==> !skip_disk_check && scope == DiskCheckScope::Dataset && free_bytes
            < required_min_bytes,
        r matches Some(n) ==> n.failure@ == no_space_failure(
            dataset@,
            parquet_dir@,
            free_bytes,
            required_min_bytes,
        ) && n.message@ == no_space_text(parquet_dir@, free_bytes, required_min_bytes),
{
    if skip_disk_check || scope != DiskCheckScope::Dataset || free_bytes >= required_min_bytes {
        return None;
    }
    let free: u64 = bytes_to_gib(free_bytes);
    let required: u64 = bytes_to_gib(required_min_bytes);
    let mut e = "insufficient free disk space: available=".to_owned();
    push_decimal(&mut e, free as u128);
    e.append(" GiB required_min=");
    push_decimal(&mut e, required as u128);
    e.append(" GiB");
    let mut m = "[convert] Not enough disk space.\n  Location : ".to_owned();
    m.append(parquet_dir);
    m.append("\n  Available: ");
    push_decimal(&mut m, free as u128);
    m.append(" GiB\n  Required : ");
    push_decimal(&mut m, required as u128);
    m.append(
        " GiB (estimated 20% overhead over source size)\n\nTo proceed anyway, either:\n  - Set skip_disk_check: true under the convert: section in your config file\n  - Pass --skip-disk-check when running the convert or all command",
    );
    let f = failure(
        dataset,
        "convert_disk_space",
        None,
        None,
        Some(parquet_dir),
        e,
        Some(
            "Free up disk space, or set skip_disk_check: true under convert: in your config file, or pass --skip-disk-check to the convert/all command.".to_owned(),
        ),
    );
    Some(NoSpace { failure: f, message: m })
}

/// The failure of a file, with the paths of the file.
pub open spec fn pair_failure(
    dataset: Seq<char>,
    phase: Seq<char>,
    p: plan::PairView,
    error_message: Seq<char>,
    recovery: Seq<char>,
) -> report::FailureView {
    report::FailureView {
        dataset,
        phase,
        rel_path: Some(p.rel),
        source_path: Some(p.input_gz),
        output_path: Some(p.output_parquet),
        error_message,
        suggested_recovery: Some(recovery),
    }
}

fn fail_pair(dataset: &str, phase: &str, p: &FilePair, error_message: String, recovery: String) -> (r:
    FailureEntry)
    ensures
        r@ == pair_failure(dataset@, phase@, p@, error_message@, recovery@),
{
    failure(
        dataset,
        phase,
        Some(p.rel.as_str()),
        Some(p.input_gz.as_str()),
        Some(p.output_parquet.as_str()),
        error_message,
        Some(recovery),
    )
}

/// The space that a file of this size asks for.
pub open spec fn file_space(size: u64) -> int {
    plan::min_int(size + FILE_HEADROOM_BYTES, u64::MAX as int)
}

/// What stops a file for want of space, where anything does; `free` is the space
/// that was found, or why none was.
pub open spec fn file_space_failure(
    dataset: Seq<char>,
    p: plan::PairView,
    size: u64,
    free: Result<u64, Seq<char>>,
) -> Option<report::FailureView> {
    let recovery = "Free up disk space, or set skip_disk_check: true under convert: in your config, or pass --skip-disk-check to the convert/all command"@;
    match free {
        Ok(n) if n >= file_space(size) => None,
        Ok(n) => Some(
            pair_failure(
                dataset,
                "convert_disk_space"@,
                p,
                "insufficient free disk space for file preflight: available="@ + text::decimal(
                    (n / GIB) as nat,
                ) + " GiB required="@ + text::decimal((file_space(size) / GIB as int) as nat)
                    + " GiB"@,
                recovery,
            ),
        ),
        Err(e) => Some(
            pair_failure(
                dataset,
                "convert_disk_space"@,
                p,
                "disk space check failed: "@ + e,
                recovery,
            ),
        ),
    }
}

/// Whether the entry says `v`, or is missing with it.
pub open spec fn entry_is(r: Option<FailureEntry>, v: Option<report::FailureView>) -> bool {
    match (r, v) {
        (Some(f), Some(w)) => f@ == w,
        (None, None) => true,
        _ => false,
    }
}

/// Checks the free space before one file.
pub fn check_file_space(dataset: &str, p: &FilePair, size: u64, free: Result<u64, String>) -> (r: Option<
    FailureEntry,
>)
    ensures
        entry_is(r, file_space_failure(dataset@, p@, size, split::size_view(free))),
{
    let recovery = "Free up disk space, or set skip_disk_check: true under convert: in your config, or pass --skip-disk-check to the convert/all command".to_owned();
    let required: u64 = if size <= u64::MAX - FILE_HEADROOM_BYTES {
        size + FILE_HEADROOM_BYTES
    } else {
        u64::MAX
    };
    match free {
        Ok(n) => {
            if n >= required {
                return None;
            }
            let mut e = "insufficient free disk space for file preflight: available=".to_owned();
            push_decimal(&mut e, bytes_to_gib(n) as u128);
            e.append(" GiB required=");
            push_decimal(&mut e, bytes_to_gib(required) as u128);
            e.append(" GiB");
            Some(fail_pair(dataset, "convert_disk_space", p, e, recovery))
        },
        Err(why) => {
            let mut e = "disk space check failed: ".to_owned();
            e.append(why.as_str());
            Some(fail_pair(dataset, "convert_disk_space", p, e, recovery))
        },
    }
}

/// Those of the pairs that are not done.
pub open spec fn pending(pairs: Seq<FilePair>, done: Seq<bool>) -> Seq<FilePair>
    decreases pairs.len(),
{
    if pairs.len() == 0 {
        pairs
    } else if done[pairs.len() - 1] {
        pending(pairs.drop_last(), done)
    } else {
        pending(pairs.drop_last(), done).push(pairs.last())
    }
}

/// Where the work on a dataset begins.
pub enum ConvertStart {
    /// None of its sources was asked for.
    NoMatch,
    /// It has no sources.
    NoSources,
    /// All of its sources are converted.
    AllDone { skipped: u64 },
    /// These sources are left, large ones first.
    Todo { files: Vec<FilePair>, already_done: usize },
}

/// Where the work on a dataset begins: `asked` says whether single files were
/// asked for, `done` which of the pairs have their parquet file, whole or in
/// parts.
pub fn start_dataset(pairs: &Vec<FilePair>, asked: bool, done: &Vec<bool>) -> (r: ConvertStart)
    requires
        done@.len() == pairs@.len(),
    ensures
        match r {
            ConvertStart::NoMatch => pairs@.len() == 0 && asked,
            ConvertStart::NoSources => pairs@.len() == 0 && !asked,
            ConvertStart::AllDone { skipped } => pairs@.len() > 0 && skipped == pairs@.len()
                && pending(pairs@, done@).len() == 0,
            ConvertStart::Todo { files, already_done } => pending(pairs@, done@).len() > 0 && files@
                == plan::largest_first(pending(pairs@, done@)) && already_done == pairs@.len()
                - files@.len(),
        },
{
    if pairs.len() == 0 {
        return if asked {
            ConvertStart::NoMatch
        } else {
            ConvertStart::NoSources
        };
    }
    let mut left: Vec<FilePair> = Vec::new();
    let mut i: usize = 0;
    assert(pairs@.take(0) =~= Seq::<FilePair>::empty());
    while i < pairs.len()
        invariant
            i <= pairs@.len(),
            done@.len() == pairs@.len(),
            left@ == pending(pairs@.take(i as int), done@),
            left@.len() <= i,
        decreases pairs@.len() - i,
    {
        assert(pairs@.take(i + 1).drop_last() =~= pairs@.take(i as int));
        if !done[i] {
            left.push(pairs[i].clone());
        }
        i += 1;
    }
    assert(pairs@.take(i as int) =~= pairs@);
    if left.len() == 0 {
        return ConvertStart::AllDone { skipped: pairs.len() as u64 };
    }
    let files = sort_largest_first(&left);
    proof {
        broadcast use vstd::seq_lib::to_multiset_len;

        plan::law_largest_first(left@);
        assert(files@.to_multiset().len() == left@.to_multiset().len());
    }
    let already_done: usize = pairs.len() - files.len();
    ConvertStart::Todo { files, already_done }
}

/// The size from which a source is split; zero stands for none.
pub open spec fn split_target_of(split_size: int) -> int {
    if split_size == 0 {
        usize::MAX as int
    } else {
        split_size
    }
}

/// The size from which a source is split. Nothing where it is beyond what a
/// `usize` holds.
pub fn split_target(split_size: &str) -> (r: Option<Result<usize, String>>)
    ensures
        match r {
            Some(Ok(n)) => plan::size_bytes(plan::size_text(split_size@)) matches Some(b) && n
                == split_target_of(b),
            Some(Err(e)) => plan::size_bytes(plan::size_text(split_size@)) is None && e@
                == "invalid --split-size value: "@ + plan::size_error(plan::size_text(split_size@)),
            None => plan::size_bytes(plan::size_text(split_size@)) matches Some(b) && b
                > usize::MAX,
        },
{
    match parse_size_checked(split_size) {
        None => None,
        Some(Ok(n)) => Some(
            Ok(
                if n == 0 {
                    usize::MAX
                } else {
                    n
                },
            ),
        ),
        Some(Err(e)) => {
            let mut m = "invalid --split-size value: ".to_owned();
            m.append(e.as_str());
            Some(Err(m))
        },
    }
}

/// Whether a source is split before it is converted.
pub fn needs_split(p: &FilePair, target: usize) -> (r: bool)
    ensures
        r == (p.gz_size_bytes > target),
{
    p.gz_size_bytes > target as u64
}

/// What became of a source before the conversion.
pub enum SplitOutcome {
    /// It is converted as it is.
    Pass(FilePair),
    /// It is converted in chunks.
    Chunks(Vec<FilePair>),
    /// It could not be split.
    Failed(FailureEntry),
}

pub open spec fn split_failure(dataset: Seq<char>, p: plan::PairView, e: Seq<char>) -> report::FailureView {
    pair_failure(
        dataset,
        "split"@,
        p,
        "split failed: "@ + e,
        "retry with a larger --split-size or fix disk space"@,
    )
}

/// What became of a source: `split` says into how many chunks it was split, or
/// why it could not be; it is missing for a source that is not split.
pub fn split_outcome(p: FilePair, tmp_root: &str, dataset: &str, split: Option<Result<usize, String>>) -> (r:
    SplitOutcome)
    ensures
        match (split, r) {
            (None, SplitOutcome::Pass(q)) => q == p,
            (Some(Ok(n)), SplitOutcome::Chunks(v)) => plan::pair_views(v@) == split::chunk_pairs_of(
                p@,
                tmp_root@,
                dataset@,
                n as int,
            ),
            (Some(Err(e)), SplitOutcome::Failed(f)) => f@ == split_failure(dataset@, p@, e@),
            _ => false,
        },
{
    match split {
        None => SplitOutcome::Pass(p),
        Some(Ok(n)) => SplitOutcome::Chunks(chunk_pairs(&p, tmp_root, dataset, n)),
        Some(Err(e)) => {
            let mut m = "split failed: ".to_owned();
            m.append(e.as_str());
            SplitOutcome::Failed(
                fail_pair(
                    dataset,
                    "split",
                    &p,
                    m,
                    "retry with a larger --split-size or fix disk space".to_owned(),
                ),
            )
        },
    }
}

/// The files to convert after splitting.
pub open spec fn outcome_files(o: Seq<SplitOutcome>) -> Seq<FilePair>
    decreases o.len(),
{
    if o.len() == 0 {
        Seq::empty()
    } else {
        match o.last() {
            SplitOutcome::Pass(p) => outcome_files(o.drop_last()).push(p),
            SplitOutcome::Chunks(v) => outcome_files(o.drop_last()) + v@,
            SplitOutcome::Failed(_) => outcome_files(o.drop_last()),
        }
    }
}

/// What could not be split.
pub open spec fn outcome_failures(o: Seq<SplitOutcome>) -> Seq<FailureEntry>
    decreases o.len(),
{
    if o.len() == 0 {
        Seq::empty()
    } else {
        match o.last() {
            SplitOutcome::Failed(f) => outcome_failures(o.drop_last()).push(f),
            _ => outcome_failures(o.drop_last()),
        }
    }
}

/// How many sources were split, and into how many chunks.
pub open spec fn outcome_chunks(o: Seq<SplitOutcome>) -> (int, int)
    decreases o.len(),
{
    if o.len() == 0 {
        (0, 0)
    } else {
        let rest = outcome_chunks(o.drop_last());
        match o.last() {
            SplitOutcome::Chunks(v) => (rest.0 + 1, rest.1 + v@.len()),
            _ => rest,
        }
    }
}

/// The files of a dataset after splitting.
pub struct Expanded {
    pub files: Vec<FilePair>,
    /// How many sources were split.
    pub sources: usize,
    /// How many chunks they make.
    pub chunks: usize,
}

/// Puts the files of a dataset together after splitting, and counts them as
/// scanned, with those that could not be split as failed.
pub fn expand(outcomes: Vec<SplitOutcome>, report: &mut RunReport, ds: &mut DatasetReportSummary) -> (r:
    Expanded)
    requires
        outcome_files(outcomes@).len() <= usize::MAX,
        outcome_files(outcomes@).len() + old(ds).failed + outcomes@.len() <= u64::MAX,
    ensures
        r.files@ == outcome_files(outcomes@),
        (r.sources as int, r.chunks as int) == outcome_chunks(outcomes@),
        *final(report) == (RunReport { failures: final(report).failures, ..*old(report) }),
        final(report).failures@ == old(report).failures@ + outcome_failures(outcomes@),
        *final(ds) == (DatasetReportSummary {
            failed: (old(ds).failed + outcome_failures(outcomes@).len()) as u64,
            items_scanned: (outcome_files(outcomes@).len() + old(ds).failed + outcome_failures(
                outcomes@,
            ).len()) as u64,
            ..*old(ds)
        }),
{
    let ghost all = outcomes@;
    let mut outcomes = outcomes;
    let n: usize = outcomes.len();
    let mut rest: Vec<SplitOutcome> = Vec::new();
    // Turned round, so that the outcomes can be taken off the end in their order.
    let mut i: usize = 0;
    while i < n
        invariant
            i <= n == all.len(),
            outcomes@ == all.take(n - i),
            rest@ == all.skip(n - i).reverse(),
        decreases n - i,
    {
        let last = outcomes.pop();
        if let Some(o) = last {
            rest.push(o);
        }
        i += 1;
        assert(outcomes@ =~= all.take(n - i));
        assert(rest@ =~= all.skip(n - i).reverse());
    }
    let mut files: Vec<FilePair> = Vec::new();
    let mut sources: usize = 0;
    let mut chunks: usize = 0;
    let ghost failures0 = report.failures@;
    let ghost ds0 = *ds;
    let ghost report0 = *report;
    let mut i: usize = 0;
    assert(all.take(0) =~= Seq::<SplitOutcome>::empty());
    assert(report.failures@ =~= failures0 + outcome_failures(all.take(0)));
    while i < n
        invariant
            i <= n == all.len(),
            rest@ == all.skip(i as int).reverse(),
            files@ == outcome_files(all.take(i as int)),
            (sources as int, chunks as int) == outcome_chunks(all.take(i as int)),
            sources <= i,
            chunks <= files@.len(),
            outcome_files(all).len() <= usize::MAX,
            outcome_files(all).len() + ds0.failed + all.len() <= u64::MAX,
            report.failures@ == failures0 + outcome_failures(all.take(i as int)),
            *report == (RunReport { failures: report.failures, ..report0 }),
            ds0.failed + outcome_failures(all.take(i as int)).len() <= ds0.failed + i,
            *ds == (DatasetReportSummary {
                failed: (ds0.failed + outcome_failures(all.take(i as int)).len()) as u64,
                ..ds0
            }),
        decreases n - i,
    {
        proof {
            assert(all.take(i + 1).drop_last() =~= all.take(i as int));
            lemma_outcome_files_mono(all, i + 1);
        }
        let next = rest.pop();
        if let Some(o) = next {
            assert(o == all[i as int]);
            match o {
                SplitOutcome::Pass(p) => {
                    files.push(p);
                },
                SplitOutcome::Chunks(v) => {
                    let mut v = v;
                    sources += 1;
                    chunks += v.len();
                    files.append(&mut v);
                },
                SplitOutcome::Failed(f) => {
                    ds.failed += 1;
                    report.failures.push(f);
                    assert(report.failures@ =~= failures0 + outcome_failures(all.take(i + 1)));
                },
            }
        }
        i += 1;
        assert(rest@ =~= all.skip(i as int).reverse());
    }
    assert(all.take(i as int) =~= all);
    ds.items_scanned = files.len() as u64 + ds.failed;
    Expanded { files, sources, chunks }
}

proof fn lemma_outcome_files_mono(o: Seq<SplitOutcome>, i: int)
    requires
        0 <= i <= o.len(),
    ensures
        outcome_files(o.take(i)).len() <= outcome_files(o).len(),
    decreases o.len() - i,
{
    if i < o.len() {
        lemma_outcome_files_mono(o, i + 1);
        assert(o.take(i + 1).drop_last() =~= o.take(i));
    } else {
        assert(o.take(i) =~= o);
    }
}

pub open spec fn schema_failure(
    dataset: Seq<char>,
    snapshot_dir: Seq<char>,
    parquet_dir: Seq<char>,
    e: Seq<char>,
) -> report::FailureView {
    report::FailureView {
        dataset,
        phase: "schema_infer"@,
        rel_path: None,
        source_path: Some(layout::source_dir_of(snapshot_dir, dataset)),
        output_path: Some(paths::join_of(parquet_dir, dataset)),
        error_message: e,
        suggested_recovery: Some("refresh schema cache or reduce sample size"@),
    }
}

/// Gives a dataset up whose columns cannot be told: all of it counts as failed.
pub fn give_up_dataset(
    report: &mut RunReport,
    ds: DatasetReportSummary,
    snapshot_dir: &str,
    parquet_dir: &str,
    error_message: String,
)
    requires
        ds.failed + ds.items_scanned <= u64::MAX,
    ensures
        *final(report) == (RunReport {
            failures: final(report).failures,
            datasets: final(report).datasets,
            ..*old(report)
        }),
        report::failure_views(final(report).failures@) == report::failure_views(
            old(report).failures@,
        ).push(schema_failure(ds.dataset@, snapshot_dir@, parquet_dir@, error_message@)),
        final(report).datasets@ == old(report).datasets@.push(
            (DatasetReportSummary {
                failed: (ds.failed + ds.items_scanned) as u64,
                succeeded: 0,
                ..ds
            }),
        ),
{
    broadcast use report::lemma_failure_views_push;

    let source = source_dir(snapshot_dir, ds.dataset.as_str());
    let output = join_path(parquet_dir, ds.dataset.as_str());
    let f = failure(
        ds.dataset.as_str(),
        "schema_infer",
        None,
        Some(source.as_str()),
        Some(output.as_str()),
        error_message,
        Some("refresh schema cache or reduce sample size".to_owned()),
    );
    report.failures.push(f);
    let mut ds = ds;
    ds.failed = ds.failed + ds.items_scanned;
    ds.succeeded = 0;
    report.datasets.push(ds);
}

/// What is recorded of a file that was converted, or why it was not.
pub open spec fn convert_failure(
    dataset: Seq<char>,
    root_dir: Seq<char>,
    p: plan::PairView,
    e: Seq<char>,
) -> report::FailureView {
    pair_failure(
        dataset,
        "convert_file"@,
        p,
        e,
        if text::occurs_in("Out of Memory Error"@, e) {
            "openalex-snapshot convert --root-dir "@ + root_dir + " --dataset "@ + dataset
                + " --profile safe"@
        } else {
            "retry converting this single file via --input-file"@
        },
    )
}

/// What is recorded of a file whose conversion ended with `outcome`.
pub fn converted(dataset: &str, root_dir: &str, p: &FilePair, outcome: Result<(), String>) -> (r: Option<
    FailureEntry,
>)
    ensures
        match (outcome, r) {
            (Ok(_), None) => true,
            (Err(e), Some(f)) => f@ == convert_failure(dataset@, root_dir@, p@, e@),
            _ => false,
        },
{
    match outcome {
        Ok(_) => None,
        Err(e) => {
            let recovery = if contains(e.as_str(), "Out of Memory Error") {
                let mut m = "openalex-snapshot convert --root-dir ".to_owned();
                m.append(root_dir);
                m.append(" --dataset ");
                m.append(dataset);
                m.append(" --profile safe");
                m
            } else {
                "retry converting this single file via --input-file".to_owned()
            };
            Some(fail_pair(dataset, "convert_file", p, e, recovery))
        },
    }
}

/// Where the database writes a parquet file until it is complete.
pub fn partial_output(p: &FilePair) -> (r: String)
    ensures
        r@ == paths::with_extension_of(p.output_parquet@, "parquet.tmp"@),
{
    with_extension(p.output_parquet.as_str(), "parquet.tmp")
}

/// The memory of all workers of a pass together, in MB.
pub fn memory_budget_mb(pass: &StratumPlan) -> (r: usize)
    ensures
        r == plan::min_int(pass.memory_mb * pass.workers, usize::MAX as int),
{
    assert(pass.memory_mb as u128 * pass.workers as u128 <= u64::MAX as u128 * u64::MAX as u128)
        by (nonlinear_arith)
        requires
            pass.memory_mb <= u64::MAX,
            pass.workers <= u64::MAX,
    ;
    let b: u128 = pass.memory_mb as u128 * pass.workers as u128;
    if b <= usize::MAX as u128 {
        b as usize
    } else {
        usize::MAX
    }
}

/// An optional number as it is shown in a report.
pub open spec fn shown_option(o: Option<usize>) -> Seq<char> {
    match o {
        Some(n) => "Some("@ + text::decimal(n as nat) + ")"@,
        None => "None"@,
    }
}

/// An optional number as it is shown in a report.
pub fn show_option(o: Option<usize>) -> (r: String)
    ensures
        r@ == shown_option(o),
{
    match o {
        Some(n) => {
            let mut s = "Some(".to_owned();
            push_decimal(&mut s, n as u128);
            s.append(")");
            s
        },
        None => "None".to_owned(),
    }
}

/// What the settings say, by name.
pub open spec fn arg_views(v: Seq<ReportArg>) -> Seq<(Seq<char>, Seq<char>)> {
    Seq::new(v.len(), |i: int| (v[i].name@, v[i].value@))
}

/// The settings that the report of a conversion records.
pub fn convert_args(dataset: &str, tuning: &Tuning, compression: &str, state_flush_every: usize) -> (r:
    Vec<ReportArg>)
    ensures
        arg_views(r@) == seq![
            ("dataset"@, dataset@),
            ("workers"@, text::decimal(tuning.workers as nat)),
            ("memory_mb"@, shown_option(tuning.memory_mb)),
            ("compression"@, compression@),
            ("state_flush_every"@, text::decimal(state_flush_every as nat)),
        ],
{
    let mut v: Vec<ReportArg> = Vec::new();
    let workers = decimal_string(tuning.workers as u128);
    let memory = show_option(tuning.memory_mb);
    let flush = decimal_string(state_flush_every as u128);
    v.push(report_arg("dataset", dataset));
    v.push(report_arg("workers", workers.as_str()));
    v.push(report_arg("memory_mb", memory.as_str()));
    v.push(report_arg("compression", compression));
    v.push(report_arg("state_flush_every", flush.as_str()));
    v
}

/// Splitting loses no source: what passed, what was split and what failed are all
/// of them, and all that is scanned is a file to convert or a failure.
pub proof fn law_every_source_is_accounted_for(o: Seq<SplitOutcome>)
    ensures
        outcome_chunks(o).0 + outcome_failures(o).len() + (outcome_files(o).len() - outcome_chunks(
            o,
        ).1) == o.len(),
        0 <= outcome_chunks(o).1 <= outcome_files(o).len(),
    decreases o.len(),
{
    if o.len() > 0 {
        law_every_source_is_accounted_for(o.drop_last());
    }
}

/// A conversion ends with every scanned item counted once: while no more failures
/// are found than there are files left, what succeeded and what failed is what
/// was scanned.
pub proof fn law_converted_items_add_up(ds: DatasetReportSummary, found: nat)
    requires
        ds.failed + found <= ds.items_scanned,
    ensures
        report::minus(ds.items_scanned, (ds.failed + found) as u64) + (ds.failed + found)
            == ds.items_scanned,
{
}

/// A source that was converted in chunks counts as done: its first chunk goes
/// where the next run looks for it.
pub proof fn law_split_source_is_found_again(
    source: plan::PairView,
    tmp_root: Seq<char>,
    dataset: Seq<char>,
    n: int,
)
    requires
        paths::parent_of(source.output_parquet) is Some,
    ensures
        split::chunk_pair_of(source, tmp_root, dataset, n).output_parquet
            == split::split_parquet_path_of(source.output_parquet, n),
{
}

/// Whether `p` is one of the pairs, and not done.
pub open spec fn is_left(pairs: Seq<FilePair>, done: Seq<bool>, p: FilePair) -> bool {
    exists|i: int| 0 <= i < pairs.len() && !done[i] && #[trigger] pairs[i] == p
}

/// Nothing that is converted is converted again, and nothing else is left out.
pub proof fn law_pending_is_what_is_not_done(pairs: Seq<FilePair>, done: Seq<bool>, p: FilePair)
    requires
        done.len() >= pairs.len(),
    ensures
        pending(pairs, done).contains(p) <==> is_left(pairs, done, p),
    decreases pairs.len(),
{
    if pairs.len() > 0 {
        let front = pairs.drop_last();
        let last = pairs.len() - 1;
        law_pending_is_what_is_not_done(front, done, p);
        let all = pending(pairs, done);
        let q = pending(front, done);
        if is_left(pairs, done, p) {
            let i = choose|i: int| 0 <= i < pairs.len() && !done[i] && #[trigger] pairs[i] == p;
            if i < last {
                assert(front[i] == p);
                let k = choose|k: int| 0 <= k < q.len() && q[k] == p;
                assert(all[k] == p);
            } else {
                assert(all[all.len() - 1] == p);
            }
        }
        if all.contains(p) {
            let k = choose|k: int| 0 <= k < all.len() && all[k] == p;
            if k < q.len() {
                assert(q[k] == p);
                let i = choose|i: int| 0 <= i < front.len() && !done[i] && #[trigger] front[i] == p;
                assert(pairs[i] == p);
            } else {
                assert(pairs[last] == p);
            }
        }
    }
}

/// The space that must stay free is the number of GiB that was set; where none was
/// set that can be read, it is one GiB below the temporary directory and 900 GiB
/// elsewhere.
pub proof fn law_least_free_space(n: nat, s: Seq<char>, path: Seq<char>, temp_dir: Seq<char>)
    ensures
        n * 1_073_741_824 <= u64::MAX ==> min_free_bytes(Some(text::decimal(n)), path, temp_dir)
            == n * 1_073_741_824,
        n <= u64::MAX && n * 1_073_741_824 > u64::MAX ==> min_free_bytes(
            Some(text::decimal(n)),
            path,
            temp_dir,
        ) == u64::MAX,
        paths::is_under(path, temp_dir) ==> min_free_bytes(None, path, temp_dir) == 1_073_741_824,
        !paths::is_under(path, temp_dir) ==> min_free_bytes(None, path, temp_dir) == 900
            * 1_073_741_824,
        text::unsigned_of(s, u64::MAX as nat) is None ==> min_free_bytes(Some(s), path, temp_dir)
            == min_free_bytes(None, path, temp_dir),
{
    text::law_decimal_round_trip(n);
    text::law_unsigned_reading(text::decimal(n), u64::MAX as nat);
}

/// A file is converted where the disk has room for its source and 64 MiB more; where
/// it has not, or cannot say, the failure names the pair.
pub proof fn law_file_needs_its_size_and_headroom(
    dataset: Seq<char>,
    p: plan::PairView,
    size: u64,
    free: u64,
    e: Seq<char>,
)
    ensures
        free >= size + 67_108_864 ==> file_space_failure(dataset, p, size, Ok(free)) is None,
        free < size + 67_108_864 && free < u64::MAX ==> {
            &&& file_space_failure(dataset, p, size, Ok(free)) matches Some(f)
            &&& f.dataset == dataset && f.rel_path == Some(p.rel) && f.source_path == Some(
                p.input_gz,
            ) && f.output_path == Some(p.output_parquet) && f.phase == "convert_disk_space"@
        },
        file_space_failure(dataset, p, size, Err(e)) matches Some(f) && f.dataset == dataset
            && f.phase == "convert_disk_space"@
            && f.rel_path == Some(p.rel) && f.source_path == Some(p.input_gz) && f.output_path
            == Some(p.output_parquet) && f.error_message == "disk space check failed: "@ + e,
{
}

/// The failure of a pair names its dataset, its step, its source, its parquet file
/// and what went wrong, whatever the step.
pub proof fn law_failures_name_their_pair(
    dataset: Seq<char>,
    root_dir: Seq<char>,
    p: plan::PairView,
    e: Seq<char>,
)
    ensures
        ({
            let f = convert_failure(dataset, root_dir, p, e);
            &&& f.dataset == dataset && f.phase == "convert_file"@
            &&& f.rel_path == Some(p.rel) && f.source_path == Some(p.input_gz) && f.output_path
                == Some(p.output_parquet)
            &&& f.error_message == e
            &&& text::occurs_in("Out of Memory Error"@, e) ==> f.suggested_recovery == Some(
                "openalex-snapshot convert --root-dir "@ + root_dir + " --dataset "@ + dataset
                    + " --profile safe"@,
            )
        }),
        ({
            let f = split_failure(dataset, p, e);
            &&& f.dataset == dataset && f.phase == "split"@
            &&& f.rel_path == Some(p.rel) && f.source_path == Some(p.input_gz) && f.output_path
                == Some(p.output_parquet)
            &&& f.error_message == "split failed: "@ + e
        }),
{
}

/// What is left to do holds a pair exactly where it is not done, in the order of the
/// pairs.
pub proof fn law_pending_keeps_the_order(pairs: Seq<FilePair>, done: Seq<bool>, p: FilePair)
    requires
        done.len() > pairs.len(),
    ensures
        pending(Seq::empty(), done).len() == 0,
        done[pairs.len() as int] ==> pending(pairs.push(p), done) == pending(pairs, done),
        !done[pairs.len() as int] ==> pending(pairs.push(p), done) == pending(pairs, done).push(p),
{
    assert(pairs.push(p).drop_last() =~= pairs);
}

/// A size of zero means that nothing is split; any other size is taken as it is.
pub proof fn law_zero_never_splits(size: int, n: usize)
    ensures
        split_target_of(0) >= n,
        size != 0 ==> split_target_of(size) == size,
{
}

/// A source that is passed on, split or failed adds itself, its chunks or its failure,
/// behind what came before it, and nothing else.
pub proof fn law_outcomes_are_kept_in_order(o: Seq<SplitOutcome>, x: SplitOutcome)
    ensures
        outcome_files(Seq::empty()).len() == 0,
        outcome_failures(Seq::empty()).len() == 0,
        outcome_chunks(Seq::empty()) == (0int, 0int),
        match x {
            SplitOutcome::Pass(p) => {
                &&& outcome_files(o.push(x)) == outcome_files(o).push(p)
                &&& outcome_failures(o.push(x)) == outcome_failures(o)
                &&& outcome_chunks(o.push(x)) == outcome_chunks(o)
            },
            SplitOutcome::Chunks(v) => {
                &&& outcome_files(o.push(x)) == outcome_files(o) + v@
                &&& outcome_failures(o.push(x)) == outcome_failures(o)
                &&& outcome_chunks(o.push(x)).0 == outcome_chunks(o).0 + 1
                &&& outcome_chunks(o.push(x)).1 == outcome_chunks(o).1 + v@.len()
            },
            SplitOutcome::Failed(f) => {
                &&& outcome_files(o.push(x)) == outcome_files(o)
                &&& outcome_failures(o.push(x)) == outcome_failures(o).push(f)
                &&& outcome_chunks(o.push(x)) == outcome_chunks(o)
            },
        },
{
    assert(o.push(x).drop_last() =~= o);
}

/// The failure of a dataset whose schema cannot be inferred names the directories of
/// its sources and of its parquet files.
pub proof fn law_schema_failure_names_the_dataset(
    dataset: Seq<char>,
    snapshot_dir: Seq<char>,
    parquet_dir: Seq<char>,
    e: Seq<char>,
)
    ensures
        ({
            let f = schema_failure(dataset, snapshot_dir, parquet_dir, e);
            &&& f.dataset == dataset && f.phase == "schema_infer"@ && f.error_message == e
            &&& f.rel_path is None
            &&& f.source_path == Some(layout::source_dir_of(snapshot_dir, dataset))
            &&& f.output_path == Some(paths::join_of(parquet_dir, dataset))
        }),
{
}
/// A lack of space is told of the whole dataset, with what is free and what is needed, both
/// in whole GiB.
pub proof fn law_lack_of_space(
    dataset: Seq<char>,
    parquet_dir: Seq<char>,
    free: u64,
    required: u64,
    n: usize,
)
    ensures
        ({
            let f = no_space_failure(dataset, parquet_dir, free, required);
            let gib = |b: u64| text::decimal((b / 1_073_741_824) as nat);
            &&& f.dataset == dataset && f.phase == "convert_disk_space"@
            &&& f.output_path == Some(parquet_dir) && f.rel_path is None && f.source_path is None
            &&& f.error_message == "insufficient free disk space: available="@ + gib(free)
                + " GiB required_min="@ + gib(required) + " GiB"@
        }),
        shown_option(None) == "None"@,
        shown_option(Some(n)) == "Some("@ + text::decimal(n as nat) + ")"@,
{
}
} // verus!
