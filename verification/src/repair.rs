//! Repairing parquet files that a verification found wrong.

use vstd::prelude::*;
use vstd::string::*;
use crate::convert::show_option;
use crate::convert;
use crate::layout::source_dir;
use crate::layout;
use crate::order::sorted_set;
use crate::order;
use crate::paths::{file_name, is_absolute, join_path, parent, strip_base, with_extension};
use crate::paths;
use crate::plan::{FilePair, Tuning};
use crate::plan;
use crate::report::{
    copy_option, failure, report_arg, DatasetReportSummary, FailureEntry, ReportArg, RunReport,
};
use crate::report;
use crate::text::{decimal_string, member, starts_with, str_eq, strip_prefix};
use crate::text;

verus! {

/// A parquet file to be made again from its source.
#[derive(Debug)]
pub struct RepairTarget {
    pub dataset: String,
    pub source_path: String,
    pub output_path: String,
    /// The path of the source below its dataset.
    pub rel: String,
}

/// What a `RepairTarget` says.
#[verifier::ext_equal]
pub struct TargetView {
    pub dataset: Seq<char>,
    pub source_path: Seq<char>,
    pub output_path: Seq<char>,
    pub rel: Seq<char>,
}

impl View for RepairTarget {
    type V = TargetView;

    open spec fn view(&self) -> TargetView {
        TargetView {
            dataset: self.dataset@,
            source_path: self.source_path@,
            output_path: self.output_path@,
            rel: self.rel@,
        }
    }
}

impl Clone for RepairTarget {
    fn clone(&self) -> (r: Self)
        ensures
            r == *self,
    {
        RepairTarget {
            dataset: self.dataset.clone(),
            source_path: self.source_path.clone(),
            output_path: self.output_path.clone(),
            rel: self.rel.clone(),
        }
    }
}

pub open spec fn target_views(v: Seq<RepairTarget>) -> Seq<TargetView> {
    Seq::new(v.len(), |i: int| v[i]@)
}

/// Pushing a target pushes what it says.
pub broadcast proof fn lemma_target_views_push(v: Seq<RepairTarget>, t: RepairTarget)
    ensures
        #[trigger] target_views(v.push(t)) == target_views(v).push(t@),
{
    assert(target_views(v.push(t)) =~= target_views(v).push(t@));
}

/// `s` without any `p` that it starts with, again and again.
pub open spec fn without_prefixes(s: Seq<char>, p: Seq<char>) -> Seq<char>
    decreases s.len(),
{
    if p.len() > 0 && text::has_prefix(s, p) {
        without_prefixes(s.skip(p.len() as int), p)
    } else {
        s
    }
}

fn strip_prefixes(s: &str, p: &str) -> (r: String)
    ensures
        r@ == without_prefixes(s@, p@),
    decreases s@.len(),
{
    if p.is_empty() {
        return s.to_owned();
    }
    match strip_prefix(s, p) {
        Some(rest) => strip_prefixes(rest.as_str(), p),
        None => s.to_owned(),
    }
}

/// Whether a path of a report stands below the snapshot or the parquet directory.
pub open spec fn is_of_root(norm: Seq<char>) -> bool {
    norm == "snapshot"@ || text::has_prefix(norm, "snapshot/"@) || norm == "parquet"@
        || text::has_prefix(norm, "parquet/"@)
}

/// A path of a report, which may be relative to the root of the run.
pub open spec fn resolved_path(p: Seq<char>, snapshot_dir: Seq<char>) -> Seq<char> {
    let norm = without_prefixes(p, "./"@);
    if !paths::is_rooted(p) && is_of_root(norm) {
        paths::join_of(paths::parent_of(snapshot_dir).unwrap_or("."@), norm)
    } else {
        p
    }
}

/// A path of a report, which may be relative to the root of the run.
pub fn resolve_report_path_for_root(p: &str, snapshot_dir: &str) -> (r: String)
    ensures
        r@ == resolved_path(p@, snapshot_dir@),
{
    if is_absolute(p) {
        return p.to_owned();
    }
    let norm = strip_prefixes(p, "./");
    if str_eq(norm.as_str(), "snapshot") || starts_with(norm.as_str(), "snapshot/") || str_eq(
        norm.as_str(),
        "parquet",
    ) || starts_with(norm.as_str(), "parquet/") {
        let root = match parent(snapshot_dir) {
            Some(d) => d,
            None => ".".to_owned(),
        };
        return join_path(root.as_str(), norm.as_str());
    }
    p.to_owned()
}

/// The source that a failure speaks of.
pub open spec fn target_source(f: report::FailureView, snapshot_dir: Seq<char>) -> Option<Seq<char>> {
    match (f.source_path, f.rel_path) {
        (Some(p), _) => Some(resolved_path(p, snapshot_dir)),
        (None, Some(r)) => Some(
            paths::join_of(layout::source_dir_of(snapshot_dir, f.dataset), r),
        ),
        (None, None) => None,
    }
}

/// The parquet file that a failure speaks of.
pub open spec fn target_output(
    f: report::FailureView,
    snapshot_dir: Seq<char>,
    parquet_dir: Seq<char>,
) -> Option<Seq<char>> {
    match (f.output_path, f.rel_path) {
        (Some(p), _) => Some(resolved_path(p, snapshot_dir)),
        (None, Some(r)) => Some(
            paths::join_of(
                paths::join_of(parquet_dir, f.dataset),
                paths::with_extension_of(r, "parquet"@),
            ),
        ),
        (None, None) => None,
    }
}

/// Where a source stands below its dataset, as far as the paths tell.
pub open spec fn target_rel(
    f: report::FailureView,
    source: Seq<char>,
    output: Seq<char>,
    snapshot_dir: Seq<char>,
    parquet_dir: Seq<char>,
) -> Seq<char> {
    match f.rel_path {
        Some(r) => r,
        None => match paths::relative_to(source, layout::source_dir_of(snapshot_dir, f.dataset)) {
            Some(r) => r,
            None => match paths::relative_to(output, paths::join_of(parquet_dir, f.dataset)) {
                Some(r) => paths::with_extension_of(r, "gz"@),
                None => paths::file_name_of(source).unwrap_or("unknown.gz"@),
            },
        },
    }
}

/// What there is to repair for a failure, where its paths tell.
pub open spec fn target_of(
    f: report::FailureView,
    snapshot_dir: Seq<char>,
    parquet_dir: Seq<char>,
) -> Option<TargetView> {
    match (target_source(f, snapshot_dir), target_output(f, snapshot_dir, parquet_dir)) {
        (Some(source), Some(output)) => Some(
            TargetView {
                dataset: f.dataset,
                source_path: source,
                output_path: output,
                rel: target_rel(f, source, output, snapshot_dir, parquet_dir),
            },
        ),
        _ => None,
    }
}

fn make_target(f: &FailureEntry, snapshot_dir: &str, parquet_dir: &str) -> (r: Option<RepairTarget>)
    ensures
        match (r, target_of(f@, snapshot_dir@, parquet_dir@)) {
            (Some(t), Some(v)) => t@ == v,
            (None, None) => true,
            _ => false,
        },
{
    let base = source_dir(snapshot_dir, f.dataset.as_str());
    let out_base = join_path(parquet_dir, f.dataset.as_str());
    let source = match (&f.source_path, &f.rel_path) {
        (Some(p), _) => resolve_report_path_for_root(p.as_str(), snapshot_dir),
        (None, Some(r)) => join_path(base.as_str(), r.as_str()),
        (None, None) => {
            return None;
        },
    };
    let output = match (&f.output_path, &f.rel_path) {
        (Some(p), _) => resolve_report_path_for_root(p.as_str(), snapshot_dir),
        (None, Some(r)) => {
            let below = with_extension(r.as_str(), "parquet");
            join_path(out_base.as_str(), below.as_str())
        },
        (None, None) => {
            return None;
        },
    };
    let rel = match &f.rel_path {
        Some(r) => r.clone(),
        None => match strip_base(source.as_str(), base.as_str()) {
            Some(r) => r,
            None => match strip_base(output.as_str(), out_base.as_str()) {
                Some(r) => with_extension(r.as_str(), "gz"),
                None => match file_name(source.as_str()) {
                    Some(n) => n,
                    None => "unknown.gz".to_owned(),
                },
            },
        },
    };
    Some(
        RepairTarget { dataset: f.dataset.clone(), source_path: source, output_path: output, rel },
    )
}

/// Whether a failure can be repaired: a file whose contents differ, in a dataset
/// that is to be repaired.
pub open spec fn is_eligible(f: report::FailureView, allowed: Seq<Seq<char>>) -> bool {
    f.phase == "verify_metrics"@ && allowed.contains(f.dataset)
}

fn eligible(f: &FailureEntry, allowed: &Vec<String>) -> (r: bool)
    ensures
        r == is_eligible(f@, text::texts(allowed@)),
{
    str_eq(f.phase.as_str(), "verify_metrics") && member(allowed, f.dataset.as_str())
}

pub open spec fn output_paths(t: Seq<TargetView>) -> Seq<Seq<char>> {
    Seq::new(t.len(), |i: int| t[i].output_path)
}

/// What there is to repair, each parquet file once.
pub open spec fn repair_targets(
    f: Seq<report::FailureView>,
    allowed: Seq<Seq<char>>,
    snapshot_dir: Seq<char>,
    parquet_dir: Seq<char>,
) -> Seq<TargetView>
    decreases f.len(),
{
    if f.len() == 0 {
        Seq::empty()
    } else {
        let rest = repair_targets(f.drop_last(), allowed, snapshot_dir, parquet_dir);
        match target_of(f.last(), snapshot_dir, parquet_dir) {
            Some(t) if is_eligible(f.last(), allowed) && !output_paths(rest).contains(
                t.output_path,
            ) => rest.push(t),
            _ => rest,
        }
    }
}

fn has_output(v: &Vec<RepairTarget>, output_path: &str) -> (r: bool)
    ensures
        r == output_paths(target_views(v@)).contains(output_path@),
{
    let mut i: usize = 0;
    let ghost all = output_paths(target_views(v@));
    while i < v.len()
        invariant
            i <= v@.len(),
            all == output_paths(target_views(v@)),
            forall|k: int| 0 <= k < i ==> #[trigger] all[k] != output_path@,
        decreases v@.len() - i,
    {
        assert(all[i as int] == v@[i as int].output_path@);
        if str_eq(v[i].output_path.as_str(), output_path) {
            return true;
        }
        i += 1;
    }
    false
}

/// What there is to repair after a verification, each parquet file once.
pub fn collect_repair_targets(
    verify_report: &RunReport,
    allowed_datasets: &Vec<String>,
    snapshot_dir: &str,
    parquet_dir: &str,
) -> (r: Vec<RepairTarget>)
    ensures
        target_views(r@) == repair_targets(
            report::failure_views(verify_report.failures@),
            text::texts(allowed_datasets@),
            snapshot_dir@,
            parquet_dir@,
        ),
{
    let ghost all = report::failure_views(verify_report.failures@);
    let ghost allowed = text::texts(allowed_datasets@);
    let mut out: Vec<RepairTarget> = Vec::new();
    let mut i: usize = 0;
    assert(target_views(out@) =~= repair_targets(all.take(0), allowed, snapshot_dir@, parquet_dir@));
    while i < verify_report.failures.len()
        invariant
            i <= verify_report.failures@.len(),
            all == report::failure_views(verify_report.failures@),
            allowed == text::texts(allowed_datasets@),
            target_views(out@) == repair_targets(
                all.take(i as int),
                allowed,
                snapshot_dir@,
                parquet_dir@,
            ),
        decreases verify_report.failures@.len() - i,
    {
        broadcast use lemma_target_views_push;

        let f = &verify_report.failures[i];
        proof {
            assert(all.take(i + 1).drop_last() =~= all.take(i as int));
            assert(all.take(i + 1).last() == f@);
        }
        if eligible(f, allowed_datasets) {
            if let Some(t) = make_target(f, snapshot_dir, parquet_dir) {
                if !has_output(&out, t.output_path.as_str()) {
                    out.push(t);
                }
            }
        }
        i += 1;
    }
    assert(all.take(i as int) =~= all);
    out
}

/// Every parquet file is repaired once, whatever speaks of it and how often; only
/// what can be repaired is, and all of that.
pub proof fn law_repair_targets(
    f: Seq<report::FailureView>,
    allowed: Seq<Seq<char>>,
    snapshot_dir: Seq<char>,
    parquet_dir: Seq<char>,
)
    ensures
        output_paths(repair_targets(f, allowed, snapshot_dir, parquet_dir)).no_duplicates(),
        forall|p: Seq<char>|
            #[trigger] output_paths(
                repair_targets(f, allowed, snapshot_dir, parquet_dir),
            ).contains(p) <==> speaks_of(f, allowed, snapshot_dir, parquet_dir, p),
    decreases f.len(),
{
    let t = repair_targets(f, allowed, snapshot_dir, parquet_dir);
    if f.len() > 0 {
        let front = f.drop_last();
        law_repair_targets(front, allowed, snapshot_dir, parquet_dir);
        let rest = repair_targets(front, allowed, snapshot_dir, parquet_dir);
        let last = target_of(f.last(), snapshot_dir, parquet_dir);
        assert forall|p: Seq<char>| #[trigger] output_paths(t).contains(p) <==> speaks_of(
            f,
            allowed,
            snapshot_dir,
            parquet_dir,
            p,
        ) by {
            assert(output_paths(rest).contains(p) <==> speaks_of(
                front,
                allowed,
                snapshot_dir,
                parquet_dir,
                p,
            ));
            if speaks_of(front, allowed, snapshot_dir, parquet_dir, p) {
                let i = choose|i: int|
                    0 <= i < front.len() && #[trigger] asks_for(
                        front[i],
                        allowed,
                        snapshot_dir,
                        parquet_dir,
                        p,
                    );
                assert(f[i] == front[i]);
                assert(asks_for(f[i], allowed, snapshot_dir, parquet_dir, p));
                assert(speaks_of(f, allowed, snapshot_dir, parquet_dir, p));
            }
            if speaks_of(f, allowed, snapshot_dir, parquet_dir, p) {
                let i = choose|i: int|
                    0 <= i < f.len() && #[trigger] asks_for(f[i], allowed, snapshot_dir, parquet_dir, p);
                if i < front.len() {
                    assert(front[i] == f[i]);
                    assert(asks_for(front[i], allowed, snapshot_dir, parquet_dir, p));
                    assert(speaks_of(front, allowed, snapshot_dir, parquet_dir, p));
                }
            }
            if t != rest {
                assert(output_paths(t) =~= output_paths(rest).push(last->Some_0.output_path));
                assert(asks_for(
                    f[f.len() - 1],
                    allowed,
                    snapshot_dir,
                    parquet_dir,
                    last->Some_0.output_path,
                ));
                if output_paths(rest).contains(p) {
                    let k = choose|k: int|
                        0 <= k < output_paths(rest).len() && output_paths(rest)[k] == p;
                    assert(output_paths(t)[k] == p);
                }
                assert(output_paths(t)[rest.len() as int] == last->Some_0.output_path);
            }
        }
        if t != rest {
            assert(output_paths(t) =~= output_paths(rest).push(last->Some_0.output_path));
        }
    }
}

/// Whether a failure can be repaired and speaks of the parquet file `p`.
pub open spec fn asks_for(
    f: report::FailureView,
    allowed: Seq<Seq<char>>,
    snapshot_dir: Seq<char>,
    parquet_dir: Seq<char>,
    p: Seq<char>,
) -> bool {
    &&& is_eligible(f, allowed)
    &&& target_of(f, snapshot_dir, parquet_dir) matches Some(t)
    &&& t.output_path == p
}

/// Whether one of the failures that can be repaired speaks of the parquet file
/// `p`.
pub open spec fn speaks_of(
    f: Seq<report::FailureView>,
    allowed: Seq<Seq<char>>,
    snapshot_dir: Seq<char>,
    parquet_dir: Seq<char>,
    p: Seq<char>,
) -> bool {
    exists|i: int|
        0 <= i < f.len() && #[trigger] asks_for(f[i], allowed, snapshot_dir, parquet_dir, p)
}

/// Whether a text is given and not empty.
pub open spec fn given(o: Option<Seq<char>>) -> bool {
    o matches Some(s) && s.len() > 0
}

fn is_given(o: &Option<String>) -> (r: bool)
    ensures
        r == given(report::opt(*o)),
{
    match o {
        Some(s) => !s.as_str().is_empty(),
        None => false,
    }
}

/// Whether the paths of a failure tell what to repair.
pub open spec fn is_actionable(f: report::FailureView) -> bool {
    given(f.rel_path) || (given(f.source_path) && given(f.output_path))
}

/// What is recorded of a failure whose paths do not tell what to repair.
pub open spec fn unactionable_failure(f: report::FailureView) -> report::FailureView {
    report::FailureView {
        phase: "repair_select"@,
        error_message: "verify failure entry is not actionable (missing paths)"@,
        suggested_recovery: Some("rerun verify to generate complete failure paths"@),
        ..f
    }
}

/// What is recorded of all failures whose paths do not tell what to repair.
pub open spec fn unactionable(f: Seq<report::FailureView>, allowed: Seq<Seq<char>>) -> Seq<
    report::FailureView,
>
    decreases f.len(),
{
    if f.len() == 0 {
        Seq::empty()
    } else if is_eligible(f.last(), allowed) && !is_actionable(f.last()) {
        unactionable(f.drop_last(), allowed).push(unactionable_failure(f.last()))
    } else {
        unactionable(f.drop_last(), allowed)
    }
}

/// What is recorded of the failures of a verification whose paths do not tell
/// what to repair.
pub fn unactionable_entries(verify_report: &RunReport, allowed_datasets: &Vec<String>) -> (r: Vec<
    FailureEntry,
>)
    ensures
        report::failure_views(r@) == unactionable(
            report::failure_views(verify_report.failures@),
            text::texts(allowed_datasets@),
        ),
{
    let ghost all = report::failure_views(verify_report.failures@);
    let ghost allowed = text::texts(allowed_datasets@);
    let mut out: Vec<FailureEntry> = Vec::new();
    let mut i: usize = 0;
    assert(report::failure_views(out@) =~= unactionable(all.take(0), allowed));
    while i < verify_report.failures.len()
        invariant
            i <= verify_report.failures@.len(),
            all == report::failure_views(verify_report.failures@),
            allowed == text::texts(allowed_datasets@),
            report::failure_views(out@) == unactionable(all.take(i as int), allowed),
        decreases verify_report.failures@.len() - i,
    {
        broadcast use report::lemma_failure_views_push;

        let f = &verify_report.failures[i];
        proof {
            assert(all.take(i + 1).drop_last() =~= all.take(i as int));
            assert(all.take(i + 1).last() == f@);
        }
        if eligible(f, allowed_datasets) && !(is_given(&f.rel_path) || (is_given(&f.source_path)
            && is_given(&f.output_path))) {
            let e = FailureEntry {
                dataset: f.dataset.clone(),
                phase: "repair_select".to_owned(),
                rel_path: copy_option(&f.rel_path),
                source_path: copy_option(&f.source_path),
                output_path: copy_option(&f.output_path),
                error_message: "verify failure entry is not actionable (missing paths)".to_owned(),
                suggested_recovery: Some(
                    "rerun verify to generate complete failure paths".to_owned(),
                ),
            };
            assert(e@ =~= unactionable_failure(f@));
            out.push(e);
        }
        i += 1;
    }
    assert(all.take(i as int) =~= all);
    out
}

/// The targets of one dataset.
pub struct RepairGroup {
    pub dataset: String,
    pub targets: Vec<RepairTarget>,
}

pub open spec fn target_datasets(t: Seq<RepairTarget>) -> Seq<Seq<char>> {
    Seq::new(t.len(), |i: int| t[i].dataset@)
}

pub open spec fn group_names(g: Seq<RepairGroup>) -> Seq<Seq<char>> {
    Seq::new(g.len(), |i: int| g[i].dataset@)
}

/// The targets of the dataset `name`, in their order.
pub open spec fn targets_in(t: Seq<RepairTarget>, name: Seq<char>) -> Seq<RepairTarget> {
    t.filter(|x: RepairTarget| x.dataset@ == name)
}

fn pick_targets(targets: &Vec<RepairTarget>, name: &str) -> (r: Vec<RepairTarget>)
    ensures
        r@ == targets_in(targets@, name@),
{
    let ghost here = |x: RepairTarget| x.dataset@ == name@;
    let mut out: Vec<RepairTarget> = Vec::new();
    let mut i: usize = 0;
    proof {
        reveal(Seq::filter);
        assert(out@ =~= targets@.take(0).filter(here));
    }
    while i < targets.len()
        invariant
            i <= targets@.len(),
            here == (|x: RepairTarget| x.dataset@ == name@),
            out@ == targets@.take(i as int).filter(here),
        decreases targets@.len() - i,
    {
        proof {
            reveal(Seq::filter);
            assert(targets@.take(i + 1).drop_last() =~= targets@.take(i as int));
        }
        if str_eq(targets[i].dataset.as_str(), name) {
            out.push(targets[i].clone());
        }
        i += 1;
    }
    assert(targets@.take(i as int) =~= targets@);
    out
}

/// The targets by dataset, the datasets in the order of their names.
pub fn group_by_dataset(targets: &Vec<RepairTarget>) -> (r: Vec<RepairGroup>)
    ensures
        order::is_set_of(group_names(r@), target_datasets(targets@)),
        forall|i: int|
            0 <= i < r@.len() ==> (#[trigger] r@[i]).targets@ == targets_in(
                targets@,
                r@[i].dataset@,
            ),
{
    let mut names: Vec<String> = Vec::new();
    let mut i: usize = 0;
    assert(text::texts(names@) =~= target_datasets(targets@).take(0));
    while i < targets.len()
        invariant
            i <= targets@.len(),
            text::texts(names@) == target_datasets(targets@).take(i as int),
        decreases targets@.len() - i,
    {
        broadcast use text::lemma_texts_push;

        names.push(targets[i].dataset.clone());
        i += 1;
        assert(target_datasets(targets@).take(i as int) =~= target_datasets(targets@).take(
            i - 1,
        ).push(target_datasets(targets@)[i - 1]));
    }
    assert(target_datasets(targets@).take(i as int) =~= target_datasets(targets@));
    let set = sorted_set(&names);
    let mut out: Vec<RepairGroup> = Vec::new();
    let mut k: usize = 0;
    while k < set.len()
        invariant
            k <= set@.len(),
            out@.len() == k,
            forall|i: int| 0 <= i < k ==> (#[trigger] out@[i]).dataset@ == set@[i]@,
            forall|i: int|
                0 <= i < k ==> (#[trigger] out@[i]).targets@ == targets_in(
                    targets@,
                    out@[i].dataset@,
                ),
        decreases set@.len() - k,
    {
        let picked = pick_targets(targets, set[k].as_str());
        out.push(RepairGroup { dataset: set[k].clone(), targets: picked });
        k += 1;
    }
    assert(group_names(out@) =~= text::texts(set@));
    out
}

/// The file pairs of the targets; `sizes` are the sizes of their sources.
pub fn repair_pairs(targets: &Vec<RepairTarget>, sizes: &Vec<u64>) -> (r: Vec<FilePair>)
    requires
        sizes@.len() == targets@.len(),
    ensures
        plan::pair_views(r@) == Seq::new(
            targets@.len(),
            |i: int|
                plan::PairView {
                    input_gz: targets@[i].source_path@,
                    output_parquet: targets@[i].output_path@,
                    rel: targets@[i].rel@,
                    gz_size_bytes: sizes@[i],
                },
        ),
{
    let mut out: Vec<FilePair> = Vec::new();
    let mut i: usize = 0;
    while i < targets.len()
        invariant
            i <= targets@.len(),
            sizes@.len() == targets@.len(),
            out@.len() == i,
            forall|k: int|
                0 <= k < i ==> (#[trigger] out@[k])@ == (plan::PairView {
                    input_gz: targets@[k].source_path@,
                    output_parquet: targets@[k].output_path@,
                    rel: targets@[k].rel@,
                    gz_size_bytes: sizes@[k],
                }),
        decreases targets@.len() - i,
    {
        out.push(
            FilePair {
                input_gz: targets[i].source_path.clone(),
                output_parquet: targets[i].output_path.clone(),
                rel: targets[i].rel.clone(),
                gz_size_bytes: sizes[i],
            },
        );
        i += 1;
    }
    out
}

/// What is done to repair a file, in this order.
#[derive(Debug, Clone, Copy, PartialEq, Eq, Structural)]
pub enum RepairStep {
    Delete,
    Convert,
    Verify,
}

pub open spec fn step_phase(step: RepairStep) -> Seq<char> {
    match step {
        RepairStep::Delete => "repair_delete"@,
        RepairStep::Convert => "repair_convert"@,
        RepairStep::Verify => "repair_verify"@,
    }
}

pub open spec fn step_recovery(step: RepairStep) -> Seq<char> {
    match step {
        RepairStep::Delete => "fix file permissions or remove file manually"@,
        RepairStep::Convert => "retry with --profile safe (single-worker, max memory)"@,
        RepairStep::Verify => "run verify for this file and inspect mismatch"@,
    }
}

/// What is recorded of a file whose repair stopped at a step.
pub open spec fn repair_failure(
    dataset: Seq<char>,
    p: plan::PairView,
    step: RepairStep,
    e: Seq<char>,
) -> report::FailureView {
    convert::pair_failure(dataset, step_phase(step), p, e, step_recovery(step))
}

/// What is recorded of a file whose repair stopped at a step.
pub fn repair_stopped(dataset: &str, p: &FilePair, step: RepairStep, e: String) -> (r: FailureEntry)
    ensures
        r@ == repair_failure(dataset@, p@, step, e@),
{
    let (phase, recovery) = match step {
        RepairStep::Delete => ("repair_delete", "fix file permissions or remove file manually"),
        RepairStep::Convert => (
            "repair_convert",
            "retry with --profile safe (single-worker, max memory)",
        ),
        RepairStep::Verify => ("repair_verify", "run verify for this file and inspect mismatch"),
    };
    failure(
        dataset,
        phase,
        Some(p.rel.as_str()),
        Some(p.input_gz.as_str()),
        Some(p.output_parquet.as_str()),
        e,
        Some(recovery.to_owned()),
    )
}

/// What a step of a repair leads to.
pub enum RepairNext {
    /// The next step is due.
    Step(RepairStep),
    /// The file is repaired.
    Done,
    /// The repair stops.
    Stop(FailureEntry),
}

/// The first step of the repair of a file: what stands in its place goes.
pub fn first_repair_step(output_exists: bool) -> (r: RepairStep)
    ensures
        r == (if output_exists {
            RepairStep::Delete
        } else {
            RepairStep::Convert
        }),
{
    if output_exists {
        RepairStep::Delete
    } else {
        RepairStep::Convert
    }
}

/// What a step of a repair leads to: a file is deleted, made again and checked,
/// and the first step that fails ends it.
pub fn next_repair_step(dataset: &str, p: &FilePair, step: RepairStep, outcome: Result<(), String>) -> (r:
    RepairNext)
    ensures
        match (outcome, r) {
            (Err(e), RepairNext::Stop(f)) => f@ == repair_failure(dataset@, p@, step, e@),
            (Ok(_), RepairNext::Step(s)) => (step == RepairStep::Delete && s == RepairStep::Convert)
                || (step == RepairStep::Convert && s == RepairStep::Verify),
            (Ok(_), RepairNext::Done) => step == RepairStep::Verify,
            _ => false,
        },
{
    match outcome {
        Err(e) => RepairNext::Stop(repair_stopped(dataset, p, step, e)),
        Ok(_) => match step {
            RepairStep::Delete => RepairNext::Step(RepairStep::Convert),
            RepairStep::Convert => RepairNext::Step(RepairStep::Verify),
            RepairStep::Verify => RepairNext::Done,
        },
    }
}

/// What is recorded where the report of the verification cannot be read.
pub fn unreadable_report(dataset: &str, report_path: &str, e: String) -> (r: FailureEntry)
    ensures
        r@ == (report::FailureView {
            dataset: dataset@,
            phase: "repair_report_parse"@,
            rel_path: None,
            source_path: Some(report_path@),
            output_path: None,
            error_message: e@,
            suggested_recovery: Some("provide a valid verify report JSON"@),
        }),
{
    failure(
        dataset,
        "repair_report_parse",
        None,
        Some(report_path),
        None,
        e,
        Some("provide a valid verify report JSON".to_owned()),
    )
}

/// Gives a dataset up whose columns cannot be told: all of it counts as failed.
pub fn give_up_repair(report: &mut RunReport, ds: DatasetReportSummary, e: String)
    ensures
        *final(report) == (RunReport {
            failures: final(report).failures,
            datasets: final(report).datasets,
            ..*old(report)
        }),
        report::failure_views(final(report).failures@) == report::failure_views(
            old(report).failures@,
        ).push(
            report::FailureView {
                dataset: ds.dataset@,
                phase: "repair_select"@,
                rel_path: None,
                source_path: None,
                output_path: None,
                error_message: e@,
                suggested_recovery: Some("refresh schema cache and retry repair"@),
            },
        ),
        final(report).datasets@ == old(report).datasets@.push(
            (DatasetReportSummary { failed: ds.items_scanned, ..ds }),
        ),
{
    broadcast use report::lemma_failure_views_push;

    let f = failure(
        ds.dataset.as_str(),
        "repair_select",
        None,
        None,
        None,
        e,
        Some("refresh schema cache and retry repair".to_owned()),
    );
    report.failures.push(f);
    let mut ds = ds;
    ds.failed = ds.items_scanned;
    report.datasets.push(ds);
}

/// Where the report to repair from is found.
pub enum ReportChoice {
    /// The report that was named.
    Given(String),
    /// The latest report of a verification.
    Verify(String),
    /// The latest report of a conversion.
    Convert(String),
}

pub open spec fn no_report_text(reports_dir: Seq<char>) -> Seq<char> {
    "no verify_convert or convert report found under "@ + reports_dir
        + "; run convert or verify_convert first, or pass --from-verify-report"@
}

/// The report to repair from: the one that was named, or else the latest of a
/// verification, or else of a conversion.
pub fn resolve_verify_report_path(
    given: Option<&str>,
    latest_verify: Option<&str>,
    latest_convert: Option<&str>,
    reports_dir: &str,
) -> (r: Result<ReportChoice, String>)
    ensures
        match r {
            Ok(ReportChoice::Given(p)) => report::opt_text(given) == Some(p@),
            Ok(ReportChoice::Verify(p)) => given is None && report::opt_text(latest_verify) == Some(
                p@,
            ),
            Ok(ReportChoice::Convert(p)) => given is None && latest_verify is None
                && report::opt_text(latest_convert) == Some(p@),
            Err(e) => given is None && latest_verify is None && latest_convert is None && e@
                == no_report_text(reports_dir@),
        },
{
    if let Some(p) = given {
        return Ok(ReportChoice::Given(p.to_owned()));
    }
    if let Some(p) = latest_verify {
        return Ok(ReportChoice::Verify(p.to_owned()));
    }
    if let Some(p) = latest_convert {
        return Ok(ReportChoice::Convert(p.to_owned()));
    }
    let mut m = "no verify_convert or convert report found under ".to_owned();
    m.append(reports_dir);
    m.append("; run convert or verify_convert first, or pass --from-verify-report");
    Err(m)
}

/// The settings that the report of a repair records.
pub fn repair_args(dataset: &str, from: &str, tuning: &Tuning, state_flush_every: usize) -> (r: Vec<
    ReportArg,
>)
    ensures
        convert::arg_views(r@) == seq![
            ("dataset"@, dataset@),
            ("from_verify_report"@, from@),
            ("workers"@, text::decimal(tuning.workers as nat)),
            ("memory_mb"@, convert::shown_option(tuning.memory_mb)),
            ("state_flush_every"@, text::decimal(state_flush_every as nat)),
        ],
{
    let mut v: Vec<ReportArg> = Vec::new();
    let workers = decimal_string(tuning.workers as u128);
    let memory = show_option(tuning.memory_mb);
    let flush = decimal_string(state_flush_every as u128);
    v.push(report_arg("dataset", dataset));
    v.push(report_arg("from_verify_report", from));
    v.push(report_arg("workers", workers.as_str()));
    v.push(report_arg("memory_mb", memory.as_str()));
    v.push(report_arg("state_flush_every", flush.as_str()));
    v
}

proof fn lemma_dots_away(k: nat, p: Seq<char>)
    requires
        !text::has_prefix(p, "./"@),
    ensures
        without_prefixes(dotted(k, p), "./"@) == p,
        k == 0 ==> dotted(k, p) == p,
        k > 0 ==> dotted(k, p).len() > 0 && dotted(k, p)[0] == '.',
    decreases k,
{
    reveal_strlit("./");
    if k > 0 {
        lemma_dots_away((k - 1) as nat, p);
        let s = dotted(k, p);
        assert(s.take(2) =~= "./"@);
        assert(s.skip(2) =~= dotted((k - 1) as nat, p));
    }
}

/// `p` with `./` in front of it, so many times.
pub open spec fn dotted(k: nat, p: Seq<char>) -> Seq<char>
    decreases k,
{
    if k == 0 {
        p
    } else {
        seq!['.', '/'] + dotted((k - 1) as nat, p)
    }
}

/// A path of a report that lies in the snapshot or parquet directory of a root is found in
/// that root, with `./` in front of it or without. An absolute path stays what it is, and so
/// does every other.
pub proof fn law_report_paths_lie_in_their_root(root: Seq<char>, k: nat, p: Seq<char>)
    requires
        paths::is_tidy(root),
        text::has_prefix(p, "snapshot/"@) || text::has_prefix(p, "parquet/"@),
    ensures
        resolved_path(dotted(k, p), paths::join_of(root, "snapshot"@)) == paths::join_of(root, p),
{
    reveal_strlit("snapshot");
    reveal_strlit("snapshot/");
    reveal_strlit("parquet/");
    reveal_strlit("./");
    let name = "snapshot"@;
    assert(p[0] == 's' || p[0] == 'p') by {
        if text::has_prefix(p, "snapshot/"@) {
            assert(p.take(9)[0] == 's');
        } else {
            assert(p.take(8)[0] == 'p');
        }
    }
    if text::has_prefix(p, "./"@) {
        assert(p.take(2)[0] == '.');
    }
    lemma_dots_away(k, p);
    assert(name.len() == 8);
    assert(paths::is_component(name)) by {
        assert forall|i: int| 0 <= i < name.len() implies name[i] != '/' by {}
    }
    paths::law_parent_and_file_name_of_a_joined_path(root, name);
}

/// Absolute paths, and relative ones that lie neither in the snapshot nor in the parquet
/// directory, are taken as they stand.
pub proof fn law_other_report_paths_stay(p: Seq<char>, snapshot_dir: Seq<char>)
    requires
        paths::is_rooted(p) || p.len() > 0 && p[0] != '.' && p[0] != 's' && p[0] != 'p',
    ensures
        resolved_path(p, snapshot_dir) == p,
{
    reveal_strlit("snapshot");
    reveal_strlit("snapshot/");
    reveal_strlit("parquet");
    reveal_strlit("parquet/");
    reveal_strlit("./");
    if !paths::is_rooted(p) {
        if text::has_prefix(p, "./"@) {
            assert(p.take(2)[0] == '.');
        }
        if text::has_prefix(p, "snapshot/"@) {
            assert(p.take(9)[0] == 's');
        }
        if text::has_prefix(p, "parquet/"@) {
            assert(p.take(8)[0] == 'p');
        }
    }
}

/// A failure that was recorded with the paths of a pair is repaired at exactly these paths,
/// be they absolute or relative to the root of the run.
pub proof fn law_pair_is_repaired_where_it_stands(
    f: report::FailureView,
    pair: plan::PairView,
    root: Seq<char>,
    snapshot_dir: Seq<char>,
    parquet_dir: Seq<char>,
    k: nat,
    source: Seq<char>,
    output: Seq<char>,
)
    requires
        f.source_path == Some(pair.input_gz),
        f.output_path == Some(pair.output_parquet),
        f.rel_path == Some(pair.rel),
    ensures
        paths::is_rooted(pair.input_gz) && paths::is_rooted(pair.output_parquet) ==> target_of(
            f,
            snapshot_dir,
            parquet_dir,
        ) == Some(
            TargetView {
                dataset: f.dataset,
                source_path: pair.input_gz,
                output_path: pair.output_parquet,
                rel: pair.rel,
            },
        ),
        paths::is_tidy(root) && snapshot_dir == paths::join_of(root, "snapshot"@)
            && text::has_prefix(source, "snapshot/"@) && text::has_prefix(output, "parquet/"@)
            && pair.input_gz == dotted(k, source) && pair.output_parquet == dotted(k, output)
            ==> target_of(f, snapshot_dir, parquet_dir) == Some(
            TargetView {
                dataset: f.dataset,
                source_path: paths::join_of(root, source),
                output_path: paths::join_of(root, output),
                rel: pair.rel,
            },
        ),
{
    if paths::is_rooted(pair.input_gz) && paths::is_rooted(pair.output_parquet) {
        law_other_report_paths_stay(pair.input_gz, snapshot_dir);
        law_other_report_paths_stay(pair.output_parquet, snapshot_dir);
    }
    if paths::is_tidy(root) && text::has_prefix(source, "snapshot/"@) && text::has_prefix(
        output,
        "parquet/"@,
    ) {
        law_report_paths_lie_in_their_root(root, k, source);
        law_report_paths_lie_in_their_root(root, k, output);
    }
}

/// A failure without paths of its own is repaired where its source stands below the dataset:
/// the source in the snapshot, the parquet file under the same name below the dataset.
pub proof fn law_relative_failure_is_found(
    f: report::FailureView,
    snapshot_dir: Seq<char>,
    parquet_dir: Seq<char>,
    dir: Seq<char>,
    stem: Seq<char>,
)
    requires
        paths::is_component(stem),
        paths::is_tidy(dir),
        f.source_path is None,
        f.output_path is None,
        f.rel_path == Some(paths::join_of(dir, stem + seq!['.'] + "gz"@)),
    ensures
        target_of(f, snapshot_dir, parquet_dir) == Some(
            TargetView {
                dataset: f.dataset,
                source_path: paths::join_of(
                    paths::join_of(paths::join_of(snapshot_dir, "data"@), f.dataset),
                    paths::join_of(dir, stem + seq!['.'] + "gz"@),
                ),
                output_path: paths::join_of(
                    paths::join_of(parquet_dir, f.dataset),
                    paths::join_of(dir, stem + seq!['.'] + "parquet"@),
                ),
                rel: paths::join_of(dir, stem + seq!['.'] + "gz"@),
            },
        ),
{
    reveal_strlit("gz");
    assert(forall|i: int| 0 <= i < "gz"@.len() ==> "gz"@[i] != '/' && "gz"@[i] != '.');
    paths::law_stem_and_extension(dir, stem, "gz"@, "parquet"@);
}

/// Only files whose rows were found to differ are repaired, in the datasets that are asked
/// for; a failure of another phase or dataset asks for nothing.
pub proof fn law_only_differing_files_are_repaired(f: report::FailureView, allowed: Seq<Seq<char>>)
    ensures
        is_eligible(f, allowed) <==> f.phase == "verify_metrics"@ && exists|i: int|
            0 <= i < allowed.len() && #[trigger] allowed[i] == f.dataset,
{
}

/// A failure tells what to repair exactly if it names its source below the dataset, or both
/// its paths; one that does not is recorded again with its paths, as one that could not be
/// selected.
pub proof fn law_actionable_failures(f: report::FailureView)
    ensures
        is_actionable(f) <==> (f.rel_path matches Some(r) && r.len() > 0) || ((
        f.source_path matches Some(s) && s.len() > 0) && (f.output_path matches Some(o) && o.len()
            > 0)),
        unactionable_failure(f).dataset == f.dataset,
        unactionable_failure(f).rel_path == f.rel_path,
        unactionable_failure(f).source_path == f.source_path,
        unactionable_failure(f).output_path == f.output_path,
        unactionable_failure(f).phase == "repair_select"@,
{
}

/// Of the failures that can be repaired, each that does not tell what to repair is recorded,
/// and no other.
pub proof fn law_unactionable_failures(
    f: Seq<report::FailureView>,
    x: report::FailureView,
    allowed: Seq<Seq<char>>,
)
    ensures
        unactionable(Seq::empty(), allowed).len() == 0,
        unactionable(f.push(x), allowed) == (if x.phase == "verify_metrics"@ && allowed.contains(
            x.dataset,
        ) && !is_actionable(x) {
            unactionable(f, allowed).push(unactionable_failure(x))
        } else {
            unactionable(f, allowed)
        }),
{
    assert(f.push(x).drop_last() =~= f);
}
/// What a verification finds of a pair can be repaired: the failure that it records is
/// one that a repair takes up, wherever the pair's dataset is one of those asked for.
pub proof fn law_found_differences_can_be_repaired(
    dataset: Seq<char>,
    p: plan::PairView,
    e: Seq<char>,
    recovery: Seq<char>,
    allowed: Seq<Seq<char>>,
)
    requires
        p.rel.len() > 0,
    ensures
        is_eligible(crate::verify::metrics_failure(dataset, p, e, recovery), allowed)
            <==> allowed.contains(dataset),
        is_actionable(crate::verify::metrics_failure(dataset, p, e, recovery)),
{
    law_only_differing_files_are_repaired(
        crate::verify::metrics_failure(dataset, p, e, recovery),
        allowed,
    );
    law_actionable_failures(crate::verify::metrics_failure(dataset, p, e, recovery));
}

/// A step of a repair that fails is recorded under its own name, with the pair, what went
/// wrong and what can be done.
pub proof fn law_failed_repairs(dataset: Seq<char>, p: plan::PairView, step: RepairStep, e: Seq<char>)
    ensures
        ({
            let f = repair_failure(dataset, p, step, e);
            &&& f.dataset == dataset && f.error_message == e
            &&& f.rel_path == Some(p.rel) && f.source_path == Some(p.input_gz) && f.output_path
                == Some(p.output_parquet)
            &&& step is Delete ==> f.phase == "repair_delete"@ && f.suggested_recovery == Some(
                "fix file permissions or remove file manually"@,
            )
            &&& step is Convert ==> f.phase == "repair_convert"@ && f.suggested_recovery == Some(
                "retry with --profile safe (single-worker, max memory)"@,
            )
            &&& step is Verify ==> f.phase == "repair_verify"@ && f.suggested_recovery == Some(
                "run verify for this file and inspect mismatch"@,
            )
        }),
{
}

/// The targets of a dataset are those of its name, in their order.
pub proof fn law_targets_of_a_dataset(t: Seq<RepairTarget>, x: RepairTarget, name: Seq<char>)
    ensures
        targets_in(Seq::empty(), name).len() == 0,
        x.dataset@ == name ==> targets_in(t.push(x), name) == targets_in(t, name).push(x),
        x.dataset@ != name ==> targets_in(t.push(x), name) == targets_in(t, name),
{
    reveal(Seq::filter);
    assert(t.push(x).drop_last() =~= t);
}
} // verus!
