//! The pipeline that runs all stages: which step comes next, and when it stops.

use vstd::prelude::*;
use vstd::string::*;
use crate::report::{FailureEntry, RunReport};
use crate::report;
use crate::text::push_decimal;
use crate::text;

verus! {

/// The `all` section of a configuration.
#[derive(Clone, Copy, Debug, PartialEq, Eq, Structural)]
pub struct AllConfig {
    pub retry: Option<usize>,
    pub enable_download: Option<bool>,
    pub enable_verify_download: Option<bool>,
    pub enable_convert: Option<bool>,
    pub enable_verify_convert: Option<bool>,
    pub enable_repair_convert: Option<bool>,
    pub enable_index: Option<bool>,
    pub enable_verify_index: Option<bool>,
    pub skip_disk_check: Option<bool>,
}

/// What a pipeline run does.
#[derive(Clone, Copy, Debug, PartialEq, Eq, Structural)]
pub struct AllResolved {
    /// How often a failed verification is followed by a repair.
    pub retry: usize,
    pub enable_download: bool,
    pub enable_verify_download: bool,
    pub enable_convert: bool,
    pub enable_verify_convert: bool,
    pub enable_repair_convert: bool,
    pub enable_index: bool,
    pub enable_verify_index: bool,
    pub skip_disk_check: bool,
}

/// What the configuration says, or that the stage is on where it is silent.
pub open spec fn unless_off(o: Option<bool>) -> bool {
    match o {
        Some(b) => b,
        None => true,
    }
}

fn unless_off_exec(o: Option<bool>) -> (r: bool)
    ensures
        r == unless_off(o),
{
    match o {
        Some(b) => b,
        None => true,
    }
}

/// The settings of a pipeline run. A retry count given on the command line
/// stands over that of the configuration, and that over the built-in one; the
/// disk check is skipped where either says so.
pub fn resolve_all_settings(
    cli_retry: usize,
    retry_is_explicit: bool,
    cli_skip_disk_check: bool,
    config: &Option<AllConfig>,
) -> (r: AllResolved)
    ensures
        r.retry == (match *config {
            Some(c) => match c.retry {
                Some(n) => if retry_is_explicit { cli_retry } else { n },
                None => cli_retry,
            },
            None => cli_retry,
        }),
        r.skip_disk_check == (cli_skip_disk_check || (*config matches Some(c)
            && c.skip_disk_check == Some(true))),
        ({
            let c = match *config {
                Some(c) => c,
                None => AllConfig {
                    retry: None,
                    enable_download: None,
                    enable_verify_download: None,
                    enable_convert: None,
                    enable_verify_convert: None,
                    enable_repair_convert: None,
                    enable_index: None,
                    enable_verify_index: None,
                    skip_disk_check: None,
                },
            };
            &&& r.enable_download == unless_off(c.enable_download)
            &&& r.enable_verify_download == unless_off(c.enable_verify_download)
            &&& r.enable_convert == unless_off(c.enable_convert)
            &&& r.enable_verify_convert == unless_off(c.enable_verify_convert)
            &&& r.enable_repair_convert == unless_off(c.enable_repair_convert)
            &&& r.enable_index == unless_off(c.enable_index)
            &&& r.enable_verify_index == unless_off(c.enable_verify_index)
        }),
{
    match config {
        Some(c) => AllResolved {
            retry: match c.retry {
                Some(n) => if retry_is_explicit {
                    cli_retry
                } else {
                    n
                },
                None => cli_retry,
            },
            enable_download: unless_off_exec(c.enable_download),
            enable_verify_download: unless_off_exec(c.enable_verify_download),
            enable_convert: unless_off_exec(c.enable_convert),
            enable_verify_convert: unless_off_exec(c.enable_verify_convert),
            enable_repair_convert: unless_off_exec(c.enable_repair_convert),
            enable_index: unless_off_exec(c.enable_index),
            enable_verify_index: unless_off_exec(c.enable_verify_index),
            skip_disk_check: cli_skip_disk_check || match c.skip_disk_check {
                Some(b) => b,
                None => false,
            },
        },
        None => AllResolved {
            retry: cli_retry,
            enable_download: true,
            enable_verify_download: true,
            enable_convert: true,
            enable_verify_convert: true,
            enable_repair_convert: true,
            enable_index: true,
            enable_verify_index: true,
            skip_disk_check: cli_skip_disk_check,
        },
    }
}

/// A step that the pipeline can run.
#[derive(Clone, Copy, Debug, PartialEq, Eq, Structural)]
pub enum Step {
    Download,
    VerifyDownload,
    Convert,
    VerifyConvert,
    RepairConvert,
    Index,
    VerifyIndex,
}

/// The name of a step in reports.
pub open spec fn name_of(step: Step) -> Seq<char> {
    match step {
        Step::Download => "download"@,
        Step::VerifyDownload => "verify_download"@,
        Step::Convert => "convert"@,
        Step::VerifyConvert => "verify_convert"@,
        Step::RepairConvert => "repair_convert"@,
        Step::Index => "index"@,
        Step::VerifyIndex => "verify_index"@,
    }
}

impl Step {
    /// The name of the step in reports.
    pub fn name(self) -> (r: String)
        ensures
            r@ == name_of(self),
    {
        match self {
            Step::Download => "download".to_owned(),
            Step::VerifyDownload => "verify_download".to_owned(),
            Step::Convert => "convert".to_owned(),
            Step::VerifyConvert => "verify_convert".to_owned(),
            Step::RepairConvert => "repair_convert".to_owned(),
            Step::Index => "index".to_owned(),
            Step::VerifyIndex => "verify_index".to_owned(),
        }
    }
}

/// Where the pipeline stands.
#[derive(Clone, Copy, Debug, PartialEq, Eq, Structural)]
pub enum Stage {
    /// This step is to be run next.
    Run(Step),
    /// The pipeline stopped because of a failure up to this step.
    Aborted(Step),
    /// Verification did not pass, and no repair is left.
    LoopExhausted,
    /// All enabled steps have run.
    Complete,
}

/// A pipeline run.
#[derive(Clone, Copy, Debug, PartialEq, Eq, Structural)]
pub struct Pipeline {
    pub settings: AllResolved,
    pub stage: Stage,
    /// How many repairs have been started.
    pub attempts: usize,
    /// Whether a failure stands: a step has failed, and no verification of the
    /// conversion has passed since.
    pub step_failed: bool,
}

/// The position of a step in the order of stages; a repair belongs to the
/// verification it follows.
pub open spec fn position(step: Step) -> int {
    match step {
        Step::Download => 0,
        Step::VerifyDownload => 1,
        Step::Convert => 2,
        Step::VerifyConvert => 3,
        Step::RepairConvert => 3,
        Step::Index => 4,
        Step::VerifyIndex => 5,
    }
}

pub open spec fn enabled(s: AllResolved, step: Step) -> bool {
    match step {
        Step::Download => s.enable_download,
        Step::VerifyDownload => s.enable_verify_download,
        Step::Convert => s.enable_convert,
        Step::VerifyConvert => s.enable_verify_convert,
        Step::RepairConvert => s.enable_repair_convert,
        Step::Index => s.enable_index,
        Step::VerifyIndex => s.enable_verify_index,
    }
}

/// The first enabled stage at position `p` or later.
pub open spec fn stage_from(s: AllResolved, p: int) -> Stage {
    if p <= 0 && s.enable_download {
        Stage::Run(Step::Download)
    } else if p <= 1 && s.enable_verify_download {
        Stage::Run(Step::VerifyDownload)
    } else if p <= 2 && s.enable_convert {
        Stage::Run(Step::Convert)
    } else if p <= 3 && s.enable_verify_convert {
        Stage::Run(Step::VerifyConvert)
    } else if p <= 4 && s.enable_index {
        Stage::Run(Step::Index)
    } else if p <= 5 && s.enable_verify_index {
        Stage::Run(Step::VerifyIndex)
    } else {
        Stage::Complete
    }
}

fn stage_from_exec(s: &AllResolved, p: u8) -> (r: Stage)
    ensures
        r == stage_from(*s, p as int),
{
    if p == 0 && s.enable_download {
        Stage::Run(Step::Download)
    } else if p <= 1 && s.enable_verify_download {
        Stage::Run(Step::VerifyDownload)
    } else if p <= 2 && s.enable_convert {
        Stage::Run(Step::Convert)
    } else if p <= 3 && s.enable_verify_convert {
        Stage::Run(Step::VerifyConvert)
    } else if p <= 4 && s.enable_index {
        Stage::Run(Step::Index)
    } else if p <= 5 && s.enable_verify_index {
        Stage::Run(Step::VerifyIndex)
    } else {
        Stage::Complete
    }
}

/// Where a pipeline run begins.
pub open spec fn initial(s: AllResolved) -> Pipeline {
    Pipeline { settings: s, stage: stage_from(s, 0), attempts: 0, step_failed: false }
}

/// Where a run goes after `step`, which is its next, has come out as `ok`. A
/// verification of the conversion that passes settles the failures that the
/// repairs before it were for.
pub open spec fn after_step(p: Pipeline, step: Step, ok: bool) -> Pipeline {
    let s = p.settings;
    let failed = p.step_failed || !ok;
    let moved = Pipeline { step_failed: failed, ..p };
    match step {
        Step::Download | Step::VerifyDownload | Step::Convert | Step::Index => if failed {
            Pipeline { stage: Stage::Aborted(step), ..moved }
        } else {
            Pipeline { stage: stage_from(s, position(step) + 1), ..moved }
        },
        Step::VerifyConvert => if ok {
            Pipeline { stage: stage_from(s, 4), step_failed: false, ..p }
        } else if !s.enable_repair_convert || p.attempts >= s.retry {
            Pipeline { stage: Stage::LoopExhausted, ..moved }
        } else {
            Pipeline {
                stage: Stage::Run(Step::RepairConvert),
                attempts: (p.attempts + 1) as usize,
                ..moved
            }
        },
        Step::RepairConvert => Pipeline { stage: Stage::Run(Step::VerifyConvert), ..moved },
        Step::VerifyIndex => Pipeline { stage: Stage::Complete, ..moved },
    }
}

/// What can be said of every state that a run reaches: a step to be run is
/// enabled, a repair only follows an enabled verification, no more repairs
/// are started than allowed, and a run that goes on with a failure is in the
/// loop of verification and repair.
pub open spec fn reachable(p: Pipeline) -> bool {
    &&& p.attempts <= p.settings.retry
    &&& match p.stage {
        Stage::Run(step) => {
            &&& enabled(p.settings, step)
            &&& step is RepairConvert ==> p.settings.enable_verify_convert
            &&& p.step_failed ==> step is VerifyConvert || step is RepairConvert
        },
        _ => true,
    }
}

/// How many steps a run can still take, at most.
pub open spec fn steps_left(p: Pipeline) -> int {
    let repairs = p.settings.retry - p.attempts;
    match p.stage {
        Stage::Run(step) => match step {
            Step::Download => 6 + 2 * repairs,
            Step::VerifyDownload => 5 + 2 * repairs,
            Step::Convert => 4 + 2 * repairs,
            Step::VerifyConvert => 3 + 2 * repairs,
            Step::RepairConvert => 4 + 2 * repairs,
            Step::Index => 2,
            Step::VerifyIndex => 1,
        },
        _ => 0,
    }
}

impl Pipeline {
    /// A new pipeline run.
    pub fn start(settings: AllResolved) -> (r: Self)
        ensures
            r == initial(settings),
    {
        let stage = stage_from_exec(&settings, 0);
        Pipeline { settings, stage, attempts: 0, step_failed: false }
    }

    /// Takes in how the step that was to be run came out.
    pub fn advance(&mut self, ok: bool)
        requires
            old(self).stage is Run,
        ensures
            *final(self) == after_step(*old(self), old(self).stage->Run_0, ok),
    {
        let step = match self.stage {
            Stage::Run(step) => step,
            _ => {
                proof {
                    assert(false);
                }
                return;
            },
        };
        if !ok {
            self.step_failed = true;
        }
        match step {
            Step::Download | Step::VerifyDownload | Step::Convert | Step::Index => {
                if self.step_failed {
                    self.stage = Stage::Aborted(step);
                } else {
                    let next: u8 = match step {
                        Step::Download => 1,
                        Step::VerifyDownload => 2,
                        Step::Convert => 3,
                        _ => 5,
                    };
                    self.stage = stage_from_exec(&self.settings, next);
                }
            },
            Step::VerifyConvert => {
                if ok {
                    self.step_failed = false;
                    self.stage = stage_from_exec(&self.settings, 4);
                } else if !self.settings.enable_repair_convert || self.attempts
                    >= self.settings.retry {
                    self.stage = Stage::LoopExhausted;
                } else {
                    self.attempts = self.attempts + 1;
                    self.stage = Stage::Run(Step::RepairConvert);
                }
            },
            Step::RepairConvert => {
                self.stage = Stage::Run(Step::VerifyConvert);
            },
            Step::VerifyIndex => {
                self.stage = Stage::Complete;
            },
        }
    }

    /// The message that goes with a step in the report: which attempt a
    /// verification or a repair is.
    pub fn step_message(&self, step: Step) -> (r: Option<String>)
        ensures
            report::opt(r) == (match step {
                Step::VerifyConvert => Some("attempt="@ + text::decimal((self.attempts + 1) as nat)),
                Step::RepairConvert => Some("attempt="@ + text::decimal(self.attempts as nat)),
                _ => None,
            }),
    {
        match step {
            Step::VerifyConvert => {
                let mut m = "attempt=".to_owned();
                push_decimal(&mut m, self.attempts as u128 + 1);
                Some(m)
            },
            Step::RepairConvert => {
                let mut m = "attempt=".to_owned();
                push_decimal(&mut m, self.attempts as u128);
                Some(m)
            },
            _ => None,
        }
    }

    /// What the run ends with, once no step is left: nothing where all went
    /// well, else the error.
    pub fn outcome(&self) -> (r: Result<(), String>)
        requires
            !(self.stage is Run),
        ensures
            match self.stage {
                Stage::Aborted(step) => r matches Err(e) && e@ == "[all] aborting after "@
                    + name_of(step) + " failure"@,
                Stage::LoopExhausted => r matches Err(e) && e@
                    == "[all] verify/repair loop exhausted"@,
                _ => if self.step_failed {
                    r matches Err(e) && e@ == "[all] pipeline failed"@
                } else {
                    r is Ok
                },
            },
    {
        match self.stage {
            Stage::Aborted(step) => {
                let mut m = "[all] aborting after ".to_owned();
                let name = step.name();
                m.append(name.as_str());
                m.append(" failure");
                Err(m)
            },
            Stage::LoopExhausted => Err("[all] verify/repair loop exhausted".to_owned()),
            _ => if self.step_failed {
                Err("[all] pipeline failed".to_owned())
            } else {
                Ok(())
            },
        }
    }

    /// Writes into the report what its end adds: a failure where verification
    /// did not pass, and where all steps have run the one count of the whole.
    pub fn close_report(&self, rep: &mut RunReport)
        requires
            !(self.stage is Run),
            old(rep).datasets@.len() > 0,
        ensures
            *final(rep) == (RunReport {
                failures: final(rep).failures,
                datasets: final(rep).datasets,
                ..*old(rep)
            }),
            match self.stage {
                Stage::LoopExhausted => {
                    &&& final(rep).datasets@ == old(rep).datasets@
                    &&& final(rep).failures@.len() == old(rep).failures@.len() + 1
                    &&& final(rep).failures@.drop_last() == old(rep).failures@
                    &&& final(rep).failures@.last()@ == (report::FailureView {
                        dataset: "all"@,
                        phase: "all_verify_repair_loop"@,
                        rel_path: None,
                        source_path: None,
                        output_path: None,
                        error_message: "verify_convert did not pass after "@ + text::decimal(
                            self.settings.retry as nat,
                        ) + " repair attempt(s)"@,
                        suggested_recovery: Some(
                            "rerun repair_convert manually with higher memory profile"@,
                        ),
                    })
                },
                Stage::Complete => {
                    let d = old(rep).datasets@[0];
                    &&& final(rep).failures@ == old(rep).failures@
                    &&& final(rep).datasets@ == old(rep).datasets@.update(
                        0,
                        if self.step_failed {
                            report::DatasetReportSummary { failed: 1, ..d }
                        } else {
                            report::DatasetReportSummary { succeeded: 1, ..d }
                        },
                    )
                },
                _ => final(rep).datasets@ == old(rep).datasets@ && final(rep).failures@ == old(
                    rep,
                ).failures@,
            },
    {
        match self.stage {
            Stage::LoopExhausted => {
                let mut m = "verify_convert did not pass after ".to_owned();
                push_decimal(&mut m, self.settings.retry as u128);
                m.append(" repair attempt(s)");
                rep.failures.push(
                    FailureEntry {
                        dataset: "all".to_owned(),
                        phase: "all_verify_repair_loop".to_owned(),
                        rel_path: None,
                        source_path: None,
                        output_path: None,
                        error_message: m,
                        suggested_recovery: Some(
                            "rerun repair_convert manually with higher memory profile".to_owned(),
                        ),
                    },
                );
                assert(rep.failures@.drop_last() =~= old(rep).failures@);
            },
            Stage::Complete => {
                let mut d = rep.datasets[0].clone();
                if self.step_failed {
                    d.failed = 1;
                } else {
                    d.succeeded = 1;
                }
                rep.datasets.set(0, d);
            },
            _ => {},
        }
    }
}

/// Every run starts in a state of which `reachable` holds, and each step keeps it.
pub proof fn law_pipeline_invariant(s: AllResolved, p: Pipeline, ok: bool)
    requires
        reachable(p),
        p.stage is Run,
    ensures
        reachable(initial(s)),
        reachable(after_step(p, p.stage->Run_0, ok)),
{
}

/// Each step brings a run nearer to its end: with `retry` repairs allowed it
/// takes at most `6 + 2 * retry` steps, whatever comes out of them.
pub proof fn law_pipeline_ends(s: AllResolved, p: Pipeline, ok: bool)
    requires
        reachable(p),
        p.stage is Run,
    ensures
        steps_left(initial(s)) <= 6 + 2 * s.retry,
        0 <= steps_left(after_step(p, p.stage->Run_0, ok)) < steps_left(p),
{
}

/// Stages run in their order: no step runs after one that stands behind it.
pub proof fn law_pipeline_order(p: Pipeline, ok: bool)
    requires
        reachable(p),
        p.stage is Run,
    ensures
        after_step(p, p.stage->Run_0, ok).stage matches Stage::Run(next) ==> position(next)
            >= position(p.stage->Run_0) && (position(next) == position(p.stage->Run_0) ==> next
            is VerifyConvert || next is RepairConvert),
{
}

/// A run in which every step succeeds ends without an error, after every
/// enabled stage.
pub proof fn law_clean_run_completes(p: Pipeline)
    requires
        reachable(p),
        p.stage is Run,
        !p.step_failed,
    ensures
        ({
            let q = after_step(p, p.stage->Run_0, true);
            &&& !q.step_failed
            &&& q.stage is Run || q.stage is Complete
            &&& q.stage is Complete ==> forall|step: Step|
                position(step) > position(p.stage->Run_0) && !(step is RepairConvert)
                    ==> !#[trigger] enabled(p.settings, step)
        }),
{
}

/// A failed download, download verification, conversion or indexing is the last
/// step of a run.
pub proof fn law_failure_stops_the_run(p: Pipeline)
    requires
        reachable(p),
        p.stage matches Stage::Run(step) && (step is Download || step is VerifyDownload || step
            is Convert || step is Index),
    ensures
        after_step(p, p.stage->Run_0, false).stage == Stage::Aborted(p.stage->Run_0),
        after_step(p, p.stage->Run_0, false).step_failed,
{
}

/// Where a run stands once its steps have come out as `outcomes` says, in turn.
/// What follows the end of the run counts for nothing.
pub open spec fn state_after(s: AllResolved, outcomes: Seq<bool>) -> Pipeline
    decreases outcomes.len(),
{
    if outcomes.len() == 0 {
        initial(s)
    } else {
        let p = state_after(s, outcomes.drop_last());
        match p.stage {
            Stage::Run(step) => after_step(p, step, outcomes.last()),
            _ => p,
        }
    }
}

/// The stage in which a run takes the outcome at `i`.
pub open spec fn stage_at(s: AllResolved, outcomes: Seq<bool>, i: int) -> Stage {
    state_after(s, outcomes.take(i)).stage
}

/// The outcome at `i` is that of a verification of the conversion.
pub open spec fn verifies_at(s: AllResolved, outcomes: Seq<bool>, i: int) -> bool {
    stage_at(s, outcomes, i) == Stage::Run(Step::VerifyConvert)
}

/// The verification at `i` is the end of a run that found no repair left.
spec fn exhausted_at(s: AllResolved, outcomes: Seq<bool>, i: int, n: int) -> bool {
    &&& 0 <= i < n
    &&& verifies_at(s, outcomes, i)
    &&& !outcomes[i]
    &&& forall|j: int| i < j <= n ==> #[trigger] stage_at(s, outcomes, j) is LoopExhausted
}

proof fn lemma_only_the_loop_fails(s: AllResolved, outcomes: Seq<bool>, n: int)
    requires
        0 <= n <= outcomes.len(),
        forall|i: int|
            #![trigger stage_at(s, outcomes, i)]
            0 <= i < outcomes.len() && !outcomes[i] ==> match stage_at(s, outcomes, i) {
                Stage::Run(step) => step is VerifyConvert || step is RepairConvert,
                _ => true,
            },
    ensures
        ({
            let p = state_after(s, outcomes.take(n));
            &&& reachable(p)
            &&& !(p.stage is Aborted)
            &&& p.stage is Complete ==> !p.step_failed
            &&& p.stage is LoopExhausted ==> exists|i: int| exhausted_at(s, outcomes, i, n)
        }),
    decreases n,
{
    if n > 0 {
        lemma_only_the_loop_fails(s, outcomes, n - 1);
        assert(outcomes.take(n).drop_last() =~= outcomes.take(n - 1));
        let before = state_after(s, outcomes.take(n - 1));
        let after = state_after(s, outcomes.take(n));
        assert(stage_at(s, outcomes, n - 1) == before.stage);
        if after.stage is LoopExhausted {
            if before.stage is LoopExhausted {
                let m = n - 1;
                let i = choose|i: int| exhausted_at(s, outcomes, i, m);
                assert(exhausted_at(s, outcomes, i, n));
            } else {
                assert(exhausted_at(s, outcomes, n - 1, n));
            }
        }
    }
}

/// A run whose last verification of the conversion passes, and whose other steps
/// succeed, comes to its end without an error, however many verifications and
/// repairs failed before. Such a run has been repaired.
pub proof fn law_repaired_run_completes(s: AllResolved, outcomes: Seq<bool>)
    requires
        forall|i: int|
            #![trigger stage_at(s, outcomes, i)]
            0 <= i < outcomes.len() && !outcomes[i] ==> match stage_at(s, outcomes, i) {
                Stage::Run(step) => step is VerifyConvert || step is RepairConvert,
                _ => true,
            },
        forall|i: int|
            0 <= i < outcomes.len() && #[trigger] verifies_at(s, outcomes, i) && !outcomes[i]
                ==> exists|j: int|
                i < j < outcomes.len() && #[trigger] verifies_at(s, outcomes, j) && outcomes[j],
        !(state_after(s, outcomes).stage is Run),
    ensures
        state_after(s, outcomes).stage is Complete,
        !state_after(s, outcomes).step_failed,
{
    let n = outcomes.len() as int;
    lemma_only_the_loop_fails(s, outcomes, n);
    assert(outcomes.take(n) =~= outcomes);
    if state_after(s, outcomes).stage is LoopExhausted {
        let i = choose|i: int| exhausted_at(s, outcomes, i, n);
        let j = choose|j: int|
            i < j < outcomes.len() && #[trigger] verifies_at(s, outcomes, j) && outcomes[j];
        assert(stage_at(s, outcomes, j) is LoopExhausted);
    }
}

/// Each step has its own name, and the steps are run in the order in which their reports
/// are listed; a repair belongs to the verification that it follows.
pub proof fn law_steps(a: Step, b: Step)
    ensures
        name_of(Step::Download) == "download"@,
        name_of(Step::VerifyDownload) == "verify_download"@,
        name_of(Step::Convert) == "convert"@,
        name_of(Step::VerifyConvert) == "verify_convert"@,
        name_of(Step::RepairConvert) == "repair_convert"@,
        name_of(Step::Index) == "index"@,
        name_of(Step::VerifyIndex) == "verify_index"@,
        position(Step::RepairConvert) == position(Step::VerifyConvert),
        !(a is RepairConvert) && !(b is RepairConvert) ==> (position(a) < position(b)
            <==> report::flow_rank(name_of(a)) < report::flow_rank(name_of(b))),
{
    report::law_steps_are_ranked("verify_convert"@, 0, 1);
    report::law_steps_are_ranked("verify_index"@, 1, 2);
    report::law_steps_are_ranked("verify_index"@, 2, 4);
    report::law_steps_are_ranked("verify_index"@, 4, 5);
    report::law_steps_are_ranked("verify_index"@, 5, 7);
    report::law_steps_are_ranked("verify_index"@, 7, 9);
    report::law_names_of_a_step("verify"@);
}

/// Each step is switched on by its own setting, and one that is not set is on.
pub proof fn law_switches(s: AllResolved, b: bool)
    ensures
        enabled(s, Step::Download) == s.enable_download,
        enabled(s, Step::VerifyDownload) == s.enable_verify_download,
        enabled(s, Step::Convert) == s.enable_convert,
        enabled(s, Step::VerifyConvert) == s.enable_verify_convert,
        enabled(s, Step::RepairConvert) == s.enable_repair_convert,
        enabled(s, Step::Index) == s.enable_index,
        enabled(s, Step::VerifyIndex) == s.enable_verify_index,
        unless_off(None),
        unless_off(Some(b)) == b,
{
}

/// From any place on, the next step is the first that is switched on, and the run is
/// complete where none is.
pub proof fn law_next_step_is_the_first_enabled(s: AllResolved, p: int)
    ensures
        stage_from(s, p) is Run || stage_from(s, p) is Complete,
        stage_from(s, p) matches Stage::Run(step) ==> {
            &&& enabled(s, step)
            &&& position(step) >= p
            &&& !(step is RepairConvert)
            &&& forall|other: Step|
                p <= position(other) < position(step) && !(other is RepairConvert)
                    ==> !#[trigger] enabled(s, other)
        },
        stage_from(s, p) is Complete ==> forall|other: Step|
            p <= position(other) && !(other is RepairConvert) ==> !#[trigger] enabled(s, other),
{
}

/// A verification that fails is followed by a repair, and a repair by a verification,
/// exactly as often as it may be tried again; then the run gives up.
pub proof fn law_repairs_are_tried(p: Pipeline, ok: bool)
    ensures
        ({
            let q = after_step(p, Step::VerifyConvert, false);
            &&& p.settings.enable_repair_convert && p.attempts < p.settings.retry ==> q.stage
                == Stage::Run(Step::RepairConvert) && q.attempts == p.attempts + 1 && q.step_failed
            &&& !p.settings.enable_repair_convert || p.attempts >= p.settings.retry ==> q.stage
                is LoopExhausted && q.attempts == p.attempts && q.step_failed
        }),
        after_step(p, Step::RepairConvert, ok).stage == Stage::Run(Step::VerifyConvert),
        after_step(p, Step::RepairConvert, ok).attempts == p.attempts,
        after_step(p, Step::VerifyConvert, true).stage == stage_from(p.settings, 4),
        !after_step(p, Step::VerifyConvert, true).step_failed,
        after_step(p, Step::VerifyIndex, ok).stage is Complete,
        after_step(p, Step::VerifyIndex, ok).step_failed == (p.step_failed || !ok),
        initial(p.settings).attempts == 0,
        !initial(p.settings).step_failed,
        initial(p.settings).stage == stage_from(p.settings, 0),
{
}
} // verus!
