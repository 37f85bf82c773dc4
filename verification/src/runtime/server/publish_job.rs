//! Publishing in the background: which job runs, and what is recorded of its outcome.
use vstd::prelude::*;

use crate::runtime::server::installation::ActivatedPlugin;
use crate::steps;
use crate::steps::Outcome;
use crate::text;

verus! {

/// How far a publication has come.
#[derive(Clone, Copy, Debug, PartialEq, Eq, Structural)]
pub enum PublishState {
    Queued,
    Running,
    Active,
    Failed,
}

/// What is recorded of a finished publication.
#[derive(Debug)]
pub struct PublishReport {
    pub state: PublishState,
    pub lifecycle: String,
    pub detail: String,
    pub page_count: Option<usize>,
}

/// Whether a report tells how a job ended.
pub open spec fn reports(result: Result<ActivatedPlugin, String>, report: PublishReport) -> bool {
    match result {
        Ok(activated) => {
            &&& report.state == PublishState::Active
            &&& report.lifecycle@ == "publish-active"@
            &&& report.detail@ == "版本 "@ + activated.revision@ + " 已在线激活，共 "@
                + text::decimal(activated.page_count as nat) + " 个页面"@
            &&& report.page_count == Some(activated.page_count)
        },
        Err(error) => {
            &&& report.state == PublishState::Failed
            &&& report.lifecycle@ == "publish-failed"@
            &&& report.detail@ == "后台验证或激活失败，已保留上一活动版本: "@ + error@
            &&& report.page_count is None
        },
    }
}

/// What is recorded of a finished publication: how many pages the new version shows, or why the
/// version before it was kept.
pub fn publish_report(result: &Result<ActivatedPlugin, String>) -> (report: PublishReport)
    ensures
        reports(*result, report),
{
    match result {
        Ok(activated) => {
            let count = text::decimal_text(activated.page_count as u64);
            let detail = "版本 ".to_owned().concat(activated.revision.as_str()).concat(
                " 已在线激活，共 ",
            ).concat(count.as_str()).concat(" 个页面");
            PublishReport {
                state: PublishState::Active,
                lifecycle: "publish-active".to_owned(),
                detail,
                page_count: Some(activated.page_count),
            }
        },
        Err(error) => PublishReport {
            state: PublishState::Failed,
            lifecycle: "publish-failed".to_owned(),
            detail: "后台验证或激活失败，已保留上一活动版本: ".to_owned().concat(error.as_str()),
            page_count: None,
        },
    }
}

/// What is known so far of a job.
#[derive(Debug)]
pub struct PublishJobProgress {
    pub state: PublishState,
    /// Whether there was room for the job.
    pub slot: Option<bool>,
    /// Whether this host was the one to take the job.
    pub claimed: Outcome<bool>,
    /// Whether it was tried to note that the job runs.
    pub noted: bool,
    /// How the job ended.
    pub result: Option<Result<ActivatedPlugin, String>>,
    /// Whether it was tried to record the outcome with the job, and with the plugin.
    pub finished: bool,
    pub recorded: bool,
}

/// What is to be done next about a job.
#[derive(Debug)]
pub enum PublishJobStep {
    AcquireSlot,
    Claim,
    Note,
    Run,
    Finish(PublishReport),
    Record(PublishReport),
    End,
}

impl PublishJobProgress {
    pub fn start(state: PublishState) -> (progress: PublishJobProgress)
        ensures
            progress.state == state,
            progress.slot is None,
            progress.claimed is None,
            !progress.noted,
            progress.result is None,
            !progress.finished,
            !progress.recorded,
    {
        PublishJobProgress {
            state,
            slot: None,
            claimed: None,
            noted: false,
            result: None,
            finished: false,
            recorded: false,
        }
    }

    /// The job waits, there is room for it, and this host took it.
    pub open spec fn taken(&self) -> bool {
        self.state is Queued && self.slot == Some(true) && steps::said(self.claimed, true)
    }

    /// Whether a step is the one to be taken next.
    pub open spec fn asks(&self, step: PublishJobStep) -> bool {
        &&& step is AcquireSlot <==> self.state is Queued && self.slot is None
        &&& step is Claim <==> self.state is Queued && self.slot == Some(true)
            && self.claimed is None
        &&& step is Note <==> self.taken() && !self.noted
        &&& step is Run <==> self.taken() && self.noted && self.result is None
        &&& step is Finish <==> self.taken() && self.noted && self.result is Some && !self.finished
        &&& step is Record <==> self.taken() && self.noted && self.result is Some && self.finished
            && !self.recorded
        &&& step is End <==> {
            ||| !(self.state is Queued)
            ||| self.slot == Some(false)
            ||| self.slot == Some(true) && (steps::failure(self.claimed) is Some || steps::said(
                self.claimed,
                false,
            ))
            ||| self.taken() && self.noted && self.result is Some && self.finished
                && self.recorded
        }
        &&& step matches PublishJobStep::Finish(report) ==> reports(self.result->0, report)
        &&& step matches PublishJobStep::Record(report) ==> reports(self.result->0, report)
    }

    /// What is to be done next. A job that does not wait, that finds no room, or that another host
    /// took, ends at once.
    pub fn next(&self) -> (step: PublishJobStep)
        ensures
            self.asks(step),
    {
        if self.state != PublishState::Queued {
            return PublishJobStep::End;
        }
        match self.slot {
            None => return PublishJobStep::AcquireSlot,
            Some(false) => return PublishJobStep::End,
            Some(true) => {},
        }
        match &self.claimed {
            None => return PublishJobStep::Claim,
            Some(Ok(true)) => {},
            Some(_) => return PublishJobStep::End,
        }
        if !self.noted {
            return PublishJobStep::Note;
        }
        match &self.result {
            None => PublishJobStep::Run,
            Some(result) => {
                if !self.finished {
                    PublishJobStep::Finish(publish_report(result))
                } else if !self.recorded {
                    PublishJobStep::Record(publish_report(result))
                } else {
                    PublishJobStep::End
                }
            },
        }
    }
}

/// A job that another host has taken is not run again.
pub proof fn lemma_job_runs_once(progress: PublishJobProgress)
    requires
        steps::said(progress.claimed, false),
    ensures
        !progress.taken(),
{
}

/// A job goes from waiting to its report, once: it needs room and must be taken by this host, it is
/// noted, run, and its outcome is recorded with the job and then with the plugin. A job that does
/// not wait, finds no room or was taken elsewhere does nothing at all.
pub proof fn lemma_job_goes_its_way(progress: PublishJobProgress, step: PublishJobStep)
    requires
        progress.asks(step),
    ensures
        !(progress.state is Queued) ==> step is End,
        progress.state is Queued && progress.slot is None ==> step is AcquireSlot,
        progress.state is Queued && progress.slot == Some(false) ==> step is End,
        progress.state is Queued && progress.slot == Some(true) ==> {
            &&& progress.claimed is None ==> step is Claim
            &&& (progress.claimed is Some && progress.claimed->0 is Err)
                || progress.claimed == Some(Ok::<bool, String>(false)) ==> step is End
            &&& progress.claimed == Some(Ok::<bool, String>(true)) && !progress.noted
                ==> step is Note
            &&& progress.claimed == Some(Ok::<bool, String>(true)) && progress.noted
                && progress.result is None ==> step is Run
            &&& progress.claimed == Some(Ok::<bool, String>(true)) && progress.noted
                && progress.result is Some && !progress.finished
                ==> step is Finish
            &&& progress.claimed == Some(Ok::<bool, String>(true)) && progress.noted
                && progress.result is Some && progress.finished
                && !progress.recorded ==> step is Record
            &&& progress.claimed == Some(Ok::<bool, String>(true)) && progress.noted
                && progress.result is Some && progress.finished
                && progress.recorded ==> step is End
        },
{
}

/// A report tells the outcome: a version that was activated is told as active, with its revision
/// and the number of its pages; a failure is told as failed, with its reason, and that the version
/// before it was kept.
pub proof fn lemma_report_tells_the_outcome(progress: PublishJobProgress, step: PublishJobStep,
    report: PublishReport)
    requires
        progress.asks(step),
        step == PublishJobStep::Finish(report) || step == PublishJobStep::Record(report),
    ensures
        progress.result is Some,
        progress.result->0 is Ok ==> {
            let activated = progress.result->0->Ok_0;
            &&& report.state is Active
            &&& report.lifecycle@ == "publish-active"@
            &&& report.detail@ == "版本 "@ + activated.revision@ + " 已在线激活，共 "@
                + text::decimal(activated.page_count as nat) + " 个页面"@
            &&& report.page_count == Some(activated.page_count)
        },
        progress.result->0 is Err ==> {
            &&& report.state is Failed
            &&& report.lifecycle@ == "publish-failed"@
            &&& report.detail@ == "后台验证或激活失败，已保留上一活动版本: "@
                + progress.result->0->Err_0@
            &&& report.page_count is None
        },
{
}

} // verus!
