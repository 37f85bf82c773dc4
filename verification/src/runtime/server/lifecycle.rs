//! Preparing and cleaning up the runtimes of plugins.
use vstd::prelude::*;

use crate::runtime::model::PluginRuntime;
use crate::steps;
use crate::steps::Outcome;
use crate::text;

verus! {

// Processes

/// What is known so far while the process of a plugin is being prepared.
#[derive(Debug)]
pub struct ProcessPreparation {
    pub health: Outcome<()>,
    /// That the process runs, and whether it was created.
    pub started: Outcome<bool>,
    /// That the pages of the process were loaded and are valid.
    pub pages: Outcome<()>,
    /// Whether it was tried to stop a process that was created in vain.
    pub stopped: bool,
}

/// What is to be done next while the process of a plugin is being prepared.
#[derive(Debug)]
pub enum ProcessStep {
    CheckHealth,
    Start,
    LoadPages,
    Stop,
    Ready,
    Fail(String),
}

impl ProcessPreparation {
    pub fn start() -> (preparation: ProcessPreparation)
        ensures
            preparation.health is None,
            preparation.started is None,
            preparation.pages is None,
            !preparation.stopped,
    {
        ProcessPreparation { health: None, started: None, pages: None, stopped: false }
    }

    /// A process was created in vain and is still there.
    pub open spec fn leftover(&self) -> bool {
        steps::done(self.health) && steps::said(self.started, true) && steps::failure(
            self.pages,
        ) is Some && !self.stopped
    }

    /// What is told where the process could not be prepared.
    pub open spec fn failed(&self) -> Option<Seq<char>> {
        if steps::failure(self.health) is Some {
            steps::failure(self.health)
        } else if steps::done(self.health) && steps::failure(self.started) is Some {
            steps::failure(self.started)
        } else if steps::done(self.health) && steps::done(self.started) && !self.leftover() {
            steps::failure(self.pages)
        } else {
            None
        }
    }

    /// Whether a step is the one to be taken next.
    pub open spec fn asks(&self, step: ProcessStep) -> bool {
        &&& step is CheckHealth <==> self.health is None
        &&& step is Start <==> steps::done(self.health) && self.started is None
        &&& step is LoadPages <==> steps::done(self.health) && steps::done(self.started)
            && self.pages is None
        &&& step is Stop <==> self.leftover()
        &&& step is Ready <==> steps::done(self.health) && steps::done(self.started)
            && steps::done(self.pages)
        &&& step is Fail <==> self.failed() is Some
        &&& step matches ProcessStep::Fail(told) ==> self.failed() == Some(told@)
    }

    /// What is to be done next.
    pub fn next(&self) -> (step: ProcessStep)
        ensures
            self.asks(step),
    {
        match &self.health {
            None => return ProcessStep::CheckHealth,
            Some(Err(told)) => return ProcessStep::Fail(told.clone()),
            Some(Ok(())) => {},
        }
        let created = match &self.started {
            None => return ProcessStep::Start,
            Some(Err(told)) => return ProcessStep::Fail(told.clone()),
            Some(Ok(created)) => *created,
        };
        match &self.pages {
            None => ProcessStep::LoadPages,
            Some(Ok(())) => ProcessStep::Ready,
            Some(Err(told)) => {
                if created && !self.stopped {
                    ProcessStep::Stop
                } else {
                    ProcessStep::Fail(told.clone())
                }
            },
        }
    }
}

/// Whether a process is stopped after a switch.
pub open spec fn superseded(previous: Option<&str>, current: Option<&str>, stop: bool) -> bool {
    stop == (previous is Some && text::optional_str(current) != text::optional_str(previous))
}

/// The process that must be stopped after a switch: the previous one, unless it still runs as the
/// current one.
pub fn stop_previous_process(previous: Option<&str>, current: Option<&str>) -> (stop: bool)
    ensures
        superseded(previous, current, stop),
{
    match previous {
        Some(previous) => match current {
            Some(current) => !text::same(current, previous),
            None => true,
        },
        None => false,
    }
}

/// Whether a process that a plugin was bound to is brought back.
pub open spec fn brought_back(target: Option<PluginRuntime>, restore: bool) -> bool {
    restore == (target == Some(PluginRuntime::Process))
}

/// Whether a process that a plugin was bound to must be brought back: only a process is.
pub fn restore_process_binding(target: Option<PluginRuntime>) -> (restore: bool)
    ensures
        brought_back(target, restore),
{
    match target {
        Some(runtime) => runtime == PluginRuntime::Process,
        None => false,
    }
}

/// Whether something that was prepared is cleaned up.
pub open spec fn cleaned_up(created: Option<bool>, cleanup: bool) -> bool {
    cleanup == (created == Some(true))
}

/// Whether something that was prepared must be cleaned up: only what was created is.
pub fn cleanup_new(created: Option<bool>) -> (cleanup: bool)
    ensures
        cleaned_up(created, cleanup),
{
    match created {
        Some(created) => created,
        None => false,
    }
}

// Components

/// What is known so far while the component of a plugin is being prepared.
#[derive(Debug)]
pub struct WasmPreparation {
    /// Whether the component must show the pages that were recorded for its revision.
    pub bound: bool,
    /// That the component is instantiated, and whether it was created.
    pub activated: Outcome<bool>,
    /// That the pages are those that the plugin declares.
    pub declared: Outcome<()>,
    /// Whether it was tried to drop a component that was created in vain.
    pub dropped: bool,
    /// That the pages are those that were recorded.
    pub verified: Outcome<()>,
    /// That a component that shows other pages is gone again.
    pub cleaned: Outcome<()>,
}

/// What is to be done next while the component of a plugin is being prepared.
#[derive(Debug)]
pub enum WasmStep {
    Activate,
    CheckDeclared,
    Drop,
    VerifyRecorded,
    Clean,
    Ready,
    Fail(String),
}

impl WasmPreparation {
    pub fn start(bound: bool) -> (preparation: WasmPreparation)
        ensures
            preparation.bound == bound,
            preparation.activated is None,
            preparation.declared is None,
            !preparation.dropped,
            preparation.verified is None,
            preparation.cleaned is None,
    {
        WasmPreparation {
            bound,
            activated: None,
            declared: None,
            dropped: false,
            verified: None,
            cleaned: None,
        }
    }

    /// The component runs and shows what its plugin declares.
    pub open spec fn sound(&self) -> bool {
        steps::done(self.activated) && steps::done(self.declared)
    }

    /// What is told where the component could not be prepared. A failure to clean up takes the
    /// place of what led to it.
    pub open spec fn failed(&self) -> Option<Seq<char>> {
        if steps::failure(self.activated) is Some {
            steps::failure(self.activated)
        } else if steps::done(self.activated) && steps::failure(self.declared) is Some {
            if steps::said(self.activated, true) && !self.dropped {
                None
            } else {
                steps::failure(self.declared)
            }
        } else if self.sound() && self.bound && steps::failure(self.verified) is Some {
            if steps::said(self.activated, false) {
                steps::failure(self.verified)
            } else {
                match self.cleaned {
                    None => None,
                    Some(Err(told)) => Some(told@),
                    Some(Ok(_)) => steps::failure(self.verified),
                }
            }
        } else {
            None
        }
    }

    /// Whether a step is the one to be taken next.
    pub open spec fn asks(&self, step: WasmStep) -> bool {
        &&& step is Activate <==> self.activated is None
        &&& step is CheckDeclared <==> steps::done(self.activated) && self.declared is None
        &&& step is Drop <==> steps::said(self.activated, true) && steps::failure(
            self.declared,
        ) is Some && !self.dropped
        &&& step is VerifyRecorded <==> self.sound() && self.bound && self.verified is None
        &&& step is Clean <==> self.sound() && self.bound && steps::failure(self.verified) is Some
            && steps::said(self.activated, true) && self.cleaned is None
        &&& step is Ready <==> self.sound() && (self.bound ==> steps::done(self.verified))
        &&& step is Fail <==> self.failed() is Some
        &&& step matches WasmStep::Fail(told) ==> self.failed() == Some(told@)
    }

    /// What is to be done next.
    pub fn next(&self) -> (step: WasmStep)
        ensures
            self.asks(step),
    {
        let created = match &self.activated {
            None => return WasmStep::Activate,
            Some(Err(told)) => return WasmStep::Fail(told.clone()),
            Some(Ok(created)) => *created,
        };
        match &self.declared {
            None => return WasmStep::CheckDeclared,
            Some(Err(told)) => {
                if created && !self.dropped {
                    return WasmStep::Drop;
                }
                return WasmStep::Fail(told.clone());
            },
            Some(Ok(())) => {},
        }
        if !self.bound {
            return WasmStep::Ready;
        }
        match &self.verified {
            None => WasmStep::VerifyRecorded,
            Some(Ok(())) => WasmStep::Ready,
            Some(Err(told)) => {
                if !created {
                    return WasmStep::Fail(told.clone());
                }
                match &self.cleaned {
                    None => WasmStep::Clean,
                    Some(Err(cleanup)) => WasmStep::Fail(cleanup.clone()),
                    Some(Ok(())) => WasmStep::Fail(told.clone()),
                }
            },
        }
    }
}

/// Whether the previous component must be deactivated: there was one, and it is not the current
/// version.
pub fn deactivate_previous_wasm(previous: Option<&str>, current: Option<&str>) -> (deactivate: bool)
    ensures
        deactivate == (previous is Some && text::optional_str(current) != text::optional_str(
            previous,
        )),
{
    stop_previous_process(previous, current)
}

/// Whether what a plugin is bound to is a component that must be deactivated with it.
pub fn deactivate_bound_wasm(runtime: PluginRuntime) -> (deactivate: bool)
    ensures
        deactivate == (runtime is WasmComponent),
{
    runtime == PluginRuntime::WasmComponent
}

/// A component that was created and could not be kept is dropped before the failure is told.
pub proof fn lemma_created_component_does_not_linger(preparation: WasmPreparation)
    requires
        preparation.failed() is Some,
        steps::said(preparation.activated, true),
    ensures
        preparation.dropped || preparation.cleaned is Some,
{
}

/// A process that was created and could not be kept is stopped before the failure is told.
pub proof fn lemma_created_process_does_not_linger(preparation: ProcessPreparation)
    requires
        preparation.failed() is Some,
        steps::done(preparation.health),
        steps::said(preparation.started, true),
    ensures
        preparation.stopped,
{
}

/// A process is prepared in order: the supervisor must be healthy, then the process is started,
/// then its pages are read. Where the pages are bad, a process that was created for it is stopped
/// first, one that ran already is left alone, and the failure is told as it is.
pub proof fn lemma_process_is_prepared_in_order(progress: ProcessPreparation, step: ProcessStep)
    requires
        progress.asks(step),
    ensures
        progress.health is None ==> step is CheckHealth,
        (progress.health is Some && progress.health->0 is Err)
            ==> step is Fail && step->Fail_0@ == progress.health->0->Err_0@,
        (progress.health is Some && progress.health->0 is Ok) && progress.started is None
            ==> step is Start,
        (progress.health is Some && progress.health->0 is Ok) && (progress.started is Some
            && progress.started->0 is Err)
            ==> step is Fail && step->Fail_0@ == progress.started->0->Err_0@,
        (progress.health is Some && progress.health->0 is Ok) && (progress.started is Some
            && progress.started->0 is Ok) && progress.pages is None ==> step is LoadPages,
        (progress.health is Some && progress.health->0 is Ok) && (progress.started is Some
            && progress.started->0 is Ok) && (progress.pages is Some
            && progress.pages->0 is Ok) ==> step is Ready,
        (progress.health is Some && progress.health->0 is Ok)
            && progress.started == Some(Ok::<bool, String>(true)) && (progress.pages is Some
            && progress.pages->0 is Err) && !progress.stopped ==> step is Stop,
        (progress.health is Some && progress.health->0 is Ok)
            && progress.started == Some(Ok::<bool, String>(true)) && (progress.pages is Some
            && progress.pages->0 is Err) && progress.stopped
            ==> step is Fail && step->Fail_0@ == progress.pages->0->Err_0@,
        (progress.health is Some && progress.health->0 is Ok)
            && progress.started == Some(Ok::<bool, String>(false)) && (progress.pages is Some
            && progress.pages->0 is Err) ==> step is Fail
            && step->Fail_0@ == progress.pages->0->Err_0@,
        step is Ready ==> (progress.health is Some && progress.health->0 is Ok)
            && (progress.started is Some && progress.started->0 is Ok)
            && (progress.pages is Some && progress.pages->0 is Ok),
{
}

/// A component is prepared in order: it is instantiated, must show what its plugin declares and,
/// where it is bound, what was recorded. What was created in vain is gone before the failure is
/// told; what was there already is left alone; a cleanup that fails is told instead.
pub proof fn lemma_component_is_prepared_in_order(progress: WasmPreparation, step: WasmStep)
    requires
        progress.asks(step),
    ensures
        progress.activated is None ==> step is Activate,
        (progress.activated is Some && progress.activated->0 is Err)
            ==> step is Fail && step->Fail_0@ == progress.activated->0->Err_0@,
        (progress.activated is Some && progress.activated->0 is Ok)
            && progress.declared is None ==> step is CheckDeclared,
        progress.activated == Some(Ok::<bool, String>(true)) && (progress.declared is Some
            && progress.declared->0 is Err) && !progress.dropped ==> step is Drop,
        progress.activated == Some(Ok::<bool, String>(true)) && (progress.declared is Some
            && progress.declared->0 is Err) && progress.dropped
            ==> step is Fail && step->Fail_0@ == progress.declared->0->Err_0@,
        progress.activated == Some(Ok::<bool, String>(false)) && (progress.declared is Some
            && progress.declared->0 is Err)
            ==> step is Fail && step->Fail_0@ == progress.declared->0->Err_0@,
        (progress.activated is Some && progress.activated->0 is Ok)
            && (progress.declared is Some && progress.declared->0 is Ok) && !progress.bound
            ==> step is Ready,
        (progress.activated is Some && progress.activated->0 is Ok)
            && (progress.declared is Some && progress.declared->0 is Ok) && progress.bound
            && progress.verified is None ==> step is VerifyRecorded,
        (progress.activated is Some && progress.activated->0 is Ok)
            && (progress.declared is Some && progress.declared->0 is Ok) && progress.bound
            && (progress.verified is Some && progress.verified->0 is Ok) ==> step is Ready,
        progress.activated == Some(Ok::<bool, String>(false)) && (progress.declared is Some
            && progress.declared->0 is Ok) && progress.bound && (progress.verified is Some
            && progress.verified->0 is Err)
            ==> step is Fail && step->Fail_0@ == progress.verified->0->Err_0@,
        progress.activated == Some(Ok::<bool, String>(true)) && (progress.declared is Some
            && progress.declared->0 is Ok) && progress.bound && (progress.verified is Some
            && progress.verified->0 is Err) && progress.cleaned is None ==> step is Clean,
        progress.activated == Some(Ok::<bool, String>(true)) && (progress.declared is Some
            && progress.declared->0 is Ok) && progress.bound && (progress.verified is Some
            && progress.verified->0 is Err) && (progress.cleaned is Some
            && progress.cleaned->0 is Ok)
            ==> step is Fail && step->Fail_0@ == progress.verified->0->Err_0@,
        progress.activated == Some(Ok::<bool, String>(true)) && (progress.declared is Some
            && progress.declared->0 is Ok) && progress.bound && (progress.verified is Some
            && progress.verified->0 is Err) && (progress.cleaned is Some
            && progress.cleaned->0 is Err)
            ==> step is Fail && step->Fail_0@ == progress.cleaned->0->Err_0@,
{
}

/// A process that ran before is stopped unless it is the one that runs now; where none ran, none is
/// stopped.
pub proof fn lemma_which_process_is_stopped(previous: Option<&str>, current: Option<&str>,
    stop: bool)
    requires
        superseded(previous, current, stop),
    ensures
        previous is None ==> !stop,
        previous is Some && current is None ==> stop,
        previous is Some && current is Some ==> (stop <==> current->0@ != previous->0@),
{
}

/// A plugin that ran as a process is brought back, and no other.
pub proof fn lemma_which_bindings_are_brought_back(target: Option<PluginRuntime>, restore: bool)
    requires
        brought_back(target, restore),
    ensures
        restore <==> target is Some && target->0 is Process,
{
}

/// What was created is cleaned up; what was found, or never came to be, is left alone.
pub proof fn lemma_what_is_cleaned_up(created: Option<bool>, cleanup: bool)
    requires
        cleaned_up(created, cleanup),
    ensures
        created == Some(true) ==> cleanup,
        created == Some(false) ==> !cleanup,
        created is None ==> !cleanup,
{
}

} // verus!
