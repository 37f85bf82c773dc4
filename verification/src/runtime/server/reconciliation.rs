//! Bringing plugins up again when the host starts.
use vstd::prelude::*;

use crate::runtime::model::PluginRuntime;
use crate::steps;
use crate::steps::Outcome;

verus! {

/// A plugin that should run for a tenant.
#[derive(Debug)]
pub struct RuntimeTarget {
    pub tenant_id: String,
    pub source_id: String,
    pub revision: String,
}

/// What a plugin's failure is introduced with: the target, by its tenant, source and revision.
pub open spec fn target_label(label: Seq<char>, target: RuntimeTarget) -> Seq<char> {
    label + ": tenant="@ + target.tenant_id@ + " source="@ + target.source_id@ + " revision="@
        + target.revision@
}

fn label_target(label: &str, target: &RuntimeTarget) -> (labelled: String)
    ensures
        labelled@ == target_label(label@, *target),
{
    label.to_owned().concat(": tenant=").concat(target.tenant_id.as_str()).concat(
        " source=",
    ).concat(target.source_id.as_str()).concat(" revision=").concat(target.revision.as_str())
}

// Processes

/// What is known so far while a process is being brought up again.
#[derive(Debug)]
pub struct ProcessRecovery {
    /// That the process runs, and whether it was created.
    pub started: Outcome<bool>,
    /// That its pages are those that were recorded.
    pub validated: Outcome<()>,
    /// That a created process was recorded.
    pub recorded: Outcome<()>,
    /// Whether it was tried to stop a process that cannot be kept.
    pub stopped: bool,
}

/// What is to be done next while a process is being brought up again.
#[derive(Debug)]
pub enum RecoveryStep {
    Start,
    Validate,
    Record,
    Stop,
    Ready,
    Fail(String),
}

impl ProcessRecovery {
    pub fn start() -> (recovery: ProcessRecovery)
        ensures
            recovery.started is None,
            recovery.validated is None,
            recovery.recorded is None,
            !recovery.stopped,
    {
        ProcessRecovery { started: None, validated: None, recorded: None, stopped: false }
    }

    /// The process cannot be kept.
    pub open spec fn unusable(&self) -> bool {
        ||| steps::done(self.started) && steps::failure(self.validated) is Some
        ||| steps::said(self.started, true) && steps::done(self.validated) && steps::failure(
            self.recorded,
        ) is Some
    }

    /// What is told where the process could not be brought up again.
    pub open spec fn failed(&self, target: RuntimeTarget) -> Option<Seq<char>> {
        if steps::failure(self.started) is Some {
            Some(
                steps::explained(
                    target_label("恢复 process 插件失败"@, target),
                    steps::failure(self.started)->0,
                ),
            )
        } else if !self.unusable() || !self.stopped {
            None
        } else if steps::failure(self.validated) is Some {
            Some(
                steps::explained("恢复 process 插件页面失败"@, steps::failure(self.validated)->0),
            )
        } else {
            Some(
                steps::explained(
                    "记录恢复的 process 插件实例失败"@,
                    steps::failure(self.recorded)->0,
                ),
            )
        }
    }

    /// Whether a step is the one to be taken next.
    pub open spec fn asks(&self, target: &RuntimeTarget, step: RecoveryStep) -> bool {
        &&& step is Start <==> self.started is None
        &&& step is Validate <==> steps::done(self.started) && self.validated is None
        &&& step is Record <==> steps::said(self.started, true) && steps::done(self.validated)
            && self.recorded is None
        &&& step is Stop <==> self.unusable() && !self.stopped
        &&& step is Ready <==> steps::done(self.started) && steps::done(self.validated) && (
        steps::said(self.started, true) ==> steps::done(self.recorded))
        &&& step is Fail <==> self.failed(*target) is Some
        &&& step matches RecoveryStep::Fail(told) ==> self.failed(*target) == Some(told@)
    }

    /// What is to be done next.
    pub fn next(&self, target: &RuntimeTarget) -> (step: RecoveryStep)
        ensures
            self.asks(target, step),
    {
        let created = match &self.started {
            None => return RecoveryStep::Start,
            Some(Err(told)) => {
                let label = label_target("恢复 process 插件失败", target);
                return RecoveryStep::Fail(steps::explain(label.as_str(), told.as_str()));
            },
            Some(Ok(created)) => *created,
        };
        match &self.validated {
            None => return RecoveryStep::Validate,
            Some(Err(told)) => {
                if !self.stopped {
                    return RecoveryStep::Stop;
                }
                return RecoveryStep::Fail(steps::explain("恢复 process 插件页面失败", told.as_str()));
            },
            Some(Ok(())) => {},
        }
        if !created {
            return RecoveryStep::Ready;
        }
        match &self.recorded {
            None => RecoveryStep::Record,
            Some(Ok(())) => RecoveryStep::Ready,
            Some(Err(told)) => {
                if !self.stopped {
                    return RecoveryStep::Stop;
                }
                RecoveryStep::Fail(steps::explain("记录恢复的 process 插件实例失败", told.as_str()))
            },
        }
    }
}

/// A process that cannot be kept is stopped before the failure is told.
pub proof fn lemma_unusable_process_is_stopped(recovery: ProcessRecovery, target: RuntimeTarget)
    requires
        recovery.unusable(),
        recovery.failed(target) is Some,
    ensures
        recovery.stopped,
{
}

// Components

/// What is known so far while a component is being brought up again.
#[derive(Debug)]
pub struct WasmRecovery {
    /// That the component runs, and whether it was created.
    pub activated: Outcome<bool>,
    pub validated: Outcome<()>,
    /// That a component with other pages is gone again.
    pub deactivated: Outcome<()>,
    pub recorded: Outcome<()>,
}

/// What is to be done next while a component is being brought up again.
#[derive(Debug)]
pub enum WasmRecoveryStep {
    Activate,
    Validate,
    Deactivate,
    Record,
    Ready,
    Fail(String),
}

impl WasmRecovery {
    pub fn start() -> (recovery: WasmRecovery)
        ensures
            recovery.activated is None,
            recovery.validated is None,
            recovery.deactivated is None,
            recovery.recorded is None,
    {
        WasmRecovery { activated: None, validated: None, deactivated: None, recorded: None }
    }

    /// What is told where the component could not be brought up again. A failure to deactivate it
    /// takes the place of what led to it.
    pub open spec fn failed(&self, target: RuntimeTarget) -> Option<Seq<char>> {
        if steps::failure(self.activated) is Some {
            Some(
                steps::explained(
                    target_label("恢复 Wasm Component 失败"@, target),
                    steps::failure(self.activated)->0,
                ),
            )
        } else if steps::done(self.activated) && steps::failure(self.validated) is Some {
            match self.deactivated {
                None => None,
                Some(Err(told)) => Some(told@),
                Some(Ok(_)) => Some(
                    steps::explained("恢复 Wasm Component 页面失败"@, steps::failure(self.validated)->0),
                ),
            }
        } else if steps::said(self.activated, true) && steps::done(self.validated) {
            steps::failure(self.recorded)
        } else {
            None
        }
    }

    /// Whether a step is the one to be taken next.
    pub open spec fn asks(&self, target: &RuntimeTarget, step: WasmRecoveryStep) -> bool {
        &&& step is Activate <==> self.activated is None
        &&& step is Validate <==> steps::done(self.activated) && self.validated is None
        &&& step is Deactivate <==> steps::done(self.activated) && steps::failure(
            self.validated,
        ) is Some && self.deactivated is None
        &&& step is Record <==> steps::said(self.activated, true) && steps::done(self.validated)
            && self.recorded is None
        &&& step is Ready <==> steps::done(self.activated) && steps::done(self.validated) && (
        steps::said(self.activated, true) ==> steps::done(self.recorded))
        &&& step is Fail <==> self.failed(*target) is Some
        &&& step matches WasmRecoveryStep::Fail(told) ==> self.failed(*target) == Some(told@)
    }

    /// What is to be done next.
    pub fn next(&self, target: &RuntimeTarget) -> (step: WasmRecoveryStep)
        ensures
            self.asks(target, step),
    {
        let created = match &self.activated {
            None => return WasmRecoveryStep::Activate,
            Some(Err(told)) => {
                let label = label_target("恢复 Wasm Component 失败", target);
                return WasmRecoveryStep::Fail(steps::explain(label.as_str(), told.as_str()));
            },
            Some(Ok(created)) => *created,
        };
        match &self.validated {
            None => return WasmRecoveryStep::Validate,
            Some(Err(told)) => {
                return match &self.deactivated {
                    None => WasmRecoveryStep::Deactivate,
                    Some(Err(cleanup)) => WasmRecoveryStep::Fail(cleanup.clone()),
                    Some(Ok(())) => WasmRecoveryStep::Fail(
                        steps::explain("恢复 Wasm Component 页面失败", told.as_str()),
                    ),
                };
            },
            Some(Ok(())) => {},
        }
        if !created {
            return WasmRecoveryStep::Ready;
        }
        match &self.recorded {
            None => WasmRecoveryStep::Record,
            Some(Ok(())) => WasmRecoveryStep::Ready,
            Some(Err(told)) => WasmRecoveryStep::Fail(told.clone()),
        }
    }
}

// Plugins of a new host

/// What is known so far while a plugin of a new host is being activated.
#[derive(Debug)]
pub struct DefaultActivation {
    pub runtime: PluginRuntime,
    /// That the plugin's process runs, and whether it was created.
    pub process: Outcome<bool>,
    /// That the plugin's component runs, and whether it was created.
    pub wasm: Outcome<bool>,
    pub activated: Outcome<()>,
    /// Whether it was tried to clean up what was created.
    pub process_stopped: bool,
    pub wasm_dropped: bool,
}

/// What is to be done next while a plugin of a new host is being activated.
#[derive(Debug)]
pub enum DefaultStep {
    PrepareProcess,
    PrepareWasm,
    Activate,
    StopProcess,
    DropWasm,
    Ready,
    Fail(String),
}

impl DefaultActivation {
    pub fn start(runtime: PluginRuntime) -> (activation: DefaultActivation)
        ensures
            activation.runtime == runtime,
            activation.process is None,
            activation.wasm is None,
            activation.activated is None,
            !activation.process_stopped,
            !activation.wasm_dropped,
    {
        DefaultActivation {
            runtime,
            process: None,
            wasm: None,
            activated: None,
            process_stopped: false,
            wasm_dropped: false,
        }
    }

    /// What the plugin runs on is there.
    pub open spec fn prepared(&self) -> bool {
        &&& self.runtime is Process ==> steps::done(self.process)
        &&& self.runtime is WasmComponent ==> steps::done(self.wasm)
    }

    /// It was tried to clean up everything that was created.
    pub open spec fn cleaned(&self) -> bool {
        &&& self.runtime is Process && steps::said(self.process, true) ==> self.process_stopped
        &&& self.runtime is WasmComponent && steps::said(self.wasm, true) ==> self.wasm_dropped
    }

    /// What is told where the plugin could not be activated.
    pub open spec fn failed(&self) -> Option<Seq<char>> {
        if self.runtime is Process && steps::failure(self.process) is Some {
            steps::failure(self.process)
        } else if self.runtime is WasmComponent && steps::failure(self.wasm) is Some {
            steps::failure(self.wasm)
        } else if self.prepared() && steps::failure(self.activated) is Some && self.cleaned() {
            Some(steps::explained("激活默认插件组合失败"@, steps::failure(self.activated)->0))
        } else {
            None
        }
    }

    /// Whether a step is the one to be taken next.
    pub open spec fn asks(&self, step: DefaultStep) -> bool {
        &&& step is PrepareProcess <==> self.runtime is Process && self.process is None
        &&& step is PrepareWasm <==> self.runtime is WasmComponent && self.wasm is None
        &&& step is Activate <==> self.prepared() && self.activated is None
        &&& step is StopProcess <==> self.prepared() && steps::failure(self.activated) is Some
            && self.runtime is Process && steps::said(self.process, true)
            && !self.process_stopped
        &&& step is DropWasm <==> self.prepared() && steps::failure(self.activated) is Some
            && self.runtime is WasmComponent && steps::said(self.wasm, true)
            && !self.wasm_dropped
        &&& step is Ready <==> self.prepared() && steps::done(self.activated)
        &&& step is Fail <==> self.failed() is Some
        &&& step matches DefaultStep::Fail(told) ==> self.failed() == Some(told@)
    }

    /// What is to be done next.
    pub fn next(&self) -> (step: DefaultStep)
        ensures
            self.asks(step),
    {
        let mut created_process = false;
        let mut created_wasm = false;
        if self.runtime == PluginRuntime::Process {
            match &self.process {
                None => return DefaultStep::PrepareProcess,
                Some(Err(told)) => return DefaultStep::Fail(told.clone()),
                Some(Ok(created)) => {
                    created_process = *created;
                },
            }
        }
        if self.runtime == PluginRuntime::WasmComponent {
            match &self.wasm {
                None => return DefaultStep::PrepareWasm,
                Some(Err(told)) => return DefaultStep::Fail(told.clone()),
                Some(Ok(created)) => {
                    created_wasm = *created;
                },
            }
        }
        match &self.activated {
            None => DefaultStep::Activate,
            Some(Ok(())) => DefaultStep::Ready,
            Some(Err(told)) => {
                if created_process && !self.process_stopped {
                    return DefaultStep::StopProcess;
                }
                if created_wasm && !self.wasm_dropped {
                    return DefaultStep::DropWasm;
                }
                DefaultStep::Fail(steps::explain("激活默认插件组合失败", told.as_str()))
            },
        }
    }
}

/// A process is brought up in order: it is started, must show the recorded pages, and is recorded
/// where it was created. One that cannot be kept is stopped before the failure is told, with what
/// was being done; a start that fails names the plugin.
pub proof fn lemma_process_recovers_in_order(progress: ProcessRecovery, target: RuntimeTarget,
    step: RecoveryStep)
    requires
        progress.asks(&target, step),
    ensures
        progress.started is None ==> step is Start,
        (progress.started is Some && progress.started->0 is Err)
            ==> step is Fail && step->Fail_0@ == "恢复 process 插件失败"@ + ": tenant="@
            + target.tenant_id@ + " source="@ + target.source_id@ + " revision="@
            + target.revision@ + ": "@ + progress.started->0->Err_0@,
        (progress.started is Some && progress.started->0 is Ok) && progress.validated is None
            ==> step is Validate,
        (progress.started is Some && progress.started->0 is Ok) && (progress.validated is Some
            && progress.validated->0 is Err) && !progress.stopped ==> step is Stop,
        (progress.started is Some && progress.started->0 is Ok) && (progress.validated is Some
            && progress.validated->0 is Err) && progress.stopped
            ==> step is Fail && step->Fail_0@ == "恢复 process 插件页面失败"@ + ": "@
            + progress.validated->0->Err_0@,
        progress.started == Some(Ok::<bool, String>(false)) && (progress.validated is Some
            && progress.validated->0 is Ok) ==> step is Ready,
        progress.started == Some(Ok::<bool, String>(true)) && (progress.validated is Some
            && progress.validated->0 is Ok) && progress.recorded is None ==> step is Record,
        progress.started == Some(Ok::<bool, String>(true)) && (progress.validated is Some
            && progress.validated->0 is Ok) && (progress.recorded is Some
            && progress.recorded->0 is Ok) ==> step is Ready,
        progress.started == Some(Ok::<bool, String>(true)) && (progress.validated is Some
            && progress.validated->0 is Ok) && (progress.recorded is Some
            && progress.recorded->0 is Err) && !progress.stopped ==> step is Stop,
        progress.started == Some(Ok::<bool, String>(true)) && (progress.validated is Some
            && progress.validated->0 is Ok) && (progress.recorded is Some
            && progress.recorded->0 is Err) && progress.stopped
            ==> step is Fail && step->Fail_0@ == "记录恢复的 process 插件实例失败"@ + ": "@
            + progress.recorded->0->Err_0@,
{
}

/// A component is brought up in order: it is activated, must show the recorded pages, and is
/// recorded where it was created. One with other pages is deactivated before the failure is told.
pub proof fn lemma_component_recovers_in_order(progress: WasmRecovery, target: RuntimeTarget,
    step: WasmRecoveryStep)
    requires
        progress.asks(&target, step),
    ensures
        progress.activated is None ==> step is Activate,
        (progress.activated is Some && progress.activated->0 is Err)
            ==> step is Fail && step->Fail_0@ == "恢复 Wasm Component 失败"@ + ": tenant="@
            + target.tenant_id@ + " source="@ + target.source_id@ + " revision="@
            + target.revision@ + ": "@ + progress.activated->0->Err_0@,
        (progress.activated is Some && progress.activated->0 is Ok)
            && progress.validated is None ==> step is Validate,
        (progress.activated is Some && progress.activated->0 is Ok)
            && (progress.validated is Some && progress.validated->0 is Err)
            && progress.deactivated is None ==> step is Deactivate,
        (progress.activated is Some && progress.activated->0 is Ok)
            && (progress.validated is Some && progress.validated->0 is Err)
            && (progress.deactivated is Some && progress.deactivated->0 is Err)
            ==> step is Fail && step->Fail_0@ == progress.deactivated->0->Err_0@,
        (progress.activated is Some && progress.activated->0 is Ok)
            && (progress.validated is Some && progress.validated->0 is Err)
            && (progress.deactivated is Some && progress.deactivated->0 is Ok)
            ==> step is Fail && step->Fail_0@ == "恢复 Wasm Component 页面失败"@ + ": "@
            + progress.validated->0->Err_0@,
        progress.activated == Some(Ok::<bool, String>(false)) && (progress.validated is Some
            && progress.validated->0 is Ok) ==> step is Ready,
        progress.activated == Some(Ok::<bool, String>(true)) && (progress.validated is Some
            && progress.validated->0 is Ok) && progress.recorded is None ==> step is Record,
        progress.activated == Some(Ok::<bool, String>(true)) && (progress.validated is Some
            && progress.validated->0 is Ok) && (progress.recorded is Some
            && progress.recorded->0 is Ok) ==> step is Ready,
        progress.activated == Some(Ok::<bool, String>(true)) && (progress.validated is Some
            && progress.validated->0 is Ok) && (progress.recorded is Some
            && progress.recorded->0 is Err)
            ==> step is Fail && step->Fail_0@ == progress.recorded->0->Err_0@,
{
}

/// A plugin of a new host is activated in order: what it runs on is prepared first, and taken down
/// again where it was created and the activation failed. Page definitions need nothing to run on.
pub proof fn lemma_default_plugin_is_activated_in_order(progress: DefaultActivation,
    step: DefaultStep)
    requires
        progress.asks(step),
    ensures
        progress.runtime is Process && progress.process is None ==> step is PrepareProcess,
        progress.runtime is Process && (progress.process is Some && progress.process->0 is Err)
            ==> step is Fail && step->Fail_0@ == progress.process->0->Err_0@,
        progress.runtime is WasmComponent && progress.wasm is None ==> step is PrepareWasm,
        progress.runtime is WasmComponent && (progress.wasm is Some && progress.wasm->0 is Err)
            ==> step is Fail && step->Fail_0@ == progress.wasm->0->Err_0@,
        (progress.runtime is Process ==> (progress.process is Some
            && progress.process->0 is Ok)) && (progress.runtime is WasmComponent
            ==> (progress.wasm is Some && progress.wasm->0 is Ok)) ==> {
            let process_left = progress.runtime is Process
                && progress.process == Some(Ok::<bool, String>(true))
                && !progress.process_stopped;
            let wasm_left = progress.runtime is WasmComponent
                && progress.wasm == Some(Ok::<bool, String>(true))
                && !progress.wasm_dropped;
            &&& progress.activated is None ==> step is Activate
            &&& (progress.activated is Some && progress.activated->0 is Ok) ==> step is Ready
            &&& (progress.activated is Some && progress.activated->0 is Err) && process_left
                ==> step is StopProcess
            &&& (progress.activated is Some && progress.activated->0 is Err) && wasm_left
                ==> step is DropWasm
            &&& (progress.activated is Some && progress.activated->0 is Err) && !process_left
                && !wasm_left ==> step is Fail && step->Fail_0@
                == "激活默认插件组合失败"@ + ": "@ + progress.activated->0->Err_0@
        },
{
}

} // verus!
