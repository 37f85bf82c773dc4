//! Installing plugins: which version is taken, and how it is activated in place of another one.
use vstd::prelude::*;

use crate::runtime::model::PluginRuntime;
use crate::steps;
use crate::steps::Outcome;
use crate::text;

verus! {

/// A plugin that was activated.
#[derive(Debug)]
pub struct ActivatedPlugin {
    pub source_id: String,
    pub revision: String,
    pub page_count: usize,
}

/// From where the version to install is taken.
#[derive(Clone, Copy, Debug, PartialEq, Eq, Structural)]
pub enum CandidateSource {
    /// The version that was published, from the host's own store.
    Published,
    /// The version found in the plugin's repository.
    Repository,
}

impl CandidateSource {
    /// What is noted of how the version was checked.
    pub open spec fn text(&self) -> Seq<char> {
        match self {
            CandidateSource::Published =>
                "已校验数据库已发布 artifact 和市场元数据（未访问 Git）"@,
            CandidateSource::Repository => "已校验 Git 完整提交、清单和预构建 artifact"@,
        }
    }

    /// What is noted of how the version was checked.
    pub fn detail(&self) -> (detail: String)
        ensures
            detail@ == self.text(),
    {
        let detail = match self {
            CandidateSource::Published =>
                "已校验数据库已发布 artifact 和市场元数据（未访问 Git）",
            CandidateSource::Repository => "已校验 Git 完整提交、清单和预构建 artifact",
        };
        detail.to_owned()
    }
}

/// Whether a version to install is taken from a source.
pub open spec fn comes_from(published: bool, source: CandidateSource) -> bool {
    source == if published {
        CandidateSource::Published
    } else {
        CandidateSource::Repository
    }
}

/// From where the version to install is taken: from the store where it was published, and only
/// otherwise from the repository.
pub fn resolve_install_candidate(published: bool) -> (source: CandidateSource)
    ensures
        comes_from(published, source),
{
    if published {
        CandidateSource::Published
    } else {
        CandidateSource::Repository
    }
}

impl CandidateSource {
    /// What a version that cannot be taken from there is told with.
    pub open spec fn failure_label(&self) -> Seq<char> {
        match self {
            CandidateSource::Published => "校验数据库已发布插件的本地 artifact 失败"@,
            CandidateSource::Repository => "从受限 Git 来源发现插件失败"@,
        }
    }
}

/// What is known so far while the version to install is looked for.
#[derive(Debug)]
pub struct InstallProgress {
    /// Whether this is an automatic update.
    pub following: bool,
    /// Whether the version asked for was published.
    pub published: Outcome<bool>,
    /// That a published version is in the cache.
    pub restored: Outcome<()>,
    /// That the version was taken and checked.
    pub resolved: Outcome<()>,
}

/// What is to be done next while the version to install is looked for.
#[derive(Debug)]
pub enum InstallStep {
    FindPublication,
    Restore,
    Resolve(CandidateSource),
    Activate,
    Fail(String),
}

impl InstallProgress {
    pub fn start(following: bool) -> (progress: InstallProgress)
        ensures
            progress.following == following,
            progress.published is None,
            progress.restored is None,
            progress.resolved is None,
    {
        InstallProgress { following, published: None, restored: None, resolved: None }
    }

    /// It is known from where the version is taken.
    pub open spec fn candidate(&self) -> Option<CandidateSource> {
        match self.published {
            Some(Ok(true)) => if steps::done(self.restored) {
                Some(CandidateSource::Published)
            } else {
                None
            },
            Some(Ok(false)) => if self.following {
                None
            } else {
                Some(CandidateSource::Repository)
            },
            _ => None,
        }
    }

    /// What is told where there is no version to install.
    pub open spec fn failed(&self) -> Option<Seq<char>> {
        match self.published {
            None => None,
            Some(Err(told)) => if self.following {
                Some(told@)
            } else {
                Some(steps::explained("查找数据库已发布插件失败"@, told@))
            },
            Some(Ok(false)) => if self.following {
                Some("自动更新版本尚未发布"@)
            } else {
                self.unresolved(CandidateSource::Repository)
            },
            Some(Ok(true)) => if steps::done(self.restored) {
                self.unresolved(CandidateSource::Published)
            } else {
                steps::failure(self.restored)
            },
        }
    }

    /// What is told of a version that could not be taken.
    pub open spec fn unresolved(&self, source: CandidateSource) -> Option<Seq<char>> {
        match self.resolved {
            Some(Err(told)) => Some(steps::explained(source.failure_label(), told@)),
            _ => None,
        }
    }

    /// Whether a step is the one to be taken next.
    pub open spec fn asks(&self, step: InstallStep) -> bool {
        &&& step is FindPublication <==> self.published is None
        &&& step is Restore <==> steps::said(self.published, true) && self.restored is None
        &&& step is Resolve <==> self.candidate() is Some && self.resolved is None
        &&& step is Activate <==> self.candidate() is Some && steps::done(self.resolved)
        &&& step is Fail <==> self.failed() is Some
        &&& step matches InstallStep::Resolve(source) ==> self.candidate() == Some(source)
        &&& step matches InstallStep::Fail(told) ==> self.failed() == Some(told@)
    }

    /// What is to be done next: a published version is taken from the store, any other from its
    /// repository, and an automatic update installs only what was published.
    pub fn next(&self) -> (step: InstallStep)
        ensures
            self.asks(step),
    {
        let published = match &self.published {
            None => return InstallStep::FindPublication,
            Some(Err(told)) => return InstallStep::Fail(
                if self.following {
                    told.clone()
                } else {
                    steps::explain("查找数据库已发布插件失败", told.as_str())
                },
            ),
            Some(Ok(published)) => *published,
        };
        if published {
            match &self.restored {
                None => return InstallStep::Restore,
                Some(Err(told)) => return InstallStep::Fail(told.clone()),
                Some(Ok(())) => {},
            }
        } else if self.following {
            return InstallStep::Fail("自动更新版本尚未发布".to_owned());
        }
        let source = resolve_install_candidate(published);
        match &self.resolved {
            None => InstallStep::Resolve(source),
            Some(Ok(())) => InstallStep::Activate,
            Some(Err(told)) => {
                let label = match source {
                    CandidateSource::Published => "校验数据库已发布插件的本地 artifact 失败",
                    CandidateSource::Repository => "从受限 Git 来源发现插件失败",
                };
                InstallStep::Fail(steps::explain(label, told.as_str()))
            },
        }
    }
}

/// A published version is never taken from its repository, not even where the cached one is
/// missing or wrong.
pub proof fn lemma_published_version_needs_no_repository(progress: InstallProgress)
    requires
        steps::said(progress.published, true),
    ensures
        progress.candidate() != Some(CandidateSource::Repository),
{
}

/// A process that was started or found running.
#[derive(Debug)]
pub struct StartedProcess {
    pub instance_id: String,
    pub created: bool,
}

/// What is known so far while a plugin is being activated.
#[derive(Debug)]
pub struct ActivationProgress {
    /// Whether this is an automatic update.
    pub following: bool,
    /// Whether the version is being published.
    pub publishing: bool,
    pub runtime: PluginRuntime,
    pub revision: String,
    /// That it is known under which id the plugin's source goes.
    pub source: Outcome<()>,
    /// That no one else changes the plugin meanwhile.
    pub lock: Outcome<()>,
    /// Whether an automatic update is still wanted.
    pub eligible: Outcome<bool>,
    /// Whether the version is only to be published, not activated.
    pub publish_only: Outcome<bool>,
    /// That the check of the version was noted.
    pub validated: Outcome<()>,
    /// The process that runs so far.
    pub previous_process: Outcome<Option<String>>,
    /// How the plugin runs so far, where a process does.
    pub previous_runtime: Outcome<PluginRuntime>,
    /// The component version that runs so far.
    pub previous_wasm: Outcome<Option<String>>,
    /// The new process.
    pub process: Outcome<StartedProcess>,
    /// The new component, and whether it was created.
    pub wasm: Outcome<bool>,
    /// That the health of the new version was noted.
    pub health: Outcome<()>,
    pub published: Outcome<()>,
    pub activated: Outcome<()>,
    /// What was tried to clean up after the new version.
    pub process_cleaned: bool,
    pub wasm_cleaned: bool,
    /// That the process that ran so far runs again.
    pub restored: Outcome<()>,
    /// Whether it was tried to stop the process that ran so far.
    pub previous_stopped: bool,
    pub previous_deactivated: Outcome<()>,
}

/// What is to be done next while a plugin is being activated.
#[derive(Debug)]
pub enum ActivationStep {
    FindSource,
    Lock,
    CheckEligible,
    CheckPublishOnly,
    NoteValidation,
    ReadPreviousProcess,
    ReadPreviousRuntime,
    ReadPreviousWasm,
    PrepareProcess,
    PrepareWasm,
    NoteHealth,
    Publish,
    Activate,
    CleanProcess,
    CleanWasm,
    RestorePrevious,
    StopPrevious,
    DeactivatePrevious,
    Succeed,
    Fail(String),
}

impl ActivationProgress {
    /// Nothing has been tried yet.
    pub open spec fn is_start(&self) -> bool {
        &&& self.source is None
        &&& self.lock is None
        &&& self.eligible is None
        &&& self.publish_only is None
        &&& self.validated is None
        &&& self.previous_process is None
        &&& self.previous_runtime is None
        &&& self.previous_wasm is None
        &&& self.process is None
        &&& self.wasm is None
        &&& self.health is None
        &&& self.published is None
        &&& self.activated is None
        &&& !self.process_cleaned
        &&& !self.wasm_cleaned
        &&& self.restored is None
        &&& !self.previous_stopped
        &&& self.previous_deactivated is None
    }

    pub fn start(following: bool, publishing: bool, runtime: PluginRuntime, revision: String) -> (
        progress: ActivationProgress)
        ensures
            progress.is_start(),
            progress.following == following,
            progress.publishing == publishing,
            progress.runtime == runtime,
            progress.revision == revision,
    {
        ActivationProgress {
            following,
            publishing,
            runtime,
            revision,
            source: None,
            lock: None,
            eligible: None,
            publish_only: None,
            validated: None,
            previous_process: None,
            previous_runtime: None,
            previous_wasm: None,
            process: None,
            wasm: None,
            health: None,
            published: None,
            activated: None,
            process_cleaned: false,
            wasm_cleaned: false,
            restored: None,
            previous_stopped: false,
            previous_deactivated: None,
        }
    }

    /// The source is known and locked.
    pub open spec fn locked(&self) -> bool {
        steps::done(self.source) && steps::done(self.lock)
    }

    /// The activation is wanted, and it is known whether it is one.
    pub open spec fn wanted(&self) -> bool {
        &&& self.locked()
        &&& self.following ==> steps::said(self.eligible, true)
        &&& self.publishing ==> steps::done(self.publish_only)
    }

    /// The version is only to be published.
    pub open spec fn only_publishes(&self) -> bool {
        self.publishing && steps::said(self.publish_only, true)
    }

    /// The process that runs so far.
    pub open spec fn running_process(&self) -> Option<Seq<char>> {
        match self.previous_process {
            Some(Ok(Some(instance))) => Some(instance@),
            _ => None,
        }
    }

    /// The component version that runs so far.
    pub open spec fn running_wasm(&self) -> Option<Seq<char>> {
        match self.previous_wasm {
            Some(Ok(Some(revision))) => Some(revision@),
            _ => None,
        }
    }

    /// The check was noted, and it is known what runs so far.
    pub open spec fn surveyed(&self) -> bool {
        &&& self.wanted()
        &&& steps::done(self.validated)
        &&& steps::done(self.previous_process)
        &&& self.running_process() is Some ==> steps::done(self.previous_runtime)
        &&& steps::done(self.previous_wasm)
    }

    /// The new version runs, where it is one that runs.
    pub open spec fn prepared(&self) -> bool {
        &&& self.surveyed()
        &&& self.runtime is Process ==> steps::done(self.process)
        &&& self.runtime is WasmComponent ==> steps::done(self.wasm)
    }

    /// Whether the new version is one that runs.
    pub open spec fn runs(&self) -> bool {
        self.runtime is Process || self.runtime is WasmComponent
    }

    /// The new version runs and its health was noted.
    pub open spec fn healthy(&self) -> bool {
        self.prepared() && (self.runs() ==> steps::done(self.health))
    }

    /// The new version must go again: its health could not be noted, it was only to be published,
    /// or it could not be activated.
    pub open spec fn unwinds(&self) -> bool {
        ||| self.prepared() && self.runs() && steps::failure(self.health) is Some
        ||| self.healthy() && self.only_publishes() && self.published is Some
        ||| self.healthy() && !self.only_publishes() && steps::failure(self.activated) is Some
    }

    /// A new process was created.
    pub open spec fn created_process(&self) -> bool {
        self.runtime is Process && match self.process {
            Some(Ok(process)) => process.created,
            _ => false,
        }
    }

    /// A new component was created.
    pub open spec fn created_wasm(&self) -> bool {
        self.runtime is WasmComponent && steps::said(self.wasm, true)
    }

    /// It was tried to clean up everything that was created.
    pub open spec fn cleaned(&self) -> bool {
        &&& self.created_process() ==> self.process_cleaned
        &&& self.created_wasm() ==> self.wasm_cleaned
    }

    /// The process that ran so far must be brought back.
    pub open spec fn must_restore(&self) -> bool {
        &&& self.healthy() && !self.only_publishes() && steps::failure(self.activated) is Some
        &&& self.running_process() is Some
        &&& match self.previous_runtime {
            Some(Ok(runtime)) => runtime is Process,
            _ => false,
        }
    }

    /// The process that ran so far is another one than the new one.
    pub open spec fn replaces_process(&self) -> bool {
        match self.running_process() {
            Some(previous) => !(self.runtime is Process && match self.process {
                Some(Ok(process)) => process.instance_id@ == previous,
                _ => false,
            }),
            None => false,
        }
    }

    /// The component version that runs so far is another one than the new one.
    pub open spec fn replaces_wasm(&self) -> bool {
        match self.running_wasm() {
            Some(previous) => !(self.runtime is WasmComponent && previous == self.revision@),
            None => false,
        }
    }

    /// The new version is active.
    pub open spec fn switched(&self) -> bool {
        self.healthy() && !self.only_publishes() && steps::done(self.activated)
    }

    /// What is told where the activation has failed for good.
    pub open spec fn failed(&self) -> Option<Seq<char>> {
        if steps::failure(self.source) is Some {
            steps::failure(self.source)
        } else if steps::done(self.source) && steps::failure(self.lock) is Some {
            steps::failure(self.lock)
        } else if self.locked() && self.following && steps::failure(self.eligible) is Some {
            steps::failure(self.eligible)
        } else if self.locked() && self.following && steps::said(self.eligible, false) {
            Some("安装状态或目标版本已改变，取消自动升级"@)
        } else if self.locked() && (self.following ==> steps::said(self.eligible, true))
            && self.publishing && steps::failure(self.publish_only) is Some {
            steps::failure(self.publish_only)
        } else if self.wanted() && steps::failure(self.validated) is Some {
            steps::failure(self.validated)
        } else if self.wanted() && steps::done(self.validated) && steps::failure(
            self.previous_process,
        ) is Some {
            steps::failure(self.previous_process)
        } else if self.wanted() && steps::done(self.validated) && self.running_process() is Some
            && steps::failure(self.previous_runtime) is Some {
            steps::failure(self.previous_runtime)
        } else if self.wanted() && steps::done(self.validated) && steps::done(
            self.previous_process,
        ) && (self.running_process() is Some ==> steps::done(self.previous_runtime))
            && steps::failure(self.previous_wasm) is Some {
            steps::failure(self.previous_wasm)
        } else if self.surveyed() && self.runtime is Process && steps::failure(
            self.process,
        ) is Some {
            steps::failure(self.process)
        } else if self.surveyed() && self.runtime is WasmComponent && steps::failure(
            self.wasm,
        ) is Some {
            steps::failure(self.wasm)
        } else if self.unwinds() && !self.cleaned() {
            None
        } else if self.prepared() && self.runs() && steps::failure(self.health) is Some {
            steps::failure(self.health)
        } else if self.healthy() && self.only_publishes() {
            steps::failure(self.published)
        } else if self.must_restore() {
            match self.restored {
                None => None,
                Some(Ok(_)) => steps::failure(self.activated),
                Some(Err(recovery)) => Some(
                    "激活插件失败: "@ + steps::failure(self.activated)->0
                        + "; 恢复旧 process 插件失败: "@ + recovery@,
                ),
            }
        } else if self.healthy() && steps::failure(self.activated) is Some {
            steps::failure(self.activated)
        } else if self.switched() && self.replaces_wasm() && (self.replaces_process()
            ==> self.previous_stopped) {
            steps::failure(self.previous_deactivated)
        } else {
            None
        }
    }

    /// Whether the activation has succeeded.
    pub open spec fn succeeded(&self) -> bool {
        ||| self.healthy() && self.only_publishes() && steps::done(self.published) && self.cleaned()
        ||| self.switched() && (self.replaces_process() ==> self.previous_stopped) && (
        self.replaces_wasm() ==> steps::done(self.previous_deactivated))
    }

    /// Whether a step is the one to be taken next.
    pub open spec fn asks(&self, step: ActivationStep) -> bool {
        &&& step is FindSource <==> self.source is None
        &&& step is Lock <==> steps::done(self.source) && self.lock is None
        &&& step is CheckEligible <==> self.locked() && self.following && self.eligible is None
        &&& step is CheckPublishOnly <==> self.locked() && (self.following ==> steps::said(
            self.eligible,
            true,
        )) && self.publishing && self.publish_only is None
        &&& step is NoteValidation <==> self.wanted() && self.validated is None
        &&& step is ReadPreviousProcess <==> self.wanted() && steps::done(self.validated)
            && self.previous_process is None
        &&& step is ReadPreviousRuntime <==> self.wanted() && steps::done(self.validated)
            && self.running_process() is Some && self.previous_runtime is None
        &&& step is ReadPreviousWasm <==> self.wanted() && steps::done(self.validated)
            && steps::done(self.previous_process) && (self.running_process() is Some
            ==> steps::done(self.previous_runtime)) && self.previous_wasm is None
        &&& step is PrepareProcess <==> self.surveyed() && self.runtime is Process
            && self.process is None
        &&& step is PrepareWasm <==> self.surveyed() && self.runtime is WasmComponent
            && self.wasm is None
        &&& step is NoteHealth <==> self.prepared() && self.runs() && self.health is None
        &&& step is Publish <==> self.healthy() && self.only_publishes() && self.published is None
        &&& step is Activate <==> self.healthy() && !self.only_publishes() && self.activated is None
        &&& step is CleanProcess <==> self.unwinds() && self.created_process()
            && !self.process_cleaned
        &&& step is CleanWasm <==> self.unwinds() && self.created_wasm() && !self.wasm_cleaned
        &&& step is RestorePrevious <==> self.must_restore() && self.cleaned()
            && self.restored is None
        &&& step is StopPrevious <==> self.switched() && self.replaces_process()
            && !self.previous_stopped
        &&& step is DeactivatePrevious <==> self.switched() && (self.replaces_process()
            ==> self.previous_stopped) && self.replaces_wasm()
            && self.previous_deactivated is None
        &&& step is Succeed <==> self.succeeded()
        &&& step is Fail <==> self.failed() is Some
        &&& step matches ActivationStep::Fail(told) ==> self.failed() == Some(told@)
    }

    /// What is to be done next.
    pub fn next(&self) -> (step: ActivationStep)
        ensures
            self.asks(step),
    {
        match &self.source {
            None => return ActivationStep::FindSource,
            Some(Err(told)) => return ActivationStep::Fail(told.clone()),
            Some(Ok(())) => {},
        }
        match &self.lock {
            None => return ActivationStep::Lock,
            Some(Err(told)) => return ActivationStep::Fail(told.clone()),
            Some(Ok(())) => {},
        }
        if self.following {
            match &self.eligible {
                None => return ActivationStep::CheckEligible,
                Some(Err(told)) => return ActivationStep::Fail(told.clone()),
                Some(Ok(false)) => return ActivationStep::Fail(
                    "安装状态或目标版本已改变，取消自动升级".to_owned(),
                ),
                Some(Ok(true)) => {},
            }
        }
        let only_publishes = if self.publishing {
            match &self.publish_only {
                None => return ActivationStep::CheckPublishOnly,
                Some(Err(told)) => return ActivationStep::Fail(told.clone()),
                Some(Ok(only)) => *only,
            }
        } else {
            false
        };
        match &self.validated {
            None => return ActivationStep::NoteValidation,
            Some(Err(told)) => return ActivationStep::Fail(told.clone()),
            Some(Ok(())) => {},
        }
        let previous = match &self.previous_process {
            None => return ActivationStep::ReadPreviousProcess,
            Some(Err(told)) => return ActivationStep::Fail(told.clone()),
            Some(Ok(previous)) => previous,
        };
        let was_process = if previous.is_some() {
            match &self.previous_runtime {
                None => return ActivationStep::ReadPreviousRuntime,
                Some(Err(told)) => return ActivationStep::Fail(told.clone()),
                Some(Ok(runtime)) => *runtime == PluginRuntime::Process,
            }
        } else {
            false
        };
        let previous_wasm = match &self.previous_wasm {
            None => return ActivationStep::ReadPreviousWasm,
            Some(Err(told)) => return ActivationStep::Fail(told.clone()),
            Some(Ok(previous)) => previous,
        };
        let is_process = self.runtime == PluginRuntime::Process;
        let is_wasm = self.runtime == PluginRuntime::WasmComponent;
        let created_process = if is_process {
            match &self.process {
                None => return ActivationStep::PrepareProcess,
                Some(Err(told)) => return ActivationStep::Fail(told.clone()),
                Some(Ok(process)) => process.created,
            }
        } else {
            false
        };
        let created_wasm = if is_wasm {
            match &self.wasm {
                None => return ActivationStep::PrepareWasm,
                Some(Err(told)) => return ActivationStep::Fail(told.clone()),
                Some(Ok(created)) => *created,
            }
        } else {
            false
        };
        if is_process || is_wasm {
            match &self.health {
                None => return ActivationStep::NoteHealth,
                Some(Err(told)) => {
                    if created_process && !self.process_cleaned {
                        return ActivationStep::CleanProcess;
                    }
                    if created_wasm && !self.wasm_cleaned {
                        return ActivationStep::CleanWasm;
                    }
                    return ActivationStep::Fail(told.clone());
                },
                Some(Ok(())) => {},
            }
        }
        if only_publishes {
            if self.published.is_none() {
                return ActivationStep::Publish;
            }
            if created_process && !self.process_cleaned {
                return ActivationStep::CleanProcess;
            }
            if created_wasm && !self.wasm_cleaned {
                return ActivationStep::CleanWasm;
            }
            return match &self.published {
                Some(Err(told)) => ActivationStep::Fail(told.clone()),
                _ => ActivationStep::Succeed,
            };
        }
        match &self.activated {
            None => return ActivationStep::Activate,
            Some(Err(told)) => {
                if created_process && !self.process_cleaned {
                    return ActivationStep::CleanProcess;
                }
                if created_wasm && !self.wasm_cleaned {
                    return ActivationStep::CleanWasm;
                }
                if !was_process {
                    return ActivationStep::Fail(told.clone());
                }
                return match &self.restored {
                    None => ActivationStep::RestorePrevious,
                    Some(Ok(())) => ActivationStep::Fail(told.clone()),
                    Some(Err(recovery)) => ActivationStep::Fail(
                        "激活插件失败: ".to_owned().concat(told.as_str()).concat(
                            "; 恢复旧 process 插件失败: ",
                        ).concat(recovery.as_str()),
                    ),
                };
            },
            Some(Ok(())) => {},
        }
        let replaces_process = match previous {
            Some(previous) => match &self.process {
                Some(Ok(process)) => !(is_process && text::same(
                    process.instance_id.as_str(),
                    previous.as_str(),
                )),
                _ => true,
            },
            None => false,
        };
        if replaces_process && !self.previous_stopped {
            return ActivationStep::StopPrevious;
        }
        let replaces_wasm = match previous_wasm {
            Some(previous) => !(is_wasm && text::same(previous.as_str(), self.revision.as_str())),
            None => false,
        };
        if replaces_wasm {
            return match &self.previous_deactivated {
                None => ActivationStep::DeactivatePrevious,
                Some(Err(told)) => ActivationStep::Fail(told.clone()),
                Some(Ok(())) => ActivationStep::Succeed,
            };
        }
        ActivationStep::Succeed
    }
}

/// However an activation ends, nothing that was created for it is left behind unless the new
/// version became active.
pub proof fn lemma_created_runtime_is_cleaned_or_active(progress: ActivationProgress)
    requires
        progress.failed() is Some || progress.succeeded(),
        progress.prepared(),
    ensures
        progress.switched() || progress.cleaned(),
{
}

/// A failed activation leaves the version that ran so far running: its process was brought back,
/// or it is told that this failed too.
pub proof fn lemma_failed_activation_restores(progress: ActivationProgress)
    requires
        progress.must_restore(),
        progress.failed() is Some,
    ensures
        progress.cleaned(),
        progress.restored is Some,
        steps::done(progress.restored) ==> progress.failed() == steps::failure(progress.activated),
{
}

/// An automatic update that is no longer wanted changes nothing.
pub proof fn lemma_unwanted_update_changes_nothing(progress: ActivationProgress)
    requires
        progress.following,
        steps::said(progress.eligible, false),
    ensures
        !progress.wanted(),
        !progress.prepared(),
        !progress.switched(),
{
}

/// From where a version is taken, in terms of what is known: a published one from the store once it
/// was brought back to the cache, any other from its repository, but never for an automatic update.
/// What is taken is activated; what cannot be is told.
pub proof fn lemma_where_a_version_comes_from(progress: InstallProgress, step: InstallStep)
    requires
        progress.asks(step),
    ensures
        progress.published is None ==> step is FindPublication,
        progress.published == Some(Ok::<bool, String>(true)) ==> {
            &&& progress.restored is None ==> step is Restore
            &&& progress.restored is Some && progress.restored->0 is Err
                ==> step is Fail && step->Fail_0@ == progress.restored->0->Err_0@
            &&& progress.restored is Some && progress.restored->0 is Ok ==> {
                &&& progress.resolved is None ==> step == InstallStep::Resolve(
                    CandidateSource::Published,
                )
                &&& progress.resolved is Some && progress.resolved->0 is Ok ==> step is Activate
                &&& progress.resolved is Some && progress.resolved->0 is Err
                    ==> step is Fail && step->Fail_0@ == "校验数据库已发布插件的本地 artifact 失败"@ + ": "@
                    + progress.resolved->0->Err_0@
            }
        },
        progress.published == Some(Ok::<bool, String>(false)) && progress.following ==> (
        step is Fail && step->Fail_0@ == "自动更新版本尚未发布"@),
        progress.published == Some(Ok::<bool, String>(false)) && !progress.following ==> {
            &&& progress.resolved is None ==> step == InstallStep::Resolve(
                CandidateSource::Repository,
            )
            &&& progress.resolved is Some && progress.resolved->0 is Ok ==> step is Activate
            &&& progress.resolved is Some && progress.resolved->0 is Err
                ==> step is Fail && step->Fail_0@ == "从受限 Git 来源发现插件失败"@ + ": "@
                + progress.resolved->0->Err_0@
        },
        progress.published is Some && progress.published->0 is Err
            ==> step is Fail && step->Fail_0@ == if progress.following {
            progress.published->0->Err_0@
        } else {
            "查找数据库已发布插件失败"@ + ": "@ + progress.published->0->Err_0@
        },
{
}

/// What an activation does before the new version runs: the source is found and locked first, an
/// automatic update must still be wanted, the check is noted, and it is read what runs so far. What
/// fails there is told as it is, and nothing was started.
pub proof fn lemma_activation_begins_in_order(progress: ActivationProgress, step: ActivationStep)
    requires
        progress.asks(step),
    ensures
        progress.source is None ==> step is FindSource,
        progress.source is Some && progress.source->0 is Err
            ==> step is Fail && step->Fail_0@ == progress.source->0->Err_0@,
        progress.source is Some && progress.source->0 is Ok ==> {
            &&& progress.lock is None ==> step is Lock
            &&& progress.lock is Some && progress.lock->0 is Err
                ==> step is Fail && step->Fail_0@ == progress.lock->0->Err_0@
            &&& progress.lock is Some && progress.lock->0 is Ok && progress.following ==> {
                &&& progress.eligible is None ==> step is CheckEligible
                &&& progress.eligible is Some && progress.eligible->0 is Err
                    ==> step is Fail && step->Fail_0@ == progress.eligible->0->Err_0@
                &&& progress.eligible == Some(Ok::<bool, String>(false)) ==> (
                step is Fail && step->Fail_0@
                    == "安装状态或目标版本已改变，取消自动升级"@)
            }
        },
        progress.source is Some && progress.source->0 is Ok && progress.lock is Some
            && progress.lock->0 is Ok && (progress.following ==> progress.eligible == Some(
            Ok::<bool, String>(true),
        )) ==> {
            let asked = !progress.publishing || progress.publish_only is Some
                && progress.publish_only->0 is Ok;
            &&& progress.publishing && progress.publish_only is None ==> step is CheckPublishOnly
            &&& progress.publishing && progress.publish_only is Some
                && progress.publish_only->0 is Err ==> step is Fail
            &&& asked && progress.validated is None ==> step is NoteValidation
            &&& asked && progress.validated is Some && progress.validated->0 is Err
                ==> step is Fail && step->Fail_0@ == progress.validated->0->Err_0@
            &&& asked && progress.validated is Some && progress.validated->0 is Ok ==> {
                &&& progress.previous_process is None ==> step is ReadPreviousProcess
                &&& progress.previous_process is Some && progress.previous_process->0 is Err
                    ==> step is Fail
                &&& progress.previous_process is Some && progress.previous_process->0 is Ok
                    && progress.previous_process->0->Ok_0 is Some
                    && progress.previous_runtime is None ==> step is ReadPreviousRuntime
                &&& progress.previous_process is Some && progress.previous_process->0 == Ok::<
                    Option<String>,
                    String,
                >(None) && progress.previous_wasm is None ==> step is ReadPreviousWasm
                &&& progress.previous_process is Some && progress.previous_process->0 is Ok
                    && progress.previous_process->0->Ok_0 is Some
                    && progress.previous_runtime is Some && progress.previous_runtime->0 is Ok
                    && progress.previous_wasm is None ==> step is ReadPreviousWasm
            }
        },
{
}

/// The new version is started before anything is switched: a process or a component, as its runtime
/// says, then its health is noted; only then is it published or activated. Page definitions alone
/// start nothing.
pub proof fn lemma_new_version_runs_before_it_counts(
    progress: ActivationProgress,
    step: ActivationStep,
)
    requires
        progress.asks(step),
        progress.source is Some && progress.source->0 is Ok,
        progress.lock is Some && progress.lock->0 is Ok,
        progress.following ==> progress.eligible == Some(Ok::<bool, String>(true)),
        progress.publishing ==> progress.publish_only is Some && progress.publish_only->0 is Ok,
        progress.validated is Some && progress.validated->0 is Ok,
        progress.previous_process is Some && progress.previous_process->0 is Ok,
        progress.previous_process->0->Ok_0 is Some ==> progress.previous_runtime is Some
            && progress.previous_runtime->0 is Ok,
        progress.previous_wasm is Some && progress.previous_wasm->0 is Ok,
    ensures
        progress.runtime is Process && progress.process is None ==> step is PrepareProcess,
        progress.runtime is Process && progress.process is Some && progress.process->0 is Err
            ==> step is Fail && step->Fail_0@ == progress.process->0->Err_0@,
        progress.runtime is WasmComponent && progress.wasm is None ==> step is PrepareWasm,
        progress.runtime is WasmComponent && progress.wasm is Some && progress.wasm->0 is Err
            ==> step is Fail && step->Fail_0@ == progress.wasm->0->Err_0@,
        ({
            let runs = progress.runtime is Process || progress.runtime is WasmComponent;
            let started = (progress.runtime is Process ==> progress.process is Some
                && progress.process->0 is Ok) && (progress.runtime is WasmComponent
                ==> progress.wasm is Some && progress.wasm->0 is Ok);
            let healthy = started && (runs ==> progress.health is Some && progress.health->0 is Ok);
            let only = progress.publishing && progress.publish_only == Some(
                Ok::<bool, String>(true),
            );
            &&& started && runs && progress.health is None ==> step is NoteHealth
            &&& healthy && only && progress.published is None ==> step is Publish
            &&& healthy && !only && progress.activated is None ==> step is Activate
            &&& step is Activate || step is Publish ==> healthy
        }),
{
}

/// What fails once the new version runs is undone: what was created for it is taken down again,
/// each thing once, before anything is told; a process that ran so far is brought back where
/// activating the new version failed. A version that is only published is taken down as well. What
/// was found running already is left alone.
pub proof fn lemma_failed_version_is_taken_down(progress: ActivationProgress, step: ActivationStep)
    requires
        progress.asks(step),
        progress.source is Some && progress.source->0 is Ok,
        progress.lock is Some && progress.lock->0 is Ok,
        progress.following ==> progress.eligible == Some(Ok::<bool, String>(true)),
        progress.publishing ==> progress.publish_only is Some && progress.publish_only->0 is Ok,
        progress.validated is Some && progress.validated->0 is Ok,
        progress.previous_process is Some && progress.previous_process->0 is Ok,
        progress.previous_process->0->Ok_0 is Some ==> progress.previous_runtime is Some
            && progress.previous_runtime->0 is Ok,
        progress.previous_wasm is Some && progress.previous_wasm->0 is Ok,
        progress.runtime is Process ==> progress.process is Some && progress.process->0 is Ok,
        progress.runtime is WasmComponent ==> progress.wasm is Some && progress.wasm->0 is Ok,
        progress.runtime is Process || progress.runtime is WasmComponent
            ==> progress.health is Some,
    ensures
        ({
            let runs = progress.runtime is Process || progress.runtime is WasmComponent;
            let ill = runs && progress.health->0 is Err;
            let only = progress.publishing && progress.publish_only == Some(
                Ok::<bool, String>(true),
            );
            let unpublished = !ill && only && progress.published is Some;
            let unactivated = !ill && !only && progress.activated is Some
                && progress.activated->0 is Err;
            let process_left = progress.runtime is Process && progress.process->0->Ok_0.created
                && !progress.process_cleaned;
            let wasm_left = progress.runtime is WasmComponent && progress.wasm == Some(
                Ok::<bool, String>(true),
            ) && !progress.wasm_cleaned;
            let brings_back = unactivated && progress.previous_process->0->Ok_0 is Some
                && progress.previous_runtime->0->Ok_0 is Process;
            &&& (ill || unpublished || unactivated) && process_left ==> step is CleanProcess
            &&& (ill || unpublished || unactivated) && wasm_left ==> step is CleanWasm
            &&& step is CleanProcess ==> process_left && (ill || unpublished || unactivated)
            &&& step is CleanWasm ==> wasm_left && (ill || unpublished || unactivated)
            &&& !process_left && !wasm_left ==> {
                &&& ill ==> (step is Fail && step->Fail_0@
                    == progress.health->0->Err_0@)
                &&& unpublished && progress.published->0 is Ok ==> step is Succeed
                &&& unpublished && progress.published->0 is Err ==> (
                step is Fail && step->Fail_0@
                    == progress.published->0->Err_0@)
                &&& unactivated && !brings_back
                    ==> (step is Fail && step->Fail_0@ == progress.activated->0->Err_0@)
                &&& brings_back && progress.restored is None ==> step is RestorePrevious
                &&& brings_back && progress.restored is Some && progress.restored->0 is Ok ==> (
                step is Fail && step->Fail_0@
                    == progress.activated->0->Err_0@)
                &&& brings_back && progress.restored is Some && progress.restored->0 is Err ==> (
                step is Fail && step->Fail_0@ == "激活插件失败: "@
                    + progress.activated->0->Err_0@ + "; 恢复旧 process 插件失败: "@
                    + progress.restored->0->Err_0@)
            }
            &&& step is RestorePrevious ==> brings_back
        }),
{
}

/// After the switch, what ran before is taken down, and only that: the process that ran so far is
/// stopped unless it is the very instance that runs now, and then the component version that ran so
/// far is deactivated unless it is the very revision that runs now. Only then does the activation
/// succeed.
pub proof fn lemma_replaced_version_is_taken_down(
    progress: ActivationProgress,
    step: ActivationStep,
)
    requires
        progress.asks(step),
        progress.source is Some && progress.source->0 is Ok,
        progress.lock is Some && progress.lock->0 is Ok,
        progress.following ==> progress.eligible == Some(Ok::<bool, String>(true)),
        progress.publishing ==> progress.publish_only == Some(Ok::<bool, String>(false)),
        progress.validated is Some && progress.validated->0 is Ok,
        progress.previous_process is Some && progress.previous_process->0 is Ok,
        progress.previous_process->0->Ok_0 is Some ==> progress.previous_runtime is Some
            && progress.previous_runtime->0 is Ok,
        progress.previous_wasm is Some && progress.previous_wasm->0 is Ok,
        progress.runtime is Process ==> progress.process is Some && progress.process->0 is Ok,
        progress.runtime is WasmComponent ==> progress.wasm is Some && progress.wasm->0 is Ok,
        progress.runtime is Process || progress.runtime is WasmComponent ==> progress.health is Some
            && progress.health->0 is Ok,
        progress.activated is Some && progress.activated->0 is Ok,
    ensures
        ({
            let ran = progress.previous_process->0->Ok_0;
            let ran_wasm = progress.previous_wasm->0->Ok_0;
            let same_process = progress.runtime is Process && ran is Some
                && progress.process->0->Ok_0.instance_id@ == ran->0@;
            let same_wasm = progress.runtime is WasmComponent && ran_wasm is Some && ran_wasm->0@
                == progress.revision@;
            let to_stop = ran is Some && !same_process && !progress.previous_stopped;
            let to_deactivate = ran_wasm is Some && !same_wasm;
            &&& step is StopPrevious <==> to_stop
            &&& step is DeactivatePrevious <==> !to_stop && to_deactivate
                && progress.previous_deactivated is None
            &&& step is Succeed <==> !to_stop && (to_deactivate
                ==> progress.previous_deactivated is Some
                && progress.previous_deactivated->0 is Ok)
            &&& !to_stop && to_deactivate && progress.previous_deactivated is Some
                && progress.previous_deactivated->0 is Err
                    ==> (step is Fail && step->Fail_0@ == progress.previous_deactivated->0->Err_0@)
        }),
{
}

/// Each of these is told in its own words.
pub proof fn lemma_told_candidate_source(fault: CandidateSource)
    ensures
        fault is Published ==> fault.text() == "已校验数据库已发布 artifact 和市场元数据（未访问 Git）"@,
        fault is Repository ==> fault.text() == "已校验 Git 完整提交、清单和预构建 artifact"@,
{
}

/// Each of these is told in its own words.
pub proof fn lemma_told_candidate_source_label(fault: CandidateSource)
    ensures
        fault is Published ==> fault.failure_label() == "校验数据库已发布插件的本地 artifact 失败"@,
        fault is Repository ==> fault.failure_label() == "从受限 Git 来源发现插件失败"@,
{
}

/// A published version is never fetched from its repository, and any other always is.
pub proof fn lemma_published_versions_come_from_the_store(published: bool, source: CandidateSource)
    requires
        comes_from(published, source),
    ensures
        source is Published <==> published,
        source is Repository <==> !published,
{
}

} // verus!
