//! Installing, changing and restoring components: what is done next, and what is undone when a
//! later step fails.
use vstd::prelude::*;

use crate::outside;
use crate::steps;
use crate::steps::Outcome;
use crate::text;

verus! {

/// What a bundle asks of the host.
#[derive(Clone, Copy, Debug, PartialEq, Eq, Structural)]
pub struct Grants {
    pub database: bool,
    pub storage: bool,
    pub cryptography: bool,
    pub management: bool,
    pub identity_provider: bool,
}

/// What the host prepares for a component.
#[derive(Clone, Copy, Debug, PartialEq, Eq, Structural)]
pub struct ResourcePlan {
    pub database: bool,
    pub storage: bool,
}

/// Whether a plan is what is prepared for a component.
pub open spec fn plans(grants: Grants, plan: Option<ResourcePlan>) -> bool {
    plan == if grants.management || grants.identity_provider {
        None::<ResourcePlan>
    } else {
        Some(ResourcePlan { database: grants.database, storage: grants.storage })
    }
}

/// The resources to prepare for a component; one that asks to manage the host or to vouch for
/// identities gets none.
pub fn resources(grants: Grants) -> (plan: Option<ResourcePlan>)
    ensures
        plans(grants, plan),
{
    if grants.management || grants.identity_provider {
        return None;
    }
    Some(ResourcePlan { database: grants.database, storage: grants.storage })
}

/// The mark of an installation, by which mounts of an earlier one are told apart: a random id.
pub fn generation() -> (mark: u128)
    ensures
        outside::random_uuid(mark),
{
    outside::fresh_uuid()
}

// Installing

/// What is known so far while a component is being installed.
#[derive(Debug)]
pub struct InstallProgress {
    /// Whether the revision asked for is published.
    pub published: Outcome<bool>,
    /// Whether the parent is installed, or there is none.
    pub parent: Outcome<()>,
    /// Whether the bundle runs as a process.
    pub process: bool,
    /// The installation of a process, which goes its own way.
    pub process_installed: Outcome<()>,
    pub resources: Outcome<()>,
    /// Whether another version was active before.
    pub previous: Outcome<bool>,
    pub activated: Outcome<()>,
    pub recorded: Outcome<()>,
    /// What was tried to undo an activation that could not be recorded.
    pub previous_resources: Outcome<()>,
    pub previous_activated: Outcome<()>,
    pub deactivated: Outcome<()>,
}

/// What is to be done next while a component is being installed.
#[derive(Debug)]
pub enum InstallStep {
    FindPublished,
    RequireParent,
    InstallProcess,
    PrepareResources,
    ReadPrevious,
    Activate,
    Record,
    PreparePreviousResources,
    ActivatePrevious,
    Deactivate,
    Succeed,
    Fail(String),
}

impl InstallProgress {
    /// Nothing has been tried yet.
    pub open spec fn is_start(&self) -> bool {
        &&& self.published is None
        &&& self.parent is None
        &&& self.process_installed is None
        &&& self.resources is None
        &&& self.previous is None
        &&& self.activated is None
        &&& self.recorded is None
        &&& self.previous_resources is None
        &&& self.previous_activated is None
        &&& self.deactivated is None
    }

    pub fn start() -> (progress: InstallProgress)
        ensures
            progress.is_start(),
    {
        InstallProgress {
            published: None,
            parent: None,
            process: false,
            process_installed: None,
            resources: None,
            previous: None,
            activated: None,
            recorded: None,
            previous_resources: None,
            previous_activated: None,
            deactivated: None,
        }
    }

    /// The bundle is published and its parent is there.
    pub open spec fn admitted(&self) -> bool {
        steps::said(self.published, true) && steps::done(self.parent)
    }

    /// The component is admitted and does not run as a process; its resources are there and the
    /// version before it is known.
    pub open spec fn ready(&self) -> bool {
        self.admitted() && !self.process && steps::done(self.resources) && steps::done(
            self.previous,
        )
    }

    /// Another version was active before.
    pub open spec fn replaces(&self) -> bool {
        steps::said(self.previous, true)
    }

    /// The new version runs, but this could not be written down.
    pub open spec fn unrecorded(&self) -> bool {
        self.ready() && steps::done(self.activated) && steps::failure(self.recorded) is Some
    }

    /// What was active before is active again, or nothing is where nothing was.
    pub open spec fn undone(&self) -> bool {
        if self.replaces() {
            steps::done(self.previous_resources) && steps::done(self.previous_activated)
        } else {
            steps::done(self.deactivated)
        }
    }

    /// What is told where the installation has failed for good: the first failure, or that of
    /// undoing it.
    pub open spec fn failed(&self) -> Option<Seq<char>> {
        if steps::failure(self.published) is Some {
            steps::failure(self.published)
        } else if steps::said(self.published, false) {
            Some("插件尚未发布"@)
        } else if self.published is Some && steps::failure(self.parent) is Some {
            steps::failure(self.parent)
        } else if self.admitted() && self.process {
            steps::failure(self.process_installed)
        } else if self.admitted() && steps::failure(self.resources) is Some {
            steps::failure(self.resources)
        } else if self.admitted() && steps::done(self.resources) && steps::failure(
            self.previous,
        ) is Some {
            steps::failure(self.previous)
        } else if self.ready() && steps::failure(self.activated) is Some {
            steps::failure(self.activated)
        } else if self.unrecorded() {
            if self.replaces() && steps::failure(self.previous_resources) is Some {
                steps::failure(self.previous_resources)
            } else if self.replaces() && steps::done(self.previous_resources) && steps::failure(
                self.previous_activated,
            ) is Some {
                steps::failure(self.previous_activated)
            } else if !self.replaces() && steps::failure(self.deactivated) is Some {
                steps::failure(self.deactivated)
            } else if self.undone() {
                steps::failure(self.recorded)
            } else {
                None
            }
        } else {
            None
        }
    }

    /// Whether a step is the one to be taken next.
    pub open spec fn asks(&self, step: InstallStep) -> bool {
        &&& step is FindPublished <==> self.published is None
        &&& step is RequireParent <==> steps::said(self.published, true) && self.parent is None
        &&& step is InstallProcess <==> self.admitted() && self.process
            && self.process_installed is None
        &&& step is PrepareResources <==> self.admitted() && !self.process && self.resources is None
        &&& step is ReadPrevious <==> self.admitted() && !self.process
            && steps::done(self.resources)
            && self.previous is None
        &&& step is Activate <==> self.ready() && self.activated is None
        &&& step is Record <==> self.ready() && steps::done(self.activated) && self.recorded is None
        &&& step is PreparePreviousResources <==> self.unrecorded() && self.replaces()
            && self.previous_resources is None
        &&& step is ActivatePrevious <==> self.unrecorded() && self.replaces() && steps::done(
            self.previous_resources,
        ) && self.previous_activated is None
        &&& step is Deactivate <==> self.unrecorded() && !self.replaces()
            && self.deactivated is None
        &&& step is Succeed <==> {
            ||| self.admitted() && self.process && steps::done(self.process_installed)
            ||| self.ready() && steps::done(self.activated) && steps::done(self.recorded)
        }
        &&& step is Fail <==> self.failed() is Some
        &&& step matches InstallStep::Fail(told) ==> self.failed() == Some(told@)
    }

    /// What is to be done next.
    pub fn next(&self) -> (step: InstallStep)
        ensures
            self.asks(step),
    {
        let found = match &self.published {
            None => return InstallStep::FindPublished,
            Some(Err(told)) => return InstallStep::Fail(told.clone()),
            Some(Ok(found)) => *found,
        };
        if !found {
            return InstallStep::Fail("插件尚未发布".to_owned());
        }
        match &self.parent {
            None => return InstallStep::RequireParent,
            Some(Err(told)) => return InstallStep::Fail(told.clone()),
            Some(Ok(())) => {},
        }
        if self.process {
            return match &self.process_installed {
                None => InstallStep::InstallProcess,
                Some(Err(told)) => InstallStep::Fail(told.clone()),
                Some(Ok(())) => InstallStep::Succeed,
            };
        }
        match &self.resources {
            None => return InstallStep::PrepareResources,
            Some(Err(told)) => return InstallStep::Fail(told.clone()),
            Some(Ok(())) => {},
        }
        let replaces = match &self.previous {
            None => return InstallStep::ReadPrevious,
            Some(Err(told)) => return InstallStep::Fail(told.clone()),
            Some(Ok(active)) => *active,
        };
        match &self.activated {
            None => return InstallStep::Activate,
            Some(Err(told)) => return InstallStep::Fail(told.clone()),
            Some(Ok(())) => {},
        }
        let unrecorded = match &self.recorded {
            None => return InstallStep::Record,
            Some(Ok(())) => return InstallStep::Succeed,
            Some(Err(told)) => told,
        };
        if !replaces {
            return match &self.deactivated {
                None => InstallStep::Deactivate,
                Some(Err(told)) => InstallStep::Fail(told.clone()),
                Some(Ok(())) => InstallStep::Fail(unrecorded.clone()),
            };
        }
        match &self.previous_resources {
            None => return InstallStep::PreparePreviousResources,
            Some(Err(told)) => return InstallStep::Fail(told.clone()),
            Some(Ok(())) => {},
        }
        match &self.previous_activated {
            None => InstallStep::ActivatePrevious,
            Some(Err(told)) => InstallStep::Fail(told.clone()),
            Some(Ok(())) => InstallStep::Fail(unrecorded.clone()),
        }
    }
}

/// An installation that could not be written down ends only after what was active before is
/// active again, and then with the failure to write it down; or after bringing it back failed,
/// and then with that failure.
pub proof fn lemma_unrecorded_installation_is_undone(progress: InstallProgress)
    requires
        progress.unrecorded(),
        progress.failed() is Some,
    ensures
        progress.undone() ==> progress.failed() == steps::failure(progress.recorded),
        !progress.undone() ==> {
            ||| progress.failed() == steps::failure(progress.previous_resources)
            ||| progress.failed() == steps::failure(progress.previous_activated)
            ||| progress.failed() == steps::failure(progress.deactivated)
        },
{
}

/// Nothing is activated for a component that is not published or whose parent is missing.
pub proof fn lemma_nothing_runs_before_admission(progress: InstallProgress)
    requires
        !progress.admitted(),
    ensures
        !progress.ready(),
        !progress.unrecorded(),
{
}

// Changing

/// What may be done with an installed component.
#[derive(Clone, Copy, Debug, PartialEq, Eq, Structural)]
pub enum Change {
    Enable,
    Rollback,
    Disable,
    Uninstall,
}

impl Change {
    /// The name of a change.
    pub open spec fn text(&self) -> Seq<char> {
        match self {
            Change::Enable => "enable"@,
            Change::Rollback => "rollback"@,
            Change::Disable => "disable"@,
            Change::Uninstall => "uninstall"@,
        }
    }

    /// The change with the given name.
    pub fn named(action: &str) -> (change: Option<Change>)
        ensures
            match change {
                Some(change) => action@ == change.text(),
                None => forall|change: Change| action@ != #[trigger] change.text(),
            },
    {
        if text::same(action, "enable") {
            Some(Change::Enable)
        } else if text::same(action, "rollback") {
            Some(Change::Rollback)
        } else if text::same(action, "disable") {
            Some(Change::Disable)
        } else if text::same(action, "uninstall") {
            Some(Change::Uninstall)
        } else {
            None
        }
    }
}

/// What is known so far while a component is being disabled or uninstalled.
#[derive(Debug)]
pub struct RemovalProgress {
    /// That nothing builds on the component.
    pub childless: Outcome<()>,
    pub installed: Outcome<bool>,
    /// Whether the component runs as a process.
    pub process: Outcome<bool>,
    pub process_changed: Outcome<()>,
    /// Whether a version was active before.
    pub previous: Outcome<bool>,
    pub deactivated: Outcome<()>,
    pub recorded: Outcome<()>,
    pub previous_resources: Outcome<()>,
    pub previous_activated: Outcome<()>,
}

/// What is to be done next while a component is being disabled or uninstalled.
#[derive(Debug)]
pub enum RemovalStep {
    RequireNoChildren,
    CheckInstalled,
    ReadRuntime,
    ChangeProcess,
    ReadPrevious,
    Deactivate,
    Record,
    PreparePreviousResources,
    ActivatePrevious,
    Succeed,
    Fail(String),
}

impl RemovalProgress {
    /// Nothing has been tried yet.
    pub open spec fn is_start(&self) -> bool {
        &&& self.childless is None
        &&& self.installed is None
        &&& self.process is None
        &&& self.process_changed is None
        &&& self.previous is None
        &&& self.deactivated is None
        &&& self.recorded is None
        &&& self.previous_resources is None
        &&& self.previous_activated is None
    }

    pub fn start() -> (progress: RemovalProgress)
        ensures
            progress.is_start(),
    {
        RemovalProgress {
            childless: None,
            installed: None,
            process: None,
            process_changed: None,
            previous: None,
            deactivated: None,
            recorded: None,
            previous_resources: None,
            previous_activated: None,
        }
    }

    /// Nothing builds on the component, and it is installed.
    pub open spec fn admitted(&self) -> bool {
        steps::done(self.childless) && steps::said(self.installed, true)
    }

    /// The component is admitted and does not run as a process.
    pub open spec fn hosted(&self) -> bool {
        self.admitted() && steps::said(self.process, false)
    }

    /// A version was active before.
    pub open spec fn interrupts(&self) -> bool {
        steps::said(self.previous, true)
    }

    /// The component was stopped, but this could not be written down.
    pub open spec fn unrecorded(&self) -> bool {
        self.hosted() && steps::done(self.previous) && steps::done(self.deactivated)
            && steps::failure(
            self.recorded,
        ) is Some
    }

    /// What is told where the change has failed for good.
    pub open spec fn failed(&self) -> Option<Seq<char>> {
        if steps::failure(self.childless) is Some {
            steps::failure(self.childless)
        } else if steps::done(self.childless) && steps::failure(self.installed) is Some {
            steps::failure(self.installed)
        } else if steps::done(self.childless) && steps::said(self.installed, false) {
            Some("当前租户未安装插件"@)
        } else if self.admitted() && steps::failure(self.process) is Some {
            steps::failure(self.process)
        } else if self.admitted() && steps::said(self.process, true) {
            steps::failure(self.process_changed)
        } else if self.hosted() && steps::failure(self.previous) is Some {
            steps::failure(self.previous)
        } else if self.hosted() && steps::done(self.previous) && steps::failure(
            self.deactivated,
        ) is Some {
            steps::failure(self.deactivated)
        } else if self.unrecorded() {
            if self.interrupts() && steps::failure(self.previous_resources) is Some {
                steps::failure(self.previous_resources)
            } else if self.interrupts() && steps::done(self.previous_resources) && steps::failure(
                self.previous_activated,
            ) is Some {
                steps::failure(self.previous_activated)
            } else if !self.interrupts() || (steps::done(self.previous_resources) && steps::done(
                self.previous_activated,
            )) {
                steps::failure(self.recorded)
            } else {
                None
            }
        } else {
            None
        }
    }

    /// Whether a step is the one to be taken next.
    pub open spec fn asks(&self, step: RemovalStep) -> bool {
        &&& step is RequireNoChildren <==> self.childless is None
        &&& step is CheckInstalled <==> steps::done(self.childless) && self.installed is None
        &&& step is ReadRuntime <==> self.admitted() && self.process is None
        &&& step is ChangeProcess <==> self.admitted() && steps::said(self.process, true)
            && self.process_changed is None
        &&& step is ReadPrevious <==> self.hosted() && self.previous is None
        &&& step is Deactivate <==> self.hosted() && steps::done(self.previous)
            && self.deactivated is None
        &&& step is Record <==> self.hosted() && steps::done(self.previous) && steps::done(
            self.deactivated,
        ) && self.recorded is None
        &&& step is PreparePreviousResources <==> self.unrecorded() && self.interrupts()
            && self.previous_resources is None
        &&& step is ActivatePrevious <==> self.unrecorded() && self.interrupts() && steps::done(
            self.previous_resources,
        ) && self.previous_activated is None
        &&& step is Succeed <==> {
            ||| self.admitted() && steps::said(self.process, true) && steps::done(
                self.process_changed,
            )
            ||| self.hosted() && steps::done(self.previous) && steps::done(self.deactivated)
                && steps::done(self.recorded)
        }
        &&& step is Fail <==> self.failed() is Some
        &&& step matches RemovalStep::Fail(told) ==> self.failed() == Some(told@)
    }

    /// What is to be done next.
    pub fn next(&self) -> (step: RemovalStep)
        ensures
            self.asks(step),
    {
        match &self.childless {
            None => return RemovalStep::RequireNoChildren,
            Some(Err(told)) => return RemovalStep::Fail(told.clone()),
            Some(Ok(())) => {},
        }
        let installed = match &self.installed {
            None => return RemovalStep::CheckInstalled,
            Some(Err(told)) => return RemovalStep::Fail(told.clone()),
            Some(Ok(installed)) => *installed,
        };
        if !installed {
            return RemovalStep::Fail("当前租户未安装插件".to_owned());
        }
        let process = match &self.process {
            None => return RemovalStep::ReadRuntime,
            Some(Err(told)) => return RemovalStep::Fail(told.clone()),
            Some(Ok(process)) => *process,
        };
        if process {
            return match &self.process_changed {
                None => RemovalStep::ChangeProcess,
                Some(Err(told)) => RemovalStep::Fail(told.clone()),
                Some(Ok(())) => RemovalStep::Succeed,
            };
        }
        let interrupts = match &self.previous {
            None => return RemovalStep::ReadPrevious,
            Some(Err(told)) => return RemovalStep::Fail(told.clone()),
            Some(Ok(active)) => *active,
        };
        match &self.deactivated {
            None => return RemovalStep::Deactivate,
            Some(Err(told)) => return RemovalStep::Fail(told.clone()),
            Some(Ok(())) => {},
        }
        let unrecorded = match &self.recorded {
            None => return RemovalStep::Record,
            Some(Ok(())) => return RemovalStep::Succeed,
            Some(Err(told)) => told,
        };
        if !interrupts {
            return RemovalStep::Fail(unrecorded.clone());
        }
        match &self.previous_resources {
            None => return RemovalStep::PreparePreviousResources,
            Some(Err(told)) => return RemovalStep::Fail(told.clone()),
            Some(Ok(())) => {},
        }
        match &self.previous_activated {
            None => RemovalStep::ActivatePrevious,
            Some(Err(told)) => RemovalStep::Fail(told.clone()),
            Some(Ok(())) => RemovalStep::Fail(unrecorded.clone()),
        }
    }
}

/// A change that could not be written down ends only after the version that was interrupted runs
/// again, or after bringing it back failed.
pub proof fn lemma_unrecorded_removal_is_undone(progress: RemovalProgress)
    requires
        progress.unrecorded(),
        progress.failed() is Some,
        progress.interrupts(),
    ensures
        ({
            ||| steps::done(progress.previous_resources) && steps::done(progress.previous_activated)
                && progress.failed() == steps::failure(progress.recorded)
            ||| progress.failed() == steps::failure(progress.previous_resources)
            ||| progress.failed() == steps::failure(progress.previous_activated)
        }),
{
}

// Restoring

/// What is to be done with an installation when the host starts.
#[derive(Clone, Copy, Debug, PartialEq, Eq, Structural)]
pub enum RestoreStep {
    ActivateProcess,
    Keep,
    Activate,
}

/// Whether a step is what an installation needs when the host starts.
pub open spec fn restores(process: bool, running_digest: Option<&str>, digest: &str,
    step: RestoreStep) -> bool {
    step == if process {
        RestoreStep::ActivateProcess
    } else if text::optional_str(running_digest) == Some(digest@) {
        RestoreStep::Keep
    } else {
        RestoreStep::Activate
    }
}

/// Decides what is to be done with an installation when the host starts: the record of the
/// installation counts, and a component that runs another version is brought to it.
pub fn restore(process: bool, running_digest: Option<&str>, digest: &str) -> (step: RestoreStep)
    ensures
        restores(process, running_digest, digest, step),
{
    if process {
        return RestoreStep::ActivateProcess;
    }
    match running_digest {
        Some(running) => {
            if text::same(running, digest) {
                RestoreStep::Keep
            } else {
                RestoreStep::Activate
            }
        },
        None => RestoreStep::Activate,
    }
}

// Places of components

/// What is known so far of the place where a tenant's component runs.
#[derive(Debug)]
pub struct SlotProgress {
    /// Whether the place is known already.
    pub known: bool,
    pub created: Outcome<()>,
    /// Whether a version is stored that ran there before.
    pub stored: Outcome<bool>,
    pub resources: Outcome<()>,
    pub restored: Outcome<()>,
    /// Whether the place was noted for later.
    pub kept: bool,
}

/// What is to be done next about the place of a component.
#[derive(Debug)]
pub enum SlotStep {
    Create,
    ReadStored,
    PrepareResources,
    Restore,
    Keep,
    Use,
    Fail(String),
}

impl SlotProgress {
    pub fn start(known: bool) -> (progress: SlotProgress)
        ensures
            progress.known == known,
            progress.created is None,
            progress.stored is None,
            progress.resources is None,
            progress.restored is None,
            !progress.kept,
    {
        SlotProgress {
            known,
            created: None,
            stored: None,
            resources: None,
            restored: None,
            kept: false,
        }
    }

    /// A new place was made.
    pub open spec fn made(&self) -> bool {
        !self.known && steps::done(self.created)
    }

    /// A version that ran there before is to be brought back.
    pub open spec fn returning(&self) -> bool {
        self.made() && steps::said(self.stored, true)
    }

    /// What ran in the new place before runs there again; there may be nothing.
    pub open spec fn ready(&self) -> bool {
        ||| self.made() && steps::said(self.stored, false)
        ||| self.returning() && steps::done(self.resources) && steps::done(self.restored)
    }

    /// What is told where there is no such place.
    pub open spec fn failed(&self) -> Option<Seq<char>> {
        if self.known {
            None
        } else if !steps::done(self.created) {
            steps::failure(self.created)
        } else if !steps::done(self.stored) {
            steps::failure(self.stored)
        } else if steps::said(self.stored, false) {
            None
        } else if !steps::done(self.resources) {
            steps::failure(self.resources)
        } else {
            steps::failure(self.restored)
        }
    }

    /// Whether a step is the one to be taken next.
    pub open spec fn asks(&self, step: SlotStep) -> bool {
        &&& step is Create <==> !self.known && self.created is None
        &&& step is ReadStored <==> self.made() && self.stored is None
        &&& step is PrepareResources <==> self.returning() && self.resources is None
        &&& step is Restore <==> self.returning() && steps::done(self.resources)
            && self.restored is None
        &&& step is Keep <==> self.ready() && !self.kept
        &&& step is Use <==> self.known || self.ready() && self.kept
        &&& step is Fail <==> self.failed() is Some
        &&& step matches SlotStep::Fail(told) ==> self.failed() == Some(told@)
    }

    /// What is to be done next: a place that is not known is made, what ran there before is
    /// brought back, and only then is it noted and used.
    pub fn next(&self) -> (step: SlotStep)
        ensures
            self.asks(step),
    {
        if self.known {
            return SlotStep::Use;
        }
        match &self.created {
            None => return SlotStep::Create,
            Some(Err(told)) => return SlotStep::Fail(told.clone()),
            Some(Ok(())) => {},
        }
        let stored = match &self.stored {
            None => return SlotStep::ReadStored,
            Some(Err(told)) => return SlotStep::Fail(told.clone()),
            Some(Ok(stored)) => *stored,
        };
        if stored {
            match &self.resources {
                None => return SlotStep::PrepareResources,
                Some(Err(told)) => return SlotStep::Fail(told.clone()),
                Some(Ok(())) => {},
            }
            match &self.restored {
                None => return SlotStep::Restore,
                Some(Err(told)) => return SlotStep::Fail(told.clone()),
                Some(Ok(())) => {},
            }
        }
        if self.kept {
            SlotStep::Use
        } else {
            SlotStep::Keep
        }
    }
}

/// A new place is noted only where everything that ran there before runs there again.
pub proof fn lemma_unrestored_place_is_not_kept(progress: SlotProgress)
    requires
        progress.returning(),
        !steps::done(progress.restored),
    ensures
        !progress.ready(),
{
}

// Trying a bundle out

/// The tenant under which a bundle is tried out before it is published.
pub const VALIDATION_TENANT: &'static str = "component-publication-validation";

/// What is known so far of a bundle that is tried out.
#[derive(Debug)]
pub struct TrialProgress {
    /// Whether the bundle runs as a process.
    pub process: bool,
    pub prepared: Outcome<()>,
    pub stopped: Outcome<()>,
    pub resources: Outcome<()>,
    pub replaced: Outcome<()>,
    /// Whether the component is active, once that was asked.
    pub active: Option<bool>,
    /// Whether the component was taken down.
    pub deactivated: bool,
}

/// What is to be done next with a bundle that is tried out.
#[derive(Debug)]
pub enum TrialStep {
    PrepareProcess,
    StopProcess,
    PrepareResources,
    Replace,
    ReadDescription,
    Deactivate,
    End,
    Fail(String),
}

impl TrialProgress {
    pub fn start(process: bool) -> (progress: TrialProgress)
        ensures
            progress.process == process,
            progress.prepared is None,
            progress.stopped is None,
            progress.resources is None,
            progress.replaced is None,
            progress.active is None,
            !progress.deactivated,
    {
        TrialProgress {
            process,
            prepared: None,
            stopped: None,
            resources: None,
            replaced: None,
            active: None,
            deactivated: false,
        }
    }

    /// The component was put in place.
    pub open spec fn placed(&self) -> bool {
        !self.process && steps::done(self.resources) && steps::done(self.replaced)
    }

    /// What is told where the bundle does not pass.
    pub open spec fn failed(&self) -> Option<Seq<char>> {
        if self.process {
            if !steps::done(self.prepared) {
                steps::failure(self.prepared)
            } else {
                steps::failure(self.stopped)
            }
        } else if !steps::done(self.resources) {
            steps::failure(self.resources)
        } else if !steps::done(self.replaced) {
            steps::failure(self.replaced)
        } else if self.active == Some(false) {
            Some("候选实例未激活"@)
        } else {
            None
        }
    }

    /// Whether a step is the one to be taken next.
    pub open spec fn asks(&self, step: TrialStep) -> bool {
        &&& step is PrepareProcess <==> self.process && self.prepared is None
        &&& step is StopProcess <==> self.process && steps::done(self.prepared)
            && self.stopped is None
        &&& step is PrepareResources <==> !self.process && self.resources is None
        &&& step is Replace <==> !self.process && steps::done(self.resources)
            && self.replaced is None
        &&& step is ReadDescription <==> self.placed() && self.active is None
        &&& step is Deactivate <==> self.placed() && self.active == Some(true)
            && !self.deactivated
        &&& step is End <==> {
            ||| self.process && steps::done(self.prepared) && steps::done(self.stopped)
            ||| self.placed() && self.active == Some(true) && self.deactivated
        }
        &&& step is Fail <==> self.failed() is Some
        &&& step matches TrialStep::Fail(told) ==> self.failed() == Some(told@)
    }

    /// What is to be done next: the bundle is started, describes itself, and is taken down again.
    pub fn next(&self) -> (step: TrialStep)
        ensures
            self.asks(step),
    {
        if self.process {
            match &self.prepared {
                None => return TrialStep::PrepareProcess,
                Some(Err(told)) => return TrialStep::Fail(told.clone()),
                Some(Ok(())) => {},
            }
            return match &self.stopped {
                None => TrialStep::StopProcess,
                Some(Err(told)) => TrialStep::Fail(told.clone()),
                Some(Ok(())) => TrialStep::End,
            };
        }
        match &self.resources {
            None => return TrialStep::PrepareResources,
            Some(Err(told)) => return TrialStep::Fail(told.clone()),
            Some(Ok(())) => {},
        }
        match &self.replaced {
            None => return TrialStep::Replace,
            Some(Err(told)) => return TrialStep::Fail(told.clone()),
            Some(Ok(())) => {},
        }
        match self.active {
            None => TrialStep::ReadDescription,
            Some(false) => TrialStep::Fail("候选实例未激活".to_owned()),
            Some(true) => if self.deactivated {
                TrialStep::End
            } else {
                TrialStep::Deactivate
            },
        }
    }
}

// Laws

/// A component is installed only where its revision is published and its parent is there: both are
/// asked first, in this order, and the answer is told where one is missing.
pub proof fn lemma_only_published_components_are_installed(progress: InstallProgress,
    step: InstallStep)
    requires
        progress.asks(step),
    ensures
        progress.published is None ==> step is FindPublished,
        (progress.published is Some && progress.published->0 is Err)
            ==> step is Fail && step->Fail_0@ == progress.published->0->Err_0@,
        progress.published == Some(Ok::<bool, String>(false))
            ==> step is Fail && step->Fail_0@ == "插件尚未发布"@,
        progress.published == Some(Ok::<bool, String>(true)) && progress.parent is None
            ==> step is RequireParent,
        progress.published == Some(Ok::<bool, String>(true)) && (progress.parent is Some
            && progress.parent->0 is Err)
            ==> step is Fail && step->Fail_0@ == progress.parent->0->Err_0@,
        step is InstallProcess || step is PrepareResources || step is Activate || step is Record
            || step is Succeed ==> progress.published == Some(Ok::<bool, String>(true))
            && (progress.parent is Some && progress.parent->0 is Ok),
{
}

/// A component that runs as a process is installed as one, and nothing else is done for it.
pub proof fn lemma_process_goes_its_own_way(progress: InstallProgress, step: InstallStep)
    requires
        progress.asks(step),
        progress.published == Some(Ok::<bool, String>(true)),
        (progress.parent is Some && progress.parent->0 is Ok),
        progress.process,
    ensures
        progress.process_installed is None ==> step is InstallProcess,
        (progress.process_installed is Some && progress.process_installed->0 is Err)
            ==> step is Fail && step->Fail_0@ == progress.process_installed->0->Err_0@,
        (progress.process_installed is Some && progress.process_installed->0 is Ok)
            ==> step is Succeed,
{
}

/// Any other component gets its resources, what ran so far is noted, the new version is activated
/// and only then recorded; a failure on the way is told.
pub proof fn lemma_component_is_activated_and_recorded(progress: InstallProgress, step: InstallStep)
    requires
        progress.asks(step),
        progress.published == Some(Ok::<bool, String>(true)),
        (progress.parent is Some && progress.parent->0 is Ok),
        !progress.process,
    ensures
        progress.resources is None ==> step is PrepareResources,
        (progress.resources is Some && progress.resources->0 is Err)
            ==> step is Fail && step->Fail_0@ == progress.resources->0->Err_0@,
        (progress.resources is Some && progress.resources->0 is Ok)
            && progress.previous is None ==> step is ReadPrevious,
        (progress.resources is Some && progress.resources->0 is Ok)
            && (progress.previous is Some && progress.previous->0 is Err)
            ==> step is Fail && step->Fail_0@ == progress.previous->0->Err_0@,
        (progress.resources is Some && progress.resources->0 is Ok)
            && (progress.previous is Some && progress.previous->0 is Ok)
            && progress.activated is None ==> step is Activate,
        (progress.resources is Some && progress.resources->0 is Ok)
            && (progress.previous is Some && progress.previous->0 is Ok)
            && (progress.activated is Some && progress.activated->0 is Err)
            ==> step is Fail && step->Fail_0@ == progress.activated->0->Err_0@,
        (progress.resources is Some && progress.resources->0 is Ok)
            && (progress.previous is Some && progress.previous->0 is Ok)
            && (progress.activated is Some && progress.activated->0 is Ok)
            && progress.recorded is None ==> step is Record,
        (progress.resources is Some && progress.resources->0 is Ok)
            && (progress.previous is Some && progress.previous->0 is Ok)
            && (progress.activated is Some && progress.activated->0 is Ok)
            && (progress.recorded is Some && progress.recorded->0 is Ok) ==> step is Succeed,
{
}

/// A version that runs but could not be recorded is undone: the version before it is brought back
/// with its resources, or the component is taken down where there was none. What is told is the
/// failure to record it, or the failure to undo it.
pub proof fn lemma_unrecorded_version_is_taken_back(progress: InstallProgress, step: InstallStep)
    requires
        progress.asks(step),
        progress.published == Some(Ok::<bool, String>(true)),
        (progress.parent is Some && progress.parent->0 is Ok),
        !progress.process,
        (progress.resources is Some && progress.resources->0 is Ok),
        (progress.previous is Some && progress.previous->0 is Ok),
        (progress.activated is Some && progress.activated->0 is Ok),
        (progress.recorded is Some && progress.recorded->0 is Err),
    ensures
        progress.previous == Some(Ok::<bool, String>(false)) && progress.deactivated is None
            ==> step is Deactivate,
        progress.previous == Some(Ok::<bool, String>(false)) && (progress.deactivated is Some
            && progress.deactivated->0 is Err)
            ==> step is Fail && step->Fail_0@ == progress.deactivated->0->Err_0@,
        progress.previous == Some(Ok::<bool, String>(false)) && (progress.deactivated is Some
            && progress.deactivated->0 is Ok)
            ==> step is Fail && step->Fail_0@ == progress.recorded->0->Err_0@,
        progress.previous == Some(Ok::<bool, String>(true))
            && progress.previous_resources is None ==> step is PreparePreviousResources,
        progress.previous == Some(Ok::<bool, String>(true))
            && (progress.previous_resources is Some && progress.previous_resources->0 is Err)
            ==> step is Fail && step->Fail_0@ == progress.previous_resources->0->Err_0@,
        progress.previous == Some(Ok::<bool, String>(true))
            && (progress.previous_resources is Some && progress.previous_resources->0 is Ok)
            && progress.previous_activated is None ==> step is ActivatePrevious,
        progress.previous == Some(Ok::<bool, String>(true))
            && (progress.previous_resources is Some && progress.previous_resources->0 is Ok)
            && (progress.previous_activated is Some && progress.previous_activated->0 is Err)
            ==> step is Fail && step->Fail_0@ == progress.previous_activated->0->Err_0@,
        progress.previous == Some(Ok::<bool, String>(true))
            && (progress.previous_resources is Some && progress.previous_resources->0 is Ok)
            && (progress.previous_activated is Some && progress.previous_activated->0 is Ok)
            ==> step is Fail && step->Fail_0@ == progress.recorded->0->Err_0@,
{
}

/// A component is disabled or uninstalled only where nothing builds on it and it is installed; a
/// process is changed as one.
pub proof fn lemma_only_childless_components_are_removed(progress: RemovalProgress,
    step: RemovalStep)
    requires
        progress.asks(step),
    ensures
        progress.childless is None ==> step is RequireNoChildren,
        (progress.childless is Some && progress.childless->0 is Err)
            ==> step is Fail && step->Fail_0@ == progress.childless->0->Err_0@,
        (progress.childless is Some && progress.childless->0 is Ok)
            && progress.installed is None ==> step is CheckInstalled,
        (progress.childless is Some && progress.childless->0 is Ok)
            && (progress.installed is Some && progress.installed->0 is Err)
            ==> step is Fail && step->Fail_0@ == progress.installed->0->Err_0@,
        (progress.childless is Some && progress.childless->0 is Ok)
            && progress.installed == Some(Ok::<bool, String>(false))
            ==> step is Fail && step->Fail_0@ == "当前租户未安装插件"@,
        (progress.childless is Some && progress.childless->0 is Ok)
            && progress.installed == Some(Ok::<bool, String>(true)) && progress.process is None
            ==> step is ReadRuntime,
        (progress.childless is Some && progress.childless->0 is Ok)
            && progress.installed == Some(Ok::<bool, String>(true)) && (progress.process is Some
            && progress.process->0 is Err)
            ==> step is Fail && step->Fail_0@ == progress.process->0->Err_0@,
        (progress.childless is Some && progress.childless->0 is Ok)
            && progress.installed == Some(Ok::<bool, String>(true))
            && progress.process == Some(Ok::<bool, String>(true))
            && progress.process_changed is None ==> step is ChangeProcess,
        (progress.childless is Some && progress.childless->0 is Ok)
            && progress.installed == Some(Ok::<bool, String>(true))
            && progress.process == Some(Ok::<bool, String>(true))
            && (progress.process_changed is Some && progress.process_changed->0 is Err)
            ==> step is Fail && step->Fail_0@ == progress.process_changed->0->Err_0@,
        (progress.childless is Some && progress.childless->0 is Ok)
            && progress.installed == Some(Ok::<bool, String>(true))
            && progress.process == Some(Ok::<bool, String>(true))
            && (progress.process_changed is Some && progress.process_changed->0 is Ok)
            ==> step is Succeed,
        step is Deactivate || step is Record || step is Succeed
            ==> (progress.childless is Some && progress.childless->0 is Ok)
            && progress.installed == Some(Ok::<bool, String>(true)) && (progress.process is Some
            && progress.process->0 is Ok),
{
}

/// Any other component is stopped and then the change is recorded; where that fails, what ran
/// before runs again before the failure is told.
pub proof fn lemma_stopped_component_is_recorded_or_brought_back(progress: RemovalProgress,
    step: RemovalStep)
    requires
        progress.asks(step),
        (progress.childless is Some && progress.childless->0 is Ok),
        progress.installed == Some(Ok::<bool, String>(true)),
        progress.process == Some(Ok::<bool, String>(false)),
    ensures
        progress.previous is None ==> step is ReadPrevious,
        (progress.previous is Some && progress.previous->0 is Err)
            ==> step is Fail && step->Fail_0@ == progress.previous->0->Err_0@,
        (progress.previous is Some && progress.previous->0 is Ok)
            && progress.deactivated is None ==> step is Deactivate,
        (progress.previous is Some && progress.previous->0 is Ok)
            && (progress.deactivated is Some && progress.deactivated->0 is Err)
            ==> step is Fail && step->Fail_0@ == progress.deactivated->0->Err_0@,
        (progress.previous is Some && progress.previous->0 is Ok)
            && (progress.deactivated is Some && progress.deactivated->0 is Ok)
            && progress.recorded is None ==> step is Record,
        (progress.previous is Some && progress.previous->0 is Ok)
            && (progress.deactivated is Some && progress.deactivated->0 is Ok)
            && (progress.recorded is Some && progress.recorded->0 is Ok) ==> step is Succeed,
        progress.previous == Some(Ok::<bool, String>(false)) && (progress.deactivated is Some
            && progress.deactivated->0 is Ok) && (progress.recorded is Some
            && progress.recorded->0 is Err)
            ==> step is Fail && step->Fail_0@ == progress.recorded->0->Err_0@,
        progress.previous == Some(Ok::<bool, String>(true)) && (progress.deactivated is Some
            && progress.deactivated->0 is Ok) && (progress.recorded is Some
            && progress.recorded->0 is Err) && progress.previous_resources is None
            ==> step is PreparePreviousResources,
        progress.previous == Some(Ok::<bool, String>(true)) && (progress.deactivated is Some
            && progress.deactivated->0 is Ok) && (progress.recorded is Some
            && progress.recorded->0 is Err) && (progress.previous_resources is Some
            && progress.previous_resources->0 is Err)
            ==> step is Fail && step->Fail_0@ == progress.previous_resources->0->Err_0@,
        progress.previous == Some(Ok::<bool, String>(true)) && (progress.deactivated is Some
            && progress.deactivated->0 is Ok) && (progress.recorded is Some
            && progress.recorded->0 is Err) && (progress.previous_resources is Some
            && progress.previous_resources->0 is Ok) && progress.previous_activated is None
            ==> step is ActivatePrevious,
        progress.previous == Some(Ok::<bool, String>(true)) && (progress.deactivated is Some
            && progress.deactivated->0 is Ok) && (progress.recorded is Some
            && progress.recorded->0 is Err) && (progress.previous_resources is Some
            && progress.previous_resources->0 is Ok) && (progress.previous_activated is Some
            && progress.previous_activated->0 is Err)
            ==> step is Fail && step->Fail_0@ == progress.previous_activated->0->Err_0@,
        progress.previous == Some(Ok::<bool, String>(true)) && (progress.deactivated is Some
            && progress.deactivated->0 is Ok) && (progress.recorded is Some
            && progress.recorded->0 is Err) && (progress.previous_resources is Some
            && progress.previous_resources->0 is Ok) && (progress.previous_activated is Some
            && progress.previous_activated->0 is Ok)
            ==> step is Fail && step->Fail_0@ == progress.recorded->0->Err_0@,
{
}

/// A place that is known is used at once. A new one is made, the version stored for it is brought
/// back with its resources, and only then is the place noted, and only a noted place is used.
pub proof fn lemma_new_place_is_restored_before_use(progress: SlotProgress, step: SlotStep)
    requires
        progress.asks(step),
    ensures
        progress.known ==> step is Use,
        !progress.known && progress.created is None ==> step is Create,
        !progress.known && (progress.created is Some && progress.created->0 is Err)
            ==> step is Fail && step->Fail_0@ == progress.created->0->Err_0@,
        !progress.known && (progress.created is Some && progress.created->0 is Ok)
            && progress.stored is None ==> step is ReadStored,
        !progress.known && (progress.created is Some && progress.created->0 is Ok)
            && (progress.stored is Some && progress.stored->0 is Err)
            ==> step is Fail && step->Fail_0@ == progress.stored->0->Err_0@,
        !progress.known && (progress.created is Some && progress.created->0 is Ok)
            && progress.stored == Some(Ok::<bool, String>(true)) && progress.resources is None
            ==> step is PrepareResources,
        !progress.known && (progress.created is Some && progress.created->0 is Ok)
            && progress.stored == Some(Ok::<bool, String>(true)) && (progress.resources is Some
            && progress.resources->0 is Err)
            ==> step is Fail && step->Fail_0@ == progress.resources->0->Err_0@,
        !progress.known && (progress.created is Some && progress.created->0 is Ok)
            && progress.stored == Some(Ok::<bool, String>(true)) && (progress.resources is Some
            && progress.resources->0 is Ok) && progress.restored is None ==> step is Restore,
        !progress.known && (progress.created is Some && progress.created->0 is Ok)
            && progress.stored == Some(Ok::<bool, String>(true)) && (progress.resources is Some
            && progress.resources->0 is Ok) && (progress.restored is Some
            && progress.restored->0 is Err)
            ==> step is Fail && step->Fail_0@ == progress.restored->0->Err_0@,
        !progress.known && (progress.created is Some && progress.created->0 is Ok)
            && (progress.stored == Some(Ok::<bool, String>(false))
            || progress.stored == Some(Ok::<bool, String>(true)) && (progress.resources is Some
            && progress.resources->0 is Ok) && (progress.restored is Some
            && progress.restored->0 is Ok))
            ==> if progress.kept { step is Use } else { step is Keep },
{
}

/// A bundle that is tried out is started, must become active, and is taken down again before it
/// passes: a process is prepared and stopped, a component replaced, described and deactivated.
pub proof fn lemma_tried_bundle_is_taken_down(progress: TrialProgress, step: TrialStep)
    requires
        progress.asks(step),
    ensures
        progress.process && progress.prepared is None ==> step is PrepareProcess,
        progress.process && (progress.prepared is Some && progress.prepared->0 is Err)
            ==> step is Fail && step->Fail_0@ == progress.prepared->0->Err_0@,
        progress.process && (progress.prepared is Some && progress.prepared->0 is Ok)
            && progress.stopped is None ==> step is StopProcess,
        progress.process && (progress.prepared is Some && progress.prepared->0 is Ok)
            && (progress.stopped is Some && progress.stopped->0 is Err)
            ==> step is Fail && step->Fail_0@ == progress.stopped->0->Err_0@,
        progress.process && (progress.prepared is Some && progress.prepared->0 is Ok)
            && (progress.stopped is Some && progress.stopped->0 is Ok) ==> step is End,
        !progress.process && progress.resources is None ==> step is PrepareResources,
        !progress.process && (progress.resources is Some && progress.resources->0 is Err)
            ==> step is Fail && step->Fail_0@ == progress.resources->0->Err_0@,
        !progress.process && (progress.resources is Some && progress.resources->0 is Ok)
            && progress.replaced is None ==> step is Replace,
        !progress.process && (progress.resources is Some && progress.resources->0 is Ok)
            && (progress.replaced is Some && progress.replaced->0 is Err)
            ==> step is Fail && step->Fail_0@ == progress.replaced->0->Err_0@,
        !progress.process && (progress.resources is Some && progress.resources->0 is Ok)
            && (progress.replaced is Some && progress.replaced->0 is Ok)
            && progress.active is None ==> step is ReadDescription,
        !progress.process && (progress.resources is Some && progress.resources->0 is Ok)
            && (progress.replaced is Some && progress.replaced->0 is Ok)
            && progress.active == Some(false) ==> step is Fail && step->Fail_0@ == "候选实例未激活"@,
        !progress.process && (progress.resources is Some && progress.resources->0 is Ok)
            && (progress.replaced is Some && progress.replaced->0 is Ok)
            && progress.active == Some(true)
            ==> if progress.deactivated { step is End } else { step is Deactivate },
{
}

/// The four changes have four names, each its own.
pub proof fn lemma_names_of_changes(change: Change, action: Seq<char>)
    requires
        action == change.text(),
    ensures
        action == "enable"@ <==> change is Enable,
        action == "rollback"@ <==> change is Rollback,
        action == "disable"@ <==> change is Disable,
        action == "uninstall"@ <==> change is Uninstall,
{
    reveal_strlit("enable");
    reveal_strlit("rollback");
    reveal_strlit("disable");
    reveal_strlit("uninstall");
    assert("enable"@.len() == 6 && "rollback"@.len() == 8 && "disable"@.len() == 7
        && "uninstall"@.len() == 9);
}

/// A component gets the database and the storage that it asks for, each for itself; one that would
/// manage the host or vouch for identities gets no plan at all.
pub proof fn lemma_what_is_prepared(grants: Grants, plan: Option<ResourcePlan>)
    requires
        plans(grants, plan),
    ensures
        plan is None <==> grants.management || grants.identity_provider,
        plan is Some ==> plan->0.database == grants.database && plan->0.storage == grants.storage,
{
}

/// After a start the recorded version runs: a process is activated again, a component that runs the
/// recorded version is left alone, and any other is activated.
pub proof fn lemma_recorded_version_runs_after_a_start(process: bool,
    running_digest: Option<&str>, digest: &str, step: RestoreStep)
    requires
        restores(process, running_digest, digest, step),
    ensures
        process ==> step is ActivateProcess,
        !process && running_digest is Some && running_digest->0@ == digest@ ==> step is Keep,
        !process && running_digest is Some && running_digest->0@ != digest@ ==> step is Activate,
        !process && running_digest is None ==> step is Activate,
{
}

} // verus!
