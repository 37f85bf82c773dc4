//! The local cache of unpacked packages.
use vstd::prelude::*;

use crate::outside;
use crate::runtime::model::PluginRuntime;
use crate::steps;
use crate::steps::Outcome;
use crate::text;

verus! {

/// Why a cached package is not used.
#[derive(Clone, Copy, Debug, PartialEq, Eq, Structural)]
pub enum CacheFault {
    ManifestMismatch,
    ArtifactMismatch,
}

/// What is to be done to put a package into the cache.
#[derive(Clone, Copy, Debug, PartialEq, Eq, Structural)]
pub enum StageStep {
    /// The cached copy is the package.
    Keep,
    /// The package is unpacked beside the cache and moved into it in one go.
    Unpack,
}

/// A cached copy: whether its manifest is the package's, and the bytes of its artifact.
#[derive(Debug)]
pub struct CachedCopy {
    pub same_manifest: bool,
    pub artifact: Vec<u8>,
}

/// Whether the pages of a package are read from its artifact: only those that are data are.
pub fn reads_pages(runtime: PluginRuntime) -> (yes: bool)
    ensures
        yes == (runtime is PageDefinition),
{
    runtime == PluginRuntime::PageDefinition
}

/// Decides what is to be done to put a package into the cache: a copy that is there must have the
/// package's manifest and an artifact with the declared digest.
pub fn stage_publish(cached: &Option<CachedCopy>, artifact_sha256: &str) -> (outcome: Result<
    StageStep,
    CacheFault,
>)
    ensures
        match outcome {
            Ok(StageStep::Unpack) => *cached is None,
            Ok(StageStep::Keep) => *cached is Some && cached->0.same_manifest && text::hex(
                outside::sha256(cached->0.artifact@),
            ) == artifact_sha256@,
            Err(CacheFault::ManifestMismatch) => *cached is Some && !cached->0.same_manifest,
            Err(CacheFault::ArtifactMismatch) => *cached is Some && cached->0.same_manifest
                && text::hex(outside::sha256(cached->0.artifact@)) != artifact_sha256@,
        },
{
    let copy = match cached {
        Some(copy) => copy,
        None => return Ok(StageStep::Unpack),
    };
    if !copy.same_manifest {
        return Err(CacheFault::ManifestMismatch);
    }
    let digest = outside::sha256_hex(copy.artifact.as_slice());
    if !text::same(digest.as_str(), artifact_sha256) {
        return Err(CacheFault::ArtifactMismatch);
    }
    Ok(StageStep::Keep)
}

/// A directory beside the cache, under a random name, into which a package is unpacked.
pub fn fresh_staging_name() -> (name: String)
    ensures
        exists|attempt: u128|
            outside::random_uuid(attempt) && name@ == "staging-package-"@
                + #[trigger] outside::hyphenated(attempt),
{
    let attempt = outside::fresh_uuid();
    staging_name(attempt)
}

/// The directory beside the cache into which a package is unpacked.
pub fn staging_name(attempt: u128) -> (name: String)
    ensures
        name@ == "staging-package-"@ + outside::hyphenated(attempt),
{
    let notation = outside::uuid_text(attempt);
    "staging-package-".to_owned().concat(notation.as_str())
}

/// What is known so far while a package is being put into the cache.
#[derive(Debug)]
pub struct StageProgress {
    /// Whether the package's pages are read from its artifact.
    pub reads_pages: bool,
    /// That the package may be published.
    pub validated: Outcome<()>,
    /// That the pages are well formed and declared.
    pub pages: Outcome<()>,
    /// That there is a cache.
    pub prepared: Outcome<()>,
    /// Whether a copy is kept or the package is unpacked.
    pub decided: Outcome<StageStep>,
    /// That the package was unpacked beside the cache.
    pub unpacked: Outcome<()>,
    /// That the cache has room for it.
    pub room: Outcome<()>,
    /// That it was moved into the cache.
    pub moved: Outcome<()>,
    /// Whether it was tried to remove what was unpacked and not moved.
    pub cleaned: bool,
}

/// What is to be done next while a package is being put into the cache.
#[derive(Debug)]
pub enum StageAction {
    Validate,
    ReadPages,
    PrepareCache,
    Decide,
    Unpack,
    CheckRoom,
    Move,
    Clean,
    Done,
    Fail(String),
}

impl StageProgress {
    pub fn start(runtime: PluginRuntime) -> (progress: StageProgress)
        ensures
            progress.reads_pages == (runtime is PageDefinition),
            progress.validated is None,
            progress.pages is None,
            progress.prepared is None,
            progress.decided is None,
            progress.unpacked is None,
            progress.room is None,
            progress.moved is None,
            !progress.cleaned,
    {
        StageProgress {
            reads_pages: reads_pages(runtime),
            validated: None,
            pages: None,
            prepared: None,
            decided: None,
            unpacked: None,
            room: None,
            moved: None,
            cleaned: false,
        }
    }

    /// The package may be published, and its pages are in order.
    pub open spec fn sound(&self) -> bool {
        steps::done(self.validated) && (self.reads_pages ==> steps::done(self.pages))
    }

    /// It can be decided about the cache.
    pub open spec fn ready(&self) -> bool {
        self.sound() && steps::done(self.prepared)
    }

    /// The copy in the cache is the package.
    pub open spec fn keeps(&self) -> bool {
        self.ready() && match self.decided {
            Some(Ok(step)) => step is Keep,
            _ => false,
        }
    }

    /// The package is unpacked.
    pub open spec fn unpacks(&self) -> bool {
        self.ready() && match self.decided {
            Some(Ok(step)) => step is Unpack,
            _ => false,
        }
    }

    /// What went wrong with the cache.
    pub open spec fn trouble(&self) -> Option<Seq<char>> {
        if !self.ready() {
            None
        } else if !steps::done(self.decided) {
            steps::failure(self.decided)
        } else if self.keeps() {
            None
        } else if !steps::done(self.unpacked) {
            steps::failure(self.unpacked)
        } else if !steps::done(self.room) {
            steps::failure(self.room)
        } else {
            steps::failure(self.moved)
        }
    }

    /// The package is in the cache.
    pub open spec fn cached(&self) -> bool {
        ||| self.keeps()
        ||| self.unpacks() && steps::done(self.unpacked) && steps::done(self.room) && steps::done(
            self.moved,
        )
    }

    /// What is told where the package is not put into the cache.
    pub open spec fn failed(&self) -> Option<Seq<char>> {
        if !steps::done(self.validated) {
            steps::failure(self.validated)
        } else if !self.sound() {
            steps::failure(self.pages)
        } else if !self.ready() {
            steps::failure(self.prepared)
        } else if self.cleaned {
            self.trouble()
        } else {
            None
        }
    }

    /// Whether a step is the one to be taken next.
    pub open spec fn asks(&self, action: StageAction) -> bool {
        &&& action is Validate <==> self.validated is None
        &&& action is ReadPages <==> steps::done(self.validated) && self.reads_pages
            && self.pages is None
        &&& action is PrepareCache <==> self.sound() && self.prepared is None
        &&& action is Decide <==> self.ready() && self.decided is None
        &&& action is Unpack <==> self.unpacks() && self.unpacked is None
        &&& action is CheckRoom <==> self.unpacks() && steps::done(self.unpacked)
            && self.room is None
        &&& action is Move <==> self.unpacks() && steps::done(self.unpacked) && steps::done(
            self.room,
        ) && self.moved is None
        &&& action is Clean <==> (self.cached() || self.trouble() is Some) && !self.cleaned
        &&& action is Done <==> self.cached() && self.cleaned
        &&& action is Fail <==> self.failed() is Some
        &&& action matches StageAction::Fail(told) ==> self.failed() == Some(told@)
    }

    /// What is to be done next: the package is checked before the cache is touched, is moved into
    /// the cache in one go, and nothing is left beside the cache.
    pub fn next(&self) -> (action: StageAction)
        ensures
            self.asks(action),
    {
        match &self.validated {
            None => return StageAction::Validate,
            Some(Err(told)) => return StageAction::Fail(told.clone()),
            Some(Ok(())) => {},
        }
        if self.reads_pages {
            match &self.pages {
                None => return StageAction::ReadPages,
                Some(Err(told)) => return StageAction::Fail(told.clone()),
                Some(Ok(())) => {},
            }
        }
        match &self.prepared {
            None => return StageAction::PrepareCache,
            Some(Err(told)) => return StageAction::Fail(told.clone()),
            Some(Ok(())) => {},
        }
        match &self.decided {
            None => return StageAction::Decide,
            Some(Err(told)) => return self.finish(told),
            Some(Ok(StageStep::Keep)) => {},
            Some(Ok(StageStep::Unpack)) => {
                match &self.unpacked {
                    None => return StageAction::Unpack,
                    Some(Err(told)) => return self.finish(told),
                    Some(Ok(())) => {},
                }
                match &self.room {
                    None => return StageAction::CheckRoom,
                    Some(Err(told)) => return self.finish(told),
                    Some(Ok(())) => {},
                }
                match &self.moved {
                    None => return StageAction::Move,
                    Some(Err(told)) => return self.finish(told),
                    Some(Ok(())) => {},
                }
            },
        }
        if self.cleaned {
            StageAction::Done
        } else {
            StageAction::Clean
        }
    }

    /// Tells of the trouble once everything was cleaned up.
    fn finish(&self, told: &String) -> (action: StageAction)
        ensures
            self.cleaned ==> action is Fail && action->Fail_0@ == told@,
            !self.cleaned ==> action is Clean,
    {
        if self.cleaned {
            StageAction::Fail(told.clone())
        } else {
            StageAction::Clean
        }
    }
}

/// A failure while a package is put into the cache leaves nothing beside the cache.
pub proof fn lemma_failed_staging_is_cleaned(progress: StageProgress)
    requires
        progress.ready(),
        progress.failed() is Some,
    ensures
        progress.cleaned,
        !progress.cached(),
{
}

impl CacheFault {
    /// The text shown for the fault.
    pub open spec fn text(&self) -> Seq<char> {
        match self {
            CacheFault::ManifestMismatch => "插件包缓存清单与内容版本不一致"@,
            CacheFault::ArtifactMismatch => "插件包缓存 artifact SHA-256 不一致"@,
        }
    }

    /// The text shown for the fault.
    pub fn message(&self) -> (message: String)
        ensures
            message@ == self.text(),
    {
        let message = match self {
            CacheFault::ManifestMismatch => "插件包缓存清单与内容版本不一致",
            CacheFault::ArtifactMismatch => "插件包缓存 artifact SHA-256 不一致",
        };
        message.to_owned()
    }
}

/// A package is put into the cache in order: it is checked, and its pages where they are data,
/// before the cache is touched; a copy that is the package is kept, any other package is unpacked
/// beside the cache, must find room, and is moved in one go. Whatever comes of it, what was
/// unpacked is removed before the end is told.
pub proof fn lemma_package_is_staged_in_order(progress: StageProgress, step: StageAction)
    requires
        progress.asks(step),
    ensures
        progress.validated is None ==> step is Validate,
        (progress.validated is Some && progress.validated->0 is Err)
            ==> step is Fail && step->Fail_0@ == progress.validated->0->Err_0@,
        (progress.validated is Some && progress.validated->0 is Ok) && progress.reads_pages
            && progress.pages is None ==> step is ReadPages,
        (progress.validated is Some && progress.validated->0 is Ok) && progress.reads_pages
            && (progress.pages is Some && progress.pages->0 is Err)
            ==> step is Fail && step->Fail_0@ == progress.pages->0->Err_0@,
        (progress.validated is Some && progress.validated->0 is Ok) && (progress.reads_pages
            ==> (progress.pages is Some && progress.pages->0 is Ok)) ==> {
            let unpacks = (progress.prepared is Some && progress.prepared->0 is Ok)
                && (progress.decided is Some && progress.decided->0 is Ok)
                && progress.decided->0->Ok_0 is Unpack;
            let keeps = (progress.prepared is Some && progress.prepared->0 is Ok)
                && (progress.decided is Some && progress.decided->0 is Ok)
                && progress.decided->0->Ok_0 is Keep;
            &&& progress.prepared is None ==> step is PrepareCache
            &&& (progress.prepared is Some && progress.prepared->0 is Err)
                ==> step is Fail && step->Fail_0@ == progress.prepared->0->Err_0@
            &&& (progress.prepared is Some && progress.prepared->0 is Ok)
                && progress.decided is None ==> step is Decide
            &&& (progress.prepared is Some && progress.prepared->0 is Ok)
                && (progress.decided is Some && progress.decided->0 is Err)
                && !progress.cleaned ==> step is Clean
            &&& (progress.prepared is Some && progress.prepared->0 is Ok)
                && (progress.decided is Some && progress.decided->0 is Err) && progress.cleaned
                ==> step is Fail && step->Fail_0@ == progress.decided->0->Err_0@
            &&& keeps && !progress.cleaned ==> step is Clean
            &&& keeps && progress.cleaned ==> step is Done
            &&& unpacks && progress.unpacked is None ==> step is Unpack
            &&& unpacks && (progress.unpacked is Some && progress.unpacked->0 is Err)
                && !progress.cleaned ==> step is Clean
            &&& unpacks && (progress.unpacked is Some && progress.unpacked->0 is Err)
                && progress.cleaned ==> step is Fail
                && step->Fail_0@ == progress.unpacked->0->Err_0@
            &&& unpacks && (progress.unpacked is Some && progress.unpacked->0 is Ok)
                && progress.room is None ==> step is CheckRoom
            &&& unpacks && (progress.unpacked is Some && progress.unpacked->0 is Ok)
                && (progress.room is Some && progress.room->0 is Err) && !progress.cleaned
                ==> step is Clean
            &&& unpacks && (progress.unpacked is Some && progress.unpacked->0 is Ok)
                && (progress.room is Some && progress.room->0 is Err) && progress.cleaned
                ==> step is Fail && step->Fail_0@ == progress.room->0->Err_0@
            &&& unpacks && (progress.unpacked is Some && progress.unpacked->0 is Ok)
                && (progress.room is Some && progress.room->0 is Ok) && progress.moved is None
                ==> step is Move
            &&& unpacks && (progress.unpacked is Some && progress.unpacked->0 is Ok)
                && (progress.room is Some && progress.room->0 is Ok) && (progress.moved is Some
                && progress.moved->0 is Err) && !progress.cleaned
                ==> step is Clean
            &&& unpacks && (progress.unpacked is Some && progress.unpacked->0 is Ok)
                && (progress.room is Some && progress.room->0 is Ok) && (progress.moved is Some
                && progress.moved->0 is Err) && progress.cleaned
                ==> step is Fail && step->Fail_0@ == progress.moved->0->Err_0@
            &&& unpacks && (progress.unpacked is Some && progress.unpacked->0 is Ok)
                && (progress.room is Some && progress.room->0 is Ok) && (progress.moved is Some
                && progress.moved->0 is Ok) && !progress.cleaned
                ==> step is Clean
            &&& unpacks && (progress.unpacked is Some && progress.unpacked->0 is Ok)
                && (progress.room is Some && progress.room->0 is Ok) && (progress.moved is Some
                && progress.moved->0 is Ok) && progress.cleaned
                ==> step is Done
        },
{
}

/// Each of these is told in its own words.
pub proof fn lemma_told_cache_fault(fault: CacheFault)
    ensures
        fault is ManifestMismatch ==> fault.text() == "插件包缓存清单与内容版本不一致"@,
        fault is ArtifactMismatch ==> fault.text() == "插件包缓存 artifact SHA-256 不一致"@,
{
}

} // verus!
