//! The supervisor of process containers: which may start, with which arguments, and which are
//! left over.
use vstd::prelude::*;

use crate::outside;
use crate::runtime::server::components::process::model;
use crate::runtime::server::components::process::model::{Start, Stop, INSTANCE_ID_CHARS};
use crate::steps;
use crate::steps::Outcome;
use crate::text;

verus! {

/// The longest name of a tenant, in bytes.
pub const MAX_TENANT_BYTES: usize = 128;

/// How many digits of the root's digest mark the containers of a host.
pub const PREFIX_DIGITS: usize = 8;

/// Why a process is not started.
#[derive(Clone, Debug, PartialEq, Eq)]
pub enum StartFault<T> {
    Ownership,
    DigestMismatch,
    VersionUnreadable(T),
    VersionMismatch,
    NotAProcess,
    ImageForbidden,
    ArtifactMismatch,
    StaleInstance,
}

impl View for StartFault<String> {
    type V = StartFault<Seq<char>>;

    open spec fn view(&self) -> StartFault<Seq<char>> {
        match self {
            StartFault::Ownership => StartFault::Ownership,
            StartFault::DigestMismatch => StartFault::DigestMismatch,
            StartFault::VersionUnreadable(told) => StartFault::VersionUnreadable(told@),
            StartFault::VersionMismatch => StartFault::VersionMismatch,
            StartFault::NotAProcess => StartFault::NotAProcess,
            StartFault::ImageForbidden => StartFault::ImageForbidden,
            StartFault::ArtifactMismatch => StartFault::ArtifactMismatch,
            StartFault::StaleInstance => StartFault::StaleInstance,
        }
    }
}

/// What the supervisor finds of a container.
#[derive(Clone, Copy, Debug, PartialEq, Eq, Structural)]
pub enum ContainerStep {
    Done,
    Create,
}

// Starting

/// A start that says to whom the process belongs: a component, a tenant with a short name, and
/// the digest of a bundle.
pub open spec fn owned(start: Start) -> bool {
    &&& start.source != 0
    &&& start.tenant@.len() > 0
    &&& text::byte_len(start.tenant@) <= MAX_TENANT_BYTES
    &&& start.revision@.len() == 64
    &&& text::all_hex(start.revision@)
}

/// Whether a start says to whom the process belongs.
pub fn is_owned(start: &Start) -> (yes: bool)
    ensures
        yes == owned(*start),
{
    start.source != 0 && !start.tenant.as_str().is_empty() && start.tenant.as_str().as_bytes().len()
        <= MAX_TENANT_BYTES && text::is_hex_text(start.revision.as_str(), 64)
}

/// Whether an item is one of those in a list with commas.
pub open spec fn listed(list: Seq<char>, item: Seq<char>) -> bool {
    text::split_on(list, ',').contains(item)
}

/// Whether an item is one of those in a list with commas.
pub fn is_listed(list: &str, item: &str) -> (yes: bool)
    ensures
        yes == listed(list@, item@),
{
    let items = text::split(list, ',');
    text::holds(&items, item)
}

/// Why a bundle is not started for a request.
pub open spec fn bundle_fault(
    start: Start,
    digest: Seq<char>,
    version: Result<bool, Seq<char>>,
    image: Option<Seq<char>>,
    images: Seq<char>,
) -> Option<StartFault<Seq<char>>> {
    if digest != start.revision@ {
        Some(StartFault::DigestMismatch)
    } else if version is Err {
        Some(StartFault::VersionUnreadable(version->Err_0))
    } else if !version->Ok_0 {
        Some(StartFault::VersionMismatch)
    } else if image is None {
        Some(StartFault::NotAProcess)
    } else if !listed(images, image->0) {
        Some(StartFault::ImageForbidden)
    } else {
        None
    }
}

/// Checks a bundle against the request to start it, given whether the host's version meets the
/// bundle's requirement.
pub fn check_versioned_bundle(
    start: &Start,
    digest: &str,
    version: Result<bool, String>,
    image: Option<&str>,
    images: &str,
) -> (outcome: Result<(), StartFault<String>>)
    ensures
        ({
            let said = match version {
                Ok(meets) => Ok(meets),
                Err(told) => Err(told@),
            };
            let fault = bundle_fault(*start, digest@, said, text::optional_str(image), images@);
            match outcome {
                Ok(()) => fault is None,
                Err(found) => fault == Some(found@),
            }
        }),
{
    if !text::same(digest, start.revision.as_str()) {
        return Err(StartFault::DigestMismatch);
    }
    match version {
        Err(told) => return Err(StartFault::VersionUnreadable(told)),
        Ok(false) => return Err(StartFault::VersionMismatch),
        Ok(true) => {},
    }
    match image {
        None => Err(StartFault::NotAProcess),
        Some(image) => {
            if !is_listed(images, image) {
                return Err(StartFault::ImageForbidden);
            }
            Ok(())
        },
    }
}

/// Checks a bundle against the request to start it: it has the digest asked for, runs on this
/// host, is a process, and its image is one that the host allows.
pub fn check_bundle(
    start: &Start,
    digest: &str,
    requirement: &str,
    host_version: &str,
    image: Option<&str>,
    images: &str,
) -> (outcome: Result<(), StartFault<String>>)
    ensures
        ({
            let fault = bundle_fault(
                *start,
                digest@,
                outside::version_meets(requirement@, host_version@),
                text::optional_str(image),
                images@,
            );
            match outcome {
                Ok(()) => fault is None,
                Err(found) => fault == Some(found@),
            }
        }),
{
    let version = outside::meets_requirement(requirement, host_version);
    check_versioned_bundle(start, digest, version, image, images)
}

/// Whether an outcome is that of comparing the file that would be executed.
pub open spec fn seals(symlink: bool, artifact: &[u8], component: &[u8], outcome: Result<(),
    StartFault<String>>) -> bool {
    &&& outcome is Ok <==> !symlink && artifact@ == component@
    &&& outcome matches Err(fault) ==> fault is ArtifactMismatch
}

/// Checks the file that would be executed: no link, and exactly the bundle's component.
pub fn check_artifact(symlink: bool, artifact: &[u8], component: &[u8]) -> (outcome: Result<
    (),
    StartFault<String>,
>)
    ensures
        seals(symlink, artifact, component, outcome),
{
    if symlink || !text::same_bytes(artifact, component) {
        return Err(StartFault::ArtifactMismatch);
    }
    Ok(())
}

/// Whether an outcome is what the state of a container asks for.
pub open spec fn settles(status: Option<&str>, outcome: Result<ContainerStep,
    StartFault<String>>) -> bool {
    match outcome {
        Ok(ContainerStep::Done) => status is Some && text::trimmed(status->0@) == "true"@,
        Ok(ContainerStep::Create) => status is None,
        Err(fault) => status is Some && text::trimmed(status->0@) != "true"@
            && fault is StaleInstance,
    }
}

/// Decides what is to be done about a container, from what the engine says of it: one that runs
/// is kept, one that does not stands in the way, and one that is not there is created.
pub fn container_step(status: Option<&str>) -> (outcome: Result<ContainerStep, StartFault<String>>)
    ensures
        settles(status, outcome),
{
    match status {
        None => Ok(ContainerStep::Create),
        Some(status) => {
            let state = text::trim(status);
            if text::same(state.as_str(), "true") {
                Ok(ContainerStep::Done)
            } else {
                Err(StartFault::StaleInstance)
            }
        },
    }
}

/// What is known so far while a process is being started.
#[derive(Debug)]
pub struct StartProgress {
    /// Whether the request says to whom the process belongs.
    pub owned: bool,
    /// Whether the directory of the instance lies directly in that of all processes.
    pub placed: Outcome<bool>,
    /// What is wrong with the bundle in the directory, where it could be read.
    pub bundle: Outcome<Option<StartFault<String>>>,
    /// What is wrong with the file that would be executed, where it could be read.
    pub artifact: Outcome<Option<StartFault<String>>>,
    /// That the file cannot be changed any more.
    pub closed: Outcome<()>,
    /// What the engine says of the container, where it knows it.
    pub status: Option<Option<String>>,
    /// That the image is there.
    pub image: Outcome<()>,
    pub run: Outcome<()>,
}

/// What is to be done next while a process is being started.
#[derive(Debug)]
pub enum StartStep {
    CheckDirectory,
    CheckBundle,
    CheckArtifact,
    CloseArtifact,
    InspectContainer,
    InspectImage,
    Run,
    Done,
    Refuse(String),
}

impl StartProgress {
    pub fn start(owned: bool) -> (progress: StartProgress)
        ensures
            progress.owned == owned,
            progress.placed is None,
            progress.bundle is None,
            progress.artifact is None,
            progress.closed is None,
            progress.status is None,
            progress.image is None,
            progress.run is None,
    {
        StartProgress {
            owned,
            placed: None,
            bundle: None,
            artifact: None,
            closed: None,
            status: None,
            image: None,
            run: None,
        }
    }

    /// The directory of the instance is where it belongs.
    pub open spec fn located(&self) -> bool {
        self.owned && steps::said(self.placed, true)
    }

    /// The bundle may be started.
    pub open spec fn admitted(&self) -> bool {
        self.located() && without_fault(self.bundle)
    }

    /// The file that would be executed is the bundle's and stays so.
    pub open spec fn sealed(&self) -> bool {
        self.admitted() && without_fault(self.artifact) && steps::done(self.closed)
    }

    /// The container runs already.
    pub open spec fn running(&self) -> bool {
        self.sealed() && match self.status {
            Some(Some(status)) => text::trimmed(status@) == "true"@,
            _ => false,
        }
    }

    /// There is no such container.
    pub open spec fn absent(&self) -> bool {
        self.sealed() && self.status == Some(None::<String>)
    }

    /// What is told where the process is not started.
    pub open spec fn refusal(&self) -> Option<Seq<char>> {
        if !self.owned {
            Some(StartFault::Ownership.text())
        } else if !self.located() {
            if steps::said(self.placed, false) {
                Some("process 目录无效"@)
            } else {
                steps::failure(self.placed)
            }
        } else if !self.admitted() {
            fault_text(self.bundle)
        } else if !without_fault(self.artifact) {
            fault_text(self.artifact)
        } else if !self.sealed() {
            steps::failure(self.closed)
        } else if self.status is None || self.running() {
            None
        } else if !self.absent() {
            Some(StartFault::StaleInstance.text())
        } else if !steps::done(self.image) {
            match self.image {
                Some(Err(told)) => Some(steps::explained("process 镜像尚未预置"@, told@)),
                _ => None,
            }
        } else {
            match self.run {
                Some(Err(told)) => Some(steps::explained("启动 v2 process 失败"@, told@)),
                _ => None,
            }
        }
    }

    /// Whether a step is the one to be taken next.
    pub open spec fn asks(&self, step: StartStep) -> bool {
        &&& step is CheckDirectory <==> self.owned && self.placed is None
        &&& step is CheckBundle <==> self.located() && self.bundle is None
        &&& step is CheckArtifact <==> self.admitted() && self.artifact is None
        &&& step is CloseArtifact <==> self.admitted() && without_fault(self.artifact)
            && self.closed is None
        &&& step is InspectContainer <==> self.sealed() && self.status is None
        &&& step is InspectImage <==> self.absent() && self.image is None
        &&& step is Run <==> self.absent() && steps::done(self.image) && self.run is None
        &&& step is Done <==> {
            ||| self.running()
            ||| self.absent() && steps::done(self.image) && steps::done(self.run)
        }
        &&& step is Refuse <==> self.refusal() is Some
        &&& step matches StartStep::Refuse(told) ==> self.refusal() == Some(told@)
    }

    /// What is to be done next: everything about the process is checked before its container is
    /// looked for, and a container is run only where there is none.
    pub fn next(&self) -> (step: StartStep)
        ensures
            self.asks(step),
    {
        if !self.owned {
            return StartStep::Refuse(StartFault::Ownership.message());
        }
        match &self.placed {
            None => return StartStep::CheckDirectory,
            Some(Err(told)) => return StartStep::Refuse(told.clone()),
            Some(Ok(false)) => return StartStep::Refuse("process 目录无效".to_owned()),
            Some(Ok(true)) => {},
        }
        match &self.bundle {
            None => return StartStep::CheckBundle,
            Some(Err(told)) => return StartStep::Refuse(told.clone()),
            Some(Ok(Some(fault))) => return StartStep::Refuse(fault.message()),
            Some(Ok(None)) => {},
        }
        match &self.artifact {
            None => return StartStep::CheckArtifact,
            Some(Err(told)) => return StartStep::Refuse(told.clone()),
            Some(Ok(Some(fault))) => return StartStep::Refuse(fault.message()),
            Some(Ok(None)) => {},
        }
        match &self.closed {
            None => return StartStep::CloseArtifact,
            Some(Err(told)) => return StartStep::Refuse(told.clone()),
            Some(Ok(())) => {},
        }
        let status = match &self.status {
            None => return StartStep::InspectContainer,
            Some(Some(status)) => Some(status.as_str()),
            Some(None) => None,
        };
        match container_step(status) {
            Ok(ContainerStep::Done) => return StartStep::Done,
            Err(fault) => return StartStep::Refuse(fault.message()),
            Ok(ContainerStep::Create) => {},
        }
        match &self.image {
            None => return StartStep::InspectImage,
            Some(Err(told)) => return StartStep::Refuse(
                steps::explain("process 镜像尚未预置", told.as_str()),
            ),
            Some(Ok(())) => {},
        }
        match &self.run {
            None => StartStep::Run,
            Some(Err(told)) => StartStep::Refuse(
                steps::explain("启动 v2 process 失败", told.as_str()),
            ),
            Some(Ok(())) => StartStep::Done,
        }
    }
}

/// Whether something was checked and nothing is wrong with it.
pub open spec fn without_fault(checked: Outcome<Option<StartFault<String>>>) -> bool {
    match checked {
        Some(Ok(None)) => true,
        _ => false,
    }
}

/// What is told of something that was checked.
pub open spec fn fault_text(checked: Outcome<Option<StartFault<String>>>) -> Option<Seq<char>> {
    match checked {
        Some(Err(told)) => Some(told@),
        Some(Ok(Some(fault))) => Some(fault@.text()),
        _ => None,
    }
}

/// Nothing is executed but the checked file of a bundle that the host allows.
pub proof fn lemma_only_checked_files_run(progress: StartProgress)
    requires
        progress.absent(),
    ensures
        progress.owned,
        without_fault(progress.bundle),
        without_fault(progress.artifact),
        steps::done(progress.closed),
{
}

impl StartFault<Seq<char>> {
    /// The text shown for the fault.
    pub open spec fn text(&self) -> Seq<char> {
        match self {
            StartFault::Ownership => "process 归属无效"@,
            StartFault::DigestMismatch => "process 包摘要不匹配"@,
            StartFault::VersionUnreadable(told) => *told,
            StartFault::VersionMismatch => "process 宿主版本不匹配"@,
            StartFault::NotAProcess => "不是 process 包"@,
            StartFault::ImageForbidden => "process 运行镜像未获宿主授权"@,
            StartFault::ArtifactMismatch => "process 可执行文件不属于已校验整包"@,
            StartFault::StaleInstance => "旧 process 实例尚未清理"@,
        }
    }
}

impl StartFault<String> {
    /// The text shown for the fault.
    pub fn message(&self) -> (message: String)
        ensures
            message@ == self@.text(),
    {
        let message = match self {
            StartFault::Ownership => "process 归属无效",
            StartFault::DigestMismatch => "process 包摘要不匹配",
            StartFault::VersionUnreadable(told) => told.as_str(),
            StartFault::VersionMismatch => "process 宿主版本不匹配",
            StartFault::NotAProcess => "不是 process 包",
            StartFault::ImageForbidden => "process 运行镜像未获宿主授权",
            StartFault::ArtifactMismatch => "process 可执行文件不属于已校验整包",
            StartFault::StaleInstance => "旧 process 实例尚未清理",
        };
        message.to_owned()
    }
}

// Names

/// The mark of the containers of a host, from the digest of its root directory.
pub open spec fn container_prefix(root: Seq<u8>) -> Seq<char> {
    "aio-v2-"@ + text::hex(outside::sha256(root)).take(PREFIX_DIGITS as int) + "-"@
}

/// The mark of the containers of a host.
pub fn prefix(root: &[u8]) -> (mark: String)
    ensures
        mark@ == container_prefix(root@),
{
    let digest = outside::sha256_hex(root);
    let chars = text::chars_of(digest.as_str());
    let start = text::text_of(&chars, 0, PREFIX_DIGITS);
    assert(start@ =~= digest@.take(PREFIX_DIGITS as int));
    "aio-v2-".to_owned().concat(start.as_str()).concat("-")
}

/// Whether a request to stop names an instance.
pub open spec fn names_instance(id: Seq<char>) -> bool {
    id.len() == INSTANCE_ID_CHARS && text::all_hex(id)
}

/// Whether a name is that of the container that a request stops.
pub open spec fn stops(request: &Stop, mark: &str, name: Option<String>) -> bool {
    match name {
        Some(name) => names_instance(request.id@) && name@ == mark@ + request.id@,
        None => !names_instance(request.id@),
    }
}

/// The name of the container to stop, where the request names an instance.
pub fn stop(request: &Stop, mark: &str) -> (name: Option<String>)
    ensures
        stops(request, mark, name),
{
    if !text::is_hex_text(request.id.as_str(), INSTANCE_ID_CHARS) {
        return None;
    }
    Some(mark.to_owned().concat(request.id.as_str()))
}

// Leftovers

/// The names of the instances that should run.
pub open spec fn active_ids(starts: Seq<Start>) -> Seq<Seq<char>> {
    starts.map_values(|s: Start| model::instance_id(s))
}

/// The instances among the containers that carry the mark and should not run, in order.
pub open spec fn leftovers(
    names: Seq<Seq<char>>,
    mark: Seq<char>,
    active: Seq<Seq<char>>,
) -> Seq<Seq<char>>
    decreases names.len(),
{
    if names.len() == 0 {
        Seq::empty()
    } else {
        let earlier = leftovers(names.drop_last(), mark, active);
        let name = names.last();
        if mark.is_prefix_of(name) && !active.contains(name.skip(mark.len() as int)) {
            earlier.push(name.skip(mark.len() as int))
        } else {
            earlier
        }
    }
}

/// The names of the instances that should run.
fn ids_of(starts: &Vec<Start>) -> (ids: Vec<String>)
    ensures
        text::texts(ids@) == active_ids(starts@),
{
    let mut ids: Vec<String> = Vec::new();
    let mut i: usize = 0;
    while i < starts.len()
        invariant
            i <= starts@.len(),
            text::texts(ids@) == active_ids(starts@).take(i as int),
        decreases starts@.len() - i,
    {
        let ghost before = text::texts(ids@);
        let id = starts[i].id();
        let ghost shown = id@;
        ids.push(id);
        assert(text::texts(ids@) =~= before.push(shown));
        i += 1;
        assert(text::texts(ids@) =~= active_ids(starts@).take(i as int));
    }
    assert(active_ids(starts@).take(i as int) =~= active_ids(starts@));
    ids
}

/// The instances to stop: those of the host's containers that no start accounts for.
pub fn reconcile(starts: &Vec<Start>, containers: &str, mark: &str) -> (orphans: Vec<String>)
    ensures
        text::texts(orphans@) == leftovers(
            text::lines_of(containers@),
            mark@,
            active_ids(starts@),
        ),
{
    let active = ids_of(starts);
    let names = text::lines(containers);
    let ghost rows = text::lines_of(containers@);
    let mut orphans: Vec<String> = Vec::new();
    let mut i: usize = 0;
    while i < names.len()
        invariant
            i <= names@.len(),
            text::texts(names@) == rows,
            text::texts(active@) == active_ids(starts@),
            text::texts(orphans@) == leftovers(
                rows.take(i as int),
                mark@,
                active_ids(starts@),
            ),
        decreases names@.len() - i,
    {
        let name = names[i].as_str();
        assert(rows[i as int] == name@);
        assert(rows.take(i as int + 1).drop_last() =~= rows.take(i as int));
        match text::strip_prefix(name, mark) {
            Some(id) => {
                assert(id@ =~= name@.skip(mark@.len() as int));
                if !text::holds(&active, id.as_str()) {
                    let ghost before = text::texts(orphans@);
                    let ghost shown = id@;
                    orphans.push(id);
                    assert(text::texts(orphans@) =~= before.push(shown));
                }
            },
            None => {},
        }
        i += 1;
    }
    assert(rows.take(i as int) =~= rows);
    orphans
}

/// No instance that should run is stopped.
pub proof fn lemma_active_instances_stay(
    names: Seq<Seq<char>>,
    mark: Seq<char>,
    active: Seq<Seq<char>>,
)
    ensures
        forall|i: int|
            0 <= i < leftovers(names, mark, active).len() ==> !active.contains(
                #[trigger] leftovers(names, mark, active)[i],
            ),
    decreases names.len(),
{
    if names.len() > 0 {
        lemma_active_instances_stay(names.drop_last(), mark, active);
        let earlier = leftovers(names.drop_last(), mark, active);
        let all = leftovers(names, mark, active);
        assert forall|i: int| 0 <= i < all.len() implies !active.contains(#[trigger] all[i]) by {
            if i < earlier.len() {
                assert(all[i] == earlier[i]);
            }
        }
    }
}

// Arguments

/// The arguments that every container gets: no network, nothing of the host to write to, no
/// privileges, and bounded use of processes, memory, processors and files.
pub open spec fn fixed_arguments() -> Seq<Seq<char>> {
    seq![
        "run"@,
        "--detach"@,
        "--rm"@,
        "--pull=never"@,
        "--network=none"@,
        "--read-only"@,
        "--init"@,
        "--user=65532:65532"@,
        "--cap-drop=ALL"@,
        "--security-opt=no-new-privileges:true"@,
        "--pids-limit=256"@,
        "--memory=1073741824"@,
        "--memory-swap=1073741824"@,
        "--cpus=2"@,
        "--ulimit=nofile=1024:1024"@,
        "--tmpfs=/tmp:rw,noexec,nosuid,nodev,size=16777216"@,
        "--ipc=private"@,
        "--env=AIO_PLUGIN_CONFIG=/grant/config.json"@,
        "--env=AIO_PLUGIN_SOCKET=/aio/service.sock"@,
        "--stop-timeout=15"@,
        "--log-driver=local"@,
        "--log-opt=max-size=10m"@,
        "--log-opt=max-file=2"@,
        "--label=io.addzero.aio.v2=true"@,
    ]
}

/// The argument that binds a directory of the instance into its container.
pub open spec fn mount_argument(path: Seq<char>, source: Seq<char>, target: Seq<char>) -> Seq<
    char,
> {
    "--mount=type=bind,src="@ + path + "/"@ + source + ",dst="@ + target
}

/// All the arguments of a container: only the directory of its sockets can be written to.
pub open spec fn container_arguments(path: Seq<char>, name: Seq<char>, image: Seq<char>) -> Seq<
    Seq<char>,
> {
    fixed_arguments() + seq![
        "--name="@ + name,
        mount_argument(path, "package"@, "/plugin"@) + ",readonly"@,
        mount_argument(path, "grant"@, "/grant"@) + ",readonly"@,
        mount_argument(path, "broker"@, "/broker"@) + ",readonly"@,
        mount_argument(path, "database"@, "/database"@) + ",readonly"@,
        mount_argument(path, "runtime"@, "/aio"@),
        "--entrypoint=/plugin/server"@,
        image,
    ]
}

/// The argument that binds a directory of the instance into its container.
fn mount(path: &str, source: &str, target: &str) -> (argument: String)
    ensures
        argument@ == mount_argument(path@, source@, target@),
{
    "--mount=type=bind,src=".to_owned().concat(path).concat("/").concat(source).concat(
        ",dst=",
    ).concat(target)
}

/// The arguments with which a container is started. A comma in the path would add options to the
/// mounts, so such a path is refused.
pub fn arguments(path: &str, name: &str, image: &str) -> (arguments: Option<Vec<String>>)
    ensures
        match arguments {
            Some(arguments) => !path@.contains(',') && text::texts(arguments@)
                == container_arguments(path@, name@, image@),
            None => path@.contains(','),
        },
{
    let chars = text::chars_of(path);
    let comma = text::find(&chars, ',');
    proof {
        text::lemma_first_index(path@, ',');
    }
    if comma < chars.len() {
        return None;
    }
    let fixed: Vec<String> = vec![
        "run".to_owned(),
        "--detach".to_owned(),
        "--rm".to_owned(),
        "--pull=never".to_owned(),
        "--network=none".to_owned(),
        "--read-only".to_owned(),
        "--init".to_owned(),
        "--user=65532:65532".to_owned(),
        "--cap-drop=ALL".to_owned(),
        "--security-opt=no-new-privileges:true".to_owned(),
        "--pids-limit=256".to_owned(),
        "--memory=1073741824".to_owned(),
        "--memory-swap=1073741824".to_owned(),
        "--cpus=2".to_owned(),
        "--ulimit=nofile=1024:1024".to_owned(),
        "--tmpfs=/tmp:rw,noexec,nosuid,nodev,size=16777216".to_owned(),
        "--ipc=private".to_owned(),
        "--env=AIO_PLUGIN_CONFIG=/grant/config.json".to_owned(),
        "--env=AIO_PLUGIN_SOCKET=/aio/service.sock".to_owned(),
        "--stop-timeout=15".to_owned(),
        "--log-driver=local".to_owned(),
        "--log-opt=max-size=10m".to_owned(),
        "--log-opt=max-file=2".to_owned(),
        "--label=io.addzero.aio.v2=true".to_owned(),
    ];
    assert(text::texts(fixed@) =~= fixed_arguments());
    let ghost all = fixed@;
    let mut arguments = fixed;
    arguments.push("--name=".to_owned().concat(name));
    arguments.push(mount(path, "package", "/plugin").concat(",readonly"));
    arguments.push(mount(path, "grant", "/grant").concat(",readonly"));
    arguments.push(mount(path, "broker", "/broker").concat(",readonly"));
    arguments.push(mount(path, "database", "/database").concat(",readonly"));
    arguments.push(mount(path, "runtime", "/aio"));
    arguments.push("--entrypoint=/plugin/server".to_owned());
    arguments.push(image.to_owned());
    proof {
        let shown = text::texts(arguments@);
        let expected = container_arguments(path@, name@, image@);
        assert(shown.take(24) =~= text::texts(all));
        assert(expected.take(24) =~= fixed_arguments());
        assert forall|i: int| 0 <= i < 24 implies shown[i] == expected[i] by {
            assert(shown[i] == shown.take(24)[i]);
            assert(expected[i] == expected.take(24)[i]);
        }
        assert(shown =~= expected);
    }
    Some(arguments)
}

// Laws

/// A process belongs to a component, to a tenant with a name of at most 128 bytes, and to a bundle
/// with a digest of 64 digits.
pub proof fn lemma_owned_starts(start: Start)
    ensures
        owned(start) <==> start.source != 0 && start.tenant@.len() > 0
            && vstd::utf8::encode_utf8(start.tenant@).len() <= 128
            && start.revision@.len() == 64 && forall|i: int| 0 <= i < start.revision@.len()
            ==> text::is_hex(#[trigger] start.revision@[i]),
{
}

/// A list names what stands between its commas, and nothing else.
pub proof fn lemma_listed(list: Seq<char>, item: Seq<char>)
    ensures
        listed(list, item) <==> exists|i: int| 0 <= i < text::split_on(list, ',').len()
            && #[trigger] text::split_on(list, ',')[i] == item,
{
}

/// A bundle is started where it has the digest asked for, the host has the version it needs, it is
/// a process, and the host allows its image. What is told is the first thing that is wrong.
pub proof fn lemma_which_bundles_start(start: Start, digest: Seq<char>, version: Result<bool,
    Seq<char>>, image: Option<Seq<char>>, images: Seq<char>)
    ensures
        ({
            let fault = bundle_fault(start, digest, version, image, images);
            let same = digest == start.revision@;
            let fits = version == Ok::<bool, Seq<char>>(true);
            &&& !same ==> fault == Some(StartFault::<Seq<char>>::DigestMismatch)
            &&& same && version is Err ==> fault
                == Some(StartFault::VersionUnreadable(version->Err_0))
            &&& same && version == Ok::<bool, Seq<char>>(false)
                ==> fault == Some(StartFault::<Seq<char>>::VersionMismatch)
            &&& same && fits && image is None
                ==> fault == Some(StartFault::<Seq<char>>::NotAProcess)
            &&& same && fits && image is Some && !listed(images, image->0)
                ==> fault == Some(StartFault::<Seq<char>>::ImageForbidden)
            &&& same && fits && image is Some && listed(images, image->0) ==> fault is None
        }),
{
}

/// Everything about a process is checked before its container is looked for: to whom it belongs,
/// where it lies, its bundle, the file that would be executed, and that this file stays as it is.
pub proof fn lemma_process_is_checked_first(progress: StartProgress, step: StartStep)
    requires
        progress.asks(step),
    ensures
        !progress.owned ==> step is Refuse && step->Refuse_0@ == "process 归属无效"@,
        progress.owned && progress.placed is None ==> step is CheckDirectory,
        progress.owned && (progress.placed is Some && progress.placed->0 is Err)
            ==> step is Refuse && step->Refuse_0@ == progress.placed->0->Err_0@,
        progress.owned && progress.placed == Some(Ok::<bool, String>(false))
            ==> step is Refuse && step->Refuse_0@ == "process 目录无效"@,
        progress.owned && progress.placed == Some(Ok::<bool, String>(true))
            && progress.bundle is None ==> step is CheckBundle,
        progress.owned && progress.placed == Some(Ok::<bool, String>(true))
            && (progress.bundle is Some && progress.bundle->0 is Err)
            ==> step is Refuse && step->Refuse_0@ == progress.bundle->0->Err_0@,
        progress.owned && progress.placed == Some(Ok::<bool, String>(true))
            && progress.bundle is Some && progress.bundle->0 is Ok
            && progress.bundle->0->Ok_0 is Some
            ==> step is Refuse && step->Refuse_0@ == progress.bundle->0->Ok_0->0@.text(),
        progress.owned && progress.placed == Some(Ok::<bool, String>(true))
            && progress.bundle is Some && progress.bundle->0 is Ok
            && progress.bundle->0->Ok_0 is None && progress.artifact is None
            ==> step is CheckArtifact,
        progress.owned && progress.placed == Some(Ok::<bool, String>(true))
            && progress.bundle is Some && progress.bundle->0 is Ok
            && progress.bundle->0->Ok_0 is None && (progress.artifact is Some
            && progress.artifact->0 is Err)
            ==> step is Refuse && step->Refuse_0@ == progress.artifact->0->Err_0@,
        progress.owned && progress.placed == Some(Ok::<bool, String>(true))
            && progress.bundle is Some && progress.bundle->0 is Ok
            && progress.bundle->0->Ok_0 is None && progress.artifact is Some
            && progress.artifact->0 is Ok && progress.artifact->0->Ok_0 is Some
            ==> step is Refuse && step->Refuse_0@ == progress.artifact->0->Ok_0->0@.text(),
        progress.owned && progress.placed == Some(Ok::<bool, String>(true))
            && progress.bundle is Some && progress.bundle->0 is Ok
            && progress.bundle->0->Ok_0 is None && progress.artifact is Some
            && progress.artifact->0 is Ok && progress.artifact->0->Ok_0 is None
            && progress.closed is None ==> step is CloseArtifact,
        progress.owned && progress.placed == Some(Ok::<bool, String>(true))
            && progress.bundle is Some && progress.bundle->0 is Ok
            && progress.bundle->0->Ok_0 is None && progress.artifact is Some
            && progress.artifact->0 is Ok && progress.artifact->0->Ok_0 is None
            && (progress.closed is Some && progress.closed->0 is Err)
            ==> step is Refuse && step->Refuse_0@ == progress.closed->0->Err_0@,
        step is InspectContainer || step is InspectImage || step is Run || step is Done
            ==> progress.owned && progress.placed == Some(Ok::<bool, String>(true))
            && progress.bundle is Some && progress.bundle->0 is Ok
            && progress.bundle->0->Ok_0 is None && progress.artifact is Some
            && progress.artifact->0 is Ok && progress.artifact->0->Ok_0 is None
            && (progress.closed is Some && progress.closed->0 is Ok),
{
}

/// A container that runs is kept, one that does not stands in the way, and where there is none the
/// image is looked for and the container run.
pub proof fn lemma_one_container_runs(progress: StartProgress, step: StartStep)
    requires
        progress.asks(step),
        progress.owned,
        progress.placed == Some(Ok::<bool, String>(true)),
        progress.bundle is Some && progress.bundle->0 is Ok && progress.bundle->0->Ok_0 is None,
        progress.artifact is Some && progress.artifact->0 is Ok
            && progress.artifact->0->Ok_0 is None,
        (progress.closed is Some && progress.closed->0 is Ok),
    ensures
        progress.status is None ==> step is InspectContainer,
        progress.status is Some && progress.status->0 is Some
            && text::trimmed(progress.status->0->0@) == "true"@ ==> step is Done,
        progress.status is Some && progress.status->0 is Some
            && text::trimmed(progress.status->0->0@) != "true"@
            ==> step is Refuse && step->Refuse_0@ == "旧 process 实例尚未清理"@,
        progress.status is Some && progress.status->0 is None && progress.image is None
            ==> step is InspectImage,
        progress.status is Some && progress.status->0 is None && (progress.image is Some
            && progress.image->0 is Err) ==> step is Refuse
            && step->Refuse_0@ == "process 镜像尚未预置"@ + ": "@ + progress.image->0->Err_0@,
        progress.status is Some && progress.status->0 is None && (progress.image is Some
            && progress.image->0 is Ok) && progress.run is None ==> step is Run,
        progress.status is Some && progress.status->0 is None && (progress.image is Some
            && progress.image->0 is Ok) && (progress.run is Some && progress.run->0 is Err)
            ==> step is Refuse && step->Refuse_0@ == "启动 v2 process 失败"@ + ": "@
            + progress.run->0->Err_0@,
        progress.status is Some && progress.status->0 is None && (progress.image is Some
            && progress.image->0 is Ok) && (progress.run is Some && progress.run->0 is Ok)
            ==> step is Done,
{
}

/// A host knows its containers by the digest of its root, and an instance by 24 digits.
pub proof fn lemma_names_of_containers(root: Seq<u8>, id: Seq<char>)
    ensures
        container_prefix(root) == "aio-v2-"@ + text::hex(outside::sha256(root)).take(8) + "-"@,
        names_instance(id) <==> id.len() == 24 && forall|i: int| 0 <= i < id.len()
            ==> text::is_hex(#[trigger] id[i]),
{
}

/// A container is left over where it carries the host's mark and no start accounts for its
/// instance; each is stopped, and no other.
pub proof fn lemma_which_containers_are_left_over(names: Seq<Seq<char>>, name: Seq<char>,
    mark: Seq<char>, starts: Seq<Start>, id: Seq<char>)
    ensures
        leftovers(Seq::<Seq<char>>::empty(), mark, active_ids(starts)).len() == 0,
        name == mark + id && (forall|i: int| 0 <= i < starts.len()
            ==> model::instance_id(#[trigger] starts[i]) != id)
            ==> leftovers(names.push(name), mark, active_ids(starts))
            == leftovers(names, mark, active_ids(starts)).push(id),
        name == mark + id && (exists|i: int| 0 <= i < starts.len()
            && model::instance_id(#[trigger] starts[i]) == id)
            ==> leftovers(names.push(name), mark, active_ids(starts))
            == leftovers(names, mark, active_ids(starts)),
        !mark.is_prefix_of(name) ==> leftovers(names.push(name), mark, active_ids(starts))
            == leftovers(names, mark, active_ids(starts)),
{
    assert(names.push(name).drop_last() =~= names);
    let active = active_ids(starts);
    if name == mark + id {
        assert(mark =~= name.subrange(0, mark.len() as int));
        assert(name.skip(mark.len() as int) =~= id);
        if active.contains(id) {
            let k = choose|k: int| 0 <= k < active.len() && active[k] == id;
            assert(model::instance_id(starts[k]) == id);
        }
        if exists|i: int| 0 <= i < starts.len() && model::instance_id(#[trigger] starts[i]) == id {
            let i = choose|i: int|
                0 <= i < starts.len() && model::instance_id(#[trigger] starts[i]) == id;
            assert(active[i] == id);
        }
    }
}

/// A container gets no network, no image from elsewhere, no privileges and bounded resources; of
/// the host it sees the directories of its instance, and only that of its sockets can be written
/// to. It runs the bundle's executable in the given image, under the given name.
pub proof fn lemma_container_is_confined(path: Seq<char>, name: Seq<char>, image: Seq<char>)
    ensures
        container_arguments(path, name, image).len() == 32,
        container_arguments(path, name, image)[0] == "run"@,
        container_arguments(path, name, image)[1] == "--detach"@,
        container_arguments(path, name, image)[2] == "--rm"@,
        container_arguments(path, name, image)[3] == "--pull=never"@,
        container_arguments(path, name, image)[4] == "--network=none"@,
        container_arguments(path, name, image)[5] == "--read-only"@,
        container_arguments(path, name, image)[6] == "--init"@,
        container_arguments(path, name, image)[7] == "--user=65532:65532"@,
        container_arguments(path, name, image)[8] == "--cap-drop=ALL"@,
        container_arguments(path, name, image)[9] == "--security-opt=no-new-privileges:true"@,
        container_arguments(path, name, image)[10] == "--pids-limit=256"@,
        container_arguments(path, name, image)[11] == "--memory=1073741824"@,
        container_arguments(path, name, image)[12] == "--memory-swap=1073741824"@,
        container_arguments(path, name, image)[13] == "--cpus=2"@,
        container_arguments(path, name, image)[14] == "--ulimit=nofile=1024:1024"@,
        container_arguments(path, name, image)[15]
            == "--tmpfs=/tmp:rw,noexec,nosuid,nodev,size=16777216"@,
        container_arguments(path, name, image)[16] == "--ipc=private"@,
        container_arguments(path, name, image)[17] == "--env=AIO_PLUGIN_CONFIG=/grant/config.json"@,
        container_arguments(path, name, image)[18] == "--env=AIO_PLUGIN_SOCKET=/aio/service.sock"@,
        container_arguments(path, name, image)[19] == "--stop-timeout=15"@,
        container_arguments(path, name, image)[20] == "--log-driver=local"@,
        container_arguments(path, name, image)[21] == "--log-opt=max-size=10m"@,
        container_arguments(path, name, image)[22] == "--log-opt=max-file=2"@,
        container_arguments(path, name, image)[23] == "--label=io.addzero.aio.v2=true"@,
        container_arguments(path, name, image)[24] == "--name="@ + name,
        container_arguments(path, name, image)[25] == "--mount=type=bind,src="@ + path + "/"@
            + "package"@ + ",dst="@ + "/plugin"@ + ",readonly"@,
        container_arguments(path, name, image)[26] == "--mount=type=bind,src="@ + path + "/"@
            + "grant"@ + ",dst="@ + "/grant"@ + ",readonly"@,
        container_arguments(path, name, image)[27] == "--mount=type=bind,src="@ + path + "/"@
            + "broker"@ + ",dst="@ + "/broker"@ + ",readonly"@,
        container_arguments(path, name, image)[28] == "--mount=type=bind,src="@ + path + "/"@
            + "database"@ + ",dst="@ + "/database"@ + ",readonly"@,
        container_arguments(path, name, image)[29] == "--mount=type=bind,src="@ + path + "/"@
            + "runtime"@ + ",dst="@ + "/aio"@,
        container_arguments(path, name, image)[30] == "--entrypoint=/plugin/server"@,
        container_arguments(path, name, image)[31] == image,
{
}

/// Each of these is told in its own words.
pub proof fn lemma_told_start_fault(fault: StartFault<Seq<char>>)
    ensures
        fault is Ownership ==> fault.text() == "process 归属无效"@,
        fault is DigestMismatch ==> fault.text() == "process 包摘要不匹配"@,
        fault is VersionUnreadable ==> fault.text() == fault->VersionUnreadable_0,
        fault is VersionMismatch ==> fault.text() == "process 宿主版本不匹配"@,
        fault is NotAProcess ==> fault.text() == "不是 process 包"@,
        fault is ImageForbidden ==> fault.text() == "process 运行镜像未获宿主授权"@,
        fault is ArtifactMismatch ==> fault.text() == "process 可执行文件不属于已校验整包"@,
        fault is StaleInstance ==> fault.text() == "旧 process 实例尚未清理"@,
{
}

/// The file that is executed is no link and holds byte for byte what the bundle holds.
pub proof fn lemma_only_the_bundles_file_is_executed(symlink: bool, artifact: &[u8],
    component: &[u8], outcome: Result<(), StartFault<String>>)
    requires
        seals(symlink, artifact, component, outcome),
    ensures
        !symlink && artifact@ == component@ ==> outcome is Ok,
        symlink || artifact@ != component@ ==> outcome is Err && outcome->Err_0 is ArtifactMismatch,
{
}

/// A container that is not there is created, one that runs is kept, and one that does neither is in
/// the way.
pub proof fn lemma_state_of_a_container(status: Option<&str>, outcome: Result<ContainerStep,
    StartFault<String>>)
    requires
        settles(status, outcome),
    ensures
        status is None ==> outcome
            == Ok::<ContainerStep, StartFault<String>>(ContainerStep::Create),
        status is Some && text::trimmed(status->0@) == "true"@
            ==> outcome == Ok::<ContainerStep, StartFault<String>>(ContainerStep::Done),
        status is Some && text::trimmed(status->0@) != "true"@
            ==> outcome is Err && outcome->Err_0 is StaleInstance,
{
}

/// Only a container with the host's mark and an instance's digits is stopped.
pub proof fn lemma_which_containers_are_stopped(request: &Stop, mark: &str, name: Option<String>)
    requires
        stops(request, mark, name),
    ensures
        (request.id@.len() == 24 && forall|i: int| 0 <= i < request.id@.len()
            ==> text::is_hex(#[trigger] request.id@[i]))
            ==> name is Some && name->0@ == mark@ + request.id@,
        !(request.id@.len() == 24 && forall|i: int| 0 <= i < request.id@.len()
            ==> text::is_hex(#[trigger] request.id@[i])) ==> name is None,
{
}

} // verus!
