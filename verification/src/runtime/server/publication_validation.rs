//! What may be published.
use vstd::prelude::*;

use crate::runtime::model::{MarketplaceEntry, PluginRuntime};
use crate::runtime::server::manifest::CapabilityManifest;
use crate::runtime::server::package_store;
use crate::text;

verus! {

/// How a plugin presents itself in the market.
#[derive(Debug)]
pub struct MarketplaceMetadata {
    pub title: String,
    pub summary: String,
    pub license: String,
    pub tags: Vec<String>,
}

/// Why a plugin is not published.
#[derive(Clone, Copy, Debug, PartialEq, Eq, Structural)]
pub enum PublicationFault {
    RuntimeMissing,
    RuntimeNotIndependent,
    CapabilityNotGranted,
    RevisionInvalid,
    MarketplaceMissing,
}

/// The runtimes that need nothing but the host.
pub open spec fn independent(runtime: PluginRuntime) -> bool {
    runtime is PageDefinition || runtime is WasmComponent || runtime is Process
}

/// Requires a runtime that needs nothing but the host.
pub fn ensure_publish_runtime(runtime: PluginRuntime) -> (outcome: Result<(), PublicationFault>)
    ensures
        outcome is Ok <==> independent(runtime),
        outcome matches Err(fault) ==> fault is RuntimeNotIndependent,
{
    match runtime {
        PluginRuntime::PageDefinition | PluginRuntime::WasmComponent | PluginRuntime::Process => Ok(
            (),
        ),
        _ => Err(PublicationFault::RuntimeNotIndependent),
    }
}

/// No network, no files and no database.
pub open spec fn asks_nothing(capabilities: CapabilityManifest) -> bool {
    &&& capabilities.network@.len() == 0
    &&& capabilities.filesystem@.len() == 0
    &&& !capabilities.database
}

/// Requires that a plugin asks for no network, no files and no database.
pub fn ensure_publish_capabilities(capabilities: &CapabilityManifest) -> (outcome: Result<
    (),
    PublicationFault,
>)
    ensures
        outcome is Ok <==> asks_nothing(*capabilities),
        outcome matches Err(fault) ==> fault is CapabilityNotGranted,
{
    if capabilities.network.is_empty() && capabilities.filesystem.is_empty()
        && !capabilities.database {
        Ok(())
    } else {
        Err(PublicationFault::CapabilityNotGranted)
    }
}

/// Why a package's content is not published.
pub open spec fn payload_fault(
    runtime: Option<PluginRuntime>,
    capabilities: CapabilityManifest,
) -> Option<PublicationFault> {
    if runtime is None {
        Some(PublicationFault::RuntimeMissing)
    } else if !independent(runtime->0) {
        Some(PublicationFault::RuntimeNotIndependent)
    } else if !asks_nothing(capabilities) {
        Some(PublicationFault::CapabilityNotGranted)
    } else {
        None
    }
}

/// Checks the content of a package whose digests were verified.
pub fn validate_publish_payload(
    runtime: Option<PluginRuntime>,
    capabilities: &CapabilityManifest,
) -> (outcome: Result<PluginRuntime, PublicationFault>)
    ensures
        match outcome {
            Ok(found) => payload_fault(runtime, *capabilities) is None && runtime == Some(found),
            Err(fault) => payload_fault(runtime, *capabilities) == Some(fault),
        },
{
    let runtime = match runtime {
        Some(runtime) => runtime,
        None => return Err(PublicationFault::RuntimeMissing),
    };
    match ensure_publish_runtime(runtime) {
        Ok(()) => {},
        Err(fault) => return Err(fault),
    }
    match ensure_publish_capabilities(capabilities) {
        Ok(()) => Ok(runtime),
        Err(fault) => Err(fault),
    }
}

/// Whether a text is the full id of a commit, or the revision of a package.
pub open spec fn artifact_revision(revision: Seq<char>) -> bool {
    (revision.len() == 40 && text::all_hex(revision)) || package_store::package_revision(revision)
}

/// Whether an entry presents a version as its metadata say, to a tenant that did not install it.
pub open spec fn presents(
    entry: MarketplaceEntry,
    git: Seq<char>,
    revision: Seq<char>,
    metadata: MarketplaceMetadata,
    runtime: Option<PluginRuntime>,
    capabilities: CapabilityManifest,
) -> bool {
    &&& entry.git@ == git
    &&& entry.rev@ == revision
    &&& entry.title == metadata.title
    &&& entry.summary == metadata.summary
    &&& entry.license == metadata.license
    &&& entry.tags == metadata.tags
    &&& !entry.installed
    &&& entry.source_id is None
    &&& entry.state is None
    &&& entry.active_revision is None
    &&& entry.runtime == runtime
    &&& entry.capabilities == capabilities
    &&& entry.parent_git is None
    &&& entry.parent_title is None
}

/// The entry of a version that is on offer.
pub fn offer(
    git: &str,
    revision: &str,
    metadata: MarketplaceMetadata,
    runtime: Option<PluginRuntime>,
    capabilities: CapabilityManifest,
) -> (entry: MarketplaceEntry)
    ensures
        presents(entry, git@, revision@, metadata, runtime, capabilities),
{
    MarketplaceEntry {
        git: git.to_owned(),
        rev: revision.to_owned(),
        title: metadata.title,
        summary: metadata.summary,
        license: metadata.license,
        tags: metadata.tags,
        installed: false,
        source_id: None,
        state: None,
        active_revision: None,
        runtime,
        capabilities,
        parent_git: None,
        parent_title: None,
    }
}

/// A published version, as the market shows it to everyone.
pub fn published_marketplace_entry(
    git: &str,
    revision: &str,
    metadata: Option<MarketplaceMetadata>,
    runtime: Option<PluginRuntime>,
    capabilities: CapabilityManifest,
) -> (outcome: Result<MarketplaceEntry, PublicationFault>)
    ensures
        match outcome {
            Ok(entry) => {
                &&& artifact_revision(revision@)
                &&& metadata is Some
                &&& presents(entry, git@, revision@, metadata->0, runtime, capabilities)
            },
            Err(PublicationFault::RevisionInvalid) => !artifact_revision(revision@),
            Err(fault) => artifact_revision(revision@) && metadata is None
                && fault is MarketplaceMissing,
        },
{
    if !text::is_hex_text(revision, 40) && !package_store::is_package_revision(revision) {
        return Err(PublicationFault::RevisionInvalid);
    }
    match metadata {
        None => Err(PublicationFault::MarketplaceMissing),
        Some(metadata) => Ok(offer(git, revision, metadata, runtime, capabilities)),
    }
}

impl PublicationFault {
    /// The text shown for the fault.
    pub open spec fn text(&self) -> Seq<char> {
        match self {
            PublicationFault::RuntimeMissing => "插件包缺少运行目标"@,
            PublicationFault::RuntimeNotIndependent =>
                "发布接口只接受独立运行的 page-definition、wasm-component 或 process 产物"@,
            PublicationFault::CapabilityNotGranted =>
                "当前在线发布宿主未授予网络、文件系统或数据库能力"@,
            PublicationFault::RevisionInvalid => "插件版本必须是完整 Git SHA 或插件包 SHA-256"@,
            PublicationFault::MarketplaceMissing => "在线发布插件必须声明 [plugin.marketplace]"@,
        }
    }

    /// The text shown for the fault.
    pub fn message(&self) -> (message: String)
        ensures
            message@ == self.text(),
    {
        let message = match self {
            PublicationFault::RuntimeMissing => "插件包缺少运行目标",
            PublicationFault::RuntimeNotIndependent =>
                "发布接口只接受独立运行的 page-definition、wasm-component 或 process 产物",
            PublicationFault::CapabilityNotGranted =>
                "当前在线发布宿主未授予网络、文件系统或数据库能力",
            PublicationFault::RevisionInvalid => "插件版本必须是完整 Git SHA 或插件包 SHA-256",
            PublicationFault::MarketplaceMissing => "在线发布插件必须声明 [plugin.marketplace]",
        };
        message.to_owned()
    }
}

/// What may be published: a plugin with a runtime that needs nothing but the host, and that asks
/// for neither network nor files nor database. Each reason against it is told.
pub proof fn lemma_what_may_be_published(runtime: PluginRuntime, capabilities: CapabilityManifest)
    ensures
        payload_fault(None, capabilities) == Some(PublicationFault::RuntimeMissing),
        ({
            let fault = payload_fault(Some(runtime), capabilities);
            let independent = runtime is PageDefinition || runtime is WasmComponent
                || runtime is Process;
            let modest = capabilities.network@.len() == 0 && capabilities.filesystem@.len() == 0
                && !capabilities.database;
            &&& fault is None <==> independent && modest
            &&& !independent ==> fault == Some(PublicationFault::RuntimeNotIndependent)
            &&& independent && !modest ==> fault == Some(PublicationFault::CapabilityNotGranted)
        }),
{
}

/// A version is offered as it is: under its own address, revision, texts, runtime and capabilities,
/// and as installed by no one.
pub proof fn lemma_offer_shows_the_version(entry: MarketplaceEntry, git: Seq<char>,
    revision: Seq<char>, metadata: MarketplaceMetadata, runtime: Option<PluginRuntime>,
    capabilities: CapabilityManifest)
    requires
        presents(entry, git, revision, metadata, runtime, capabilities),
    ensures
        entry.git@ == git && entry.rev@ == revision,
        entry.title@ == metadata.title@ && entry.summary@ == metadata.summary@
            && entry.license@ == metadata.license@ && entry.tags@ == metadata.tags@,
        entry.runtime == runtime && entry.capabilities == capabilities,
        !entry.installed && entry.state is None && entry.active_revision is None
            && entry.source_id is None,
        entry.parent_git is None && entry.parent_title is None,
{
}

/// A version is named by the 40 digits of a commit or by the 64 lower-case digits of a package.
pub proof fn lemma_revisions_of_artifacts(revision: Seq<char>)
    ensures
        artifact_revision(revision) ==> revision.len() == 40 && text::all_hex(revision)
            || revision.len() == 64 && text::all_hex(revision),
        revision.len() == 40 && text::all_hex(revision) ==> artifact_revision(revision),
        revision.len() != 40 && revision.len() != 64 ==> !artifact_revision(revision),
{
    if package_store::package_revision(revision) {
        assert forall|i: int| 0
            <= i < revision.len() implies text::is_hex(#[trigger] revision[i]) by {
            assert(package_store::revision_digit(revision[i]));
        }
    }
}

/// Each of these is told in its own words.
pub proof fn lemma_told_publication_fault(fault: PublicationFault)
    ensures
        fault is RuntimeMissing ==> fault.text() == "插件包缺少运行目标"@,
        fault is RuntimeNotIndependent ==> fault.text()
            == "发布接口只接受独立运行的 page-definition、wasm-component 或 process 产物"@,
        fault is CapabilityNotGranted ==> fault.text() == "当前在线发布宿主未授予网络、文件系统或数据库能力"@,
        fault is RevisionInvalid ==> fault.text() == "插件版本必须是完整 Git SHA 或插件包 SHA-256"@,
        fault is MarketplaceMissing ==> fault.text() == "在线发布插件必须声明 [plugin.marketplace]"@,
{
}

} // verus!
