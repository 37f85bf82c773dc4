//! The offered plugins, as they are stored.
use vstd::prelude::*;

use crate::runtime::model::{MarketplaceEntry, PluginRuntime};
use crate::runtime::server::manifest::CapabilityManifest;
use crate::text;

verus! {

/// The source under which the host lists what was published on it.
pub const PUBLISHED_REGISTRY_SOURCE: &'static str = "aio://published";

/// A stored offer.
#[derive(Debug)]
pub struct StoredEntry {
    pub git: String,
    pub rev: String,
    pub title: String,
    pub summary: String,
    pub license: String,
    pub tags: Vec<String>,
    pub runtime: Option<PluginRuntime>,
    pub capabilities: CapabilityManifest,
}

/// Whether a published revision is the requested one.
pub open spec fn asked_for(published: &str, requested: Option<&str>, matches: bool) -> bool {
    matches == match requested {
        Some(requested) => text::same_letters(published@, requested@),
        None => true,
    }
}

/// Whether a published revision is the requested one; where none is requested, any is.
pub fn revision_matches(published: &str, requested: Option<&str>) -> (matches: bool)
    ensures
        asked_for(published, requested, matches),
{
    match requested {
        Some(requested) => text::eq_ignore_ascii_case(published, requested),
        None => true,
    }
}

/// A stored offer, as it is shown before it is known what a tenant has installed of it.
pub fn marketplace_entry(stored: StoredEntry) -> (entry: MarketplaceEntry)
    ensures
        entry.git == stored.git,
        entry.rev == stored.rev,
        entry.title == stored.title,
        entry.summary == stored.summary,
        entry.license == stored.license,
        entry.tags == stored.tags,
        !entry.installed,
        entry.source_id is None,
        entry.state is None,
        entry.active_revision is None,
        entry.runtime == stored.runtime,
        entry.capabilities == stored.capabilities,
        entry.parent_git is None,
        entry.parent_title is None,
{
    MarketplaceEntry {
        git: stored.git,
        rev: stored.rev,
        title: stored.title,
        summary: stored.summary,
        license: stored.license,
        tags: stored.tags,
        installed: false,
        source_id: None,
        state: None,
        active_revision: None,
        runtime: stored.runtime,
        capabilities: stored.capabilities,
        parent_git: None,
        parent_title: None,
    }
}

/// A revision is the requested one where it has the same letters, whatever their case; where none
/// is requested, every one is.
pub proof fn lemma_requested_revision(published: &str, requested: Option<&str>, matches: bool)
    requires
        asked_for(published, requested, matches),
    ensures
        requested is None ==> matches,
        requested is Some && requested->0@ == published@ ==> matches,
        requested is Some && matches ==> text::lowered(requested->0@) == text::lowered(published@),
{
}

} // verus!
