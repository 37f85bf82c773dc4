//! What is exchanged about mounted front ends.
use vstd::prelude::*;

use crate::runtime::model::PageDefinition;
use crate::runtime::server::frontend_access::AssetDigest;

verus! {

/// A request to mount a page's front end.
#[derive(Debug)]
pub struct MountRequest {
    pub page_id: String,
}

/// A mounted front end.
#[derive(Debug)]
pub struct MountResponse {
    pub abi: Option<u32>,
    pub token: String,
    pub src: String,
    pub revision: String,
    pub generation: String,
    pub session_context: String,
    pub context: String,
    pub assets: Vec<AssetDigest>,
}

/// A request of a front end to its service.
#[derive(Debug)]
pub struct FrontendRequest {
    pub method: String,
    pub path: String,
    pub query: Option<String>,
    pub body: String,
}

/// The answer of a service to its front end.
#[derive(Debug)]
pub struct ComponentResponse {
    pub status: u16,
    pub content_type: String,
    pub body: String,
}

/// The service behind an active page.
#[derive(Debug)]
pub struct ServiceBinding {
    pub revision: String,
}

/// An active page, the source it comes from and the activation it belongs to.
#[derive(Debug)]
pub struct PageBinding {
    pub source_id: String,
    pub activation_generation: String,
    pub page: PageDefinition,
    pub service: ServiceBinding,
}

/// The size of a file of a front end.
#[derive(Clone, Debug, PartialEq, Eq)]
pub struct AssetSize {
    pub path: String,
    pub bytes: usize,
}

/// The checked front end of a package.
#[derive(Debug)]
pub struct FrontendPackage {
    pub path: String,
    pub assets: Vec<AssetDigest>,
    pub asset_sizes: Vec<AssetSize>,
}

/// A copy of a list of digests.
pub fn copy_assets(assets: &Vec<AssetDigest>) -> (copy: Vec<AssetDigest>)
    ensures
        copy@ == assets@,
{
    let mut copy: Vec<AssetDigest> = Vec::new();
    let mut i: usize = 0;
    while i < assets.len()
        invariant
            i <= assets@.len(),
            copy@ == assets@.take(i as int),
        decreases assets@.len() - i,
    {
        copy.push(AssetDigest { path: assets[i].path.clone(), sha256: assets[i].sha256.clone() });
        i += 1;
    }
    assert(assets@.take(i as int) =~= assets@);
    copy
}

/// The digest under which a path was published.
pub open spec fn digest_of(assets: Seq<AssetDigest>, path: Seq<char>) -> Option<Seq<char>> {
    let at = crate::text::first_index(assets.map_values(|a: AssetDigest| a.path@), path);
    if at < assets.len() {
        Some(assets[at].sha256@)
    } else {
        None
    }
}

/// The digest under which a path was published.
pub fn find_digest<'a>(assets: &'a Vec<AssetDigest>, path: &str) -> (found: Option<&'a String>)
    ensures
        match found {
            Some(digest) => digest_of(assets@, path@) == Some(digest@),
            None => digest_of(assets@, path@) is None,
        },
{
    let ghost paths = assets@.map_values(|a: AssetDigest| a.path@);
    let mut at: usize = 0;
    while at < assets.len()
        invariant
            at <= assets@.len(),
            paths == assets@.map_values(|a: AssetDigest| a.path@),
            forall|k: int| 0 <= k < at ==> paths[k] != path@,
        decreases assets@.len() - at,
    {
        if crate::text::same(assets[at].path.as_str(), path) {
            proof {
                crate::text::lemma_first_index_is(paths, path@, at as int);
            }
            return Some(&assets[at].sha256);
        }
        at += 1;
    }
    proof {
        crate::text::lemma_first_index_is(paths, path@, at as int);
    }
    None
}

/// The digest of a path is that of the first file with this path; a path that no file has, has
/// none.
pub proof fn lemma_digest_of_a_path(assets: Seq<AssetDigest>, path: Seq<char>, at: int)
    requires
        0 <= at <= assets.len(),
        forall|k: int| 0 <= k < at ==> (#[trigger] assets[k]).path@ != path,
        at < assets.len() ==> assets[at].path@ == path,
    ensures
        at < assets.len() ==> digest_of(assets, path) == Some(assets[at].sha256@),
        at == assets.len() ==> digest_of(assets, path) is None,
{
    let paths = assets.map_values(|a: AssetDigest| a.path@);
    assert forall|k: int| 0 <= k < at implies paths[k] != path by {
        assert(assets[k].path@ != path);
    }
    crate::text::lemma_first_index_is(paths, path, at);
}

} // verus!
