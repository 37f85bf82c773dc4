//! The checked front ends of recently mounted packages.
use vstd::prelude::*;

use crate::runtime::server::frontend_access::AssetDigest;
use crate::runtime::server::frontend_model;
use crate::runtime::server::frontend_model::{AssetSize, FrontendPackage};
use crate::text;

verus! {

/// How many packages are remembered.
pub const MAX_PACKAGES: usize = 64;

/// A remembered package.
#[derive(Debug)]
pub struct CachedPackage {
    pub revision: String,
    pub package: FrontendPackage,
}

/// The remembered packages, the one that was remembered first in front.
#[derive(Debug)]
pub struct PackageCache {
    pub entries: Vec<CachedPackage>,
}

/// Why a package's front end cannot be mounted.
#[derive(Clone, Copy, Debug, PartialEq, Eq, Structural)]
pub enum PackageFault {
    EntryNotPublished,
    ArchiveMissing,
    RevisionMismatch,
    FrontendMissing,
}

/// The revisions of the remembered packages.
pub open spec fn revisions(entries: Seq<CachedPackage>) -> Seq<Seq<char>> {
    entries.map_values(|e: CachedPackage| e.revision@)
}

/// The package remembered for a revision.
pub open spec fn remembered(entries: Seq<CachedPackage>, revision: Seq<char>) -> Option<
    FrontendPackage,
> {
    let at = text::first_index(revisions(entries), revision);
    if at < entries.len() {
        Some(entries[at].package)
    } else {
        None
    }
}

/// Whether a package declares a file.
pub open spec fn declares(assets: Seq<AssetDigest>, path: Seq<char>) -> bool {
    frontend_model::digest_of(assets, path) is Some
}

/// The remembered packages after one was remembered: the first one makes room where there are
/// too many, and an earlier package of the same revision gives way.
pub open spec fn after_remembering(
    entries: Seq<CachedPackage>,
    entry: CachedPackage,
) -> Seq<CachedPackage> {
    let kept = if entries.len() >= MAX_PACKAGES {
        entries.drop_first()
    } else {
        entries
    };
    let at = text::first_index(revisions(kept), entry.revision@);
    if at < kept.len() {
        kept.remove(at).push(entry)
    } else {
        kept.push(entry)
    }
}

impl PackageCache {
    /// Never more packages than allowed, and one for each revision.
    pub open spec fn well_formed(&self) -> bool {
        self.entries@.len() <= MAX_PACKAGES && revisions(self.entries@).no_duplicates()
    }

    pub fn new() -> (cache: PackageCache)
        ensures
            cache.entries@.len() == 0,
            cache.well_formed(),
    {
        PackageCache { entries: Vec::new() }
    }

    /// Where the package of a revision stands.
    fn position(&self, revision: &str) -> (at: usize)
        ensures
            at == text::first_index(revisions(self.entries@), revision@),
            at <= self.entries@.len(),
    {
        let mut at: usize = 0;
        while at < self.entries.len()
            invariant
                at <= self.entries@.len(),
                forall|k: int| 0 <= k < at ==> revisions(self.entries@)[k] != revision@,
            decreases self.entries@.len() - at,
        {
            if text::same(self.entries[at].revision.as_str(), revision) {
                proof {
                    text::lemma_first_index_is(revisions(self.entries@), revision@, at as int);
                }
                return at;
            }
            at += 1;
        }
        proof {
            text::lemma_first_index_is(revisions(self.entries@), revision@, at as int);
        }
        at
    }

    /// The directory of a remembered package's front end.
    pub fn path(&self, revision: &str) -> (path: Option<&String>)
        ensures
            match path {
                Some(path) => remembered(self.entries@, revision@) is Some && remembered(
                    self.entries@,
                    revision@,
                )->0.path == *path,
                None => remembered(self.entries@, revision@) is None,
            },
    {
        let at = self.position(revision);
        if at < self.entries.len() {
            Some(&self.entries[at].package.path)
        } else {
            None
        }
    }

    /// The remembered package, where its file for the entry is still on disk. A package that
    /// does not declare the entry is refused.
    pub fn get(&self, revision: &str, entry: &str, on_disk: bool) -> (outcome: Result<
        Option<&FrontendPackage>,
        PackageFault,
    >)
        ensures
            ({
                let found = remembered(self.entries@, revision@);
                match outcome {
                    Ok(Some(package)) => found == Some(*package) && on_disk && declares(
                        package.assets@,
                        entry@,
                    ),
                    Ok(None) => found is None || !on_disk,
                    Err(fault) => found is Some && on_disk && !declares(found->0.assets@, entry@)
                        && fault is EntryNotPublished,
                }
            }),
    {
        let at = self.position(revision);
        if at == self.entries.len() || !on_disk {
            return Ok(None);
        }
        let package = &self.entries[at].package;
        if frontend_model::find_digest(&package.assets, entry).is_none() {
            return Err(PackageFault::EntryNotPublished);
        }
        Ok(Some(package))
    }

    /// Remembers a package.
    pub fn remember(&mut self, revision: String, package: FrontendPackage)
        requires
            old(self).well_formed(),
        ensures
            final(self).well_formed(),
            final(self).entries@ == after_remembering(
                old(self).entries@,
                (CachedPackage { revision, package }),
            ),
            remembered(final(self).entries@, revision@) == Some(package),
    {
        let ghost before = self.entries@;
        if self.entries.len() >= MAX_PACKAGES {
            self.entries.remove(0);
            assert(self.entries@ =~= before.drop_first());
        }
        let ghost kept = self.entries@;
        let at = self.position(revision.as_str());
        proof {
            assert forall|a: int, b: int|
                0 <= a < kept.len() && 0 <= b < kept.len() && a != b implies revisions(kept)[a]
                != revisions(kept)[b] by {
                if before.len() >= MAX_PACKAGES {
                    assert(revisions(kept)[a] == revisions(before)[a + 1]);
                    assert(revisions(kept)[b] == revisions(before)[b + 1]);
                } else {
                    assert(revisions(before)[a] != revisions(before)[b]);
                }
            }
            text::lemma_first_index(revisions(kept), revision@);
        }
        if at < self.entries.len() {
            self.entries.remove(at);
        }
        let ghost rest = self.entries@;
        proof {
            if at < kept.len() {
                assert(revisions(rest) =~= revisions(kept).remove(at as int));
            }
            text::lemma_remove_first(revisions(kept), revision@, revisions(rest));
            assert forall|k: int| 0 <= k < rest.len() implies revisions(rest)[k] != revision@ by {
                assert(revisions(rest).contains(revisions(rest)[k]));
            }
        }
        self.entries.push(CachedPackage { revision, package });
        proof {
            let all = revisions(self.entries@);
            assert forall|a: int, b: int| 0 <= a < all.len() && 0 <= b < all.len() && a != b implies
                all[a] != all[b] by {
                if a < rest.len() {
                    assert(all[a] == revisions(rest)[a]);
                }
                if b < rest.len() {
                    assert(all[b] == revisions(rest)[b]);
                }
            }
            assert forall|k: int| 0 <= k < rest.len() implies all[k] != revision@ by {
                assert(all[k] == revisions(rest)[k]);
            }
            text::lemma_first_index_is(all, revision@, rest.len() as int);
        }
    }
}

/// Checks a decoded package against the revision and entry it was looked up for.
pub fn check_package(
    package_revision: &str,
    assets: &Vec<AssetDigest>,
    revision: &str,
    entry: &str,
) -> (outcome: Result<(), PackageFault>)
    ensures
        outcome is Ok <==> package_revision@ == revision@ && declares(assets@, entry@),
        outcome matches Err(fault) ==> fault is RevisionMismatch,
{
    if text::same(package_revision, revision) && frontend_model::find_digest(
        assets,
        entry,
    ).is_some() {
        Ok(())
    } else {
        Err(PackageFault::RevisionMismatch)
    }
}

/// The front end of a verified package, where its manifest declares one.
pub fn package_metadata(
    path: Option<String>,
    assets: Vec<AssetDigest>,
    asset_sizes: Vec<AssetSize>,
) -> (outcome: Result<FrontendPackage, PackageFault>)
    ensures
        match outcome {
            Ok(package) => path == Some(package.path) && package.assets == assets
                && package.asset_sizes == asset_sizes,
            Err(fault) => path is None && fault is FrontendMissing,
        },
{
    match path {
        Some(path) => Ok(FrontendPackage { path, assets, asset_sizes }),
        None => Err(PackageFault::FrontendMissing),
    }
}

impl PackageFault {
    /// The text shown for the fault.
    pub open spec fn text(&self) -> Seq<char> {
        match self {
            PackageFault::EntryNotPublished => "前端入口不属于已发布版本"@,
            PackageFault::ArchiveMissing => "前端挂载要求完整二进制包"@,
            PackageFault::RevisionMismatch => "前端入口与活动版本不一致"@,
            PackageFault::FrontendMissing => "插件未声明前端产物"@,
        }
    }

    /// The text shown for the fault.
    pub fn message(&self) -> (message: String)
        ensures
            message@ == self.text(),
    {
        let message = match self {
            PackageFault::EntryNotPublished => "前端入口不属于已发布版本",
            PackageFault::ArchiveMissing => "前端挂载要求完整二进制包",
            PackageFault::RevisionMismatch => "前端入口与活动版本不一致",
            PackageFault::FrontendMissing => "插件未声明前端产物",
        };
        message.to_owned()
    }
}

/// A package that is remembered is found under its revision; the packages of other revisions stay
/// as they were, except that the one that was remembered first makes room where there are 64
/// already.
pub proof fn lemma_remembered_packages_stay(
    entries: Seq<CachedPackage>,
    entry: CachedPackage,
    k: int,
)
    requires
        forall|i: int, j: int|
            0 <= i < entries.len() && 0 <= j < entries.len() && i != j ==> (
            #[trigger] entries[i]).revision@ != (#[trigger] entries[j]).revision@,
        entries.len() <= 64,
        0 <= k < entries.len(),
        entries[k].revision@ != entry.revision@,
    ensures
        remembered(entries, entries[k].revision@) == Some(entries[k].package),
        entries.len() < 64 || k > 0 ==> remembered(
            after_remembering(entries, entry),
            entries[k].revision@,
        ) == Some(entries[k].package),
        entries.len() == 64 && k == 0 ==> remembered(
            after_remembering(entries, entry),
            entries[0].revision@,
        ) is None,
        remembered(after_remembering(entries, entry), entry.revision@) == Some(entry.package),
        after_remembering(entries, entry).len() <= 64,
{
    let kept = if entries.len() >= MAX_PACKAGES {
        entries.drop_first()
    } else {
        entries
    };
    let shift: int = if entries.len() >= MAX_PACKAGES {
        1
    } else {
        0
    };
    assert forall|i: int| 0 <= i < kept.len() implies #[trigger] kept[i] == entries[i + shift] by {}
    assert forall|i: int, j: int|
        0 <= i < entries.len() && 0 <= j < entries.len() && i != j implies revisions(entries)[i]
        != revisions(entries)[j] by {
        assert(entries[i].revision@ != entries[j].revision@);
    }
    text::lemma_first_index_is(revisions(entries), entries[k].revision@, k);
    let at = text::first_index(revisions(kept), entry.revision@);
    text::lemma_first_index(revisions(kept), entry.revision@);
    let after = after_remembering(entries, entry);
    if at < kept.len() {
        assert(revisions(kept)[at] == kept[at].revision@);
    }
    let rest = if at < kept.len() {
        kept.remove(at)
    } else {
        kept
    };
    assert(after =~= rest.push(entry));
    assert forall|i: int| 0 <= i < rest.len() implies revisions(after)[i] != entry.revision@ by {
        let from = if at < kept.len() && i >= at {
            i + 1
        } else {
            i
        };
        assert(rest[i] == kept[from]);
        if rest[i].revision@ == entry.revision@ {
            assert(revisions(kept)[from] == entry.revision@);
            if at < kept.len() {
                assert(entries[from + shift].revision@ != entries[at + shift].revision@);
            } else {
                assert(revisions(kept).contains(entry.revision@));
            }
        }
    }
    text::lemma_first_index_is(revisions(after), entry.revision@, rest.len() as int);
    let revision = entries[k].revision@;
    if entries.len() < 64 || k > 0 {
        let from = k - shift;
        let to = if at < kept.len() && from > at {
            from - 1
        } else {
            from
        };
        assert(from != at);
        assert(after[to] == entries[k]);
        assert forall|i: int| 0 <= i < to implies revisions(after)[i] != revision by {
            let origin = if at < kept.len() && i >= at {
                i + 1
            } else {
                i
            };
            assert(rest[i] == kept[origin]);
            assert(kept[origin] == entries[origin + shift]);
        }
        text::lemma_first_index_is(revisions(after), revision, to);
    } else {
        assert forall|i: int| 0 <= i < after.len() implies revisions(after)[i] != revision by {
            if i < rest.len() {
                let origin = if at < kept.len() && i >= at {
                    i + 1
                } else {
                    i
                };
                assert(rest[i] == kept[origin]);
                assert(kept[origin] == entries[origin + shift]);
            }
        }
        text::lemma_first_index_is(revisions(after), revision, after.len() as int);
    }
}

/// A package declares a file exactly where one of its files has that path.
pub proof fn lemma_declared_files(assets: Seq<AssetDigest>, path: Seq<char>)
    ensures
        declares(assets, path) <==> exists|k: int|
            0 <= k < assets.len() && (#[trigger] assets[k]).path@ == path,
{
    let paths = assets.map_values(|a: AssetDigest| a.path@);
    text::lemma_first_index(paths, path);
    if declares(assets, path) {
        let at = text::first_index(paths, path);
        assert(paths[at] == assets[at].path@);
    }
    if exists|k: int| 0 <= k < assets.len() && (#[trigger] assets[k]).path@ == path {
        let k = choose|k: int| 0 <= k < assets.len() && (#[trigger] assets[k]).path@ == path;
        assert(paths[k] == path);
        assert(paths.contains(path));
    }
}

/// Each of these is told in its own words.
pub proof fn lemma_told_package_fault(fault: PackageFault)
    ensures
        fault is EntryNotPublished ==> fault.text() == "前端入口不属于已发布版本"@,
        fault is ArchiveMissing ==> fault.text() == "前端挂载要求完整二进制包"@,
        fault is RevisionMismatch ==> fault.text() == "前端入口与活动版本不一致"@,
        fault is FrontendMissing ==> fault.text() == "插件未声明前端产物"@,
{
}

} // verus!
