//! Finding the repositories that want to be built.
use vstd::prelude::*;

use crate::steps;
use crate::steps::Outcome;
use crate::text;

verus! {

/// How many pages of repositories are read.
pub const MAX_SCAN_PAGES: usize = 100;

/// How many repositories a full page holds.
pub const PAGE_SIZE: usize = 100;

// Names

/// Whether every character of an owner's name is an ASCII letter, a digit or a hyphen.
pub open spec fn owner_name(owner: Seq<char>) -> bool {
    forall|i: int|
        0 <= i < owner.len() ==> text::is_alphanumeric(#[trigger] owner[i]) || owner[i] == '-'
}

/// Whether a text can be an owner's name.
pub fn is_owner(owner: &str) -> (yes: bool)
    ensures
        yes == owner_name(owner@),
{
    let chars = text::chars_of(owner);
    let mut i: usize = 0;
    while i < chars.len()
        invariant
            i <= chars@.len(),
            chars@ == owner@,
            forall|k: int|
                0 <= k < i ==> text::is_alphanumeric(#[trigger] chars@[k]) || chars@[k] == '-',
        decreases chars@.len() - i,
    {
        let c = chars[i];
        if !text::alphanumeric(c) && c != '-' {
            assert(!(text::is_alphanumeric(owner@[i as int]) || owner@[i as int] == '-'));
            return false;
        }
        i += 1;
    }
    true
}

/// The repository that an address names, where it is one of GitHub's.
pub fn repository_of(git: &str) -> (repository: Option<String>)
    ensures
        match repository {
            Some(repository) => git@ == "https://github.com/"@ + repository@ + ".git"@,
            None => forall|repository: Seq<char>|
                git@ != #[trigger] ("https://github.com/"@ + repository + ".git"@),
        },
{
    let prefix = "https://github.com/";
    let suffix = ".git";
    match text::strip_prefix(git, prefix) {
        None => {
            proof {
                assert forall|repository: Seq<char>| git@ != #[trigger] (prefix@ + repository
                    + suffix@) by {
                    let whole = prefix@ + repository + suffix@;
                    assert(whole.subrange(0, prefix@.len() as int) =~= prefix@);
                }
            }
            None
        },
        Some(rest) => match text::strip_suffix(rest.as_str(), suffix) {
            Some(repository) => {
                assert(git@ =~= prefix@ + repository@ + suffix@);
                Some(repository)
            },
            None => {
                proof {
                    assert forall|repository: Seq<char>| git@ != #[trigger] (prefix@ + repository
                        + suffix@) by {
                        let whole = prefix@ + repository + suffix@;
                        if git@ == whole {
                            assert(rest@ =~= git@.skip(prefix@.len() as int));
                            assert(rest@ =~= repository + suffix@);
                            assert(rest@.subrange(repository.len() as int, rest@.len() as int)
                                =~= suffix@);
                        }
                    }
                }
                None
            },
        },
    }
}

/// The address of a page of an owner's repositories.
pub fn page_address(owner: &str, page: u64) -> (address: String)
    ensures
        address@ == "https://api.github.com/users/"@ + owner@ + "/repos?per_page=100&page="@
            + text::decimal(page as nat) + "&sort=updated"@,
{
    let number = text::decimal_text(page);
    "https://api.github.com/users/".to_owned().concat(owner).concat(
        "/repos?per_page=100&page=",
    ).concat(number.as_str()).concat("&sort=updated")
}

/// The address of a repository's commits.
pub fn commits_address(repository: &str) -> (address: String)
    ensures
        address@ == "https://api.github.com/repos/"@ + repository@ + "/commits"@,
{
    "https://api.github.com/repos/".to_owned().concat(repository).concat("/commits")
}

/// The address of a repository's delivery manifest.
pub fn manifest_address(repository: &str) -> (address: String)
    ensures
        address@ == "https://api.github.com/repos/"@ + repository@ + "/contents/aio-delivery.toml"@,
{
    "https://api.github.com/repos/".to_owned().concat(repository).concat(
        "/contents/aio-delivery.toml",
    )
}

/// Whether an outcome says that a repository has a delivery manifest.
pub open spec fn marks(status: u16, read: Result<(), String>, outcome: Result<bool,
    String>) -> bool {
    match outcome {
        Ok(marked) => marked == (status != 404) && (marked ==> read is Ok),
        Err(told) => status != 404 && read == Err::<(), String>(told),
    }
}

/// Whether a repository has a delivery manifest, from how the question for it was answered and
/// whether what came could be read.
pub fn request_marker(status: u16, read: Result<(), String>) -> (outcome: Result<bool, String>)
    ensures
        marks(status, read, outcome),
{
    if status == 404 {
        return Ok(false);
    }
    match read {
        Ok(()) => Ok(true),
        Err(told) => Err(told),
    }
}

// Scanning

/// The tag of a page that was read, and whether it was the last one.
#[derive(Debug)]
pub struct PageTag {
    pub etag: String,
    pub last: bool,
}

/// The tags of the pages that were read without a failure, by their numbers less one.
#[derive(Debug)]
pub struct ScanCache {
    pub tags: Vec<Option<PageTag>>,
}

/// What follows a page.
#[derive(Clone, Copy, Debug, PartialEq, Eq, Structural)]
pub enum ScanNext {
    Page(usize),
    End,
}

/// The page after this one, up to the last that is read.
pub open spec fn following(page: usize) -> ScanNext {
    if page < MAX_SCAN_PAGES {
        ScanNext::Page((page + 1) as usize)
    } else {
        ScanNext::End
    }
}

fn next_page(page: usize) -> (next: ScanNext)
    ensures
        next == following(page),
{
    if page < MAX_SCAN_PAGES {
        ScanNext::Page(page + 1)
    } else {
        ScanNext::End
    }
}

/// Whether a page's number is one that is read.
pub open spec fn readable(page: usize) -> bool {
    1 <= page <= MAX_SCAN_PAGES
}

impl ScanCache {
    pub open spec fn well_formed(&self) -> bool {
        self.tags@.len() == MAX_SCAN_PAGES
    }

    pub fn new() -> (cache: ScanCache)
        ensures
            cache.well_formed(),
            forall|i: int| 0 <= i < MAX_SCAN_PAGES ==> (#[trigger] cache.tags@[i]) is None,
    {
        let mut tags: Vec<Option<PageTag>> = Vec::new();
        let mut i: usize = 0;
        while i < MAX_SCAN_PAGES
            invariant
                i <= MAX_SCAN_PAGES,
                tags@.len() == i,
                forall|k: int| 0 <= k < i ==> (#[trigger] tags@[k]) is None,
            decreases MAX_SCAN_PAGES - i,
        {
            tags.push(None);
            i += 1;
        }
        ScanCache { tags }
    }

    /// The tag under which a page is asked for, where it was read before.
    pub fn condition(&self, page: usize) -> (etag: Option<&String>)
        requires
            self.well_formed(),
            readable(page),
        ensures
            match etag {
                Some(etag) => self.tags@[page - 1] is Some && self.tags@[page - 1]->0.etag == *etag,
                None => self.tags@[page - 1] is None,
            },
    {
        match &self.tags[page - 1] {
            Some(tag) => Some(&tag.etag),
            None => None,
        }
    }

    /// What follows a page that did not change: nothing after the last one.
    pub fn unchanged(&self, page: usize) -> (next: ScanNext)
        requires
            self.well_formed(),
            readable(page),
        ensures
            next == if self.tags@[page - 1] is Some && self.tags@[page - 1]->0.last {
                ScanNext::End
            } else {
                following(page)
            },
    {
        match &self.tags[page - 1] {
            Some(tag) => {
                if tag.last {
                    ScanNext::End
                } else {
                    next_page(page)
                }
            },
            None => next_page(page),
        }
    }

    /// Notes a page that was read, and tells what follows it. A page with a failure is forgotten
    /// so that it is read anew; a page that is not full is the last one, and what was noted of
    /// later ones is forgotten.
    pub fn scanned(&mut self, page: usize, etag: Option<String>, count: usize, failed: bool) -> (
        next: ScanNext)
        requires
            old(self).well_formed(),
            readable(page),
        ensures
            final(self).well_formed(),
            next == if count < PAGE_SIZE {
                ScanNext::End
            } else {
                following(page)
            },
            forall|i: int|
                0 <= i < page - 1 ==> #[trigger] final(self).tags@[i] == old(self).tags@[i],
            forall|i: int|
                page <= i < MAX_SCAN_PAGES ==> #[trigger] final(self).tags@[i] == if count
                    < PAGE_SIZE {
                    None
                } else {
                    old(self).tags@[i]
                },
            final(self).tags@[page - 1] == if failed {
                None
            } else {
                match etag {
                    Some(etag) => Some(PageTag { etag, last: count < PAGE_SIZE }),
                    None => old(self).tags@[page - 1],
                }
            },
    {
        let last = count < PAGE_SIZE;
        if failed {
            self.tags.set(page - 1, None);
        } else {
            match etag {
                Some(etag) => {
                    self.tags.set(page - 1, Some(PageTag { etag, last }));
                },
                None => {},
            }
        }
        if !last {
            return next_page(page);
        }
        let ghost noted = self.tags@;
        let mut i: usize = page;
        while i < MAX_SCAN_PAGES
            invariant
                page <= i <= MAX_SCAN_PAGES,
                1 <= page,
                self.tags@.len() == MAX_SCAN_PAGES,
                noted.len() == MAX_SCAN_PAGES,
                forall|k: int| 0 <= k < page ==> #[trigger] self.tags@[k] == noted[k],
                forall|k: int| page <= k < i ==> (#[trigger] self.tags@[k]) is None,
            decreases MAX_SCAN_PAGES - i,
        {
            self.tags.set(i, None);
            i += 1;
        }
        ScanNext::End
    }
}

/// A scan comes to an end: each page leads to a later one, and there is a last one.
pub proof fn lemma_scan_ends(page: usize)
    requires
        readable(page),
    ensures
        match following(page) {
            ScanNext::Page(next) => next > page && readable(next),
            ScanNext::End => page == MAX_SCAN_PAGES,
        },
{
}

/// What is to be done with a repository that was found.
#[derive(Clone, Copy, Debug, PartialEq, Eq, Structural)]
pub enum RepositoryStep {
    Disable,
    Inspect,
}

/// Whether a step is what a repository that was found is for.
pub open spec fn chooses(archived: bool, fork: bool, step: RepositoryStep) -> bool {
    step == if archived || fork {
        RepositoryStep::Disable
    } else {
        RepositoryStep::Inspect
    }
}

/// Decides what is to be done with a repository that was found: archives and copies are not built.
pub fn repository_step(archived: bool, fork: bool) -> (step: RepositoryStep)
    ensures
        chooses(archived, fork, step),
{
    if archived || fork {
        RepositoryStep::Disable
    } else {
        RepositoryStep::Inspect
    }
}

// Inspecting

/// What is known so far of a repository.
#[derive(Debug)]
pub struct InspectProgress {
    /// The newest commit of the branch, where it has one.
    pub commit: Outcome<Option<String>>,
    /// Whether this commit is already the one to build.
    pub known: Outcome<bool>,
    /// Whether the commit holds a delivery manifest.
    pub marked: Outcome<bool>,
    pub disabled: Outcome<()>,
    /// That a build of the commit was queued in place of earlier ones.
    pub queued: Outcome<()>,
}

/// What is to be done next about a repository.
#[derive(Debug)]
pub enum InspectStep {
    ReadCommit,
    CheckKnown,
    ReadManifest,
    Disable,
    Queue,
    End,
    Fail(String),
}

impl InspectProgress {
    pub fn start() -> (progress: InspectProgress)
        ensures
            progress.commit is None,
            progress.known is None,
            progress.marked is None,
            progress.disabled is None,
            progress.queued is None,
    {
        InspectProgress { commit: None, known: None, marked: None, disabled: None, queued: None }
    }

    /// The newest commit, where there is one with a proper id.
    pub open spec fn proper_commit(&self) -> bool {
        match self.commit {
            Some(Ok(Some(sha))) => sha@.len() == 40 && text::all_hex(sha@),
            _ => false,
        }
    }

    /// The commit is new.
    pub open spec fn fresh(&self) -> bool {
        self.proper_commit() && steps::said(self.known, false)
    }

    /// What is told where the repository could not be inspected.
    pub open spec fn failed(&self) -> Option<Seq<char>> {
        match self.commit {
            None => None,
            Some(Err(told)) => Some(told@),
            Some(Ok(None)) => Some("默认分支为空"@),
            Some(Ok(Some(_))) => if !self.proper_commit() {
                Some("无效提交 SHA"@)
            } else if steps::failure(self.known) is Some {
                steps::failure(self.known)
            } else if !self.fresh() {
                None
            } else if steps::failure(self.marked) is Some {
                steps::failure(self.marked)
            } else if steps::said(self.marked, false) {
                steps::failure(self.disabled)
            } else if steps::said(self.marked, true) {
                steps::failure(self.queued)
            } else {
                None
            },
        }
    }

    /// Whether a step is the one to be taken next.
    pub open spec fn asks(&self, step: InspectStep) -> bool {
        &&& step is ReadCommit <==> self.commit is None
        &&& step is CheckKnown <==> self.proper_commit() && self.known is None
        &&& step is ReadManifest <==> self.fresh() && self.marked is None
        &&& step is Disable <==> self.fresh() && steps::said(self.marked, false)
            && self.disabled is None
        &&& step is Queue <==> self.fresh() && steps::said(self.marked, true)
            && self.queued is None
        &&& step is End <==> {
            ||| self.proper_commit() && steps::said(self.known, true)
            ||| self.fresh() && steps::said(self.marked, false) && steps::done(self.disabled)
            ||| self.fresh() && steps::said(self.marked, true) && steps::done(self.queued)
        }
        &&& step is Fail <==> self.failed() is Some
        &&& step matches InspectStep::Fail(told) ==> self.failed() == Some(told@)
    }

    /// What is to be done next: a commit that is not known yet is built where it says so, and
    /// otherwise its repository is no longer built.
    pub fn next(&self) -> (step: InspectStep)
        ensures
            self.asks(step),
    {
        let sha = match &self.commit {
            None => return InspectStep::ReadCommit,
            Some(Err(told)) => return InspectStep::Fail(told.clone()),
            Some(Ok(None)) => return InspectStep::Fail("默认分支为空".to_owned()),
            Some(Ok(Some(sha))) => sha,
        };
        if !text::is_hex_text(sha.as_str(), 40) {
            return InspectStep::Fail("无效提交 SHA".to_owned());
        }
        match &self.known {
            None => return InspectStep::CheckKnown,
            Some(Err(told)) => return InspectStep::Fail(told.clone()),
            Some(Ok(true)) => return InspectStep::End,
            Some(Ok(false)) => {},
        }
        let marked = match &self.marked {
            None => return InspectStep::ReadManifest,
            Some(Err(told)) => return InspectStep::Fail(told.clone()),
            Some(Ok(marked)) => *marked,
        };
        if marked {
            match &self.queued {
                None => InspectStep::Queue,
                Some(Err(told)) => InspectStep::Fail(told.clone()),
                Some(Ok(())) => InspectStep::End,
            }
        } else {
            match &self.disabled {
                None => InspectStep::Disable,
                Some(Err(told)) => InspectStep::Fail(told.clone()),
                Some(Ok(())) => InspectStep::End,
            }
        }
    }
}

/// A repository is inspected in order. Its newest commit must have a full id; one that is the
/// wanted one already needs nothing; a new one is built where it holds a delivery manifest, and
/// otherwise its repository is no longer built.
pub proof fn lemma_repository_is_inspected_in_order(progress: InspectProgress, step: InspectStep)
    requires
        progress.asks(step),
    ensures
        progress.commit is None ==> step is ReadCommit,
        (progress.commit is Some && progress.commit->0 is Err)
            ==> step is Fail && step->Fail_0@ == progress.commit->0->Err_0@,
        (progress.commit is Some && progress.commit->0 is Ok)
            && progress.commit->0->Ok_0 is None ==> step is Fail && step->Fail_0@ == "默认分支为空"@,
        (progress.commit is Some && progress.commit->0 is Ok)
            && progress.commit->0->Ok_0 is Some ==> {
            let sha = progress.commit->0->Ok_0->0@;
            let proper = sha.len() == 40 && text::all_hex(sha);
            &&& !proper ==> step is Fail && step->Fail_0@ == "无效提交 SHA"@
            &&& proper && progress.known is None ==> step is CheckKnown
            &&& proper && (progress.known is Some && progress.known->0 is Err)
                ==> step is Fail && step->Fail_0@ == progress.known->0->Err_0@
            &&& proper && progress.known == Some(Ok::<bool, String>(true)) ==> step is End
            &&& proper && progress.known == Some(Ok::<bool, String>(false))
                && progress.marked is None ==> step is ReadManifest
            &&& proper && progress.known == Some(Ok::<bool, String>(false))
                && (progress.marked is Some && progress.marked->0 is Err)
                ==> step is Fail && step->Fail_0@ == progress.marked->0->Err_0@
            &&& proper && progress.known == Some(Ok::<bool, String>(false))
                && progress.marked == Some(Ok::<bool, String>(true)) && progress.queued is None
                ==> step is Queue
            &&& proper && progress.known == Some(Ok::<bool, String>(false))
                && progress.marked == Some(Ok::<bool, String>(true)) && (progress.queued is Some
                && progress.queued->0 is Err)
                ==> step is Fail && step->Fail_0@ == progress.queued->0->Err_0@
            &&& proper && progress.known == Some(Ok::<bool, String>(false))
                && progress.marked == Some(Ok::<bool, String>(true)) && (progress.queued is Some
                && progress.queued->0 is Ok) ==> step is End
            &&& proper && progress.known == Some(Ok::<bool, String>(false))
                && progress.marked == Some(Ok::<bool, String>(false))
                && progress.disabled is None ==> step is Disable
            &&& proper && progress.known == Some(Ok::<bool, String>(false))
                && progress.marked == Some(Ok::<bool, String>(false))
                && (progress.disabled is Some && progress.disabled->0 is Err)
                ==> step is Fail && step->Fail_0@ == progress.disabled->0->Err_0@
            &&& proper && progress.known == Some(Ok::<bool, String>(false))
                && progress.marked == Some(Ok::<bool, String>(false))
                && (progress.disabled is Some && progress.disabled->0 is Ok) ==> step is End
        },
{
}

/// Pages are read one after the other, a hundred at most.
pub proof fn lemma_pages_follow_each_other(page: usize)
    requires
        1 <= page,
    ensures
        page < 100 ==> following(page) == ScanNext::Page((page + 1) as usize),
        page >= 100 ==> following(page) is End,
        readable(page) <==> page <= 100,
{
}

/// An owner's name is made of letters, digits and hyphens.
pub proof fn lemma_names_of_owners(owner: Seq<char>, next: char)
    ensures
        owner_name(Seq::<char>::empty()),
        owner_name(owner.push(next)) <==> owner_name(owner) && (text::is_alphanumeric(next)
            || next == '-'),
{
    let longer = owner.push(next);
    assert forall|i: int| 0 <= i < owner.len() implies #[trigger] owner[i] == longer[i] by {}
    assert(longer[owner.len() as int] == next);
    if owner_name(longer) {
        assert forall|i: int| 0 <= i < owner.len() implies text::is_alphanumeric(
            #[trigger] owner[i],
        ) || owner[i] == '-' by {
            assert(longer[i] == owner[i]);
        }
    }
}

/// A repository without the manifest is none of ours; a manifest that could not be read is a
/// failure, not an absence.
pub proof fn lemma_which_repositories_are_marked(status: u16, read: Result<(), String>,
    outcome: Result<bool, String>)
    requires
        marks(status, read, outcome),
    ensures
        status == 404 ==> outcome == Ok::<bool, String>(false),
        status != 404 && read is Ok ==> outcome == Ok::<bool, String>(true),
        status != 404 && read is Err ==> outcome is Err && outcome->Err_0 == read->Err_0,
{
}

/// A repository is inspected where it is neither archived nor a copy of another.
pub proof fn lemma_which_repositories_are_built(archived: bool, fork: bool, step: RepositoryStep)
    requires
        chooses(archived, fork, step),
    ensures
        step is Inspect <==> !archived && !fork,
        step is Disable <==> archived || fork,
{
}

} // verus!
