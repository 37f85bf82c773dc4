//! Running processes: how they are brought up, described and asked.
use vstd::prelude::*;

use crate::outside;
use crate::runtime::model;
use crate::runtime::model::Header;
use crate::runtime::server::components;
use crate::runtime::server::components::model::{Description, Page, Request, Response};
use crate::runtime::server::components::process::model::Start;
use crate::runtime::server::components::services::RequestContext;
use crate::steps;
use crate::steps::Outcome;
use crate::text;

verus! {

/// How often a started process is asked whether it is healthy.
pub const MAX_HEALTH_CHECKS: u32 = 100;

/// The largest description of a process.
pub const MAX_DESCRIPTION_BYTES: usize = 131072;

/// The largest answer of a process.
pub const MAX_ANSWER_BYTES: usize = 8388608;

/// How many pages a process may have.
pub const MAX_PAGES: usize = 32;

/// The longest label, in bytes.
pub const MAX_LABEL_BYTES: usize = 256;

/// The longest id of a page, in bytes.
pub const MAX_PAGE_ID_BYTES: usize = 128;

// Bringing up a process

/// What is known so far while a process is being brought up.
#[derive(Debug)]
pub struct PrepareProgress {
    /// That an instance of the same name was stopped.
    pub stopped: Outcome<()>,
    pub configured: Outcome<()>,
    pub started: Outcome<()>,
    /// How often the process was asked, and whether it said it was healthy.
    pub checks: u32,
    pub healthy: bool,
    /// That the process described itself well.
    pub described: Outcome<()>,
    /// Whether it was tried to stop a process that failed.
    pub cleaned: bool,
}

/// What is to be done next while a process is being brought up.
#[derive(Debug)]
pub enum PrepareStep {
    StopPrevious,
    Configure,
    Start,
    CheckHealth,
    Describe,
    Clean,
    Ready,
    Fail(String),
}

impl PrepareProgress {
    /// Nothing has been tried yet.
    pub open spec fn is_start(&self) -> bool {
        &&& self.stopped is None
        &&& self.configured is None
        &&& self.started is None
        &&& self.checks == 0
        &&& !self.healthy
        &&& self.described is None
        &&& !self.cleaned
    }

    pub fn start() -> (progress: PrepareProgress)
        ensures
            progress.is_start(),
    {
        PrepareProgress {
            stopped: None,
            configured: None,
            started: None,
            checks: 0,
            healthy: false,
            described: None,
            cleaned: false,
        }
    }

    /// Everything is there for the process to be started.
    pub open spec fn configured_well(&self) -> bool {
        steps::done(self.stopped) && steps::done(self.configured)
    }

    /// What went wrong after the process was to be started.
    pub open spec fn trouble(&self) -> Option<Seq<char>> {
        if !self.configured_well() {
            None
        } else if steps::failure(self.started) is Some {
            steps::failure(self.started)
        } else if !steps::done(self.started) {
            None
        } else if self.healthy {
            steps::failure(self.described)
        } else if self.checks >= MAX_HEALTH_CHECKS {
            Some("process 启动健康检查超时"@)
        } else {
            None
        }
    }

    /// What is told where the process could not be brought up: it failed before it was to be
    /// started, or afterwards and was cleaned up.
    pub open spec fn failed(&self) -> Option<Seq<char>> {
        if steps::failure(self.stopped) is Some {
            steps::failure(self.stopped)
        } else if steps::done(self.stopped) && steps::failure(self.configured) is Some {
            steps::failure(self.configured)
        } else if self.cleaned {
            self.trouble()
        } else {
            None
        }
    }

    /// Whether a step is the one to be taken next.
    pub open spec fn asks(&self, step: PrepareStep) -> bool {
        &&& step is StopPrevious <==> self.stopped is None
        &&& step is Configure <==> steps::done(self.stopped) && self.configured is None
        &&& step is Start <==> self.configured_well() && self.started is None
        &&& step is CheckHealth <==> self.configured_well() && steps::done(self.started)
            && !self.healthy && self.checks < MAX_HEALTH_CHECKS
        &&& step is Describe <==> self.configured_well() && steps::done(self.started)
            && self.healthy && self.described is None
        &&& step is Clean <==> self.trouble() is Some && !self.cleaned
        &&& step is Ready <==> self.configured_well() && steps::done(self.started) && self.healthy
            && steps::done(self.described)
        &&& step is Fail <==> self.failed() is Some
        &&& step matches PrepareStep::Fail(told) ==> self.failed() == Some(told@)
    }

    /// What is to be done next.
    pub fn next(&self) -> (step: PrepareStep)
        ensures
            self.asks(step),
    {
        match &self.stopped {
            None => return PrepareStep::StopPrevious,
            Some(Err(told)) => return PrepareStep::Fail(told.clone()),
            Some(Ok(())) => {},
        }
        match &self.configured {
            None => return PrepareStep::Configure,
            Some(Err(told)) => return PrepareStep::Fail(told.clone()),
            Some(Ok(())) => {},
        }
        let told = match &self.started {
            None => return PrepareStep::Start,
            Some(Err(told)) => told.clone(),
            Some(Ok(())) => {
                if self.healthy {
                    match &self.described {
                        None => return PrepareStep::Describe,
                        Some(Ok(())) => return PrepareStep::Ready,
                        Some(Err(told)) => told.clone(),
                    }
                } else if self.checks < MAX_HEALTH_CHECKS {
                    return PrepareStep::CheckHealth;
                } else {
                    "process 启动健康检查超时".to_owned()
                }
            },
        };
        if self.cleaned {
            PrepareStep::Fail(told)
        } else {
            PrepareStep::Clean
        }
    }

    /// Notes the outcome of a health check.
    pub fn checked(&mut self, healthy: bool)
        requires
            old(self).checks < MAX_HEALTH_CHECKS,
        ensures
            final(self).checks == old(self).checks + 1,
            final(self).healthy == healthy,
            final(self).stopped == old(self).stopped,
            final(self).configured == old(self).configured,
            final(self).started == old(self).started,
            final(self).described == old(self).described,
            final(self).cleaned == old(self).cleaned,
    {
        self.checks = self.checks + 1;
        self.healthy = healthy;
    }
}

/// A process that could not be brought up after it was to be started is cleaned up before the
/// failure is told.
pub proof fn lemma_failed_process_is_cleaned(progress: PrepareProgress)
    requires
        progress.configured_well(),
        progress.failed() is Some,
    ensures
        progress.cleaned,
        progress.failed() == progress.trouble(),
{
}

// Descriptions

/// The characters of a page's id.
pub open spec fn id_char(c: char) -> bool {
    text::is_alphanumeric(c) || c == '_' || c == '-'
}

/// A page's id: short, of letters, digits, underscores and hyphens.
pub open spec fn proper_id(id: Seq<char>) -> bool {
    &&& id.len() > 0
    &&& text::byte_len(id) <= MAX_PAGE_ID_BYTES
    &&& forall|i: int| 0 <= i < id.len() ==> id_char(#[trigger] id[i])
}

/// A label: present and short.
pub open spec fn proper_label(label: Seq<char>) -> bool {
    label.len() > 0 && text::byte_len(label) <= MAX_LABEL_BYTES
}

/// Why a description is refused.
#[derive(Clone, Copy, Debug, PartialEq, Eq, Structural)]
pub enum DescriptionFault {
    Shape,
    PageIdentity,
    EntryMissing,
    PermissionUndeclared,
    SurfaceUnknown,
}

/// The ids of the pages.
pub open spec fn page_ids(pages: Seq<Page>) -> Seq<Seq<char>> {
    pages.map_values(|p: Page| p.id@)
}

/// Why the page at `at` is refused, seen after those before it.
pub open spec fn page_fault(
    pages: Seq<Page>,
    at: int,
    files: Seq<Seq<char>>,
    permissions: Seq<Seq<char>>,
) -> Option<DescriptionFault> {
    let page = pages[at];
    if !proper_id(page.id@) || page_ids(pages.take(at)).contains(page.id@) || !proper_label(
        page.label@,
    ) {
        Some(DescriptionFault::PageIdentity)
    } else if !files.contains(page.entry@) {
        Some(DescriptionFault::EntryMissing)
    } else if page.permission is Some && !permissions.contains(page.permission->0@) {
        Some(DescriptionFault::PermissionUndeclared)
    } else if !components::model::is_surface(page.surface@) {
        Some(DescriptionFault::SurfaceUnknown)
    } else {
        None
    }
}

/// The fault of the first page that has one.
pub open spec fn first_page_fault(
    pages: Seq<Page>,
    at: int,
    files: Seq<Seq<char>>,
    permissions: Seq<Seq<char>>,
) -> Option<DescriptionFault>
    decreases pages.len() - at,
{
    if at < 0 || at >= pages.len() {
        None
    } else if page_fault(pages, at, files, permissions) is Some {
        page_fault(pages, at, files, permissions)
    } else {
        first_page_fault(pages, at + 1, files, permissions)
    }
}

/// Why a description is refused.
pub open spec fn description_fault(
    description: Description,
    files: Seq<Seq<char>>,
    permissions: Seq<Seq<char>>,
) -> Option<DescriptionFault> {
    if !proper_label(description.label@) || !(0 < description.pages@.len() <= MAX_PAGES) {
        Some(DescriptionFault::Shape)
    } else {
        first_page_fault(description.pages@, 0, files, permissions)
    }
}

/// Whether a text is a page's id.
fn is_proper_id(id: &str) -> (yes: bool)
    ensures
        yes == proper_id(id@),
{
    if id.is_empty() || id.as_bytes().len() > MAX_PAGE_ID_BYTES {
        return false;
    }
    let chars = text::chars_of(id);
    let mut i: usize = 0;
    while i < chars.len()
        invariant
            i <= chars@.len(),
            chars@ == id@,
            forall|k: int| 0 <= k < i ==> id_char(#[trigger] chars@[k]),
        decreases chars@.len() - i,
    {
        let c = chars[i];
        if !(text::alphanumeric(c) || c == '_' || c == '-') {
            assert(!id_char(id@[i as int]));
            return false;
        }
        i += 1;
    }
    true
}

/// Whether a text is a label.
fn is_proper_label(label: &str) -> (yes: bool)
    ensures
        yes == proper_label(label@),
{
    !label.is_empty() && label.as_bytes().len() <= MAX_LABEL_BYTES
}

/// Checks how a process describes itself, against the files and permissions of its bundle.
pub fn validate_description(
    description: &Description,
    files: &Vec<String>,
    permissions: &Vec<String>,
) -> (outcome: Result<(), DescriptionFault>)
    ensures
        ({
            let fault = description_fault(
                *description,
                text::texts(files@),
                text::texts(permissions@),
            );
            match outcome {
                Ok(()) => fault is None,
                Err(found) => fault == Some(found),
            }
        }),
{
    if !is_proper_label(description.label.as_str()) || description.pages.is_empty()
        || description.pages.len() > MAX_PAGES {
        return Err(DescriptionFault::Shape);
    }
    let ghost pages = description.pages@;
    let ghost known = text::texts(files@);
    let ghost declared = text::texts(permissions@);
    let mut ids: Vec<String> = Vec::new();
    let mut i: usize = 0;
    assert(text::texts(ids@) =~= page_ids(pages.take(0)));
    while i < description.pages.len()
        invariant
            i <= description.pages@.len(),
            pages == description.pages@,
            known == text::texts(files@),
            declared == text::texts(permissions@),
            proper_label(description.label@),
            0 < pages.len() <= MAX_PAGES,
            text::texts(ids@) == page_ids(pages.take(i as int)),
            first_page_fault(pages, 0, known, declared) == first_page_fault(
                pages,
                i as int,
                known,
                declared,
            ),
        decreases description.pages@.len() - i,
    {
        let page = &description.pages[i];
        if !is_proper_id(page.id.as_str()) || text::holds(&ids, page.id.as_str())
            || !is_proper_label(page.label.as_str()) {
            return Err(DescriptionFault::PageIdentity);
        }
        if !text::holds(files, page.entry.as_str()) {
            return Err(DescriptionFault::EntryMissing);
        }
        let permitted = match &page.permission {
            Some(permission) => text::holds(permissions, permission.as_str()),
            None => true,
        };
        if !permitted {
            return Err(DescriptionFault::PermissionUndeclared);
        }
        if !components::model::names_surface(page.surface.as_str()) {
            return Err(DescriptionFault::SurfaceUnknown);
        }
        let ghost before = text::texts(ids@);
        ids.push(page.id.clone());
        assert(text::texts(ids@) =~= before.push(page.id@));
        assert(page_ids(pages.take(i as int + 1)) =~= before.push(page.id@));
        i += 1;
    }
    Ok(())
}

/// Takes over how a process describes itself, once that was checked: it is noted that this is a
/// process.
pub fn accept_description(
    description: Description,
    files: &Vec<String>,
    permissions: &Vec<String>,
) -> (outcome: Result<Description, DescriptionFault>)
    ensures
        ({
            let fault = description_fault(
                description,
                text::texts(files@),
                text::texts(permissions@),
            );
            match outcome {
                Ok(accepted) => {
                    &&& fault is None
                    &&& accepted.label == description.label
                    &&& accepted.pages == description.pages
                    &&& accepted.process
                },
                Err(found) => fault == Some(found),
            }
        }),
{
    match validate_description(&description, files, permissions) {
        Ok(()) => Ok(
            Description { label: description.label, pages: description.pages, process: true },
        ),
        Err(fault) => Err(fault),
    }
}

proof fn lemma_pages_distinct_from(
    pages: Seq<Page>,
    at: int,
    files: Seq<Seq<char>>,
    permissions: Seq<Seq<char>>,
)
    requires
        0 <= at <= pages.len(),
        page_ids(pages.take(at)).no_duplicates(),
        first_page_fault(pages, at, files, permissions) is None,
    ensures
        page_ids(pages.take(pages.len() as int)).no_duplicates(),
    decreases pages.len() - at,
{
    if at < pages.len() {
        let front = page_ids(pages.take(at));
        let longer = page_ids(pages.take(at + 1));
        assert(page_fault(pages, at, files, permissions) is None);
        assert forall|a: int, b: int|
            0 <= a < longer.len() && 0 <= b < longer.len() && a != b implies longer[a]
            != longer[b] by {
            if a < at {
                assert(longer[a] == front[a]);
                assert(front.contains(front[a]));
            }
            if b < at {
                assert(longer[b] == front[b]);
                assert(front.contains(front[b]));
            }
        }
        lemma_pages_distinct_from(pages, at + 1, files, permissions);
    }
}

/// No two pages of an accepted description share an id.
pub proof fn lemma_accepted_pages_are_distinct(
    description: Description,
    files: Seq<Seq<char>>,
    permissions: Seq<Seq<char>>,
)
    requires
        description_fault(description, files, permissions) is None,
    ensures
        page_ids(description.pages@).no_duplicates(),
{
    let pages = description.pages@;
    assert(page_ids(pages.take(0)) =~= Seq::<Seq<char>>::empty());
    lemma_pages_distinct_from(pages, 0, files, permissions);
    assert(pages.take(pages.len() as int) =~= pages);
}

impl DescriptionFault {
    /// The text shown for the fault.
    pub open spec fn text(&self) -> Seq<char> {
        match self {
            DescriptionFault::Shape => "process 页面描述无效"@,
            DescriptionFault::PageIdentity => "process 页面标识无效"@,
            DescriptionFault::EntryMissing => "process 页面入口不属于整包"@,
            DescriptionFault::PermissionUndeclared => "process 页面权限未声明"@,
            DescriptionFault::SurfaceUnknown => "process 页面类型无效"@,
        }
    }

    /// The text shown for the fault.
    pub fn message(&self) -> (message: String)
        ensures
            message@ == self.text(),
    {
        let message = match self {
            DescriptionFault::Shape => "process 页面描述无效",
            DescriptionFault::PageIdentity => "process 页面标识无效",
            DescriptionFault::EntryMissing => "process 页面入口不属于整包",
            DescriptionFault::PermissionUndeclared => "process 页面权限未声明",
            DescriptionFault::SurfaceUnknown => "process 页面类型无效",
        };
        message.to_owned()
    }
}

// Asking a process

/// Why a process is not asked.
#[derive(Clone, Copy, Debug, PartialEq, Eq, Structural)]
pub enum CallFault {
    Inactive,
    Changed,
    UserMissing,
}

/// Why a process is not asked.
pub open spec fn call_fault(
    instance: Option<Start>,
    tenant: Seq<char>,
    digest: Seq<char>,
    context: RequestContext,
) -> Option<CallFault> {
    if instance is None {
        Some(CallFault::Inactive)
    } else if instance->0.revision@ != digest || text::optional(context.tenant_id) != Some(tenant) {
        Some(CallFault::Changed)
    } else if context.user_id is None {
        Some(CallFault::UserMissing)
    } else {
        None
    }
}

/// The headers that a process is asked with: who asks, by the host's word, and of the request's
/// own only the types of contents.
pub open spec fn call_headers(
    token: Seq<char>,
    tenant: Seq<char>,
    user: Seq<char>,
    request_id: Seq<char>,
    headers: Seq<(Seq<char>, Seq<char>)>,
) -> Seq<(Seq<char>, Seq<char>)> {
    seq![
        ("x-aio-token"@, token),
        ("x-aio-tenant-id"@, tenant),
        ("x-aio-user-id"@, user),
        ("x-aio-context"@, request_id),
    ] + content_headers(headers)
}

/// The headers that name types of contents.
pub open spec fn content_headers(headers: Seq<(Seq<char>, Seq<char>)>) -> Seq<
    (Seq<char>, Seq<char>),
>
    decreases headers.len(),
{
    if headers.len() == 0 {
        Seq::empty()
    } else {
        let earlier = content_headers(headers.drop_last());
        let name = text::lowered(headers.last().0);
        if name == "content-type"@ || name == "accept"@ {
            earlier.push(headers.last())
        } else {
            earlier
        }
    }
}

/// The address at which a process is asked, over its own socket.
pub open spec fn call_address(request: Request) -> Option<Seq<char>> {
    outside::url_redirected("http://localhost"@, request.path@, text::optional(request.query))
}

/// Checks that a process may be asked: it runs the version that was meant, for the tenant of a
/// known user.
pub fn check_call(
    instance: &Option<Start>,
    tenant: &str,
    digest: &str,
    context: &RequestContext,
) -> (outcome: Result<(), CallFault>)
    ensures
        match outcome {
            Ok(()) => call_fault(*instance, tenant@, digest@, *context) is None,
            Err(fault) => call_fault(*instance, tenant@, digest@, *context) == Some(fault),
        },
{
    let start = match instance {
        Some(start) => start,
        None => return Err(CallFault::Inactive),
    };
    let own_tenant = match &context.tenant_id {
        Some(tenant_id) => text::same(tenant_id.as_str(), tenant),
        None => false,
    };
    if !text::same(start.revision.as_str(), digest) || !own_tenant {
        return Err(CallFault::Changed);
    }
    if context.user_id.is_none() {
        return Err(CallFault::UserMissing);
    }
    Ok(())
}

/// The headers that a process is asked with.
pub fn outgoing_headers(
    token: &str,
    tenant: &str,
    user: &str,
    request_id: &str,
    headers: &Vec<Header>,
) -> (outgoing: Vec<Header>)
    ensures
        model::header_texts(outgoing@) == call_headers(
            token@,
            tenant@,
            user@,
            request_id@,
            model::header_texts(headers@),
        ),
{
    let mut outgoing: Vec<Header> = Vec::new();
    outgoing.push(model::header("x-aio-token", token));
    outgoing.push(model::header("x-aio-tenant-id", tenant));
    outgoing.push(model::header("x-aio-user-id", user));
    outgoing.push(model::header("x-aio-context", request_id));
    let ghost fixed = seq![
        ("x-aio-token"@, token@),
        ("x-aio-tenant-id"@, tenant@),
        ("x-aio-user-id"@, user@),
        ("x-aio-context"@, request_id@),
    ];
    let ghost all = model::header_texts(headers@);
    let mut i: usize = 0;
    assert(model::header_texts(outgoing@) =~= fixed + content_headers(all.take(0)));
    while i < headers.len()
        invariant
            i <= headers@.len(),
            all == model::header_texts(headers@),
            model::header_texts(outgoing@) == fixed + content_headers(all.take(i as int)),
        decreases headers@.len() - i,
    {
        assert(all.take(i as int + 1).drop_last() =~= all.take(i as int));
        assert(all[i as int] == model::header_text(headers@[i as int]));
        let name = text::to_ascii_lowercase(headers[i].name.as_str());
        if text::same(name.as_str(), "content-type") || text::same(name.as_str(), "accept") {
            let ghost before = model::header_texts(outgoing@);
            outgoing.push(model::header(headers[i].name.as_str(), headers[i].value.as_str()));
            assert(model::header_texts(outgoing@) =~= before.push(all[i as int]));
            assert(before.push(all[i as int]) =~= fixed + content_headers(
                all.take(i as int),
            ).push(all[i as int]));
        }
        i += 1;
    }
    assert(all.take(i as int) =~= all);
    outgoing
}

/// The headers of a request never replace what the host says of the one who asks.
pub proof fn lemma_identity_headers_are_the_hosts(headers: Seq<(Seq<char>, Seq<char>)>)
    ensures
        forall|i: int|
            0 <= i < content_headers(headers).len() ==> {
                let name = text::lowered((#[trigger] content_headers(headers)[i]).0);
                name == "content-type"@ || name == "accept"@
            },
    decreases headers.len(),
{
    if headers.len() > 0 {
        lemma_identity_headers_are_the_hosts(headers.drop_last());
        let earlier = content_headers(headers.drop_last());
        let all = content_headers(headers);
        assert forall|i: int| 0 <= i < all.len() implies {
            let name = text::lowered((#[trigger] all[i]).0);
            name == "content-type"@ || name == "accept"@
        } by {
            if i < earlier.len() {
                assert(all[i] == earlier[i]);
            }
        }
    }
}

/// The address at which a process is asked.
pub fn outgoing_address(request: &Request) -> (address: Option<String>)
    requires
        text::byte_len(request.path@) <= outside::MAX_URL_BYTES,
        request.query matches Some(query) ==> text::byte_len(query@) <= outside::MAX_URL_BYTES,
    ensures
        text::optional(address) == call_address(*request),
{
    let query = match &request.query {
        Some(query) => Some(query.as_str()),
        None => None,
    };
    proof {
        reveal_strlit("http://localhost");
        vstd::utf8::is_ascii_chars_encode_utf8("http://localhost"@);
    }
    match outside::redirect_url("http://localhost", request.path.as_str(), query) {
        Ok(address) => Some(address),
        Err(_) => None,
    }
}

/// Adds a piece of an answer to what was read, where the whole stays within the limit.
pub fn read_chunk(bytes: &mut Vec<u8>, chunk: &[u8], limit: usize) -> (accepted: bool)
    requires
        old(bytes)@.len() <= limit,
    ensures
        accepted == (old(bytes)@.len() + chunk@.len() <= limit),
        accepted ==> final(bytes)@ == old(bytes)@ + chunk@,
        !accepted ==> final(bytes)@ == old(bytes)@,
        final(bytes)@.len() <= limit,
{
    if chunk.len() > limit - bytes.len() {
        return false;
    }
    let ghost before = bytes@;
    let mut i: usize = 0;
    while i < chunk.len()
        invariant
            i <= chunk@.len(),
            bytes@ == before + chunk@.take(i as int),
        decreases chunk@.len() - i,
    {
        bytes.push(chunk[i]);
        i += 1;
        assert(bytes@ =~= before + chunk@.take(i as int));
    }
    assert(chunk@.take(i as int) =~= chunk@);
    true
}

impl CallFault {
    /// The text shown for the fault.
    pub open spec fn text(&self) -> Seq<char> {
        match self {
            CallFault::Inactive => "process 未激活"@,
            CallFault::Changed => "process 活动版本或租户已变化"@,
            CallFault::UserMissing => "process 调用缺少用户"@,
        }
    }

    /// The text shown for the fault.
    pub fn message(&self) -> (message: String)
        ensures
            message@ == self.text(),
    {
        let message = match self {
            CallFault::Inactive => "process 未激活",
            CallFault::Changed => "process 活动版本或租户已变化",
            CallFault::UserMissing => "process 调用缺少用户",
        };
        message.to_owned()
    }
}

/// The answer of a process, as it is handed on: of its headers only the type of its content.
pub fn answer(status: u16, content_type: Option<String>, body: Vec<u8>) -> (response: Response)
    ensures
        response.status == status,
        response.body == body,
        model::header_texts(response.headers@) == match content_type {
            Some(content_type) => seq![("content-type"@, content_type@)],
            None => Seq::empty(),
        },
{
    let mut headers: Vec<Header> = Vec::new();
    match content_type {
        Some(content_type) => {
            headers.push(model::header("content-type", content_type.as_str()));
            assert(model::header_texts(headers@) =~= seq![("content-type"@, content_type@)]);
        },
        None => {
            assert(model::header_texts(headers@) =~= Seq::<(Seq<char>, Seq<char>)>::empty());
        },
    }
    Response { status, headers, body }
}

// Instances

/// The instances that run: at most one for a component and a tenant.
#[derive(Debug)]
pub struct Instances {
    pub starts: Vec<Start>,
}

/// The component and the tenant of an instance.
pub open spec fn owner(start: Start) -> (u128, Seq<char>) {
    (start.source, start.tenant@)
}

/// The owners of the instances, in order.
pub open spec fn owners(starts: Seq<Start>) -> Seq<(u128, Seq<char>)> {
    starts.map_values(|s: Start| owner(s))
}

/// The instances without that of the owner.
pub open spec fn instances_without(starts: Seq<Start>, key: (u128, Seq<char>)) -> Seq<Start> {
    let at = text::first_index(owners(starts), key);
    if at < starts.len() {
        starts.remove(at)
    } else {
        starts
    }
}

proof fn lemma_instances_without(starts: Seq<Start>, key: (u128, Seq<char>))
    requires
        owners(starts).no_duplicates(),
    ensures
        owners(instances_without(starts, key)).no_duplicates(),
        !owners(instances_without(starts, key)).contains(key),
{
    let rest = instances_without(starts, key);
    text::lemma_first_index(owners(starts), key);
    let at = text::first_index(owners(starts), key);
    if at < starts.len() {
        assert(owners(rest) =~= owners(starts).remove(at));
    }
    text::lemma_remove_first(owners(starts), key, owners(rest));
}

impl Instances {
    /// No component runs twice for a tenant.
    pub open spec fn well_formed(&self) -> bool {
        owners(self.starts@).no_duplicates()
    }

    pub fn new() -> (instances: Instances)
        ensures
            instances.well_formed(),
            instances.starts@.len() == 0,
    {
        Instances { starts: Vec::new() }
    }

    /// Where the instance of a component and a tenant stands.
    fn position(&self, source: u128, tenant: &str) -> (at: usize)
        ensures
            at == text::first_index(owners(self.starts@), (source, tenant@)),
            at <= self.starts@.len(),
    {
        let mut at: usize = 0;
        while at < self.starts.len()
            invariant
                at <= self.starts@.len(),
                forall|k: int| 0 <= k < at ==> owners(self.starts@)[k] != (source, tenant@),
            decreases self.starts@.len() - at,
        {
            if self.starts[at].source == source && text::same(
                self.starts[at].tenant.as_str(),
                tenant,
            ) {
                proof {
                    text::lemma_first_index_is(
                        owners(self.starts@),
                        (source, tenant@),
                        at as int,
                    );
                }
                return at;
            }
            at += 1;
        }
        proof {
            text::lemma_first_index_is(owners(self.starts@), (source, tenant@), at as int);
        }
        at
    }

    /// The instance of a component and a tenant, where it runs.
    pub fn get(&self, source: u128, tenant: &str) -> (found: Option<&Start>)
        ensures
            match found {
                Some(start) => self.starts@.contains(*start) && owner(*start) == (source, tenant@),
                None => !owners(self.starts@).contains((source, tenant@)),
            },
    {
        let at = self.position(source, tenant);
        proof {
            text::lemma_first_index(owners(self.starts@), (source, tenant@));
        }
        if at < self.starts.len() {
            assert(self.starts@.contains(self.starts@[at as int]));
            assert(owners(self.starts@)[at as int] == owner(self.starts@[at as int]));
            Some(&self.starts[at])
        } else {
            None
        }
    }

    /// Forgets the instance of a component and a tenant.
    pub fn remove(&mut self, source: u128, tenant: &str)
        requires
            old(self).well_formed(),
        ensures
            final(self).well_formed(),
            final(self).starts@ == instances_without(old(self).starts@, (source, tenant@)),
            !owners(final(self).starts@).contains((source, tenant@)),
    {
        proof {
            lemma_instances_without(self.starts@, (source, tenant@));
        }
        let at = self.position(source, tenant);
        if at < self.starts.len() {
            self.starts.remove(at);
        }
    }

    /// Notes an instance that runs, in place of an earlier one of its component and tenant.
    pub fn insert(&mut self, start: Start)
        requires
            old(self).well_formed(),
        ensures
            final(self).well_formed(),
            final(self).starts@ == instances_without(old(self).starts@, owner(start)).push(start),
    {
        self.remove(start.source, start.tenant.as_str());
        let ghost rest = self.starts@;
        self.starts.push(start);
        proof {
            let all = owners(self.starts@);
            assert forall|a: int, b: int| 0 <= a < all.len() && 0 <= b < all.len() && a != b implies
                all[a] != all[b] by {
                if a < rest.len() {
                    assert(all[a] == owners(rest)[a]);
                    assert(owners(rest).contains(owners(rest)[a]));
                }
                if b < rest.len() {
                    assert(all[b] == owners(rest)[b]);
                    assert(owners(rest).contains(owners(rest)[b]));
                }
            }
        }
    }
}

/// An instance that was noted is found, and it is the one that was noted.
pub proof fn lemma_noted_instance_is_found(before: Seq<Start>, start: Start, found: Start)
    requires
        owners(before).no_duplicates(),
        instances_without(before, owner(start)).push(start).contains(found),
        owner(found) == owner(start),
    ensures
        found == start,
{
    lemma_instances_without(before, owner(start));
    let rest = instances_without(before, owner(start));
    let all = rest.push(start);
    let k = choose|k: int| 0 <= k < all.len() && all[k] == found;
    if k < rest.len() {
        assert(owners(rest)[k] == owner(found));
        assert(owners(rest).contains(owner(start)));
    }
}

/// What a supervisor is asked for.
#[derive(Clone, Copy, Debug, PartialEq, Eq, Structural)]
pub enum SupervisorCall {
    Start,
    Stop,
    Reconcile,
}

impl SupervisorCall {
    /// The address at which the supervisor is asked.
    pub open spec fn address_text(&self) -> Seq<char> {
        match self {
            SupervisorCall::Start => "http://localhost/bundles/start"@,
            SupervisorCall::Stop => "http://localhost/bundles/stop"@,
            SupervisorCall::Reconcile => "http://localhost/bundles/reconcile"@,
        }
    }

    /// The address at which the supervisor is asked.
    pub fn address(&self) -> (address: String)
        ensures
            address@ == self.address_text(),
    {
        let address = match self {
            SupervisorCall::Start => "http://localhost/bundles/start",
            SupervisorCall::Stop => "http://localhost/bundles/stop",
            SupervisorCall::Reconcile => "http://localhost/bundles/reconcile",
        };
        address.to_owned()
    }

    /// What is told of a call that the supervisor refused with a status.
    pub open spec fn refusal(&self, status: Seq<char>) -> Seq<char> {
        match self {
            SupervisorCall::Start => "监督器拒绝启动 process（HTTP "@ + status + "）"@,
            SupervisorCall::Stop => "监督器拒绝停止 process"@,
            SupervisorCall::Reconcile => "清理孤立 process 失败"@,
        }
    }

    /// The outcome of a call, from the status of the supervisor's answer.
    pub fn outcome(&self, success: bool, status: &str) -> (outcome: Result<(), String>)
        ensures
            outcome is Ok <==> success,
            outcome matches Err(told) ==> told@ == self.refusal(status@),
    {
        if success {
            return Ok(());
        }
        match self {
            SupervisorCall::Start => Err(
                "监督器拒绝启动 process（HTTP ".to_owned().concat(status).concat("）"),
            ),
            SupervisorCall::Stop => Err("监督器拒绝停止 process".to_owned()),
            SupervisorCall::Reconcile => Err("清理孤立 process 失败".to_owned()),
        }
    }
}

// Laws

/// A process is brought up in order: what ran before is stopped, it is given what it needs, it is
/// started, asked until it is healthy, at most a hundred times, and described.
pub proof fn lemma_process_is_brought_up(progress: PrepareProgress, step: PrepareStep)
    requires
        progress.asks(step),
    ensures
        progress.stopped is None ==> step is StopPrevious,
        (progress.stopped is Some && progress.stopped->0 is Err)
            ==> step is Fail && step->Fail_0@ == progress.stopped->0->Err_0@,
        (progress.stopped is Some && progress.stopped->0 is Ok) && progress.configured is None
            ==> step is Configure,
        (progress.stopped is Some && progress.stopped->0 is Ok) && (progress.configured is Some
            && progress.configured->0 is Err)
            ==> step is Fail && step->Fail_0@ == progress.configured->0->Err_0@,
        (progress.stopped is Some && progress.stopped->0 is Ok) && (progress.configured is Some
            && progress.configured->0 is Ok) && progress.started is None ==> step is Start,
        (progress.stopped is Some && progress.stopped->0 is Ok) && (progress.configured is Some
            && progress.configured->0 is Ok) && (progress.started is Some
            && progress.started->0 is Ok) && !progress.healthy && progress.checks < 100
            ==> step is CheckHealth,
        (progress.stopped is Some && progress.stopped->0 is Ok) && (progress.configured is Some
            && progress.configured->0 is Ok) && (progress.started is Some
            && progress.started->0 is Ok) && progress.healthy && progress.described is None
            ==> step is Describe,
        (progress.stopped is Some && progress.stopped->0 is Ok) && (progress.configured is Some
            && progress.configured->0 is Ok) && (progress.started is Some
            && progress.started->0 is Ok) && progress.healthy && (progress.described is Some
            && progress.described->0 is Ok) ==> step is Ready,
{
}

/// A process that cannot be started, does not become healthy or describes itself badly is cleaned
/// up once, and only then is the failure told.
pub proof fn lemma_failed_start_is_cleaned_up(progress: PrepareProgress, step: PrepareStep)
    requires
        progress.asks(step),
        (progress.stopped is Some && progress.stopped->0 is Ok),
        (progress.configured is Some && progress.configured->0 is Ok),
    ensures
        ({
            let stuck = (progress.started is Some && progress.started->0 is Ok)
                && !progress.healthy && progress.checks >= 100;
            let strange = (progress.started is Some && progress.started->0 is Ok)
                && progress.healthy && (progress.described is Some && progress.described->0 is Err);
            &&& ((progress.started is Some && progress.started->0 is Err) || stuck || strange)
                && !progress.cleaned ==> step is Clean
            &&& (progress.started is Some && progress.started->0 is Err) && progress.cleaned
                ==> step is Fail && step->Fail_0@ == progress.started->0->Err_0@
            &&& stuck && progress.cleaned ==> step is Fail && step->Fail_0@ == "process 启动健康检查超时"@
            &&& strange && progress.cleaned
                ==> step is Fail && step->Fail_0@ == progress.described->0->Err_0@
        }),
{
}

proof fn lemma_ids_before(pages: Seq<Page>, at: int, id: Seq<char>)
    requires
        0 <= at <= pages.len(),
    ensures
        page_ids(pages.take(at)).contains(id) <==> exists|i: int|
            0 <= i < at && (#[trigger] pages[i]).id@ == id,
{
    let ids = page_ids(pages.take(at));
    if ids.contains(id) {
        let k = choose|k: int| 0 <= k < ids.len() && ids[k] == id;
        assert(pages[k].id@ == id);
    }
    if exists|i: int| 0 <= i < at && (#[trigger] pages[i]).id@ == id {
        let i = choose|i: int| 0 <= i < at && (#[trigger] pages[i]).id@ == id;
        assert(ids[i] == id);
    }
}

/// A page needs an id of its own, a label, an entry among the bundle's files, a declared permission
/// where it asks for one, and a known place. What is told of it is the first thing that is wrong.
pub proof fn lemma_which_pages_are_described(pages: Seq<Page>, at: int, files: Seq<Seq<char>>,
    permissions: Seq<Seq<char>>)
    requires
        0 <= at < pages.len(),
    ensures
        ({
            let page = pages[at];
            let named = page.id@.len() > 0 && vstd::utf8::encode_utf8(page.id@).len() <= 128
                && (forall|i: int| 0 <= i < page.id@.len()
                ==> text::is_alphanumeric(#[trigger] page.id@[i]) || page.id@[i] == '_'
                || page.id@[i] == '-') && page.label@.len() > 0
                && vstd::utf8::encode_utf8(page.label@).len() <= 256
                && (forall|i: int| 0 <= i < at ==> (#[trigger] pages[i]).id@ != page.id@);
            let there = files.contains(page.entry@);
            let permitted = page.permission is None || permissions.contains(page.permission->0@);
            let placed = page.surface@ == "workspace"@ || page.surface@ == "fullscreen"@
                || page.surface@ == "account-entry"@ || page.surface@ == "account-menu"@;
            let fault = page_fault(pages, at, files, permissions);
            &&& !named ==> fault == Some(DescriptionFault::PageIdentity)
            &&& named && !there ==> fault == Some(DescriptionFault::EntryMissing)
            &&& named && there && !permitted
                ==> fault == Some(DescriptionFault::PermissionUndeclared)
            &&& named && there && permitted && !placed
                ==> fault == Some(DescriptionFault::SurfaceUnknown)
            &&& named && there && permitted && placed ==> fault is None
        }),
{
    lemma_ids_before(pages, at, pages[at].id@);
    components::model::lemma_surfaces(pages[at].surface@);
}

proof fn lemma_first_page_fault(
    pages: Seq<Page>,
    at: int,
    files: Seq<Seq<char>>,
    permissions: Seq<Seq<char>>,
) -> (found: int)
    requires
        0 <= at <= pages.len(),
    ensures
        at <= found <= pages.len(),
        forall|i: int| at <= i < found ==> page_fault(pages, i, files, permissions) is None,
        found < pages.len() ==> page_fault(pages, found, files, permissions) is Some
            && first_page_fault(pages, at, files, permissions) == page_fault(
            pages,
            found,
            files,
            permissions,
        ),
        found == pages.len() ==> first_page_fault(pages, at, files, permissions) is None,
    decreases pages.len() - at,
{
    if at >= pages.len() || page_fault(pages, at, files, permissions) is Some {
        at
    } else {
        lemma_first_page_fault(pages, at + 1, files, permissions)
    }
}

/// A process describes itself well where it has a label and one to thirty-two pages, each of them
/// in order. Otherwise the fault of the first page that is not in order is told, or that of the
/// whole.
pub proof fn lemma_which_descriptions_are_accepted(description: Description,
    files: Seq<Seq<char>>, permissions: Seq<Seq<char>>)
    ensures
        ({
            let pages = description.pages@;
            let shaped = description.label@.len() > 0
                && vstd::utf8::encode_utf8(description.label@).len() <= 256
                && 1 <= pages.len() <= 32;
            let fault = description_fault(description, files, permissions);
            &&& !shaped ==> fault == Some(DescriptionFault::Shape)
            &&& shaped && fault is None ==> forall|i: int| 0 <= i < pages.len()
                ==> #[trigger] page_fault(pages, i, files, permissions) is None
            &&& shaped && fault is Some ==> exists|i: int| 0 <= i < pages.len()
                && fault == #[trigger] page_fault(pages, i, files, permissions)
                && forall|k: int| 0 <= k < i
                ==> #[trigger] page_fault(pages, k, files, permissions) is None
        }),
{
    let found = lemma_first_page_fault(description.pages@, 0, files, permissions);
    if found < description.pages@.len() {
        assert(page_fault(description.pages@, found, files, permissions) is Some);
    }
}

/// A process is asked where it runs the version that was meant, for the tenant and for a known
/// user.
pub proof fn lemma_which_processes_are_asked(instance: Option<Start>, tenant: Seq<char>,
    digest: Seq<char>, context: RequestContext)
    ensures
        ({
            let fault = call_fault(instance, tenant, digest, context);
            let same = instance is Some && instance->0.revision@ == digest
                && context.tenant_id is Some && context.tenant_id->0@ == tenant;
            &&& instance is None ==> fault == Some(CallFault::Inactive)
            &&& instance is Some && !same ==> fault == Some(CallFault::Changed)
            &&& same && context.user_id is None ==> fault == Some(CallFault::UserMissing)
            &&& same && context.user_id is Some ==> fault is None
        }),
{
}

/// A process is told its token, the tenant, the user and the request, by the host's word; of the
/// request's own headers the types of contents follow, in order, and no other.
pub proof fn lemma_what_a_process_is_told(token: Seq<char>, tenant: Seq<char>, user: Seq<char>,
    request_id: Seq<char>, headers: Seq<(Seq<char>, Seq<char>)>, header: (Seq<char>, Seq<char>))
    ensures
        call_headers(token, tenant, user, request_id, Seq::<(Seq<char>, Seq<char>)>::empty())
            == seq![("x-aio-token"@, token), ("x-aio-tenant-id"@, tenant), ("x-aio-user-id"@,
            user), ("x-aio-context"@, request_id)],
        text::lowered(header.0) == "content-type"@ || text::lowered(header.0) == "accept"@
            ==> call_headers(token, tenant, user, request_id, headers.push(header))
            == call_headers(token, tenant, user, request_id, headers).push(header),
        text::lowered(header.0) != "content-type"@ && text::lowered(header.0) != "accept"@
            ==> call_headers(token, tenant, user, request_id, headers.push(header))
            == call_headers(token, tenant, user, request_id, headers),
{
    let none = Seq::<(Seq<char>, Seq<char>)>::empty();
    assert(headers.push(header).drop_last() =~= headers);
    assert(content_headers(none) =~= none);
    let fixed = seq![
        ("x-aio-token"@, token),
        ("x-aio-tenant-id"@, tenant),
        ("x-aio-user-id"@, user),
        ("x-aio-context"@, request_id),
    ];
    assert(fixed + none =~= fixed);
    assert(fixed + content_headers(headers).push(header) =~= (fixed + content_headers(
        headers,
    )).push(header));
}

/// A process is asked over its own socket, at the path and the query of the request.
pub proof fn lemma_where_a_process_is_asked(request: Request)
    ensures
        request.query is None ==> call_address(request)
            == outside::url_redirected("http://localhost"@, request.path@, None),
        request.query is Some ==> call_address(request)
            == outside::url_redirected("http://localhost"@, request.path@, Some(request.query->0@)),
{
}

/// Forgetting one instance leaves every other in place.
pub proof fn lemma_other_instances_stay(starts: Seq<Start>, key: (u128, Seq<char>), start: Start)
    requires
        (start.source, start.tenant@) != key,
    ensures
        starts.contains(start) <==> instances_without(starts, key).contains(start),
{
    let rest = instances_without(starts, key);
    text::lemma_first_index(owners(starts), key);
    let at = text::first_index(owners(starts), key);
    if at < starts.len() {
        assert(owners(starts)[at] == owner(starts[at]));
        if starts.contains(start) {
            let k = choose|k: int| 0 <= k < starts.len() && starts[k] == start;
            if k < at {
                assert(rest[k] == start);
            } else {
                assert(rest[k - 1] == start);
            }
        }
        if rest.contains(start) {
            let k = choose|k: int| 0 <= k < rest.len() && rest[k] == start;
            if k < at {
                assert(starts[k] == start);
            } else {
                assert(starts[k + 1] == start);
            }
        }
    }
}

/// The supervisor is asked at one address for each thing, and a refusal names the thing.
pub proof fn lemma_supervisor_is_asked(call: SupervisorCall, status: Seq<char>)
    ensures
        call is Start ==> call.address_text() == "http://localhost/bundles/start"@
            && call.refusal(status) == "监督器拒绝启动 process（HTTP "@ + status + "）"@,
        call is Stop ==> call.address_text() == "http://localhost/bundles/stop"@
            && call.refusal(status) == "监督器拒绝停止 process"@,
        call is Reconcile ==> call.address_text() == "http://localhost/bundles/reconcile"@
            && call.refusal(status) == "清理孤立 process 失败"@,
{
}

/// Each of these is told in its own words.
pub proof fn lemma_told_description_fault(fault: DescriptionFault)
    ensures
        fault is Shape ==> fault.text() == "process 页面描述无效"@,
        fault is PageIdentity ==> fault.text() == "process 页面标识无效"@,
        fault is EntryMissing ==> fault.text() == "process 页面入口不属于整包"@,
        fault is PermissionUndeclared ==> fault.text() == "process 页面权限未声明"@,
        fault is SurfaceUnknown ==> fault.text() == "process 页面类型无效"@,
{
}

/// Each of these is told in its own words.
pub proof fn lemma_told_call_fault(fault: CallFault)
    ensures
        fault is Inactive ==> fault.text() == "process 未激活"@,
        fault is Changed ==> fault.text() == "process 活动版本或租户已变化"@,
        fault is UserMissing ==> fault.text() == "process 调用缺少用户"@,
{
}

} // verus!
