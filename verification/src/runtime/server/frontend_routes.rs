//! The interface of mounted front ends: who may mount, what is served and which requests reach
//! the service behind a page.
use vstd::prelude::*;

use crate::outside;
use crate::runtime::model;
use crate::runtime::model::{Header, PageBody, SessionContext};
use crate::runtime::server::frontend_access::FrontendGrant;
use crate::runtime::server::frontend_document;
use crate::runtime::server::frontend_document::BRIDGE_PATH;
use crate::runtime::server::frontend_model;
use crate::runtime::server::frontend_model::{
    ComponentResponse, FrontendPackage, FrontendRequest, MountResponse, PageBinding,
};
use crate::runtime::server::http_error;
use crate::runtime::server::http_error::{Reply, RuntimeError};
use crate::steps;
use crate::text;

verus! {

/// The longest service path, in bytes after its first slash.
pub const MAX_SERVICE_PATH_BYTES: usize = 2048;

/// The largest body of a front end's request.
pub const MAX_REQUEST_BODY_BYTES: usize = 1048576;

/// The longest query, in bytes.
pub const MAX_QUERY_BYTES: usize = 8192;

// Sessions and bindings

/// Whether a grant was issued to this session, user and tenant.
pub open spec fn same_session(session: SessionContext, grant: FrontendGrant) -> bool {
    &&& session.session_id@ == grant.session_id@
    &&& session.user_id@ == grant.user_id@
    &&& session.tenant_id@ == grant.tenant_id@
}

/// Why a grant is not valid for a session.
pub open spec fn session_refusal(session: SessionContext, grant: FrontendGrant) -> Option<
    (u16, Seq<char>),
> {
    if same_session(session, grant) {
        None
    } else {
        Some((403, "会话或租户上下文已变化，请重新打开页面"@))
    }
}

/// Checks that a grant was issued to this session, user and tenant.
pub fn validate_session(session: &SessionContext, grant: &FrontendGrant) -> (outcome: Result<
    (),
    RuntimeError,
>)
    ensures
        http_error::answers(outcome, session_refusal(*session, *grant)),
{
    if !text::same(session.session_id.as_str(), grant.session_id.as_str()) || !text::same(
        session.user_id.as_str(),
        grant.user_id.as_str(),
    ) || !text::same(session.tenant_id.as_str(), grant.tenant_id.as_str()) {
        return Err(
            RuntimeError::forbidden("会话或租户上下文已变化，请重新打开页面".to_owned()),
        );
    }
    Ok(())
}

/// The entry of a page that is a front end.
pub open spec fn entry_of(binding: PageBinding) -> Option<Seq<char>> {
    match binding.page.body {
        PageBody::Frontend { entry } => Some(entry@),
        _ => None,
    }
}

/// The entry of a page that is a front end.
pub fn frontend_entry(binding: &PageBinding) -> (outcome: Result<&str, RuntimeError>)
    ensures
        match outcome {
            Ok(entry) => entry_of(*binding) == Some(entry@),
            Err(error) => entry_of(*binding) is None && error.status == 400 && error.message@
                == "当前页面没有前端二进制入口"@,
        },
{
    match &binding.page.body {
        PageBody::Frontend { entry } => Ok(entry.as_str()),
        _ => Err(RuntimeError::bad_request("当前页面没有前端二进制入口".to_owned())),
    }
}

/// Why a page is not shown: it is not active, or the user lacks its permission.
pub open spec fn page_refusal(active: bool, permitted: bool) -> Option<(u16, Seq<char>)> {
    if !active {
        Some((404, "当前租户没有该活动页面"@))
    } else if !permitted {
        Some((403, "当前用户没有该页面权限"@))
    } else {
        None
    }
}

/// Decides on access to a page, from whether it is active and whether the user has its
/// permission.
pub fn page(active: bool, permitted: bool) -> (outcome: Result<(), RuntimeError>)
    ensures
        http_error::answers(outcome, page_refusal(active, permitted)),
{
    if !active {
        return Err(RuntimeError::not_found("当前租户没有该活动页面".to_owned()));
    }
    if !permitted {
        return Err(RuntimeError::forbidden("当前用户没有该页面权限".to_owned()));
    }
    Ok(())
}

/// Whether an active page is still the one that was mounted, its entry apart.
pub open spec fn same_activation(binding: PageBinding, grant: FrontendGrant) -> bool {
    &&& binding.source_id@ == grant.source_id@
    &&& binding.activation_generation@ == grant.activation_generation@
    &&& binding.service.revision@ == grant.revision@
}

/// Why a grant no longer gives access to its page.
pub open spec fn binding_refusal(
    session: SessionContext,
    grant: FrontendGrant,
    binding: Option<PageBinding>,
    permitted: bool,
) -> Option<(u16, Seq<char>)> {
    let stale = Some((403u16, "插件活动版本已变化，请重新打开页面"@));
    if !same_session(session, grant) {
        session_refusal(session, grant)
    } else if binding is None || !permitted {
        page_refusal(binding is Some, permitted)
    } else if !same_activation(binding->0, grant) {
        stale
    } else if entry_of(binding->0) is None {
        Some((400, "当前页面没有前端二进制入口"@))
    } else if entry_of(binding->0) != Some(grant.entry@) {
        stale
    } else {
        None
    }
}

/// Checks that a grant still gives access to its page: the session is the same, the page is
/// active and permitted, and its activation and entry are those that were mounted.
pub fn validate_binding(
    session: &SessionContext,
    grant: &FrontendGrant,
    binding: &Option<PageBinding>,
    permitted: bool,
) -> (outcome: Result<(), RuntimeError>)
    ensures
        http_error::answers(outcome, binding_refusal(*session, *grant, *binding, permitted)),
{
    match validate_session(session, grant) {
        Ok(()) => {},
        Err(error) => return Err(error),
    }
    match page(binding.is_some(), permitted) {
        Ok(()) => {},
        Err(error) => return Err(error),
    }
    let binding = match binding {
        Some(binding) => binding,
        None => return Err(RuntimeError::not_found("当前租户没有该活动页面".to_owned())),
    };
    if !text::same(binding.source_id.as_str(), grant.source_id.as_str()) || !text::same(
        binding.activation_generation.as_str(),
        grant.activation_generation.as_str(),
    ) || !text::same(binding.service.revision.as_str(), grant.revision.as_str()) {
        return Err(RuntimeError::forbidden("插件活动版本已变化，请重新打开页面".to_owned()));
    }
    let entry = match frontend_entry(binding) {
        Ok(entry) => entry,
        Err(error) => return Err(error),
    };
    if !text::same(entry, grant.entry.as_str()) {
        return Err(RuntimeError::forbidden("插件活动版本已变化，请重新打开页面".to_owned()));
    }
    Ok(())
}

/// Checks that a session may take a mount away: it must be the session and user of the mount.
pub fn unmount(session: &SessionContext, grant: &FrontendGrant) -> (outcome: Result<
    (),
    RuntimeError,
>)
    ensures
        http_error::answers(
            outcome,
            if session.session_id@ == grant.session_id@ && session.user_id@ == grant.user_id@ {
                None
            } else {
                Some((403u16, "不能释放其他会话的前端挂载"@))
            },
        ),
{
    if !text::same(session.session_id.as_str(), grant.session_id.as_str()) || !text::same(
        session.user_id.as_str(),
        grant.user_id.as_str(),
    ) {
        return Err(RuntimeError::forbidden("不能释放其他会话的前端挂载".to_owned()));
    }
    Ok(())
}

/// The grant that a token stands for, where the mount lives.
pub fn grant(found: Option<&FrontendGrant>) -> (outcome: Result<&FrontendGrant, RuntimeError>)
    ensures
        match outcome {
            Ok(grant) => found == Some(grant),
            Err(error) => found is None && error.status == 401 && error.message@
                == "前端挂载凭证无效或已过期"@,
        },
{
    match found {
        Some(grant) => Ok(grant),
        None => Err(RuntimeError::unauthorized("前端挂载凭证无效或已过期".to_owned())),
    }
}

/// Requires that there is room for another request.
pub fn request_slot(free: bool) -> (outcome: Result<(), RuntimeError>)
    ensures
        http_error::answers(
            outcome,
            if free {
                None
            } else {
                Some((503u16, "前端请求超过宿主并发配额"@))
            },
        ),
{
    if free {
        Ok(())
    } else {
        Err(RuntimeError::unavailable("前端请求超过宿主并发配额".to_owned()))
    }
}

// The order of checks

/// What is asked of a mounted front end.
#[derive(Clone, Copy, Debug, PartialEq, Eq, Structural)]
pub enum Access {
    /// A file, with the session that the mount remembers.
    Asset,
    /// A call of the service, with the session of the one who asks.
    Request,
    /// More time, with the session of the one who asks.
    Renew,
}

/// What is known so far of an access.
#[derive(Debug)]
pub struct AccessProgress {
    pub access: Access,
    /// Whether the one who asks is known, where they are asked first.
    pub known: Option<Result<(), RuntimeError>>,
    /// Whether there is room for another request.
    pub slot: Option<bool>,
    /// Whether the mount lives.
    pub found: Option<bool>,
    /// Whether the call is well formed, where there is one.
    pub well_formed: Option<Result<(), RuntimeError>>,
    /// That no one changes the plugin meanwhile.
    pub locked: Option<Result<(), RuntimeError>>,
    /// Whether the mount still lives under the lock.
    pub still_found: Option<bool>,
    /// Whether the session counts under the lock.
    pub session: Option<Result<(), RuntimeError>>,
    /// Whether the mount still gives access to its page under the lock.
    pub binding: Option<Result<(), RuntimeError>>,
}

/// What is to be done next about an access.
#[derive(Debug)]
pub enum AccessStep {
    Authenticate,
    AcquireSlot,
    FindGrant,
    CheckCall,
    Lock,
    FindGrantAgain,
    AuthenticateAgain,
    CheckBinding,
    Proceed,
    Refuse(RuntimeError),
}

/// Whether a check was made and passed.
pub open spec fn passed(check: Option<Result<(), RuntimeError>>) -> bool {
    match check {
        Some(Ok(_)) => true,
        _ => false,
    }
}

/// How a check refused.
pub open spec fn refused(check: Option<Result<(), RuntimeError>>) -> Option<(u16, Seq<char>)> {
    match check {
        Some(Err(error)) => Some((error.status, error.message@)),
        _ => None,
    }
}

fn hand_on(error: &RuntimeError) -> (copy: RuntimeError)
    ensures
        copy.status == error.status,
        copy.message@ == error.message@,
{
    RuntimeError { status: error.status, message: error.message.clone() }
}

impl AccessProgress {
    pub fn start(access: Access) -> (progress: AccessProgress)
        ensures
            progress.access == access,
            progress.known is None,
            progress.slot is None,
            progress.found is None,
            progress.well_formed is None,
            progress.locked is None,
            progress.still_found is None,
            progress.session is None,
            progress.binding is None,
    {
        AccessProgress {
            access,
            known: None,
            slot: None,
            found: None,
            well_formed: None,
            locked: None,
            still_found: None,
            session: None,
            binding: None,
        }
    }

    /// The one who asks is known, where they are asked first.
    pub open spec fn introduced(&self) -> bool {
        self.access is Asset || passed(self.known)
    }

    /// There is room, and the mount lives.
    pub open spec fn mounted(&self) -> bool {
        self.introduced() && self.slot == Some(true) && self.found == Some(true)
    }

    /// The plugin may be locked.
    pub open spec fn admitted(&self) -> bool {
        self.mounted() && (self.access is Request ==> passed(self.well_formed))
    }

    /// The mount lives, and no one changes the plugin.
    pub open spec fn secured(&self) -> bool {
        self.admitted() && passed(self.locked) && self.still_found == Some(true)
    }

    /// Everything was checked under the lock.
    pub open spec fn granted(&self) -> bool {
        self.secured() && passed(self.session) && passed(self.binding)
    }

    /// How the access is refused.
    pub open spec fn refusal(&self) -> Option<(u16, Seq<char>)> {
        let expired = Some((401u16, "前端挂载凭证无效或已过期"@));
        if !self.introduced() {
            refused(self.known)
        } else if self.slot != Some(true) {
            if self.slot == Some(false) {
                Some((503, "前端请求超过宿主并发配额"@))
            } else {
                None
            }
        } else if !self.mounted() {
            if self.found == Some(false) {
                expired
            } else {
                None
            }
        } else if !self.admitted() {
            refused(self.well_formed)
        } else if !passed(self.locked) {
            refused(self.locked)
        } else if !self.secured() {
            if self.still_found == Some(false) {
                expired
            } else {
                None
            }
        } else if !passed(self.session) {
            refused(self.session)
        } else {
            refused(self.binding)
        }
    }

    /// Whether a step is the one to be taken next.
    pub open spec fn asks(&self, step: AccessStep) -> bool {
        &&& step is Authenticate <==> !(self.access is Asset) && self.known is None
        &&& step is AcquireSlot <==> self.introduced() && self.slot is None
        &&& step is FindGrant <==> self.introduced() && self.slot == Some(true)
            && self.found is None
        &&& step is CheckCall <==> self.mounted() && self.access is Request
            && self.well_formed is None
        &&& step is Lock <==> self.admitted() && self.locked is None
        &&& step is FindGrantAgain <==> self.admitted() && passed(self.locked)
            && self.still_found is None
        &&& step is AuthenticateAgain <==> self.secured() && self.session is None
        &&& step is CheckBinding <==> self.secured() && passed(self.session)
            && self.binding is None
        &&& step is Proceed <==> self.granted()
        &&& step is Refuse <==> self.refusal() is Some
        &&& step matches AccessStep::Refuse(error) ==> self.refusal() == Some(
            (error.status, error.message@),
        )
    }

    /// What is to be done next: the mount is found before the lock is taken, and everything that
    /// counts is checked again under it.
    pub fn next(&self) -> (step: AccessStep)
        ensures
            self.asks(step),
    {
        if self.access != Access::Asset {
            match &self.known {
                None => return AccessStep::Authenticate,
                Some(Err(error)) => return AccessStep::Refuse(hand_on(error)),
                Some(Ok(())) => {},
            }
        }
        match self.slot {
            None => return AccessStep::AcquireSlot,
            Some(free) => match request_slot(free) {
                Err(error) => return AccessStep::Refuse(error),
                Ok(()) => {},
            },
        }
        match self.found {
            None => return AccessStep::FindGrant,
            Some(false) => return AccessStep::Refuse(
                RuntimeError::unauthorized("前端挂载凭证无效或已过期".to_owned()),
            ),
            Some(true) => {},
        }
        if self.access == Access::Request {
            match &self.well_formed {
                None => return AccessStep::CheckCall,
                Some(Err(error)) => return AccessStep::Refuse(hand_on(error)),
                Some(Ok(())) => {},
            }
        }
        match &self.locked {
            None => return AccessStep::Lock,
            Some(Err(error)) => return AccessStep::Refuse(hand_on(error)),
            Some(Ok(())) => {},
        }
        match self.still_found {
            None => return AccessStep::FindGrantAgain,
            Some(false) => return AccessStep::Refuse(
                RuntimeError::unauthorized("前端挂载凭证无效或已过期".to_owned()),
            ),
            Some(true) => {},
        }
        match &self.session {
            None => return AccessStep::AuthenticateAgain,
            Some(Err(error)) => return AccessStep::Refuse(hand_on(error)),
            Some(Ok(())) => {},
        }
        match &self.binding {
            None => AccessStep::CheckBinding,
            Some(Err(error)) => AccessStep::Refuse(hand_on(error)),
            Some(Ok(())) => AccessStep::Proceed,
        }
    }
}

/// Nothing is served, called or renewed unless the mount lives, the session counts and the page is
/// still the mounted one, all of it while no one changes the plugin.
pub proof fn lemma_access_is_checked_under_lock(progress: AccessProgress)
    requires
        progress.granted(),
    ensures
        passed(progress.locked),
        progress.still_found == Some(true),
        passed(progress.session),
        passed(progress.binding),
        progress.refusal() is None,
{
}

// Mounting

/// The entry to mount: of the page as it is now, provided it still comes from the source that
/// was locked.
pub fn mount_entry(locked_source: &str, binding: &PageBinding) -> (outcome: Result<
    String,
    RuntimeError,
>)
    ensures
        http_error::answers(
            outcome,
            if binding.source_id@ != locked_source@ {
                Some((403u16, "活动页面来源已变化，请重试挂载"@))
            } else if entry_of(*binding) is None {
                Some((400u16, "当前页面没有前端二进制入口"@))
            } else {
                None
            },
        ),
        outcome matches Ok(entry) ==> entry_of(*binding) == Some(entry@),
{
    if !text::same(binding.source_id.as_str(), locked_source) {
        return Err(RuntimeError::forbidden("活动页面来源已变化，请重试挂载".to_owned()));
    }
    match frontend_entry(binding) {
        Ok(entry) => Ok(entry.to_owned()),
        Err(error) => Err(error),
    }
}

/// The grant for a mounted page; a session without a cookie mounts nothing.
pub fn mount_grant(
    session: &SessionContext,
    page_id: String,
    binding: &PageBinding,
    entry: String,
    package: &FrontendPackage,
    cookie: Option<String>,
    now: u64,
) -> (outcome: Result<FrontendGrant, RuntimeError>)
    ensures
        http_error::answers(
            outcome,
            if cookie is None {
                Some((400u16, "前端挂载缺少会话 Cookie"@))
            } else {
                None
            },
        ),
        outcome matches Ok(grant) ==> {
            &&& Some(grant.cookie) == cookie
            &&& same_session(*session, grant)
            &&& same_activation(*binding, grant)
            &&& grant.page_id == page_id
            &&& grant.entry == entry
            &&& grant.frontend_path@ == package.path@
            &&& grant.assets@ == package.assets@
            &&& grant.issued == now
        },
{
    let cookie = match cookie {
        Some(cookie) => cookie,
        None => return Err(RuntimeError::bad_request("前端挂载缺少会话 Cookie".to_owned())),
    };
    Ok(
        FrontendGrant {
            cookie,
            session_id: session.session_id.clone(),
            tenant_id: session.tenant_id.clone(),
            user_id: session.user_id.clone(),
            page_id,
            source_id: binding.source_id.clone(),
            activation_generation: binding.activation_generation.clone(),
            revision: binding.service.revision.clone(),
            entry,
            frontend_path: package.path.clone(),
            assets: frontend_model::copy_assets(&package.assets),
            issued: now,
        },
    )
}

/// A grant issued for an active page is valid for the session it was issued to.
pub proof fn lemma_mounted_binding_is_valid(
    session: SessionContext,
    binding: PageBinding,
    grant: FrontendGrant,
)
    requires
        same_session(session, grant),
        same_activation(binding, grant),
        entry_of(binding) == Some(grant.entry@),
    ensures
        binding_refusal(session, grant, Some(binding), true) is None,
{
}

/// What the client is told of a mounted front end.
pub fn mount_response(
    token: String,
    grant: &FrontendGrant,
    session_context: String,
    context: String,
) -> (response: MountResponse)
    ensures
        response.abi is None,
        response.token == token,
        response.src@ == "/api/runtime/frontend/assets/"@ + token@ + "/"@ + grant.entry@,
        response.revision@ == grant.revision@,
        response.generation@ == grant.activation_generation@,
        response.session_context == session_context,
        response.context == context,
        response.assets@ == grant.assets@,
{
    let src = "/api/runtime/frontend/assets/".to_owned().concat(token.as_str()).concat("/").concat(
        grant.entry.as_str(),
    );
    MountResponse {
        abi: None,
        token,
        src,
        revision: grant.revision.clone(),
        generation: grant.activation_generation.clone(),
        session_context,
        context,
        assets: frontend_model::copy_assets(&grant.assets),
    }
}

// Requests to the service

/// The methods that a front end may use.
pub open spec fn allowed_method(method: Seq<char>) -> bool {
    ||| method == "GET"@
    ||| method == "POST"@
    ||| method == "PUT"@
    ||| method == "PATCH"@
    ||| method == "DELETE"@
    ||| method == "HEAD"@
    ||| method == "OPTIONS"@
}

/// The characters of a service path.
pub open spec fn path_char(c: char) -> bool {
    text::is_alphanumeric(c) || c == '/' || c == '_' || c == '-' || c == '.' || c == '~'
}

/// Whether every character may stand in a service path.
pub open spec fn path_chars(path: Seq<char>) -> bool {
    forall|i: int| 0 <= i < path.len() ==> path_char(#[trigger] path[i])
}

/// A path segment that leads nowhere else.
pub open spec fn plain_segment(segment: Seq<char>) -> bool {
    segment.len() > 0 && segment != "."@ && segment != ".."@
}

/// A service path without its first slash: short, of plain segments and plain characters.
pub open spec fn service_path(path: Seq<char>) -> bool {
    &&& text::byte_len(path) <= MAX_SERVICE_PATH_BYTES
    &&& forall|i: int|
        0 <= i < text::split_on(path, '/').len() ==> plain_segment(
            #[trigger] text::split_on(path, '/')[i],
        )
    &&& path_chars(path)
}

/// A query that is short and printable.
pub open spec fn plain_query(query: Option<Seq<char>>) -> bool {
    query matches Some(query) ==> text::byte_len(query) <= MAX_QUERY_BYTES && text::printable(query)
}

/// Why a front end's request does not reach its service.
pub open spec fn request_refusal(request: FrontendRequest) -> Option<(u16, Seq<char>)> {
    if !allowed_method(request.method@) {
        Some((400, "前端请求方法不受支持"@))
    } else if !"/"@.is_prefix_of(request.path@) {
        Some((400, "服务路径必须以 / 开始"@))
    } else if !service_path(request.path@.skip(1)) {
        Some((400, "服务路径含有非法字符或路径段"@))
    } else if text::byte_len(request.body@) > MAX_REQUEST_BODY_BYTES || !plain_query(
        text::optional(request.query),
    ) {
        Some((400, "前端请求超过大小限制或包含非法参数"@))
    } else {
        None
    }
}

/// Whether every character may stand in a service path.
pub fn is_path_text(path: &str) -> (yes: bool)
    ensures
        yes == path_chars(path@),
{
    let chars = text::chars_of(path);
    let mut i: usize = 0;
    while i < chars.len()
        invariant
            i <= chars@.len(),
            chars@ == path@,
            forall|k: int| 0 <= k < i ==> path_char(#[trigger] chars@[k]),
        decreases chars@.len() - i,
    {
        let c = chars[i];
        if !(text::alphanumeric(c) || c == '/' || c == '_' || c == '-' || c == '.' || c == '~') {
            assert(!path_char(path@[i as int]));
            return false;
        }
        i += 1;
    }
    true
}

/// Whether a query is short and printable.
pub fn is_plain_query(query: &Option<String>) -> (yes: bool)
    ensures
        yes == plain_query(text::optional(*query)),
{
    match query {
        Some(query) => query.as_str().as_bytes().len() <= MAX_QUERY_BYTES && text::is_printable(
            query.as_str(),
        ),
        None => true,
    }
}

/// Whether a service path without its first slash is accepted.
fn is_service_path(path: &str) -> (yes: bool)
    ensures
        yes == service_path(path@),
{
    if path.as_bytes().len() > MAX_SERVICE_PATH_BYTES {
        return false;
    }
    let segments = text::split(path, '/');
    let ghost parts = text::split_on(path@, '/');
    let mut i: usize = 0;
    while i < segments.len()
        invariant
            i <= segments@.len(),
            text::texts(segments@) == parts,
            parts == text::split_on(path@, '/'),
            forall|k: int| 0 <= k < i ==> plain_segment(#[trigger] parts[k]),
        decreases segments@.len() - i,
    {
        let segment = segments[i].as_str();
        assert(parts[i as int] == segment@);
        if segment.is_empty() || text::same(segment, ".") || text::same(segment, "..") {
            assert(!plain_segment(parts[i as int]));
            return false;
        }
        i += 1;
    }
    is_path_text(path)
}

/// Checks a front end's request before it reaches the service.
pub fn validate_request(request: &FrontendRequest) -> (outcome: Result<(), RuntimeError>)
    ensures
        http_error::answers(outcome, request_refusal(*request)),
{
    let method = request.method.as_str();
    if !(text::same(method, "GET") || text::same(method, "POST") || text::same(method, "PUT")
        || text::same(method, "PATCH") || text::same(method, "DELETE") || text::same(
        method,
        "HEAD",
    ) || text::same(method, "OPTIONS")) {
        return Err(RuntimeError::bad_request("前端请求方法不受支持".to_owned()));
    }
    let path = match text::strip_prefix(request.path.as_str(), "/") {
        Some(path) => path,
        None => return Err(RuntimeError::bad_request("服务路径必须以 / 开始".to_owned())),
    };
    proof {
        reveal_strlit("/");
        assert(path@ =~= request.path@.skip(1));
    }
    if !is_service_path(path.as_str()) {
        return Err(RuntimeError::bad_request("服务路径含有非法字符或路径段".to_owned()));
    }
    if request.body.as_str().as_bytes().len() > MAX_REQUEST_BODY_BYTES || !is_plain_query(
        &request.query,
    ) {
        return Err(RuntimeError::bad_request("前端请求超过大小限制或包含非法参数".to_owned()));
    }
    Ok(())
}

/// Turns the answer of a service into that to its front end: the body must be text, and an
/// answer without a type is opaque bytes.
pub fn component_response(status: u16, content_type: Option<String>, body: Vec<u8>) -> (outcome:
    Result<ComponentResponse, RuntimeError>)
    ensures
        http_error::answers(
            outcome,
            if vstd::utf8::valid_utf8(body@) {
                None
            } else {
                Some(
                    (
                        400u16,
                        steps::explained(
                            "前端通信桥只接受 UTF-8 服务结果"@,
                            outside::utf8_error(body@),
                        ),
                    ),
                )
            },
        ),
        outcome matches Ok(response) ==> {
            &&& response.status == status
            &&& response.content_type@ == match content_type {
                Some(content_type) => content_type@,
                None => "application/octet-stream"@,
            }
            &&& response.body@ == vstd::utf8::decode_utf8(body@)
        },
{
    match outside::utf8_text(body.as_slice()) {
        Err(told) => Err(
            RuntimeError::bad_request(
                steps::explain("前端通信桥只接受 UTF-8 服务结果", told.as_str()),
            ),
        ),
        Ok(body) => Ok(
            ComponentResponse {
                status,
                content_type: match content_type {
                    Some(content_type) => content_type,
                    None => "application/octet-stream".to_owned(),
                },
                body: body.to_owned(),
            },
        ),
    }
}

// Assets

/// Where the bytes of an asset come from.
#[derive(Debug)]
pub enum AssetSource {
    Bridge,
    Modules,
    Packaged { artifact: String, sha256: String },
}

/// Finds where an asset comes from: the bridge, the module loader, or a file that the package
/// declares.
pub fn asset_source(path: &str, modules_path: &str, grant: &FrontendGrant) -> (outcome: Result<
    AssetSource,
    RuntimeError,
>)
    ensures
        match outcome {
            Ok(AssetSource::Bridge) => path@ == BRIDGE_PATH@,
            Ok(AssetSource::Modules) => path@ != BRIDGE_PATH@ && path@ == modules_path@,
            Ok(AssetSource::Packaged { artifact, sha256 }) => {
                &&& path@ != BRIDGE_PATH@
                &&& path@ != modules_path@
                &&& artifact@ == grant.frontend_path@ + "/"@ + path@
                &&& frontend_model::digest_of(grant.assets@, path@) == Some(sha256@)
            },
            Err(error) => {
                &&& path@ != BRIDGE_PATH@
                &&& path@ != modules_path@
                &&& frontend_model::digest_of(grant.assets@, path@) is None
                &&& error.status == 404
                &&& error.message@ == "插件包未声明该前端文件"@
            },
        },
{
    if text::same(path, BRIDGE_PATH) {
        return Ok(AssetSource::Bridge);
    }
    if text::same(path, modules_path) {
        return Ok(AssetSource::Modules);
    }
    match frontend_model::find_digest(&grant.assets, path) {
        Some(sha256) => Ok(
            AssetSource::Packaged {
                artifact: grant.frontend_path.clone().concat("/").concat(path),
                sha256: sha256.clone(),
            },
        ),
        None => Err(RuntimeError::not_found("插件包未声明该前端文件".to_owned())),
    }
}

/// The prefix of the addresses of a mount's assets.
pub open spec fn asset_prefix(origin: Seq<char>, token: Seq<char>) -> Seq<char> {
    origin + "/api/runtime/frontend/assets/"@ + token + "/"@
}

/// The entity tag of some bytes: their digest in quotes.
pub open spec fn entity_tag(bytes: Seq<u8>) -> Seq<char> {
    seq!['"'] + text::hex(outside::sha256(bytes)) + seq!['"']
}

/// The entity tag of some bytes.
pub fn etag_of(bytes: &[u8]) -> (etag: String)
    ensures
        etag@ == entity_tag(bytes@),
{
    let digest = outside::sha256_hex(bytes);
    let mut etag = String::new();
    etag.push('"');
    etag.append(digest.as_str());
    etag.push('"');
    assert(etag@ =~= entity_tag(bytes@));
    etag
}

/// An entity tag without the mark of a weak one.
pub open spec fn strong(tag: Seq<char>) -> Seq<char> {
    if "W/"@.is_prefix_of(tag) {
        tag.skip(2)
    } else {
        tag
    }
}

/// Whether one item of an `If-None-Match` header stands for the tag.
pub open spec fn item_matches(item: Seq<char>, etag: Seq<char>) -> bool {
    strong(text::trimmed(item)) == etag || strong(text::trimmed(item)) == "*"@
}

/// Whether an `If-None-Match` header names the tag, or any tag.
pub open spec fn none_match(header: Seq<char>, etag: Seq<char>) -> bool {
    exists|i: int|
        0 <= i < text::split_on(header, ',').len() && item_matches(
            #[trigger] text::split_on(header, ',')[i],
            etag,
        )
}

/// Whether an `If-None-Match` header names the tag, or any tag.
fn names_tag(header: &str, etag: &str) -> (found: bool)
    ensures
        found == none_match(header@, etag@),
{
    let items = text::split(header, ',');
    let ghost parts = text::split_on(header@, ',');
    let mut i: usize = 0;
    while i < items.len()
        invariant
            i <= items@.len(),
            text::texts(items@) == parts,
            parts == text::split_on(header@, ','),
            forall|k: int| 0 <= k < i ==> !item_matches(#[trigger] parts[k], etag@),
        decreases items@.len() - i,
    {
        let item = text::trim(items[i].as_str());
        assert(parts[i as int] == items@[i as int]@);
        let tag = match text::strip_prefix(item.as_str(), "W/") {
            Some(tag) => {
                proof {
                    reveal_strlit("W/");
                    assert(tag@ =~= item@.skip(2));
                }
                tag
            },
            None => item,
        };
        if text::same(tag.as_str(), etag) || text::same(tag.as_str(), "*") {
            assert(item_matches(parts[i as int], etag@));
            return true;
        }
        i += 1;
    }
    false
}

/// The headers of an asset's answer.
pub open spec fn asset_headers(
    content_type: Seq<char>,
    etag: Option<Seq<char>>,
    prefix: Seq<char>,
) -> Seq<(Seq<char>, Seq<char>)> {
    let kind = ("content-type"@, content_type);
    let shared = seq![
        ("x-content-type-options"@, "nosniff"@),
        ("referrer-policy"@, "no-referrer"@),
        ("access-control-allow-origin"@, "*"@),
        (
            "content-security-policy"@,
            text::joined(frontend_document::policy_parts(), prefix),
        ),
    ];
    match etag {
        Some(etag) => seq![
            kind,
            ("cache-control"@, "private, no-cache, no-transform"@),
            ("etag"@, etag),
        ] + shared,
        None => seq![kind, ("cache-control"@, "private, no-store, no-transform"@)] + shared,
    }
}

/// The headers of an asset's answer.
fn reply_headers(content_type: &str, etag: &Option<String>, prefix: &str) -> (headers: Vec<Header>)
    ensures
        model::header_texts(headers@) == asset_headers(
            content_type@,
            text::optional(*etag),
            prefix@,
        ),
{
    let policy = frontend_document::content_policy(prefix);
    let mut headers: Vec<Header> = Vec::new();
    headers.push(model::header("content-type", content_type));
    match etag {
        Some(etag) => {
            headers.push(model::header("cache-control", "private, no-cache, no-transform"));
            headers.push(model::header("etag", etag.as_str()));
        },
        None => {
            headers.push(model::header("cache-control", "private, no-store, no-transform"));
        },
    }
    headers.push(model::header("x-content-type-options", "nosniff"));
    headers.push(model::header("referrer-policy", "no-referrer"));
    headers.push(model::header("access-control-allow-origin", "*"));
    headers.push(model::header("content-security-policy", policy.as_str()));
    assert(model::header_texts(headers@) =~= asset_headers(
        content_type@,
        text::optional(*etag),
        prefix@,
    ));
    headers
}

/// The digest that an asset's bytes must have, where the package declares one.
pub open spec fn declared_digest(source: AssetSource) -> Option<Seq<char>> {
    match source {
        AssetSource::Packaged { sha256, .. } => Some(sha256@),
        _ => None,
    }
}

/// The media type under which an asset is served.
pub open spec fn asset_type(source: AssetSource, path: Seq<char>) -> Seq<char> {
    match source {
        AssetSource::Packaged { .. } => outside::media_type(path),
        _ => "application/javascript"@,
    }
}

/// What an asset's request is answered: status, headers and body, or the refusal.
pub open spec fn asset_answer(
    source: AssetSource,
    bytes: Seq<u8>,
    path: Seq<char>,
    entry: Seq<char>,
    rendered: Result<Seq<u8>, Seq<char>>,
    prefix: Seq<char>,
    if_none_match: Option<Seq<char>>,
) -> Result<(u16, Seq<(Seq<char>, Seq<char>)>, Seq<u8>), (u16, Seq<char>)> {
    let kind = asset_type(source, path);
    let digest = declared_digest(source);
    if digest is Some && text::hex(outside::sha256(bytes)) != digest->0 {
        Err((400, "前端资产摘要与已发布版本不一致"@))
    } else if path == entry {
        match rendered {
            Ok(document) => Ok((200, asset_headers(kind, None, prefix), document)),
            Err(told) => Err((400, told)),
        }
    } else {
        let etag = entity_tag(bytes);
        let headers = asset_headers(kind, Some(etag), prefix);
        if if_none_match is Some && none_match(if_none_match->0, etag) {
            Ok((304, headers, Seq::empty()))
        } else {
            Ok((200, headers, bytes))
        }
    }
}

/// Answers the request for an asset whose bytes were read. A packaged file must have its
/// published digest; the entry is framed and never kept by the client; any other asset is kept
/// and confirmed by its entity tag.
pub fn asset(
    source: &AssetSource,
    bytes: Vec<u8>,
    path: &str,
    grant: &FrontendGrant,
    token: &str,
    origin: &str,
    if_none_match: Option<&str>,
    limit: usize,
) -> (outcome: Result<Reply, RuntimeError>)
    ensures
        ({
            let prefix = asset_prefix(origin@, token@);
            let answer = asset_answer(
                *source,
                bytes@,
                path@,
                grant.entry@,
                frontend_document::framed_entry(
                    bytes@,
                    prefix,
                    grant.entry@,
                    token@,
                    limit as int,
                ),
                prefix,
                text::optional_str(if_none_match),
            );
            match outcome {
                Ok(reply) => answer matches Ok(expected) && expected == (
                    reply.status,
                    model::header_texts(reply.headers@),
                    reply.body@,
                ),
                Err(error) => answer matches Err(expected) && expected == (
                    error.status,
                    error.message@,
                ),
            }
        }),
{
    let prefix = origin.to_owned().concat("/api/runtime/frontend/assets/").concat(token).concat(
        "/",
    );
    let content_type = match source {
        AssetSource::Packaged { artifact: _, sha256 } => {
            let digest = outside::sha256_hex(bytes.as_slice());
            if digest != *sha256 {
                return Err(
                    RuntimeError::bad_request("前端资产摘要与已发布版本不一致".to_owned()),
                );
            }
            outside::guess_media_type(path)
        },
        _ => "application/javascript".to_owned(),
    };
    if text::same(path, grant.entry.as_str()) {
        let document = match frontend_document::render_entry(
            bytes.as_slice(),
            prefix.as_str(),
            grant.entry.as_str(),
            token,
            limit,
        ) {
            Ok(document) => document,
            Err(fault) => return Err(RuntimeError::bad_request(fault.message())),
        };
        let headers = reply_headers(content_type.as_str(), &None, prefix.as_str());
        return Ok(Reply { status: 200, headers, body: document });
    }
    let etag = etag_of(bytes.as_slice());
    let current = match if_none_match {
        Some(header) => names_tag(header, etag.as_str()),
        None => false,
    };
    let headers = reply_headers(content_type.as_str(), &Some(etag), prefix.as_str());
    if current {
        let empty: Vec<u8> = Vec::new();
        assert(empty@ =~= Seq::<u8>::empty());
        Ok(Reply { status: 304, headers, body: empty })
    } else {
        Ok(Reply { status: 200, headers, body: bytes })
    }
}

/// The tag of some bytes, sent back as it is, names these bytes.
pub proof fn lemma_tag_names_itself(bytes: Seq<u8>)
    ensures
        text::split_on(entity_tag(bytes), ',') == seq![entity_tag(bytes)],
        text::trimmed(entity_tag(bytes)) == entity_tag(bytes),
        none_match(entity_tag(bytes), entity_tag(bytes)),
{
    let tag = entity_tag(bytes);
    let digest = outside::sha256(bytes);
    text::lemma_hex(digest);
    reveal_strlit("W/");
    assert(tag[0] == '"');
    assert(tag.last() == '"');
    assert forall|i: int| 0 <= i < tag.len() implies tag[i] != ',' by {
        if 0 < i < tag.len() - 1 {
            assert(tag[i] == text::hex(digest)[i - 1]);
        }
    }
    text::lemma_split_whole(tag, ',');
    assert(!text::is_space('"'));
    assert(text::trimmed(tag) == tag);
    assert(text::split_on(tag, ',')[0] == tag);
    assert(!"W/"@.is_prefix_of(tag)) by {
        if "W/"@.is_prefix_of(tag) {
            assert("W/"@[0] == tag.subrange(0, 2)[0]);
        }
    }
    assert(item_matches(text::split_on(tag, ',')[0], tag));
}

/// What an access to an asset is answered, once everything is known that has to be: what the asset
/// is answered where access is granted, and the refusal otherwise.
pub open spec fn served(
    progress: AccessProgress,
    answer: Result<(u16, Seq<(Seq<char>, Seq<char>)>, Seq<u8>), (u16, Seq<char>)>,
) -> Option<Result<(u16, Seq<(Seq<char>, Seq<char>)>, Seq<u8>), (u16, Seq<char>)>> {
    if progress.granted() {
        Some(answer)
    } else {
        match progress.refusal() {
            Some(refusal) => Some(Err(refusal)),
            None => None,
        }
    }
}

/// Of two requests for an asset, the second may send back the tag that it got from the first. While
/// nothing changed it is told that its copy is current, with the headers of the first answer. It is
/// answered 403 once the user lacks the page's permission or the page runs another revision or
/// generation, 401 once the mount is gone, and what the check of the session tells once that fails,
/// such as the 401 of a user who has logged out. None of these is ever a 304.
pub proof fn lemma_tag_over_two_requests(
    first: AccessProgress,
    second: AccessProgress,
    session: SessionContext,
    grant: FrontendGrant,
    binding: PageBinding,
    permitted: bool,
    source: AssetSource,
    bytes: Seq<u8>,
    path: Seq<char>,
    rendered: Result<Seq<u8>, Seq<char>>,
    prefix: Seq<char>,
)
    requires
        path != grant.entry@,
        first.granted(),
        asset_answer(source, bytes, path, grant.entry@, rendered, prefix, None) is Ok,
        same_session(session, grant),
        entry_of(binding) is Some,
        second.binding is Some ==> refused(second.binding) == binding_refusal(
            session,
            grant,
            Some(binding),
            permitted,
        ),
    ensures
        ({
            let entry = grant.entry@;
            let sent = asset_answer(source, bytes, path, entry, rendered, prefix, None);
            let tag = entity_tag(bytes);
            let again = asset_answer(source, bytes, path, entry, rendered, prefix, Some(tag));
            let answer = served(second, again);
            let changed = !permitted || binding.service.revision@ != grant.revision@
                || binding.activation_generation@ != grant.activation_generation@;
            &&& served(first, sent) == Some(sent)
            &&& sent->Ok_0.0 == 200
            &&& sent->Ok_0.1 == asset_headers(asset_type(source, path), Some(tag), prefix)
            &&& second.granted() ==> (answer matches Some(Ok(reply)) && reply.0 == 304 && reply.1
                == sent->Ok_0.1 && reply.2 == Seq::<u8>::empty())
            &&& second.secured() && passed(second.session) && second.binding is Some && changed
                ==> (answer matches Some(Err(refusal)) && refusal.0 == 403)
            &&& second.admitted() && passed(second.locked) && second.still_found == Some(false)
                ==> (answer matches Some(Err(refusal)) && refusal == (
                401u16,
                "前端挂载凭证无效或已过期"@,
            ))
            &&& second.introduced() && second.slot == Some(true) && second.found == Some(false)
                ==> (answer matches Some(Err(refusal)) && refusal.0 == 401)
            &&& second.secured() && refused(second.session) is Some ==> (answer matches Some(
                Err(refusal),
            ) && refusal == refused(second.session)->0)
        }),
{
    lemma_tag_names_itself(bytes);
}

/// What of an asset's answer does not depend on who asks: bytes without the published digest are
/// answered 400, and the entry document is never kept by a client.
pub proof fn lemma_asset_answers(
    source: AssetSource,
    bytes: Seq<u8>,
    path: Seq<char>,
    entry: Seq<char>,
    rendered: Result<Seq<u8>, Seq<char>>,
    prefix: Seq<char>,
    if_none_match: Option<Seq<char>>,
)
    ensures
        ({
            let answer = asset_answer(source, bytes, path, entry, rendered, prefix, if_none_match);
            &&& declared_digest(source) is Some && text::hex(outside::sha256(bytes))
                != declared_digest(source)->0 ==> (answer matches Err(refusal) && refusal.0 == 400)
            &&& path == entry && answer is Ok ==> answer->Ok_0.0 == 200 && answer->Ok_0.1.contains(
                ("cache-control"@, "private, no-store, no-transform"@),
            )
        }),
{
    let headers = asset_headers(asset_type(source, path), None, prefix);
    assert(headers[1] == ("cache-control"@, "private, no-store, no-transform"@));
}

/// A cached copy never stands in for the check of an asset: bytes that lost their published
/// digest are refused whatever tag the client holds.
pub proof fn lemma_cache_does_not_bypass_digest(
    source: AssetSource,
    bytes: Seq<u8>,
    path: Seq<char>,
    entry: Seq<char>,
    rendered: Result<Seq<u8>, Seq<char>>,
    prefix: Seq<char>,
    if_none_match: Option<Seq<char>>,
)
    requires
        declared_digest(source) is Some,
        text::hex(outside::sha256(bytes)) != declared_digest(source)->0,
    ensures
        asset_answer(source, bytes, path, entry, rendered, prefix, if_none_match) is Err,
{
}

/// Confirming a copy sends no bytes and the same headers as sending the asset.
pub proof fn lemma_confirmed_copy_is_current(
    source: AssetSource,
    bytes: Seq<u8>,
    path: Seq<char>,
    entry: Seq<char>,
    rendered: Result<Seq<u8>, Seq<char>>,
    prefix: Seq<char>,
    if_none_match: Seq<char>,
)
    requires
        path != entry,
        asset_answer(source, bytes, path, entry, rendered, prefix, None) is Ok,
        none_match(if_none_match, entity_tag(bytes)),
    ensures
        ({
            let sent = asset_answer(source, bytes, path, entry, rendered, prefix, None)->Ok_0;
            asset_answer(source, bytes, path, entry, rendered, prefix, Some(if_none_match)) == Ok::<
                (u16, Seq<(Seq<char>, Seq<char>)>, Seq<u8>),
                (u16, Seq<char>),
            >((304u16, sent.1, Seq::<u8>::empty()))
        }),
{
}

/// An asset that is not the entry is confirmed only where the request names the very bytes: some
/// item of its `If-None-Match` header, trimmed and without the mark of a weak tag, is the quoted
/// digest of the bytes, or an asterisk. Any other request, with whatever tags, is sent exactly the
/// bytes. A packaged file without its published digest is refused whatever is asked, and the entry
/// is always sent anew.
pub proof fn lemma_asset_is_sent_unless_named(
    source: AssetSource,
    bytes: Seq<u8>,
    path: Seq<char>,
    entry: Seq<char>,
    rendered: Result<Seq<u8>, Seq<char>>,
    prefix: Seq<char>,
    header: Option<Seq<char>>,
)
    ensures
        ({
            let answer = asset_answer(source, bytes, path, entry, rendered, prefix, header);
            let digest = text::hex(outside::sha256(bytes));
            let tag = seq!['"'] + digest + seq!['"'];
            let genuine = source is Packaged ==> source->sha256@ == digest;
            let named = header is Some && exists|i: int|
                0 <= i < text::split_on(header->0, ',').len() && {
                    let item = text::trimmed(#[trigger] text::split_on(header->0, ',')[i]);
                    item == tag || item == "*"@ || item == "W/"@ + tag || item == "W/"@ + "*"@
                };
            &&& !genuine ==> answer == Err::<
                (u16, Seq<(Seq<char>, Seq<char>)>, Seq<u8>),
                (u16, Seq<char>),
            >((400u16, "前端资产摘要与已发布版本不一致"@))
            &&& genuine && path != entry ==> {
                &&& answer is Ok
                &&& answer->Ok_0.0 == 304 <==> named
                &&& answer->Ok_0.0 == 200 <==> !named
                &&& named ==> answer->Ok_0.2.len() == 0
                &&& !named ==> answer->Ok_0.2 == bytes
                &&& answer->Ok_0.1.contains(("etag"@, tag))
                &&& answer->Ok_0.1.contains(
                    ("cache-control"@, "private, no-cache, no-transform"@),
                )
            }
            &&& genuine && path == entry && rendered is Ok ==> {
                &&& answer is Ok
                &&& answer->Ok_0.0 == 200
                &&& answer->Ok_0.2 == rendered->Ok_0
                &&& answer->Ok_0.1.contains(
                    ("cache-control"@, "private, no-store, no-transform"@),
                )
            }
            &&& genuine && path == entry && rendered is Err ==> answer == Err::<
                (u16, Seq<(Seq<char>, Seq<char>)>, Seq<u8>),
                (u16, Seq<char>),
            >((400u16, rendered->Err_0))
            &&& answer is Ok ==> {
                &&& answer->Ok_0.1.contains(("x-content-type-options"@, "nosniff"@))
                &&& answer->Ok_0.1.contains(("referrer-policy"@, "no-referrer"@))
                &&& answer->Ok_0.1.contains(("access-control-allow-origin"@, "*"@))
                &&& answer->Ok_0.1.contains(
                    (
                        "content-security-policy"@,
                        text::joined(frontend_document::policy_parts(), prefix),
                    ),
                )
                &&& answer->Ok_0.1[0] == (
                    "content-type"@,
                    if source is Packaged {
                        outside::media_type(path)
                    } else {
                        "application/javascript"@
                    },
                )
            }
        }),
{
    let digest = text::hex(outside::sha256(bytes));
    let tag = seq!['"'] + digest + seq!['"'];
    assert(tag == entity_tag(bytes));
    reveal_strlit("W/");
    reveal_strlit("*");
    assert("W/"@ =~= seq!['W', '/']);
    assert("*"@ =~= seq!['*']);
    assert(tag[0] == '"');
    assert forall|item: Seq<char>| #[trigger] strong(item) == tag || strong(item) == "*"@ <==> item
        == tag || item == "*"@ || item == "W/"@ + tag || item == "W/"@ + "*"@ by {
        if "W/"@.is_prefix_of(item) {
            assert(item =~= "W/"@ + item.skip(2));
            assert(item[0] == 'W');
        }
        assert(("W/"@ + tag).skip(2) =~= tag);
        assert(("W/"@ + "*"@).skip(2) =~= "*"@);
        assert("W/"@ =~= ("W/"@ + tag).subrange(0, 2));
        assert("W/"@ =~= ("W/"@ + "*"@).subrange(0, 2));
        assert(item == tag ==> item[0] == '"');
        assert(item == "*"@ ==> item[0] == '*');
        assert("W/"@.is_prefix_of(item) ==> item[0] == "W/"@[0]);
    }
    if header is Some {
        let items = text::split_on(header->0, ',');
        assert forall|i: int| 0
            <= i < items.len() implies item_matches(#[trigger] items[i], tag) == ({
            let item = text::trimmed(items[i]);
            item == tag || item == "*"@ || item == "W/"@ + tag || item == "W/"@ + "*"@
        }) by {
            assert(strong(text::trimmed(items[i])) == strong(text::trimmed(items[i])));
        }
    }
    let kind = asset_type(source, path);
    let kept = asset_headers(kind, Some(tag), prefix);
    assert(kept[0] == ("content-type"@, kind));
    assert(kept[1] == ("cache-control"@, "private, no-cache, no-transform"@));
    assert(kept[2] == ("etag"@, tag));
    assert(kept[3] == ("x-content-type-options"@, "nosniff"@));
    assert(kept[4] == ("referrer-policy"@, "no-referrer"@));
    assert(kept[5] == ("access-control-allow-origin"@, "*"@));
    assert(kept[6].0 == "content-security-policy"@);
    let anew = asset_headers(kind, None, prefix);
    assert(anew[0] == ("content-type"@, kind));
    assert(anew[1] == ("cache-control"@, "private, no-store, no-transform"@));
    assert(anew[2] == ("x-content-type-options"@, "nosniff"@));
    assert(anew[3] == ("referrer-policy"@, "no-referrer"@));
    assert(anew[4] == ("access-control-allow-origin"@, "*"@));
    assert(anew[5].0 == "content-security-policy"@);
}

/// A mount gives access only to the session, user and tenant that it was issued to, and only while
/// the page is active, permitted, and runs the very source, generation, revision and entry that
/// were mounted. Each change is told with its own status.
pub proof fn lemma_mount_follows_its_page(
    session: SessionContext,
    grant: FrontendGrant,
    binding: Option<PageBinding>,
    permitted: bool,
)
    ensures
        ({
            let refusal = binding_refusal(session, grant, binding, permitted);
            let own = session.session_id@ == grant.session_id@ && session.user_id@
                == grant.user_id@ && session.tenant_id@ == grant.tenant_id@;
            &&& session_refusal(session, grant) is None <==> own
            &&& !own ==> session_refusal(session, grant) == refusal && refusal == Some(
                (403u16, "会话或租户上下文已变化，请重新打开页面"@),
            )
            &&& own && binding is None ==> refusal == Some((404u16, "当前租户没有该活动页面"@))
            &&& own && binding is Some && !permitted ==> refusal == Some(
                (403u16, "当前用户没有该页面权限"@),
            )
            &&& own && binding is Some && permitted ==> {
                let same = binding->0.source_id@ == grant.source_id@
                    && binding->0.activation_generation@ == grant.activation_generation@
                    && binding->0.service.revision@ == grant.revision@;
                let body = binding->0.page.body;
                &&& !same ==> refusal == Some((403u16, "插件活动版本已变化，请重新打开页面"@))
                &&& same && !(body is Frontend) ==> refusal == Some(
                    (400u16, "当前页面没有前端二进制入口"@),
                )
                &&& same && body is Frontend ==> (refusal is None <==> body->entry@
                    == grant.entry@)
                &&& same && body is Frontend && body->entry@ != grant.entry@ ==> refusal == Some(
                    (403u16, "插件活动版本已变化，请重新打开页面"@),
                )
            }
            &&& page_refusal(true, true) is None
            &&& page_refusal(false, permitted) == Some((404u16, "当前租户没有该活动页面"@))
            &&& page_refusal(true, false) == Some((403u16, "当前用户没有该页面权限"@))
        }),
{
}

/// The order in which an access is checked. One who calls or renews is asked who they are first.
/// There must be room, the mount must live, a call must be well formed; then, under the lock, the
/// mount must still live, the session must count and the page must be the mounted one. The first
/// check that fails is told, and nothing is done before all have passed.
pub proof fn lemma_access_is_checked_in_order(progress: AccessProgress, step: AccessStep)
    requires
        progress.asks(step),
    ensures
        ({
            let asked = !(progress.access is Asset);
            let known = asked ==> progress.known is Some && progress.known->0 is Ok;
            let room = known && progress.slot == Some(true);
            let found = room && progress.found == Some(true);
            let called = found && (progress.access is Request ==> progress.well_formed is Some
                && progress.well_formed->0 is Ok);
            let locked = called && progress.locked is Some && progress.locked->0 is Ok;
            let alive = locked && progress.still_found == Some(true);
            let counts = alive && progress.session is Some && progress.session->0 is Ok;
            &&& asked && progress.known is None ==> step is Authenticate
            &&& asked && progress.known is Some && progress.known->0 is Err ==> step is Refuse
                && step->Refuse_0.status == progress.known->0->Err_0.status
                && step->Refuse_0.message@ == progress.known->0->Err_0.message@
            &&& known && progress.slot is None ==> step is AcquireSlot
            &&& known && progress.slot == Some(false) ==> step is Refuse && step->Refuse_0.status
                == 503 && step->Refuse_0.message@ == "前端请求超过宿主并发配额"@
            &&& room && progress.found is None ==> step is FindGrant
            &&& room && progress.found == Some(false) ==> step is Refuse && step->Refuse_0.status
                == 401 && step->Refuse_0.message@ == "前端挂载凭证无效或已过期"@
            &&& found && progress.access is Request && progress.well_formed is None
                ==> step is CheckCall
            &&& found && progress.access is Request && progress.well_formed is Some
                && progress.well_formed->0 is Err ==> step is Refuse && step->Refuse_0.status
                == progress.well_formed->0->Err_0.status && step->Refuse_0.message@
                == progress.well_formed->0->Err_0.message@
            &&& called && progress.locked is None ==> step is Lock
            &&& called && progress.locked is Some && progress.locked->0 is Err ==> step is Refuse
                && step->Refuse_0.status == progress.locked->0->Err_0.status
                && step->Refuse_0.message@ == progress.locked->0->Err_0.message@
            &&& locked && progress.still_found is None ==> step is FindGrantAgain
            &&& locked && progress.still_found == Some(false) ==> step is Refuse
                && step->Refuse_0.status == 401 && step->Refuse_0.message@
                == "前端挂载凭证无效或已过期"@
            &&& alive && progress.session is None ==> step is AuthenticateAgain
            &&& alive && progress.session is Some && progress.session->0 is Err ==> step is Refuse
                && step->Refuse_0.status == progress.session->0->Err_0.status
                && step->Refuse_0.message@ == progress.session->0->Err_0.message@
            &&& counts && progress.binding is None ==> step is CheckBinding
            &&& counts && progress.binding is Some && progress.binding->0 is Err ==> step is Refuse
                && step->Refuse_0.status == progress.binding->0->Err_0.status
                && step->Refuse_0.message@ == progress.binding->0->Err_0.message@
            &&& step is Proceed <==> counts && progress.binding is Some
                && progress.binding->0 is Ok
        }),
{
}

/// A call reaches the service only under one of seven methods, at a path that begins with a slash
/// and whose segments are plain: none is empty or leads up or stays, and every character is a
/// letter, a digit or one of five marks; and within its limits.
pub proof fn lemma_calls_are_plain(request: FrontendRequest)
    ensures
        request_refusal(request) is None ==> {
            &&& seq![
                "GET"@,
                "POST"@,
                "PUT"@,
                "PATCH"@,
                "DELETE"@,
                "HEAD"@,
                "OPTIONS"@,
            ].contains(request.method@)
            &&& request.path@.len() > 0 && request.path@[0] == '/'
            &&& text::byte_len(request.path@.skip(1)) <= 2048
            &&& forall|i: int|
                0 <= i < request.path@.len() ==> text::is_alphanumeric(
                    #[trigger] request.path@[i],
                ) || seq!['/', '_', '-', '.', '~'].contains(request.path@[i])
            &&& forall|i: int|
                0 <= i < text::split_on(request.path@.skip(1), '/').len() ==> {
                    let segment = #[trigger] text::split_on(request.path@.skip(1), '/')[i];
                    segment.len() > 0 && segment != "."@ && segment != ".."@
                }
            &&& text::byte_len(request.body@) <= 1048576
            &&& request.query matches Some(query) ==> text::byte_len(query@) <= 8192
                && text::printable(query@)
        },
        request_refusal(request) is Some ==> (request_refusal(request)->0).0 == 400,
        !seq![
            "GET"@,
            "POST"@,
            "PUT"@,
            "PATCH"@,
            "DELETE"@,
            "HEAD"@,
            "OPTIONS"@,
        ].contains(request.method@) ==> request_refusal(request) == Some(
            (400u16, "前端请求方法不受支持"@),
        ),
{
    let methods = seq!["GET"@, "POST"@, "PUT"@, "PATCH"@, "DELETE"@, "HEAD"@, "OPTIONS"@];
    assert(methods[0] == "GET"@ && methods[1] == "POST"@ && methods[2] == "PUT"@ && methods[3]
        == "PATCH"@ && methods[4] == "DELETE"@ && methods[5] == "HEAD"@ && methods[6]
        == "OPTIONS"@);
    let marks = seq!['/', '_', '-', '.', '~'];
    assert(marks[0] == '/' && marks[1] == '_' && marks[2] == '-' && marks[3] == '.' && marks[4]
        == '~');
    reveal_strlit("/");
    if request_refusal(request) is None {
        let path = request.path@;
        assert(path[0] == "/"@[0]);
        assert forall|i: int| 0 <= i < path.len() implies text::is_alphanumeric(#[trigger] path[i])
            || marks.contains(path[i]) by {
            if i > 0 {
                assert(path_char(path.skip(1)[i - 1]));
            }
        }
    }
}

/// A well-formed call is never refused: one of the seven methods, a plain path, a small body and no
/// query, or a short printable one.
pub proof fn lemma_plain_calls_pass(request: FrontendRequest, rest: Seq<char>)
    requires
        seq!["GET"@, "POST"@, "PUT"@, "PATCH"@, "DELETE"@, "HEAD"@, "OPTIONS"@].contains(
            request.method@,
        ),
        request.path@ == "/"@ + rest,
        text::byte_len(rest) <= 2048,
        forall|i: int|
            0 <= i < rest.len() ==> text::is_alphanumeric(#[trigger] rest[i]) || rest[i] == '/'
                || rest[i] == '_' || rest[i] == '-' || rest[i] == '.' || rest[i] == '~',
        forall|i: int|
            0 <= i < text::split_on(rest, '/').len() ==> (#[trigger] text::split_on(
                rest,
                '/',
            )[i]).len() > 0 && text::split_on(rest, '/')[i] != "."@ && text::split_on(
                rest,
                '/',
            )[i] != ".."@,
        text::byte_len(request.body@) <= 1048576,
        request.query is Some ==> text::byte_len(request.query->0@) <= 8192 && text::printable(
            request.query->0@,
        ),
    ensures
        request_refusal(request) is None,
{
    reveal_strlit("/");
    assert(request.path@.skip(1) =~= rest);
    assert("/"@ =~= request.path@.subrange(0, 1));
    let methods = seq!["GET"@, "POST"@, "PUT"@, "PATCH"@, "DELETE"@, "HEAD"@, "OPTIONS"@];
    let k = choose|k: int| 0 <= k < methods.len() && methods[k] == request.method@;
    assert(allowed_method(request.method@)) by {
        assert(k == 0 || k == 1 || k == 2 || k == 3 || k == 4 || k == 5 || k == 6);
    }
    assert forall|i: int| 0 <= i < rest.len() implies path_char(#[trigger] rest[i]) by {}
}

} // verus!
