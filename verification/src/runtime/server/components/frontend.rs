//! The front ends of components: which page an id names, who may mount it and what is served.
use vstd::prelude::*;

use crate::html;
use crate::html::HeadFault;
use crate::outside;
use crate::runtime::model;
use crate::runtime::model::{Header, SessionContext};
use crate::runtime::server::components::catalog;
use crate::runtime::server::components::model::Page;
use crate::runtime::server::components::services;
use crate::runtime::server::frontend_access::FrontendGrant;
use crate::runtime::server::frontend_document;
use crate::runtime::server::frontend_model::MountResponse;
use crate::runtime::server::frontend_routes;
use crate::runtime::server::http_error;
use crate::runtime::server::http_error::{Reply, RuntimeError};
use crate::steps;
use crate::text;

verus! {

/// The version of the interface between a component's front end and the host.
pub const FRONTEND_ABI: u32 = 2;

/// Why an id names no component's page.
#[derive(Clone, Debug, PartialEq, Eq)]
pub enum IdentityFault {
    NotAComponent,
    SourceInvalid(String),
}

/// Why a component's page is not shown.
#[derive(Clone, Copy, Debug, PartialEq, Eq, Structural)]
pub enum PageFault {
    Undeclared,
    Forbidden,
}

/// Why a component's page is not mounted.
#[derive(Clone, Copy, Debug, PartialEq, Eq, Structural)]
pub enum MountFault {
    RevisionChanged,
    CookieMissing,
}

/// Why a component's entry document cannot be served.
#[derive(Clone, Debug, PartialEq, Eq)]
pub enum RenderFault {
    NotText(String),
    Head(HeadFault),
}

// Identities of pages

/// What follows the mark of a component in a page's id.
pub open spec fn marked(page: Seq<char>) -> Option<Seq<char>> {
    if "component:"@.is_prefix_of(page) {
        Some(page.skip("component:"@.len() as int))
    } else {
        None
    }
}

/// The component and the page that an id names: a mark, the component's id, a colon and the
/// page's own id; or the text shown where it names none.
pub open spec fn identity_of(page: Seq<char>) -> Result<(u128, Seq<char>), Seq<char>> {
    match marked(page) {
        None => Err("Component 页面 ID 无效"@),
        Some(rest) => match text::split_at_first(rest, ':') {
            None => Err("Component 页面 ID 无效"@),
            Some((source, id)) => match outside::uuid_value(source) {
                Err(told) => Err(told),
                Ok(source) => Ok((source, id)),
            },
        },
    }
}

/// Reads the component and the page out of an id.
pub fn identity(page: &str) -> (outcome: Result<(u128, String), IdentityFault>)
    ensures
        match outcome {
            Ok((source, id)) => identity_of(page@) matches Ok(named) && named == (source, id@),
            Err(fault) => identity_of(page@) matches Err(expected) && expected == fault.text(),
        },
{
    let rest = match text::strip_prefix(page, "component:") {
        Some(rest) => rest,
        None => return Err(IdentityFault::NotAComponent),
    };
    assert(rest@ =~= page@.skip("component:"@.len() as int));
    match text::split_once(rest.as_str(), ':') {
        None => Err(IdentityFault::NotAComponent),
        Some((source, id)) => match outside::parse_uuid(source.as_str()) {
            Ok(source) => Ok((source, id)),
            Err(told) => Err(IdentityFault::SourceInvalid(told)),
        },
    }
}

/// The component whose page a grant mounts.
pub fn granted_source(grant: &FrontendGrant) -> (outcome: Result<u128, String>)
    ensures
        match outcome {
            Ok(source) => outside::uuid_value(grant.source_id@) matches Ok(named)
                && named == source,
            Err(told) => outside::uuid_value(grant.source_id@) matches Err(cause) && told@
                == steps::explained("来源无效"@, cause),
        },
{
    match outside::parse_uuid(grant.source_id.as_str()) {
        Ok(source) => Ok(source),
        Err(told) => Err(steps::explain("来源无效", told.as_str())),
    }
}

/// The id of a component's page, from which the component and the page can be read back.
pub fn component_page(source: u128, id: &str) -> (page: String)
    ensures
        page@ == catalog::page_id(source, id@),
        identity_of(page@) matches Ok(named) && named == (source, id@),
{
    let notation = outside::uuid_text(source);
    let page = "component:".to_owned().concat(notation.as_str()).concat(":").concat(id);
    proof {
        let label = "component:"@;
        reveal_strlit(":");
        assert(":"@ =~= seq![':']);
        let rest = notation@ + seq![':'] + id@;
        assert(page@ =~= label + rest);
        assert(page@.subrange(0, label.len() as int) =~= label);
        assert(page@.skip(label.len() as int) =~= rest);
        outside::lemma_hyphenated(source);
        text::lemma_split_at_first(notation@, ':', id@);
    }
    page
}

// Access to pages

/// Where the page with the given id stands.
pub open spec fn page_at(pages: Seq<Page>, id: Seq<char>) -> int {
    text::first_index(pages.map_values(|p: Page| p.id@), id)
}

/// The page with the given id, to which the user must be permitted.
pub fn page<'a>(pages: &'a Vec<Page>, id: &str, permitted: bool) -> (outcome: Result<
    &'a Page,
    PageFault,
>)
    ensures
        ({
            let at = page_at(pages@, id@);
            match outcome {
                Ok(page) => at < pages@.len() && permitted && *page == pages@[at],
                Err(PageFault::Undeclared) => at == pages@.len(),
                Err(PageFault::Forbidden) => at < pages@.len() && !permitted,
            }
        }),
{
    let ghost ids = pages@.map_values(|p: Page| p.id@);
    let mut at: usize = 0;
    while at < pages.len()
        invariant
            at <= pages@.len(),
            ids == pages@.map_values(|p: Page| p.id@),
            forall|k: int| 0 <= k < at ==> ids[k] != id@,
        decreases pages@.len() - at,
    {
        if text::same(pages[at].id.as_str(), id) {
            proof {
                text::lemma_first_index_is(ids, id@, at as int);
            }
            if !permitted {
                return Err(PageFault::Forbidden);
            }
            return Ok(&pages[at]);
        }
        at += 1;
    }
    proof {
        text::lemma_first_index_is(ids, id@, at as int);
    }
    Err(PageFault::Undeclared)
}

/// The permission that a component's page asks for.
pub fn required_permission(source: u128, page: &Page) -> (required: Option<String>)
    ensures
        text::optional(required) == catalog::page_permission(source, *page),
{
    match &page.permission {
        Some(name) => {
            let notation = outside::uuid_text(source);
            Some(services::permission(notation.as_str(), name.as_str()))
        },
        None => None,
    }
}

/// The grant for a component's page: the bundle that will be served must be the installed one.
pub fn mount_grant(
    session: &SessionContext,
    page_id: &str,
    source: u128,
    generation: String,
    revision: String,
    entry: String,
    bundle_digest: &str,
    frontend_path: String,
    cookie: Option<String>,
    now: u64,
) -> (outcome: Result<FrontendGrant, MountFault>)
    ensures
        match outcome {
            Ok(grant) => {
                &&& bundle_digest@ == revision@
                &&& cookie == Some(grant.cookie)
                &&& frontend_routes::same_session(*session, grant)
                &&& grant.page_id@ == page_id@
                &&& grant.source_id@ == outside::hyphenated(source)
                &&& grant.activation_generation == generation
                &&& grant.revision == revision
                &&& grant.entry == entry
                &&& grant.frontend_path == frontend_path
                &&& grant.assets@.len() == 0
                &&& grant.issued == now
            },
            Err(MountFault::RevisionChanged) => bundle_digest@ != revision@,
            Err(MountFault::CookieMissing) => bundle_digest@ == revision@ && cookie is None,
        },
{
    if !text::same(bundle_digest, revision.as_str()) {
        return Err(MountFault::RevisionChanged);
    }
    let cookie = match cookie {
        Some(cookie) => cookie,
        None => return Err(MountFault::CookieMissing),
    };
    Ok(
        FrontendGrant {
            cookie,
            session_id: session.session_id.clone(),
            tenant_id: session.tenant_id.clone(),
            user_id: session.user_id.clone(),
            page_id: page_id.to_owned(),
            source_id: outside::uuid_text(source),
            activation_generation: generation,
            revision,
            entry,
            frontend_path,
            assets: Vec::new(),
            issued: now,
        },
    )
}

/// What the client is told of a mounted component.
pub fn mount(token: String, grant: &FrontendGrant, session_context: String, context: String) -> (
    response: MountResponse)
    ensures
        response.abi == Some(FRONTEND_ABI),
        response.token == token,
        response.src@ == "/api/runtime/components/assets/"@ + token@ + "/"@ + grant.entry@,
        response.revision@ == grant.revision@,
        response.generation@ == grant.activation_generation@,
        response.session_context == session_context,
        response.context == context,
        response.assets@.len() == 0,
{
    let src = "/api/runtime/components/assets/".to_owned().concat(token.as_str()).concat(
        "/",
    ).concat(grant.entry.as_str());
    MountResponse {
        abi: Some(FRONTEND_ABI),
        token,
        src,
        revision: grant.revision.clone(),
        generation: grant.activation_generation.clone(),
        session_context,
        context,
        assets: Vec::new(),
    }
}

/// The grant that a token stands for, where the mount lives.
pub fn live(found: Option<&FrontendGrant>) -> (outcome: Result<&FrontendGrant, RuntimeError>)
    ensures
        match outcome {
            Ok(grant) => found == Some(grant),
            Err(error) => found is None && error.status == 401 && error.message@ == "挂载已过期"@,
        },
{
    match found {
        Some(grant) => Ok(grant),
        None => Err(RuntimeError::unauthorized("挂载已过期".to_owned())),
    }
}

/// Why a grant does not belong to a session.
pub open spec fn owner_refusal(session: SessionContext, grant: FrontendGrant) -> Option<
    (u16, Seq<char>),
> {
    if frontend_routes::same_session(session, grant) {
        None
    } else {
        Some((403, "挂载不属于当前登录或租户"@))
    }
}

/// Checks that a grant belongs to a session.
pub fn validate_owner(session: &SessionContext, grant: &FrontendGrant) -> (outcome: Result<
    (),
    RuntimeError,
>)
    ensures
        http_error::answers(outcome, owner_refusal(*session, *grant)),
{
    if !text::same(grant.session_id.as_str(), session.session_id.as_str()) || !text::same(
        grant.tenant_id.as_str(),
        session.tenant_id.as_str(),
    ) || !text::same(grant.user_id.as_str(), session.user_id.as_str()) {
        return Err(RuntimeError::forbidden("挂载不属于当前登录或租户".to_owned()));
    }
    Ok(())
}

/// Whether a component is still the one that was mounted.
pub open spec fn same_installation(
    grant: FrontendGrant,
    source: u128,
    digest: Seq<char>,
    generation: Seq<char>,
    entry: Seq<char>,
) -> bool {
    &&& outside::hyphenated(source) == grant.source_id@
    &&& digest == grant.revision@
    &&& generation == grant.activation_generation@
    &&& entry == grant.entry@
}

/// Checks that the component that is installed now is the one that was mounted.
pub fn validate(
    grant: &FrontendGrant,
    source: u128,
    digest: &str,
    generation: &str,
    entry: &str,
) -> (outcome: Result<(), RuntimeError>)
    ensures
        http_error::answers(
            outcome,
            if same_installation(*grant, source, digest@, generation@, entry@) {
                None
            } else {
                Some((403u16, "插件版本已变化，请重新挂载"@))
            },
        ),
{
    let notation = outside::uuid_text(source);
    if !text::same(notation.as_str(), grant.source_id.as_str()) || !text::same(
        digest,
        grant.revision.as_str(),
    ) || !text::same(generation, grant.activation_generation.as_str()) || !text::same(
        entry,
        grant.entry.as_str(),
    ) {
        return Err(RuntimeError::forbidden("插件版本已变化，请重新挂载".to_owned()));
    }
    Ok(())
}

// Assets

/// The parts of the content policy between which the prefix stands.
pub open spec fn policy_parts() -> Seq<Seq<char>> {
    seq![
        "sandbox allow-scripts allow-forms; default-src 'none'; script-src 'unsafe-inline' 'unsafe-eval' 'wasm-unsafe-eval' "@,
        "; connect-src "@,
        " blob:; style-src 'unsafe-inline' "@,
        "; img-src data: blob: "@,
        "; font-src data: "@,
        "; object-src 'none'; frame-src 'none'; worker-src blob:; base-uri "@,
        "; form-action 'none'; frame-ancestors 'self'"@,
    ]
}

/// What a component's front end may do.
fn content_policy(prefix: &str) -> (policy: String)
    ensures
        policy@ == text::joined(policy_parts(), prefix@),
{
    let parts: Vec<String> = vec![
        "sandbox allow-scripts allow-forms; default-src 'none'; script-src 'unsafe-inline' 'unsafe-eval' 'wasm-unsafe-eval' ".to_owned(),
        "; connect-src ".to_owned(),
        " blob:; style-src 'unsafe-inline' ".to_owned(),
        "; img-src data: blob: ".to_owned(),
        "; font-src data: ".to_owned(),
        "; object-src 'none'; frame-src 'none'; worker-src blob:; base-uri ".to_owned(),
        "; form-action 'none'; frame-ancestors 'self'".to_owned(),
    ];
    assert(text::texts(parts@) =~= policy_parts());
    text::join(&parts, prefix)
}

/// The text shown for a head into which nothing can be put.
pub open spec fn head_text(fault: HeadFault) -> Seq<char> {
    match fault {
        HeadFault::TooComplex => "入口过于复杂"@,
        HeadFault::HeadMissing => "入口缺少 head"@,
        HeadFault::BaseMissing => "创建 base 失败"@,
        HeadFault::ScriptMissing => "创建 SDK 脚本失败"@,
    }
}

/// A component's entry document, as it is served: with a base address at the entry's directory
/// below the prefix in place of its own, and with the guest script at the start of its head; or
/// the text shown where that cannot be.
pub open spec fn rendered(
    bytes: Seq<u8>,
    prefix: Seq<char>,
    entry: Seq<char>,
    guest: Seq<char>,
) -> Result<Seq<u8>, Seq<char>> {
    match frontend_document::decoded(bytes) {
        Err(told) => Err(told),
        Ok(source) => match html::guided(
            source,
            prefix + frontend_document::directory(entry),
            guest,
        ) {
            Err(fault) => Err(head_text(fault)),
            Ok(document) => Ok(vstd::utf8::encode_utf8(document)),
        },
    }
}

/// Prepares a component's entry document: relative addresses start at the entry's directory
/// below `prefix`, and the guest script runs first.
pub fn render(bytes: &[u8], prefix: &str, entry: &str, guest: &str) -> (outcome: Result<
    Vec<u8>,
    RenderFault,
>)
    ensures
        match outcome {
            Ok(document) => rendered(bytes@, prefix@, entry@, guest@) matches Ok(expected)
                && expected == document@,
            Err(fault) => rendered(bytes@, prefix@, entry@, guest@) matches Err(expected)
                && expected == fault.text(),
        },
        outcome matches Ok(document) ==> exists|served: Seq<char>| #[trigger]
            html::head_begins_with(served, "base"@) && vstd::utf8::encode_utf8(served) == document@,
{
    let source = match outside::utf8_text(bytes) {
        Ok(source) => source,
        Err(told) => return Err(RenderFault::NotText(told)),
    };
    let folder = frontend_document::directory_of(entry);
    let href = prefix.to_owned().concat(folder.as_str());
    match html::guide(source, href, guest) {
        Ok(document) => Ok(document.as_str().as_bytes_vec()),
        Err(fault) => Err(RenderFault::Head(fault)),
    }
}

/// The prefix of the addresses of a component's assets.
pub open spec fn asset_prefix(origin: Seq<char>, token: Seq<char>) -> Seq<char> {
    origin + "/api/runtime/components/assets/"@ + token + "/"@
}

/// The headers of a component's asset.
pub open spec fn asset_headers(path: Seq<char>, prefix: Seq<char>) -> Seq<(Seq<char>, Seq<char>)> {
    seq![
        ("content-type"@, outside::media_type(path)),
        ("access-control-allow-origin"@, "*"@),
        ("cache-control"@, "private, no-cache, no-transform"@),
        ("x-content-type-options"@, "nosniff"@),
        ("referrer-policy"@, "no-referrer"@),
        ("content-security-policy"@, text::joined(policy_parts(), prefix)),
    ]
}

/// Why a component's asset is not served.
pub open spec fn asset_refusal(
    digest: Seq<char>,
    file: Option<Seq<u8>>,
    path: Seq<char>,
    grant: FrontendGrant,
    document: Result<Seq<u8>, Seq<char>>,
) -> Option<(u16, Seq<char>)> {
    if digest != grant.revision@ {
        Some((403, "插件版本已撤销"@))
    } else if file is None {
        Some((404, "资产不属于当前插件包"@))
    } else if path == grant.entry@ && document is Err {
        Some((400, document->Err_0))
    } else {
        None
    }
}

/// Answers the request for a file of a component's bundle. The bundle must be the mounted one;
/// the entry is prepared, any other file is served as it is.
pub fn asset(
    digest: &str,
    file: Option<Vec<u8>>,
    path: &str,
    grant: &FrontendGrant,
    token: &str,
    origin: &str,
    guest: &str,
) -> (outcome: Result<Reply, RuntimeError>)
    ensures
        ({
            let prefix = asset_prefix(origin@, token@);
            let bytes = match file {
                Some(file) => Some(file@),
                None => None,
            };
            let document = rendered(bytes->0, prefix, path@, guest@);
            &&& http_error::answers(
                outcome,
                asset_refusal(digest@, bytes, path@, *grant, document),
            )
            &&& outcome matches Ok(reply) ==> {
                &&& reply.status == 200
                &&& reply.body@ == if path@ == grant.entry@ {
                    document->Ok_0
                } else {
                    bytes->0
                }
                &&& model::header_texts(reply.headers@) == asset_headers(path@, prefix)
            }
        }),
{
    if !text::same(digest, grant.revision.as_str()) {
        return Err(RuntimeError::forbidden("插件版本已撤销".to_owned()));
    }
    let bytes = match file {
        Some(bytes) => bytes,
        None => return Err(RuntimeError::not_found("资产不属于当前插件包".to_owned())),
    };
    let prefix = origin.to_owned().concat("/api/runtime/components/assets/").concat(token).concat(
        "/",
    );
    let body = if text::same(path, grant.entry.as_str()) {
        match render(bytes.as_slice(), prefix.as_str(), path, guest) {
            Ok(document) => document,
            Err(fault) => return Err(RuntimeError::bad_request(fault.message())),
        }
    } else {
        bytes
    };
    let content_type = outside::guess_media_type(path);
    let policy = content_policy(prefix.as_str());
    let mut headers: Vec<Header> = Vec::new();
    headers.push(model::header("content-type", content_type.as_str()));
    headers.push(model::header("access-control-allow-origin", "*"));
    headers.push(model::header("cache-control", "private, no-cache, no-transform"));
    headers.push(model::header("x-content-type-options", "nosniff"));
    headers.push(model::header("referrer-policy", "no-referrer"));
    headers.push(model::header("content-security-policy", policy.as_str()));
    assert(model::header_texts(headers@) =~= asset_headers(path@, prefix@));
    Ok(Reply { status: 200, headers, body })
}

impl RenderFault {
    /// The text shown for the fault.
    pub open spec fn text(&self) -> Seq<char> {
        match self {
            RenderFault::NotText(told) => told@,
            RenderFault::Head(fault) => head_text(*fault),
        }
    }

    /// The text shown for the fault.
    pub fn message(&self) -> (message: String)
        ensures
            message@ == self.text(),
    {
        let message = match self {
            RenderFault::NotText(told) => told.as_str(),
            RenderFault::Head(HeadFault::TooComplex) => "入口过于复杂",
            RenderFault::Head(HeadFault::HeadMissing) => "入口缺少 head",
            RenderFault::Head(HeadFault::BaseMissing) => "创建 base 失败",
            RenderFault::Head(HeadFault::ScriptMissing) => "创建 SDK 脚本失败",
        };
        message.to_owned()
    }
}

impl IdentityFault {
    /// The text shown for the fault.
    pub open spec fn text(&self) -> Seq<char> {
        match self {
            IdentityFault::NotAComponent => "Component 页面 ID 无效"@,
            IdentityFault::SourceInvalid(told) => told@,
        }
    }

    /// The text shown for the fault.
    pub fn message(&self) -> (message: String)
        ensures
            message@ == self.text(),
    {
        let message = match self {
            IdentityFault::NotAComponent => "Component 页面 ID 无效",
            IdentityFault::SourceInvalid(told) => told.as_str(),
        };
        message.to_owned()
    }
}

impl PageFault {
    /// The text shown for the fault.
    pub open spec fn text(&self) -> Seq<char> {
        match self {
            PageFault::Undeclared => "插件未声明该页面"@,
            PageFault::Forbidden => "当前用户无页面访问权限"@,
        }
    }

    /// The text shown for the fault.
    pub fn message(&self) -> (message: String)
        ensures
            message@ == self.text(),
    {
        let message = match self {
            PageFault::Undeclared => "插件未声明该页面",
            PageFault::Forbidden => "当前用户无页面访问权限",
        };
        message.to_owned()
    }
}

impl MountFault {
    /// The text shown for the fault.
    pub open spec fn text(&self) -> Seq<char> {
        match self {
            MountFault::RevisionChanged => "插件安装版本发生变化"@,
            MountFault::CookieMissing => "会话 Cookie 缺失"@,
        }
    }

    /// The text shown for the fault.
    pub fn message(&self) -> (message: String)
        ensures
            message@ == self.text(),
    {
        let message = match self {
            MountFault::RevisionChanged => "插件安装版本发生变化",
            MountFault::CookieMissing => "会话 Cookie 缺失",
        };
        message.to_owned()
    }
}

// Laws

/// An id that is a mark, a component's id and a page's id with colons between them names that page
/// of that component.
pub proof fn lemma_page_ids(source: Seq<char>, id: Seq<char>)
    requires
        !source.contains(':'),
    ensures
        outside::uuid_value(source) is Ok
            ==> identity_of("component:"@ + source + ":"@ + id)
            == Ok::<(u128, Seq<char>), Seq<char>>((outside::uuid_value(source)->Ok_0, id)),
        outside::uuid_value(source) is Err
            ==> identity_of("component:"@ + source + ":"@ + id)
            == Err::<(u128, Seq<char>), Seq<char>>(outside::uuid_value(source)->Err_0),
        identity_of("component:"@ + source)
            == Err::<(u128, Seq<char>), Seq<char>>("Component 页面 ID 无效"@),
{
    let label = "component:"@;
    reveal_strlit("component:");
    reveal_strlit(":");
    assert(":"@ =~= seq![':']);
    let rest = source + seq![':'] + id;
    let page = "component:"@ + source + ":"@ + id;
    assert(page =~= label + rest);
    assert(label =~= page.subrange(0, label.len() as int));
    assert(page.skip(label.len() as int) =~= rest);
    text::lemma_split_at_first(source, ':', id);
    let short = label + source;
    assert(label =~= short.subrange(0, label.len() as int));
    assert(short.skip(label.len() as int) =~= source);
    text::lemma_first_index(source, ':');
    if text::first_index(source, ':') < source.len() {
        assert(source.contains(source[text::first_index(source, ':')]));
    }
}

/// An id without the mark names no component's page.
pub proof fn lemma_unmarked_ids(page: Seq<char>)
    requires
        !"component:"@.is_prefix_of(page),
    ensures
        identity_of(page) == Err::<(u128, Seq<char>), Seq<char>>("Component 页面 ID 无效"@),
{
}

/// The page that an id finds is the first with that id.
pub proof fn lemma_first_page_with_the_id(pages: Seq<Page>, id: Seq<char>)
    ensures
        0 <= page_at(pages, id) <= pages.len(),
        page_at(pages, id) < pages.len() ==> pages[page_at(pages, id)].id@ == id,
        forall|i: int| 0 <= i < page_at(pages, id) && i < pages.len()
            ==> (#[trigger] pages[i]).id@ != id,
{
    let ids = pages.map_values(|p: Page| p.id@);
    text::lemma_first_index(ids, id);
    assert forall|i: int| 0 <= i < page_at(pages, id) && i < pages.len() implies (
    #[trigger] pages[i]).id@ != id by {
        assert(ids[i] == pages[i].id@);
    }
}

/// A page asks for the permission that it declares, of its own component; one that declares none
/// asks for none.
pub proof fn lemma_permission_of_a_page(source: u128, page: Page)
    ensures
        page.permission is None ==> catalog::page_permission(source, page) is None,
        page.permission is Some ==> catalog::page_permission(source, page) == Some("component:"@
            + outside::hyphenated(source) + ":"@ + page.permission->0@),
{
}

/// A mount belongs to the session, the tenant and the user for which it was issued; anyone else is
/// refused.
pub proof fn lemma_owner_of_a_mount(session: SessionContext, grant: FrontendGrant)
    ensures
        owner_refusal(session, grant) is None
            <==> grant.session_id@ == session.session_id@
            && grant.tenant_id@ == session.tenant_id@ && grant.user_id@ == session.user_id@,
        owner_refusal(session, grant) is Some
            ==> owner_refusal(session, grant) == Some((403u16, "挂载不属于当前登录或租户"@)),
{
}

/// A mount goes on only while the component, its bundle, its installation and its entry are those
/// that were mounted.
pub proof fn lemma_mounted_installation(grant: FrontendGrant, source: u128, digest: Seq<char>,
    generation: Seq<char>, entry: Seq<char>)
    ensures
        same_installation(grant, source, digest, generation, entry)
            <==> grant.source_id@ == outside::hyphenated(source) && grant.revision@ == digest
            && grant.activation_generation@ == generation && grant.entry@ == entry,
{
}

/// A component's front end runs in a sandbox, takes forms but sends none away, and loads from its
/// own prefix alone.
pub proof fn lemma_policy(prefix: Seq<char>)
    ensures
        text::joined(policy_parts(), prefix)
            == "sandbox allow-scripts allow-forms; default-src 'none'; script-src 'unsafe-inline' 'unsafe-eval' 'wasm-unsafe-eval' "@ + prefix + "; connect-src "@ + prefix + " blob:; style-src 'unsafe-inline' "@ + prefix + "; img-src data: blob: "@ + prefix + "; font-src data: "@ + prefix + "; object-src 'none'; frame-src 'none'; worker-src blob:; base-uri "@ + prefix + "; form-action 'none'; frame-ancestors 'self'"@,
{
    let parts = policy_parts();
    reveal_with_fuel(text::joined, 8);
    assert(parts.drop_last() =~= parts.take(6));
    assert(parts.take(6).drop_last() =~= parts.take(5));
    assert(parts.take(5).drop_last() =~= parts.take(4));
    assert(parts.take(4).drop_last() =~= parts.take(3));
    assert(parts.take(3).drop_last() =~= parts.take(2));
    assert(parts.take(2).drop_last() =~= parts.take(1));
    assert(text::joined(parts.take(1), prefix) =~= parts[0]);
}

/// A file is served with its type, to any origin, is not kept without asking, and is bound to the
/// policy of its prefix.
pub proof fn lemma_headers_of_a_file(path: Seq<char>, prefix: Seq<char>)
    ensures
        asset_headers(path, prefix).len() == 6,
        asset_headers(path, prefix)[0] == ("content-type"@, outside::media_type(path)),
        asset_headers(path, prefix)[1] == ("access-control-allow-origin"@, "*"@),
        asset_headers(path, prefix)[2] == ("cache-control"@, "private, no-cache, no-transform"@),
        asset_headers(path, prefix)[3] == ("x-content-type-options"@, "nosniff"@),
        asset_headers(path, prefix)[4] == ("referrer-policy"@, "no-referrer"@),
        asset_headers(path, prefix)[5]
            == ("content-security-policy"@, text::joined(policy_parts(), prefix)),
        asset_prefix(prefix, path) == prefix + "/api/runtime/components/assets/"@ + path + "/"@,
{
}

/// A file is served where its bundle is still the mounted one and holds it; the entry must take
/// what is put into it, and no other file is looked into.
pub proof fn lemma_which_files_are_served(digest: Seq<char>, file: Option<Seq<u8>>,
    path: Seq<char>, grant: FrontendGrant, document: Result<Seq<u8>, Seq<char>>)
    ensures
        digest != grant.revision@ ==> asset_refusal(digest, file, path, grant, document)
            == Some((403u16, "插件版本已撤销"@)),
        digest == grant.revision@ && file is None
            ==> asset_refusal(digest, file, path, grant, document) == Some((404u16, "资产不属于当前插件包"@)),
        digest == grant.revision@ && file is Some && path != grant.entry@
            ==> asset_refusal(digest, file, path, grant, document) is None,
        digest == grant.revision@ && file is Some && path == grant.entry@ && document is Ok
            ==> asset_refusal(digest, file, path, grant, document) is None,
        digest == grant.revision@ && file is Some && path == grant.entry@ && document is Err
            ==> asset_refusal(digest, file, path, grant, document)
            == Some((400u16, document->Err_0)),
{
}

/// The entry that is served is the bundle's own, with the base address of its directory below the
/// prefix and the guest script in its head.
pub proof fn lemma_entry_is_guided(source: Seq<char>, bytes: Seq<u8>, prefix: Seq<char>,
    entry: Seq<char>, guest: Seq<char>, folder: Seq<char>, name: Seq<char>)
    requires
        vstd::utf8::valid_utf8(bytes),
        vstd::utf8::decode_utf8(bytes) == source,
        entry == folder + name,
        folder.len() == 0 || folder.last() == '/',
        !name.contains('/'),
    ensures
        html::guided(source, prefix + folder, guest) is Ok
            ==> rendered(bytes, prefix, entry, guest)
            == Ok::<Seq<u8>, Seq<char>>(vstd::utf8::encode_utf8(html::guided(source, prefix
            + folder, guest)->Ok_0)),
        html::guided(source, prefix + folder, guest) is Err
            ==> rendered(bytes, prefix, entry, guest) is Err,
{
    frontend_document::lemma_folder(folder, name);
}

/// Each of these is told in its own words.
pub proof fn lemma_told_render_fault(fault: RenderFault)
    ensures
        fault is NotText ==> fault.text() == fault->NotText_0@,
{
}

/// Each of these is told in its own words.
pub proof fn lemma_told_identity_fault(fault: IdentityFault)
    ensures
        fault is NotAComponent ==> fault.text() == "Component 页面 ID 无效"@,
        fault is SourceInvalid ==> fault.text() == fault->SourceInvalid_0@,
{
}

/// Each of these is told in its own words.
pub proof fn lemma_told_page_fault(fault: PageFault)
    ensures
        fault is Undeclared ==> fault.text() == "插件未声明该页面"@,
        fault is Forbidden ==> fault.text() == "当前用户无页面访问权限"@,
{
}

/// Each of these is told in its own words.
pub proof fn lemma_told_mount_fault(fault: MountFault)
    ensures
        fault is RevisionChanged ==> fault.text() == "插件安装版本发生变化"@,
        fault is CookieMissing ==> fault.text() == "会话 Cookie 缺失"@,
{
}

} // verus!
