//! What a component says of itself, and the requests that reach it.
use vstd::prelude::*;

use crate::runtime::model::Header;
use crate::runtime::server::frontend_routes;
use crate::text;

verus! {

/// The longest path of a request, in bytes.
pub const MAX_PATH_BYTES: usize = 2048;

/// The largest body of a request.
pub const MAX_BODY_BYTES: usize = 8388608;

/// How many headers a request may have.
pub const MAX_HEADERS: usize = 8;

/// The longest value of a header, in bytes.
pub const MAX_HEADER_BYTES: usize = 256;

/// What a component says of itself.
#[derive(Clone, Debug)]
pub struct Description {
    pub label: String,
    pub pages: Vec<Page>,
    pub process: bool,
}

/// A page of a component.
#[derive(Clone, Debug)]
pub struct Page {
    pub id: String,
    pub label: String,
    pub entry: String,
    pub scene: Option<(String, String)>,
    pub menu_path: Vec<String>,
    pub permission: Option<String>,
    pub surface: String,
}

/// Where a page appears.
#[derive(Clone, Copy, Debug, PartialEq, Eq, Structural)]
pub enum Surface {
    Workspace,
    Fullscreen,
    AccountEntry,
    AccountMenu,
}

impl Surface {
    /// The name under which a surface is stored.
    pub open spec fn text(&self) -> Seq<char> {
        match self {
            Surface::Workspace => "workspace"@,
            Surface::Fullscreen => "fullscreen"@,
            Surface::AccountEntry => "account-entry"@,
            Surface::AccountMenu => "account-menu"@,
        }
    }

    /// The name under which a surface is stored.
    pub fn name(&self) -> (name: String)
        ensures
            name@ == self.text(),
    {
        let name = match self {
            Surface::Workspace => "workspace",
            Surface::Fullscreen => "fullscreen",
            Surface::AccountEntry => "account-entry",
            Surface::AccountMenu => "account-menu",
        };
        name.to_owned()
    }
}

/// Whether a text names a surface.
pub open spec fn is_surface(name: Seq<char>) -> bool {
    exists|surface: Surface| #[trigger] surface.text() == name
}

/// Whether a text names a surface.
pub fn names_surface(name: &str) -> (yes: bool)
    ensures
        yes == is_surface(name@),
{
    let yes = text::same(name, "workspace") || text::same(name, "fullscreen") || text::same(
        name,
        "account-entry",
    ) || text::same(name, "account-menu");
    proof {
        assert(Surface::Workspace.text() == "workspace"@);
        assert(Surface::Fullscreen.text() == "fullscreen"@);
        assert(Surface::AccountEntry.text() == "account-entry"@);
        assert(Surface::AccountMenu.text() == "account-menu"@);
    }
    yes
}

/// A request of a front end to its component.
#[derive(Debug)]
pub struct Request {
    pub method: String,
    pub path: String,
    pub query: Option<String>,
    pub headers: Vec<Header>,
    pub body: Vec<u8>,
}

/// The answer of a component.
#[derive(Debug)]
pub struct Response {
    pub status: u16,
    pub headers: Vec<Header>,
    pub body: Vec<u8>,
}

/// Why a request does not reach the component.
#[derive(Clone, Copy, Debug, PartialEq, Eq, Structural)]
pub enum RequestFault {
    Method,
    Path,
    Limit,
    Header,
}

/// The methods that a component answers.
pub open spec fn allowed_method(method: Seq<char>) -> bool {
    ||| method == "GET"@
    ||| method == "POST"@
    ||| method == "PUT"@
    ||| method == "PATCH"@
    ||| method == "DELETE"@
    ||| method == "HEAD"@
}

/// A path from the root, short, of plain characters, without a segment that leads elsewhere.
pub open spec fn allowed_path(path: Seq<char>) -> bool {
    &&& "/"@.is_prefix_of(path)
    &&& text::byte_len(path) <= MAX_PATH_BYTES
    &&& frontend_routes::path_chars(path)
    &&& !text::split_on(path, '/').contains(".."@)
    &&& !text::split_on(path, '/').contains("."@)
}

/// A header that a front end may set: the types of contents, short and printable. None of them
/// says who is asking.
pub open spec fn allowed_header(header: Header) -> bool {
    &&& (text::lowered(header.name@) == "content-type"@ || text::lowered(header.name@)
        == "accept"@)
    &&& text::byte_len(header.value@) <= MAX_HEADER_BYTES
    &&& text::printable(header.value@)
}

/// Why a request does not reach the component.
pub open spec fn request_fault(request: Request) -> Option<RequestFault> {
    if !allowed_method(request.method@) {
        Some(RequestFault::Method)
    } else if !allowed_path(request.path@) {
        Some(RequestFault::Path)
    } else if request.body@.len() > MAX_BODY_BYTES || request.headers@.len() > MAX_HEADERS
        || !frontend_routes::plain_query(text::optional(request.query)) {
        Some(RequestFault::Limit)
    } else if exists|i: int|
        0 <= i < request.headers@.len() && !allowed_header(#[trigger] request.headers@[i]) {
        Some(RequestFault::Header)
    } else {
        None
    }
}

/// Whether a front end may set the header.
fn is_allowed_header(header: &Header) -> (yes: bool)
    ensures
        yes == allowed_header(*header),
{
    let name = text::to_ascii_lowercase(header.name.as_str());
    (text::same(name.as_str(), "content-type") || text::same(name.as_str(), "accept"))
        && header.value.as_str().as_bytes().len() <= MAX_HEADER_BYTES && text::is_printable(
        header.value.as_str(),
    )
}

impl Request {
    /// Hands a request on where nothing is wrong with it.
    pub fn accept(self) -> (outcome: Result<Request, RequestFault>)
        ensures
            match outcome {
                Ok(accepted) => accepted == self && request_fault(self) is None,
                Err(fault) => request_fault(self) == Some(fault),
            },
    {
        let method = self.method.as_str();
        if !(text::same(method, "GET") || text::same(method, "POST") || text::same(method, "PUT")
            || text::same(method, "PATCH") || text::same(method, "DELETE") || text::same(
            method,
            "HEAD",
        )) {
            return Err(RequestFault::Method);
        }
        let path = self.path.as_str();
        let segments = text::split(path, '/');
        if !(text::starts_with(path, "/") && path.as_bytes().len() <= MAX_PATH_BYTES
            && frontend_routes::is_path_text(path) && !text::holds(&segments, "..")
            && !text::holds(&segments, ".")) {
            return Err(RequestFault::Path);
        }
        if self.body.len() > MAX_BODY_BYTES || self.headers.len() > MAX_HEADERS
            || !frontend_routes::is_plain_query(&self.query) {
            return Err(RequestFault::Limit);
        }
        let mut i: usize = 0;
        while i < self.headers.len()
            invariant
                i <= self.headers@.len(),
                allowed_method(self.method@),
                allowed_path(self.path@),
                self.body@.len() <= MAX_BODY_BYTES,
                self.headers@.len() <= MAX_HEADERS,
                frontend_routes::plain_query(text::optional(self.query)),
                forall|k: int| 0 <= k < i ==> allowed_header(#[trigger] self.headers@[k]),
            decreases self.headers@.len() - i,
        {
            if !is_allowed_header(&self.headers[i]) {
                assert(!allowed_header(self.headers@[i as int]));
                return Err(RequestFault::Header);
            }
            i += 1;
        }
        Ok(self)
    }
}

impl RequestFault {
    /// The text shown for the fault.
    pub open spec fn text(&self) -> Seq<char> {
        match self {
            RequestFault::Method => "请求方法无效"@,
            RequestFault::Path => "请求路径无效"@,
            RequestFault::Limit => "请求超过限制"@,
            RequestFault::Header => "前端不能注入身份或宿主请求头"@,
        }
    }

    /// The text shown for the fault.
    pub fn message(&self) -> (message: String)
        ensures
            message@ == self.text(),
    {
        let message = match self {
            RequestFault::Method => "请求方法无效",
            RequestFault::Path => "请求路径无效",
            RequestFault::Limit => "请求超过限制",
            RequestFault::Header => "前端不能注入身份或宿主请求头",
        };
        message.to_owned()
    }
}

// Laws

/// A page appears in the workspace, over the whole window, as the account's entry or in its menu,
/// and nowhere else.
pub proof fn lemma_surfaces(name: Seq<char>)
    ensures
        is_surface(name) <==> name == "workspace"@ || name == "fullscreen"@
            || name == "account-entry"@ || name == "account-menu"@,
        Surface::Workspace.text() == "workspace"@,
        Surface::Fullscreen.text() == "fullscreen"@,
        Surface::AccountEntry.text() == "account-entry"@,
        Surface::AccountMenu.text() == "account-menu"@,
{
    assert(Surface::Workspace.text() == "workspace"@);
    assert(Surface::Fullscreen.text() == "fullscreen"@);
    assert(Surface::AccountEntry.text() == "account-entry"@);
    assert(Surface::AccountMenu.text() == "account-menu"@);
}

proof fn lemma_lower_case()
    ensures
        text::lowered("content-type"@) == "content-type"@,
        text::lowered("accept"@) == "accept"@,
{
    reveal_strlit("content-type");
    reveal_strlit("accept");
    assert(text::lowered("content-type"@) =~= "content-type"@);
    assert(text::lowered("accept"@) =~= "accept"@);
}

/// A request reaches its component only where its method, its path, its size and its headers are
/// plain: no segment leads elsewhere, and no header but the types of contents is handed on.
pub proof fn lemma_accepted_requests_are_plain(request: Request)
    requires
        request_fault(request) is None,
    ensures
        (request.method@ == "GET"@ || request.method@ == "POST"@ || request.method@ == "PUT"@
            || request.method@ == "PATCH"@ || request.method@ == "DELETE"@
            || request.method@ == "HEAD"@),
        request.path@.len() > 0 && request.path@[0] == '/'
            && text::byte_len(request.path@) <= 2048
            && (forall|i: int| 0 <= i < request.path@.len()
            ==> text::is_alphanumeric(#[trigger] request.path@[i]) || request.path@[i] == '/'
            || request.path@[i] == '_' || request.path@[i] == '-' || request.path@[i] == '.'
            || request.path@[i] == '~') && (forall|i: int| 0
            <= i < text::split_on(request.path@, '/').len()
            ==> (#[trigger] text::split_on(request.path@, '/')[i]) != "."@
            && text::split_on(request.path@, '/')[i] != ".."@),
        request.body@.len() <= 8388608 && request.headers@.len() <= 8 && (request.query is Some
            ==> text::byte_len(request.query->0@) <= 8192 && text::printable(request.query->0@)),
        (forall|i: int| 0 <= i < request.headers@.len()
            ==> (text::same_letters((#[trigger] request.headers@[i]).name@, "content-type"@)
            || text::same_letters(request.headers@[i].name@, "accept"@))
            && text::byte_len(request.headers@[i].value@) <= 256
            && text::printable(request.headers@[i].value@)),
{
    reveal_strlit("/");
    assert("/"@ =~= seq!['/']);
    let path = request.path@;
    let parts = text::split_on(path, '/');
    if path.len() > 0 && path[0] == '/' {
        assert("/"@ =~= path.subrange(0, 1));
        assert("/"@.is_prefix_of(path));
    }
    if "/"@.is_prefix_of(path) {
        assert(path[0] == "/"@[0]);
    }
    assert(forall|i: int| 0 <= i < parts.len() ==> parts.contains(#[trigger] parts[i]));
    text::lemma_letters("content-type"@, "accept"@);
    lemma_lower_case();
}

/// Every plain request reaches its component.
pub proof fn lemma_plain_requests_are_accepted(request: Request)
    requires
        (request.method@ == "GET"@ || request.method@ == "POST"@ || request.method@ == "PUT"@
            || request.method@ == "PATCH"@ || request.method@ == "DELETE"@
            || request.method@ == "HEAD"@),
        request.path@.len() > 0 && request.path@[0] == '/'
            && text::byte_len(request.path@) <= 2048
            && (forall|i: int| 0 <= i < request.path@.len()
            ==> text::is_alphanumeric(#[trigger] request.path@[i]) || request.path@[i] == '/'
            || request.path@[i] == '_' || request.path@[i] == '-' || request.path@[i] == '.'
            || request.path@[i] == '~') && (forall|i: int| 0
            <= i < text::split_on(request.path@, '/').len()
            ==> (#[trigger] text::split_on(request.path@, '/')[i]) != "."@
            && text::split_on(request.path@, '/')[i] != ".."@),
        request.body@.len() <= 8388608 && request.headers@.len() <= 8 && (request.query is Some
            ==> text::byte_len(request.query->0@) <= 8192 && text::printable(request.query->0@)),
        (forall|i: int| 0 <= i < request.headers@.len()
            ==> (text::same_letters((#[trigger] request.headers@[i]).name@, "content-type"@)
            || text::same_letters(request.headers@[i].name@, "accept"@))
            && text::byte_len(request.headers@[i].value@) <= 256
            && text::printable(request.headers@[i].value@)),
    ensures
        request_fault(request) is None,
{
    reveal_strlit("/");
    assert("/"@ =~= seq!['/']);
    let path = request.path@;
    let parts = text::split_on(path, '/');
    if path.len() > 0 && path[0] == '/' {
        assert("/"@ =~= path.subrange(0, 1));
        assert("/"@.is_prefix_of(path));
    }
    if "/"@.is_prefix_of(path) {
        assert(path[0] == "/"@[0]);
    }
    assert(forall|i: int| 0 <= i < parts.len() ==> parts.contains(#[trigger] parts[i]));
    text::lemma_letters("content-type"@, "accept"@);
    lemma_lower_case();
}

/// What is told is the first thing that is wrong: the method, then the path, then a limit, then a
/// header.
pub proof fn lemma_first_fault_is_told(request: Request)
    ensures
        !(request.method@ == "GET"@ || request.method@ == "POST"@ || request.method@ == "PUT"@
            || request.method@ == "PATCH"@ || request.method@ == "DELETE"@
            || request.method@ == "HEAD"@) ==> request_fault(request) == Some(RequestFault::Method),
        (request.method@ == "GET"@ || request.method@ == "POST"@ || request.method@ == "PUT"@
            || request.method@ == "PATCH"@ || request.method@ == "DELETE"@
            || request.method@ == "HEAD"@) && !(request.path@.len() > 0
            && request.path@[0] == '/' && text::byte_len(request.path@) <= 2048
            && (forall|i: int| 0 <= i < request.path@.len()
            ==> text::is_alphanumeric(#[trigger] request.path@[i]) || request.path@[i] == '/'
            || request.path@[i] == '_' || request.path@[i] == '-' || request.path@[i] == '.'
            || request.path@[i] == '~') && (forall|i: int| 0
            <= i < text::split_on(request.path@, '/').len()
            ==> (#[trigger] text::split_on(request.path@, '/')[i]) != "."@
            && text::split_on(request.path@, '/')[i] != ".."@))
            ==> request_fault(request) == Some(RequestFault::Path),
        (request.method@ == "GET"@ || request.method@ == "POST"@ || request.method@ == "PUT"@
            || request.method@ == "PATCH"@ || request.method@ == "DELETE"@
            || request.method@ == "HEAD"@) && request.path@.len() > 0 && request.path@[0] == '/'
            && text::byte_len(request.path@) <= 2048
            && (forall|i: int| 0 <= i < request.path@.len()
            ==> text::is_alphanumeric(#[trigger] request.path@[i]) || request.path@[i] == '/'
            || request.path@[i] == '_' || request.path@[i] == '-' || request.path@[i] == '.'
            || request.path@[i] == '~') && (forall|i: int| 0
            <= i < text::split_on(request.path@, '/').len()
            ==> (#[trigger] text::split_on(request.path@, '/')[i]) != "."@
            && text::split_on(request.path@, '/')[i] != ".."@)
            && !(request.body@.len() <= 8388608 && request.headers@.len() <= 8
            && (request.query is Some ==> text::byte_len(request.query->0@) <= 8192
            && text::printable(request.query->0@)))
            ==> request_fault(request) == Some(RequestFault::Limit),
        (request.method@ == "GET"@ || request.method@ == "POST"@ || request.method@ == "PUT"@
            || request.method@ == "PATCH"@ || request.method@ == "DELETE"@
            || request.method@ == "HEAD"@) && request.path@.len() > 0 && request.path@[0] == '/'
            && text::byte_len(request.path@) <= 2048
            && (forall|i: int| 0 <= i < request.path@.len()
            ==> text::is_alphanumeric(#[trigger] request.path@[i]) || request.path@[i] == '/'
            || request.path@[i] == '_' || request.path@[i] == '-' || request.path@[i] == '.'
            || request.path@[i] == '~') && (forall|i: int| 0
            <= i < text::split_on(request.path@, '/').len()
            ==> (#[trigger] text::split_on(request.path@, '/')[i]) != "."@
            && text::split_on(request.path@, '/')[i] != ".."@) && request.body@.len() <= 8388608
            && request.headers@.len() <= 8 && (request.query is Some
            ==> text::byte_len(request.query->0@) <= 8192 && text::printable(request.query->0@))
            && !(forall|i: int| 0 <= i < request.headers@.len()
            ==> (text::same_letters((#[trigger] request.headers@[i]).name@, "content-type"@)
            || text::same_letters(request.headers@[i].name@, "accept"@))
            && text::byte_len(request.headers@[i].value@) <= 256
            && text::printable(request.headers@[i].value@))
            ==> request_fault(request) == Some(RequestFault::Header),
{
    reveal_strlit("/");
    assert("/"@ =~= seq!['/']);
    let path = request.path@;
    let parts = text::split_on(path, '/');
    if path.len() > 0 && path[0] == '/' {
        assert("/"@ =~= path.subrange(0, 1));
        assert("/"@.is_prefix_of(path));
    }
    if "/"@.is_prefix_of(path) {
        assert(path[0] == "/"@[0]);
    }
    assert(forall|i: int| 0 <= i < parts.len() ==> parts.contains(#[trigger] parts[i]));
    text::lemma_letters("content-type"@, "accept"@);
    lemma_lower_case();
    if !parts.contains("."@) && !parts.contains(".."@) {
        assert(forall|i: int|
            0 <= i < parts.len() ==> (#[trigger] parts[i]) != "."@ && parts[i] != ".."@);
    }
}

/// Each of these is told in its own words.
pub proof fn lemma_told_request_fault(fault: RequestFault)
    ensures
        fault is Method ==> fault.text() == "请求方法无效"@,
        fault is Path ==> fault.text() == "请求路径无效"@,
        fault is Limit ==> fault.text() == "请求超过限制"@,
        fault is Header ==> fault.text() == "前端不能注入身份或宿主请求头"@,
{
}

} // verus!
