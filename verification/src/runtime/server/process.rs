//! The boundary to plugins that run as processes: where they may listen, which addresses are
//! requested of them and how much they may answer.
use vstd::prelude::*;

use crate::outside;
use crate::outside::UrlView;
use crate::runtime::model;
use crate::runtime::model::Header;
use crate::steps;
use crate::text;

verus! {

pub const MAX_PROCESS_RESPONSE_BYTES: u64 = 4194304;

/// How many characters of a failed answer are kept.
pub const MAX_FAILURE_CHARS: usize = 4096;

/// The port on which every process listens.
pub const PROCESS_PORT: u16 = 8080;

/// A running process, as its supervisor reports it.
#[derive(Debug)]
pub struct ProcessInstance {
    pub instance_id: String,
    pub endpoint: String,
    /// Whether it was started for this request, and did not run before.
    pub created: bool,
}

/// What a process answered.
#[derive(Debug)]
pub struct ProcessResponse {
    pub status: u16,
    pub content_type: Option<String>,
    pub body: Vec<u8>,
}

/// Why an endpoint is refused.
#[derive(Clone, Debug, PartialEq, Eq)]
pub enum EndpointFault<T> {
    Unparsable(T),
    OutOfBounds,
    HostMissing,
    NotAnAddress,
    NotPrivate,
}

impl View for EndpointFault<String> {
    type V = EndpointFault<Seq<char>>;

    open spec fn view(&self) -> EndpointFault<Seq<char>> {
        match self {
            EndpointFault::Unparsable(told) => EndpointFault::Unparsable(told@),
            EndpointFault::OutOfBounds => EndpointFault::OutOfBounds,
            EndpointFault::HostMissing => EndpointFault::HostMissing,
            EndpointFault::NotAnAddress => EndpointFault::NotAnAddress,
            EndpointFault::NotPrivate => EndpointFault::NotPrivate,
        }
    }
}

/// Why an address of a process cannot be requested.
#[derive(Clone, Debug, PartialEq, Eq)]
pub enum ProcessUrlFault {
    Endpoint(EndpointFault<String>),
    InvalidPath,
}

/// What the supervisor was asked for.
#[derive(Clone, Copy, Debug, PartialEq, Eq, Structural)]
pub enum SupervisorRequest {
    Start,
    Stop,
    Reconcile,
}

// Addresses

/// The dotted notation of an IPv4 address.
pub open spec fn dotted(a: u8, b: u8, c: u8, d: u8) -> Seq<char> {
    text::joined(
        seq![
            text::decimal(a as nat),
            text::decimal(b as nat),
            text::decimal(c as nat),
            text::decimal(d as nat),
        ],
        seq!['.'],
    )
}

/// Whether a text is the dotted notation of the address with the given octets.
pub open spec fn denotes(host: Seq<char>, octets: (u8, u8, u8, u8)) -> bool {
    host == dotted(octets.0, octets.1, octets.2, octets.3)
}

/// Whether a text is the dotted notation of an address.
pub open spec fn is_address(host: Seq<char>) -> bool {
    exists|octets: (u8, u8, u8, u8)| denotes(host, octets)
}

/// The addresses set aside for private networks.
pub open spec fn private_octets(octets: (u8, u8, u8, u8)) -> bool {
    ||| octets.0 == 10
    ||| octets.0 == 172 && 16 <= octets.1 <= 31
    ||| octets.0 == 192 && octets.1 == 168
}

/// Whether a text is the dotted notation of a private address.
pub open spec fn is_private_address(host: Seq<char>) -> bool {
    exists|octets: (u8, u8, u8, u8)| denotes(host, octets) && private_octets(octets)
}

/// Whether a text is the dotted notation of an address of the machine itself.
pub open spec fn is_loopback_address(host: Seq<char>) -> bool {
    exists|octets: (u8, u8, u8, u8)| denotes(host, octets) && octets.0 == 127
}

proof fn lemma_decimal_digits(value: nat)
    ensures
        decimal_free_of_dots(value),
    decreases value,
{
    let shown = text::decimal(value);
    if value >= 10 {
        lemma_decimal_digits(value / 10);
        assert forall|i: int| 0 <= i < shown.len() implies #[trigger] shown[i] != '.' by {
            if i < shown.len() - 1 {
                assert(shown[i] == text::decimal(value / 10)[i]);
            } else {
                assert(shown[i] == text::digit(value % 10));
            }
        }
    } else {
        assert(shown[0] == text::digit(value));
    }
}

spec fn decimal_free_of_dots(value: nat) -> bool {
    forall|i: int| 0 <= i < text::decimal(value).len() ==> #[trigger] text::decimal(value)[i] != '.'
}

/// A text splits at the separator into its parts, where they are free of it.
proof fn lemma_split_snoc(front: Seq<char>, separator: char, part: Seq<char>)
    requires
        !part.contains(separator),
    ensures
        text::split_on(front + seq![separator] + part, separator) == text::split_on(
            front,
            separator,
        ).push(part),
    decreases part.len(),
{
    let whole = front + seq![separator] + part;
    if part.len() == 0 {
        assert(whole.drop_last() =~= front);
        assert(part =~= Seq::<char>::empty());
    } else {
        let shorter = part.drop_last();
        assert(whole.drop_last() =~= front + seq![separator] + shorter);
        assert forall|i: int| 0 <= i < shorter.len() implies shorter[i] != separator by {
            assert(part.contains(part[i]));
        }
        lemma_split_snoc(front, separator, shorter);
        assert(part.contains(part.last()));
        assert(shorter.push(part.last()) =~= part);
        let parts = text::split_on(front, separator).push(shorter);
        assert(parts.drop_last() =~= text::split_on(front, separator));
    }
}

proof fn lemma_dotted_splits(a: u8, b: u8, c: u8, d: u8)
    ensures
        text::split_on(dotted(a, b, c, d), '.') == seq![
            text::decimal(a as nat),
            text::decimal(b as nat),
            text::decimal(c as nat),
            text::decimal(d as nat),
        ],
{
    let ta = text::decimal(a as nat);
    let tb = text::decimal(b as nat);
    let tc = text::decimal(c as nat);
    let td = text::decimal(d as nat);
    lemma_decimal_digits(a as nat);
    lemma_decimal_digits(b as nat);
    lemma_decimal_digits(c as nat);
    lemma_decimal_digits(d as nat);
    let dot = seq!['.'];
    reveal_with_fuel(text::joined, 5);
    let all = seq![ta, tb, tc, td];
    assert(all.drop_last() =~= seq![ta, tb, tc]);
    assert(seq![ta, tb, tc].drop_last() =~= seq![ta, tb]);
    assert(seq![ta, tb].drop_last() =~= seq![ta]);
    assert(dotted(a, b, c, d) == ta + dot + tb + dot + tc + dot + td);
    text::lemma_split_whole(ta, '.');
    lemma_split_snoc(ta, '.', tb);
    lemma_split_snoc(ta + dot + tb, '.', tc);
    lemma_split_snoc(ta + dot + tb + dot + tc, '.', td);
    assert(text::split_on(dotted(a, b, c, d), '.') =~= all);
}

/// Reads an IPv4 address in dotted notation.
pub fn parse_address(host: &str) -> (octets: Option<(u8, u8, u8, u8)>)
    ensures
        match octets {
            Some(octets) => denotes(host@, octets),
            None => !is_address(host@),
        },
        octets matches Some(octets) ==> forall|other: (u8, u8, u8, u8)| #[trigger]
            denotes(host@, other) ==> other == octets,
{
    let parts = text::split(host, '.');
    let ghost rows = text::split_on(host@, '.');
    proof {
        text::lemma_split_parts(host@, '.');
        assert forall|other: (u8, u8, u8, u8)| #[trigger] denotes(host@, other) implies rows
            == seq![
            text::decimal(other.0 as nat),
            text::decimal(other.1 as nat),
            text::decimal(other.2 as nat),
            text::decimal(other.3 as nat),
        ] by {
            lemma_dotted_splits(other.0, other.1, other.2, other.3);
        }
    }
    if parts.len() != 4 {
        return None;
    }
    assert(rows =~= seq![parts@[0]@, parts@[1]@, parts@[2]@, parts@[3]@]);
    let a = text::octet(parts[0].as_str());
    let b = text::octet(parts[1].as_str());
    let c = text::octet(parts[2].as_str());
    let d = text::octet(parts[3].as_str());
    match (a, b, c, d) {
        (Some(a), Some(b), Some(c), Some(d)) => {
            proof {
                assert(denotes(host@, (a, b, c, d)));
                assert forall|other: (u8, u8, u8, u8)| #[trigger]
                    denotes(host@, other) implies other == (a, b, c, d) by {
                    assert(rows[0] == text::decimal(other.0 as nat));
                    assert(rows[1] == text::decimal(other.1 as nat));
                    assert(rows[2] == text::decimal(other.2 as nat));
                    assert(rows[3] == text::decimal(other.3 as nat));
                    text::lemma_decimal_injective(a as nat, other.0 as nat);
                    text::lemma_decimal_injective(b as nat, other.1 as nat);
                    text::lemma_decimal_injective(c as nat, other.2 as nat);
                    text::lemma_decimal_injective(d as nat, other.3 as nat);
                }
            }
            Some((a, b, c, d))
        },
        _ => {
            proof {
                if is_address(host@) {
                    let other = choose|other: (u8, u8, u8, u8)| denotes(host@, other);
                    assert(rows[0] == text::decimal(other.0 as nat));
                    assert(rows[1] == text::decimal(other.1 as nat));
                    assert(rows[2] == text::decimal(other.2 as nat));
                    assert(rows[3] == text::decimal(other.3 as nat));
                }
            }
            None
        },
    }
}

// Endpoints

/// A plain HTTP address of nothing but a host and the fixed port.
pub open spec fn bare_endpoint(url: UrlView) -> bool {
    &&& url.scheme == "http"@
    &&& url.username.len() == 0
    &&& url.password is None
    &&& url.path == "/"@
    &&& url.query is None
    &&& url.fragment is None
    &&& url.port == Some(PROCESS_PORT)
}

/// Why an endpoint is refused. The host of a bare endpoint must be a private IPv4 address; an
/// IPv6 address is never one, since a URL's host holds it in brackets.
pub open spec fn endpoint_fault(url: Result<UrlView, Seq<char>>) -> Option<
    EndpointFault<Seq<char>>,
> {
    match url {
        Err(told) => Some(EndpointFault::Unparsable(told)),
        Ok(url) => if !bare_endpoint(url) {
            Some(EndpointFault::OutOfBounds)
        } else if url.host is None {
            Some(EndpointFault::HostMissing)
        } else if !is_address(url.host->0) {
            Some(EndpointFault::NotAnAddress)
        } else if !is_private_address(url.host->0) {
            Some(EndpointFault::NotPrivate)
        } else {
            None
        },
    }
}

/// Checks the parts of an endpoint.
pub fn check_endpoint(url: Result<outside::UrlParts, String>) -> (outcome: Result<
    (),
    EndpointFault<String>,
>)
    ensures
        ({
            let fault = endpoint_fault(
                match url {
                    Ok(url) => Ok(url@),
                    Err(told) => Err(told@),
                },
            );
            match outcome {
                Ok(()) => fault is None,
                Err(found) => fault == Some(found@),
            }
        }),
{
    let url = match url {
        Ok(url) => url,
        Err(told) => return Err(EndpointFault::Unparsable(told)),
    };
    let fixed_port = match url.port {
        Some(port) => port == PROCESS_PORT,
        None => false,
    };
    if !(text::same(url.scheme.as_str(), "http") && url.username.as_str().is_empty()
        && url.password.is_none() && text::same(url.path.as_str(), "/") && url.query.is_none()
        && url.fragment.is_none() && fixed_port) {
        return Err(EndpointFault::OutOfBounds);
    }
    let host = match &url.host {
        Some(host) => host,
        None => return Err(EndpointFault::HostMissing),
    };
    match parse_address(host.as_str()) {
        None => Err(EndpointFault::NotAnAddress),
        Some((a, b, c, d)) => {
            if a == 10 || (a == 172 && 16 <= b && b <= 31) || (a == 192 && b == 168) {
                assert(denotes(host@, (a, b, c, d)) && private_octets((a, b, c, d)));
                Ok(())
            } else {
                Err(EndpointFault::NotPrivate)
            }
        },
    }
}

/// Checks that an endpoint stays inside the private network and on the fixed port.
pub fn validate_endpoint(endpoint: &str) -> (outcome: Result<(), EndpointFault<String>>)
    ensures
        match outcome {
            Ok(()) => endpoint_fault(outside::url_parts(endpoint@)) is None,
            Err(fault) => endpoint_fault(outside::url_parts(endpoint@)) == Some(fault@),
        },
{
    check_endpoint(outside::parse_url(endpoint))
}

/// A path that stays on the process: it begins with one slash, not two.
pub open spec fn own_path(path: Seq<char>) -> bool {
    "/"@.is_prefix_of(path) && !"//"@.is_prefix_of(path)
}

/// The address of a path and query on an endpoint.
pub fn process_url(endpoint: &str, path: &str, query: Option<&str>) -> (outcome: Result<
    String,
    ProcessUrlFault,
>)
    requires
        text::byte_len(endpoint@) <= outside::MAX_URL_BYTES,
        text::byte_len(path@) <= outside::MAX_URL_BYTES,
    ensures
        ({
            let fault = endpoint_fault(outside::url_parts(endpoint@));
            match outcome {
                Ok(url) => {
                    &&& fault is None
                    &&& own_path(path@)
                    &&& outside::url_redirected(endpoint@, path@, text::optional_str(query))
                        == Some(
                        url@,
                    )
                },
                Err(ProcessUrlFault::Endpoint(found)) => fault == Some(found@),
                Err(ProcessUrlFault::InvalidPath) => fault is None && !own_path(path@),
            }
        }),
{
    match validate_endpoint(endpoint) {
        Ok(()) => {},
        Err(fault) => return Err(ProcessUrlFault::Endpoint(fault)),
    }
    if !text::starts_with(path, "/") || text::starts_with(path, "//") {
        return Err(ProcessUrlFault::InvalidPath);
    }
    match outside::redirect_url(endpoint, path, query) {
        Ok(url) => Ok(url),
        Err(told) => Err(ProcessUrlFault::Endpoint(EndpointFault::Unparsable(told))),
    }
}

/// Accepts the instance that the supervisor reports where its endpoint is in bounds.
pub fn accept_instance(instance: ProcessInstance) -> (outcome: Result<
    ProcessInstance,
    EndpointFault<String>,
>)
    ensures
        match outcome {
            Ok(accepted) => accepted == instance && endpoint_fault(
                outside::url_parts(instance.endpoint@),
            ) is None,
            Err(fault) => endpoint_fault(outside::url_parts(instance.endpoint@)) == Some(fault@),
        },
{
    match validate_endpoint(instance.endpoint.as_str()) {
        Ok(()) => Ok(instance),
        Err(fault) => Err(fault),
    }
}

impl EndpointFault<Seq<char>> {
    /// The text shown for the fault.
    pub open spec fn text(&self) -> Seq<char> {
        match self {
            EndpointFault::Unparsable(told) => steps::explained("process 插件 endpoint 无效"@, *told),
            EndpointFault::OutOfBounds => "process 插件 endpoint 不符合内部代理边界"@,
            EndpointFault::HostMissing => "process 插件 endpoint 缺少 IP"@,
            EndpointFault::NotAnAddress => "process 插件 endpoint 必须是 IP: invalid IP address syntax"@,
            EndpointFault::NotPrivate => "process 插件 endpoint 必须是私有网络 IP"@,
        }
    }
}

impl EndpointFault<String> {
    /// The text shown for the fault.
    pub fn message(&self) -> (message: String)
        ensures
            message@ == self@.text(),
    {
        let message = match self {
            EndpointFault::Unparsable(told) => {
                return steps::explain("process 插件 endpoint 无效", told.as_str());
            },
            EndpointFault::OutOfBounds => "process 插件 endpoint 不符合内部代理边界",
            EndpointFault::HostMissing => "process 插件 endpoint 缺少 IP",
            EndpointFault::NotAnAddress => "process 插件 endpoint 必须是 IP: invalid IP address syntax",
            EndpointFault::NotPrivate => "process 插件 endpoint 必须是私有网络 IP",
        };
        message.to_owned()
    }
}

impl ProcessUrlFault {
    /// The text shown for the fault.
    pub open spec fn text(&self) -> Seq<char> {
        match self {
            ProcessUrlFault::Endpoint(fault) => fault@.text(),
            ProcessUrlFault::InvalidPath => "process 插件代理路径无效"@,
        }
    }

    /// The text shown for the fault.
    pub fn message(&self) -> (message: String)
        ensures
            message@ == self.text(),
    {
        match self {
            ProcessUrlFault::Endpoint(fault) => fault.message(),
            ProcessUrlFault::InvalidPath => "process 插件代理路径无效".to_owned(),
        }
    }
}

// Answers

/// Whether an outcome says that an announced length is within the quota.
pub open spec fn within_size(content_length: Option<u64>, outcome: Result<(), String>) -> bool {
    &&& outcome is Err <==> content_length is Some && content_length->0
            > MAX_PROCESS_RESPONSE_BYTES
    &&& outcome matches Err(told) ==> told@ == "process 插件响应超过 4 MiB 配额"@
}

/// Requires that an answer's announced length is within the quota; one that announces none is read.
pub fn ensure_response_size(content_length: Option<u64>) -> (outcome: Result<(), String>)
    ensures
        within_size(content_length, outcome),
{
    match content_length {
        Some(length) => {
            if length > MAX_PROCESS_RESPONSE_BYTES {
                return Err("process 插件响应超过 4 MiB 配额".to_owned());
            }
            Ok(())
        },
        None => Ok(()),
    }
}

/// Whether an outcome hands an answer on.
pub open spec fn handed_on(response: ProcessResponse, outcome: Result<ProcessResponse,
    String>) -> bool {
    match outcome {
        Ok(accepted) => accepted == response && response.body@.len()
            <= MAX_PROCESS_RESPONSE_BYTES,
        Err(told) => response.body@.len() > MAX_PROCESS_RESPONSE_BYTES && told@
            == "process 插件响应超过 4 MiB 配额"@,
    }
}

/// Hands an answer on where its body is within the quota.
pub fn accept_response(response: ProcessResponse) -> (outcome: Result<ProcessResponse, String>)
    ensures
        handed_on(response, outcome),
{
    if response.body.len() as u64 <= MAX_PROCESS_RESPONSE_BYTES {
        Ok(response)
    } else {
        Err("process 插件响应超过 4 MiB 配额".to_owned())
    }
}

/// Requires that the supervisor said it was ready.
pub fn health(success: bool) -> (outcome: Result<(), String>)
    ensures
        outcome is Ok <==> success,
        outcome matches Err(told) ==> told@ == "process 插件监督器未就绪"@,
{
    if success {
        Ok(())
    } else {
        Err("process 插件监督器未就绪".to_owned())
    }
}

/// Whether an outcome says that a process told its pages.
pub open spec fn pages_told(success: bool, content_length: Option<u64>, outcome: Result<(),
    String>) -> bool {
    &&& outcome is Ok <==> success && !(content_length is Some && content_length->0
            > MAX_PROCESS_RESPONSE_BYTES)
    &&& outcome matches Err(told) ==> told@ == if success {
            "process 插件响应超过 4 MiB 配额"@
        } else {
            "process 插件页面定义返回失败状态"@
        }
}

/// Requires that a process told its pages, within the quota.
pub fn load_pages(success: bool, content_length: Option<u64>) -> (outcome: Result<(), String>)
    ensures
        pages_told(success, content_length, outcome),
{
    if !success {
        return Err("process 插件页面定义返回失败状态".to_owned());
    }
    ensure_response_size(content_length)
}

/// The headers of a request to a process: for whom it is made, and the type of its content.
pub open spec fn request_headers(
    tenant: Seq<char>,
    user: Seq<char>,
    content_type: Option<Seq<char>>,
) -> Seq<(Seq<char>, Seq<char>)> {
    let identity = seq![("x-aio-tenant-id"@, tenant), ("x-aio-user-id"@, user)];
    match content_type {
        Some(content_type) => identity.push(("content-type"@, content_type)),
        None => identity,
    }
}

/// The headers of a request to a process.
pub fn request(tenant: &str, user: &str, content_type: Option<&str>) -> (headers: Vec<Header>)
    ensures
        model::header_texts(headers@) == request_headers(
            tenant@,
            user@,
            text::optional_str(content_type),
        ),
{
    let mut headers: Vec<Header> = Vec::new();
    headers.push(model::header("x-aio-tenant-id", tenant));
    headers.push(model::header("x-aio-user-id", user));
    match content_type {
        Some(content_type) => headers.push(model::header("content-type", content_type)),
        None => {},
    }
    assert(model::header_texts(headers@) =~= request_headers(
        tenant@,
        user@,
        text::optional_str(content_type),
    ));
    headers
}

/// The first `count` characters of a text, or all of them where there are fewer.
pub open spec fn leading(whole: Seq<char>, count: int) -> Seq<char> {
    if whole.len() <= count {
        whole
    } else {
        whole.take(count)
    }
}

/// The first `count` characters of `whole`.
pub fn take_chars(whole: &str, count: usize) -> (part: String)
    ensures
        part@ == leading(whole@, count as int),
{
    let chars = text::chars_of(whole);
    let end: usize = if chars.len() <= count {
        chars.len()
    } else {
        count
    };
    let part = text::text_of(&chars, 0, end);
    assert(part@ =~= leading(whole@, count as int));
    part
}

/// What is told of a failed answer: its status and the start of its body.
pub fn response_text(status: &str, body: &str) -> (told: String)
    ensures
        told@ == "HTTP "@ + status@ + ": "@ + leading(body@, MAX_FAILURE_CHARS as int),
{
    let start = take_chars(body, MAX_FAILURE_CHARS);
    "HTTP ".to_owned().concat(status).concat(": ").concat(start.as_str())
}

impl SupervisorRequest {
    /// What is told of a request that the supervisor refused.
    pub open spec fn failure_label(&self) -> Seq<char> {
        match self {
            SupervisorRequest::Start => "启动 process 插件失败: "@,
            SupervisorRequest::Stop => "停止 process 插件失败: "@,
            SupervisorRequest::Reconcile => "清理孤立 process 插件失败: "@,
        }
    }

    /// The outcome of a request, from the supervisor's answer.
    pub fn outcome(&self, success: bool, status: &str, body: &str) -> (outcome: Result<(), String>)
        ensures
            outcome is Ok <==> success,
            outcome matches Err(told) ==> told@ == self.failure_label() + ("HTTP "@ + status@
                + ": "@ + leading(body@, MAX_FAILURE_CHARS as int)),
    {
        if success {
            return Ok(());
        }
        let label = match self {
            SupervisorRequest::Start => "启动 process 插件失败: ",
            SupervisorRequest::Stop => "停止 process 插件失败: ",
            SupervisorRequest::Reconcile => "清理孤立 process 插件失败: ",
        };
        let told = response_text(status, body);
        Err(label.to_owned().concat(told.as_str()))
    }
}

// Laws

/// A process is reached over plain HTTP, on the one port, at a private address that is written as
/// four octets, and at nothing else of a URL. What is told is the first thing that is wrong.
pub proof fn lemma_accepted_endpoints(url: UrlView, a: u8, b: u8, c: u8, d: u8)
    ensures
        ({
            let bare = url.scheme == "http"@ && url.username.len() == 0 && url.password is None
                && url.path == "/"@ && url.query is None && url.fragment is None
                && url.port == Some(8080u16);
            let at = url.host is Some && url.host->0 == dotted(a, b, c, d);
            let private = a == 10 || (a == 172 && 16 <= b <= 31) || (a == 192 && b == 168);
            &&& !bare ==> endpoint_fault(Ok(url)) == Some(EndpointFault::<Seq<char>>::OutOfBounds)
            &&& bare && url.host is None ==> endpoint_fault(Ok(url))
                == Some(EndpointFault::<Seq<char>>::HostMissing)
            &&& bare && at && private ==> endpoint_fault(Ok(url)) is None
            &&& bare && at && !private ==> endpoint_fault(Ok(url))
                == Some(EndpointFault::<Seq<char>>::NotPrivate)
        }),
{
    if url.host is Some && url.host->0 == dotted(a, b, c, d) {
        let host = url.host->0;
        let octets = (a, b, c, d);
        assert(denotes(host, octets));
        if private_octets(octets) {
            assert(denotes(host, octets) && private_octets(octets));
            assert(is_private_address(host));
        }
        if is_private_address(host) {
            let o = choose|o: (u8, u8, u8, u8)| denotes(host, o) && private_octets(o);
            lemma_dotted_splits(a, b, c, d);
            lemma_dotted_splits(o.0, o.1, o.2, o.3);
            let rows = text::split_on(host, '.');
            assert(rows[0] == text::decimal(a as nat) && rows[0] == text::decimal(o.0 as nat));
            assert(rows[1] == text::decimal(b as nat) && rows[1] == text::decimal(o.1 as nat));
            text::lemma_decimal_injective(a as nat, o.0 as nat);
            text::lemma_decimal_injective(b as nat, o.1 as nat);
        }
    }
}

/// A host that is no address in dotted notation, such as a name, is refused; so is what cannot be
/// parsed.
pub proof fn lemma_names_are_no_endpoints(url: UrlView, told: Seq<char>)
    requires
        url.scheme == "http"@,
        url.username.len() == 0,
        url.password is None,
        url.path == "/"@,
        url.query is None,
        url.fragment is None,
        url.port == Some(8080u16),
        url.host is Some,
        forall|a: u8, b: u8, c: u8, d: u8| url.host->0 != #[trigger] dotted(a, b, c, d),
    ensures
        endpoint_fault(Ok(url)) == Some(EndpointFault::<Seq<char>>::NotAnAddress),
        endpoint_fault(Err(told)) == Some(EndpointFault::Unparsable(told)),
{
    if is_address(url.host->0) {
        let o = choose|o: (u8, u8, u8, u8)| denotes(url.host->0, o);
        assert(url.host->0 == dotted(o.0, o.1, o.2, o.3));
    }
}

/// An address is written as its four octets in decimal notation, with a dot between each two.
pub proof fn lemma_dotted_notation(a: u8, b: u8, c: u8, d: u8)
    ensures
        dotted(a, b, c, d) == text::decimal(a as nat) + seq!['.'] + text::decimal(b as nat)
            + seq!['.'] + text::decimal(c as nat) + seq!['.'] + text::decimal(d as nat),
{
    let ta = text::decimal(a as nat);
    let tb = text::decimal(b as nat);
    let tc = text::decimal(c as nat);
    let td = text::decimal(d as nat);
    reveal_with_fuel(text::joined, 5);
    let all = seq![ta, tb, tc, td];
    assert(all.drop_last() =~= seq![ta, tb, tc]);
    assert(seq![ta, tb, tc].drop_last() =~= seq![ta, tb]);
    assert(seq![ta, tb].drop_last() =~= seq![ta]);
}

/// A path stays on the process where it begins with one slash; two would name another host.
pub proof fn lemma_own_paths(path: Seq<char>)
    ensures
        own_path(path) <==> path.len() > 0 && path[0] == '/' && (path.len() == 1 || path[1] != '/'),
{
    reveal_strlit("/");
    reveal_strlit("//");
    if path.len() > 0 && path[0] == '/' {
        assert("/"@ =~= path.subrange(0, 1));
        if path.len() > 1 && path[1] == '/' {
            assert("//"@ =~= path.subrange(0, 2));
        }
    }
    if "/"@.is_prefix_of(path) {
        assert(path[0] == "/"@[0]);
    }
    if "//"@.is_prefix_of(path) {
        assert(path[1] == "//"@[1]);
    }
}

/// A process is told for which tenant and which user a request is made, in this order, and the type
/// of the content where there is one.
pub proof fn lemma_whom_a_request_is_for(tenant: Seq<char>, user: Seq<char>,
    content_type: Seq<char>)
    ensures
        request_headers(tenant, user, None)
            == seq![("x-aio-tenant-id"@, tenant), ("x-aio-user-id"@, user)],
        request_headers(tenant, user, Some(content_type))
            == seq![("x-aio-tenant-id"@, tenant), ("x-aio-user-id"@, user), ("content-type"@,
            content_type)],
{
    assert(request_headers(tenant, user, Some(content_type)) =~= seq![
        ("x-aio-tenant-id"@, tenant),
        ("x-aio-user-id"@, user),
        ("content-type"@, content_type),
    ]);
}

/// Of a failed answer the start is kept: as many characters as asked for, or all.
pub proof fn lemma_leading(whole: Seq<char>, count: nat)
    ensures
        leading(whole, count as int).len() == if whole.len()
            <= count { whole.len() } else { count },
        forall|i: int| 0 <= i < leading(whole, count as int).len()
            ==> #[trigger] leading(whole, count as int)[i] == whole[i],
        MAX_FAILURE_CHARS == 4096,
        MAX_PROCESS_RESPONSE_BYTES == 4 * 1024 * 1024,
{
}

/// What failed is named: starting, stopping or clearing up.
pub proof fn lemma_failed_requests_are_named(request: SupervisorRequest)
    ensures
        request is Start ==> request.failure_label() == "启动 process 插件失败: "@,
        request is Stop ==> request.failure_label() == "停止 process 插件失败: "@,
        request is Reconcile ==> request.failure_label() == "清理孤立 process 插件失败: "@,
{
}

/// Each of these is told in its own words.
pub proof fn lemma_told_endpoint_fault(fault: EndpointFault<Seq<char>>)
    ensures
        fault is Unparsable ==> fault.text() == "process 插件 endpoint 无效"@ + ": "@
            + fault->Unparsable_0,
        fault is OutOfBounds ==> fault.text() == "process 插件 endpoint 不符合内部代理边界"@,
        fault is HostMissing ==> fault.text() == "process 插件 endpoint 缺少 IP"@,
        fault is NotAnAddress ==> fault.text()
            == "process 插件 endpoint 必须是 IP: invalid IP address syntax"@,
        fault is NotPrivate ==> fault.text() == "process 插件 endpoint 必须是私有网络 IP"@,
{
}

/// Each of these is told in its own words.
pub proof fn lemma_told_process_url_fault(fault: ProcessUrlFault)
    ensures
        fault is InvalidPath ==> fault.text() == "process 插件代理路径无效"@,
{
}

/// An answer may announce four mebibytes, or nothing.
pub proof fn lemma_announced_lengths(content_length: Option<u64>, outcome: Result<(), String>)
    requires
        within_size(content_length, outcome),
    ensures
        content_length is None ==> outcome is Ok,
        content_length is Some && content_length->0 <= 4194304 ==> outcome is Ok,
        content_length is Some && content_length->0 > 4194304 ==> outcome is Err,
{
}

/// An answer of at most four mebibytes is handed on unchanged, and a larger one is not.
pub proof fn lemma_answers_within_the_quota(response: ProcessResponse,
    outcome: Result<ProcessResponse, String>)
    requires
        handed_on(response, outcome),
    ensures
        response.body@.len() <= 4194304 ==> outcome is Ok && outcome->Ok_0 == response,
        response.body@.len() > 4194304 ==> outcome is Err
            && outcome->Err_0@ == "process 插件响应超过 4 MiB 配额"@,
{
}

/// A process tells its pages with a success, within the quota.
pub proof fn lemma_pages_of_a_process(success: bool, content_length: Option<u64>,
    outcome: Result<(), String>)
    requires
        pages_told(success, content_length, outcome),
    ensures
        !success ==> outcome is Err && outcome->Err_0@ == "process 插件页面定义返回失败状态"@,
        success && (content_length is None || content_length->0 <= 4194304) ==> outcome is Ok,
        success && content_length is Some && content_length->0 > 4194304
            ==> outcome is Err && outcome->Err_0@ == "process 插件响应超过 4 MiB 配额"@,
{
}

} // verus!
