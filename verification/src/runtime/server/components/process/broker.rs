//! What a process may ask of the host: calls of other components, and requests to models.
use vstd::prelude::*;

use crate::outside;
use crate::runtime::model;
use crate::runtime::model::Header;
use crate::runtime::server::components;
use crate::runtime::server::components::model::{Request, RequestFault};
use crate::runtime::server::components::process::model::Start;
use crate::runtime::server::components::services;
use crate::runtime::server::http_error::RuntimeError;
use crate::text;

verus! {

/// The longest name of a model, in bytes.
pub const MAX_MODEL_BYTES: usize = 256;

/// The most bytes of a model's answer that are passed on.
pub const MAX_STREAM_BYTES: u64 = 2097152;

/// A call that a process makes of another component.
#[derive(Debug)]
pub struct ServiceRequest {
    pub tenant_id: String,
    pub user_id: String,
    pub target: String,
    pub interactive: bool,
    pub context_id: Option<String>,
    pub method: String,
    pub path: String,
}

/// What the host knows of a process and of what it may use.
#[derive(Debug)]
pub struct Gateway {
    pub start: Start,
    pub token: String,
    pub endpoints: Vec<String>,
    pub services: Vec<String>,
}

// Tickets

/// Whether a ticket is the expected one: their digests agree. A missing ticket is an empty one.
pub open spec fn ticket_matches(given: Option<Seq<char>>, expected: Seq<char>) -> bool {
    let shown = match given {
        Some(given) => given,
        None => ""@,
    };
    text::hex(outside::sha256(vstd::utf8::encode_utf8(shown))) == text::hex(
        outside::sha256(vstd::utf8::encode_utf8(expected)),
    )
}

/// Whether a ticket is the expected one.
pub fn is_ticket(given: Option<&str>, expected: &str) -> (yes: bool)
    ensures
        yes == ticket_matches(text::optional_str(given), expected@),
{
    let given = match given {
        Some(given) => given,
        None => "",
    };
    let shown = outside::sha256_hex(given.as_bytes());
    let wanted = outside::sha256_hex(expected.as_bytes());
    shown == wanted
}

/// Whether a process is served.
#[derive(Clone, Copy, Debug, PartialEq, Eq, Structural)]
pub enum ActiveStep {
    CheckEnabled,
    Serve,
    Refuse,
}

/// Whether a step is what follows from a ticket, the host and the version.
pub open spec fn serves(given: Option<&str>, expected: &str, running: bool, enabled: Option<bool>,
    step: ActiveStep) -> bool {
    step == if !ticket_matches(text::optional_str(given), expected@) || !running {
        ActiveStep::Refuse
    } else {
        match enabled {
            None => ActiveStep::CheckEnabled,
            Some(true) => ActiveStep::Serve,
            Some(false) => ActiveStep::Refuse,
        }
    }
}

/// Decides whether a process is served: its ticket is the expected one, the host is running, and
/// the version of the process is the enabled one, which is asked last.
pub fn active(given: Option<&str>, expected: &str, running: bool, enabled: Option<bool>) -> (step:
    ActiveStep)
    ensures
        serves(given, expected, running, enabled, step),
{
    if !is_ticket(given, expected) || !running {
        return ActiveStep::Refuse;
    }
    match enabled {
        None => ActiveStep::CheckEnabled,
        Some(true) => ActiveStep::Serve,
        Some(false) => ActiveStep::Refuse,
    }
}

// Calls of other components

/// What is known so far of a call.
#[derive(Debug)]
pub struct InvokeProgress {
    /// Whether there is room for another call.
    pub quota: bool,
    /// Whether the process is active.
    pub active: Option<bool>,
    /// Whether the user is still a member and has used the process.
    pub actor: Option<bool>,
    /// The component that is called, where it is enabled.
    pub target: Option<Option<u128>>,
    /// Whether the called component is running, and whether it is a process itself.
    pub running: Option<Option<bool>>,
    /// Whether an interactive call's context is known.
    pub context: Option<bool>,
    /// Whether an interactive call's session still lives.
    pub session: Option<bool>,
}

/// What is to be done next about a call.
#[derive(Clone, Copy, Debug, PartialEq, Eq, Structural)]
pub enum InvokeStep {
    CheckActive,
    CheckActor,
    FindTarget,
    ReadTarget,
    FindContext,
    CheckSession,
    EnterBackground,
    Call,
    Refuse,
}

/// Whether a call stays with the process's tenant and goes to a component it was given.
pub open spec fn addressed(request: ServiceRequest, gateway: Gateway) -> bool {
    request.tenant_id@ == gateway.start.tenant@ && text::texts(gateway.services@).contains(
        request.target@,
    )
}

impl InvokeProgress {
    /// The process may make this call at all.
    pub open spec fn allowed(&self, request: ServiceRequest, gateway: Gateway) -> bool {
        self.quota && self.active == Some(true) && addressed(request, gateway)
    }

    /// The call is allowed, its user too, and it goes to a hosted component that runs.
    pub open spec fn reachable(&self, request: ServiceRequest, gateway: Gateway) -> bool {
        &&& self.allowed(request, gateway)
        &&& self.actor == Some(true)
        &&& self.target is Some && self.target->0 is Some
        &&& self.running == Some(Some(false))
    }

    /// Whether a step is the one to be taken next.
    pub open spec fn asks(&self, request: &ServiceRequest, gateway: &Gateway, entered: bool,
        step: InvokeStep) -> bool {
        &&& step is CheckActive <==> self.quota && self.active is None
        &&& step is CheckActor <==> self.allowed(*request, *gateway) && self.actor is None
        &&& step is FindTarget <==> self.allowed(*request, *gateway) && self.actor == Some(true)
            && self.target is None
        &&& step is ReadTarget <==> self.allowed(*request, *gateway) && self.actor == Some(true)
            && self.target is Some && self.target->0 is Some && self.running is None
        &&& step is FindContext <==> self.reachable(*request, *gateway) && request.interactive
            && request.context_id is Some && self.context is None
        &&& step is CheckSession <==> self.reachable(*request, *gateway) && request.interactive
            && request.context_id is Some && self.context == Some(true)
            && self.session is None
        &&& step is EnterBackground <==> self.reachable(*request, *gateway)
            && !request.interactive && !entered
        &&& step is Call <==> self.reachable(*request, *gateway) && if request.interactive {
            request.context_id is Some && self.context == Some(true) && self.session == Some(
                true,
            )
        } else {
            entered
        }
        &&& step is Refuse <==> {
            ||| !self.quota
            ||| self.active == Some(false)
            ||| self.active == Some(true) && !addressed(*request, *gateway)
            ||| self.allowed(*request, *gateway) && self.actor == Some(false)
            ||| self.allowed(*request, *gateway) && self.actor == Some(true)
                && self.target is Some && (self.target->0 is None || (self.running is Some
                && self.running->0 != Some(false)))
            ||| self.reachable(*request, *gateway) && request.interactive && (
            request.context_id is None || self.context == Some(false) || (self.context == Some(
                true,
            ) && self.session == Some(false)))
        }
    }

    /// What is to be done next. `entered` tells whether the context of a call without a user was
    /// set up.
    pub fn next(&self, request: &ServiceRequest, gateway: &Gateway,
        entered: bool) -> (step: InvokeStep)
        ensures
            self.asks(request, gateway, entered, step),
    {
        if !self.quota {
            return InvokeStep::Refuse;
        }
        match self.active {
            None => return InvokeStep::CheckActive,
            Some(false) => return InvokeStep::Refuse,
            Some(true) => {},
        }
        if !text::same(request.tenant_id.as_str(), gateway.start.tenant.as_str()) || !text::holds(
            &gateway.services,
            request.target.as_str(),
        ) {
            return InvokeStep::Refuse;
        }
        match self.actor {
            None => return InvokeStep::CheckActor,
            Some(false) => return InvokeStep::Refuse,
            Some(true) => {},
        }
        match self.target {
            None => return InvokeStep::FindTarget,
            Some(None) => return InvokeStep::Refuse,
            Some(Some(_)) => {},
        }
        match self.running {
            None => return InvokeStep::ReadTarget,
            Some(Some(false)) => {},
            Some(_) => return InvokeStep::Refuse,
        }
        if !request.interactive {
            if entered {
                return InvokeStep::Call;
            }
            return InvokeStep::EnterBackground;
        }
        if request.context_id.is_none() {
            return InvokeStep::Refuse;
        }
        match self.context {
            None => return InvokeStep::FindContext,
            Some(false) => return InvokeStep::Refuse,
            Some(true) => {},
        }
        match self.session {
            None => InvokeStep::CheckSession,
            Some(false) => InvokeStep::Refuse,
            Some(true) => InvokeStep::Call,
        }
    }
}

/// A call is made only within the process's tenant, to a component that the process was given,
/// for a user who is still allowed.
pub proof fn lemma_calls_stay_in_bounds(
    progress: InvokeProgress,
    request: ServiceRequest,
    gateway: Gateway,
)
    requires
        progress.reachable(request, gateway),
    ensures
        request.tenant_id@ == gateway.start.tenant@,
        text::texts(gateway.services@).contains(request.target@),
        progress.actor == Some(true),
        progress.active == Some(true),
{
}

/// The permissions with which a component answers a call without a user: all of its own.
pub open spec fn own_permissions(source: u128, names: Seq<String>) -> Seq<Seq<char>> {
    names.map_values(
        |n: String| services::permission_name(outside::hyphenated(source), n@),
    )
}

/// The permissions with which a component answers a call without a user.
pub fn background_permissions(source: u128, names: &Vec<String>) -> (permissions: Vec<String>)
    ensures
        text::texts(permissions@) == own_permissions(source, names@),
{
    let notation = outside::uuid_text(source);
    let mut permissions: Vec<String> = Vec::new();
    let mut i: usize = 0;
    while i < names.len()
        invariant
            i <= names@.len(),
            notation@ == outside::hyphenated(source),
            text::texts(permissions@) == own_permissions(source, names@).take(i as int),
        decreases names@.len() - i,
    {
        let ghost before = text::texts(permissions@);
        let permission = services::permission(notation.as_str(), names[i].as_str());
        let ghost shown = permission@;
        permissions.push(permission);
        assert(text::texts(permissions@) =~= before.push(shown));
        i += 1;
        assert(text::texts(permissions@) =~= own_permissions(source, names@).take(i as int));
    }
    assert(own_permissions(source, names@).take(i as int) =~= own_permissions(source, names@));
    permissions
}

/// Why a call's address is refused.
#[derive(Clone, Copy, Debug, PartialEq, Eq, Structural)]
pub enum CallFault {
    AddressInvalid,
    Request(RequestFault),
}

/// The path and query of a call, from the URL of its target: the host must be the placeholder,
/// and there must be no fragment.
pub open spec fn call_target(url: Result<outside::UrlView, Seq<char>>) -> Option<
    (Seq<char>, Option<Seq<char>>),
> {
    match url {
        Ok(url) => if url.host == Some("memory"@) && url.fragment is None {
            Some((url.path, url.query))
        } else {
            None
        },
        Err(_) => None,
    }
}

/// Whether a request is the call of a target with a method and a JSON body.
pub open spec fn calls(
    request: Request,
    target: Option<(Seq<char>, Option<Seq<char>>)>,
    method: String,
    body: Vec<u8>,
) -> bool {
    &&& target == Some((request.path@, text::optional(request.query)))
    &&& request.method == method
    &&& request.body == body
    &&& model::header_texts(request.headers@) == seq![("content-type"@, "application/json"@)]
}

/// Whether an outcome is the call of a target, or says what is wrong with it.
pub open spec fn called(
    outcome: Result<Request, CallFault>,
    target: Option<(Seq<char>, Option<Seq<char>>)>,
    method: String,
    body: Vec<u8>,
) -> bool {
    match outcome {
        Ok(request) => calls(request, target, method, body)
            && components::model::request_fault(request)
            is None,
        Err(CallFault::AddressInvalid) => target is None,
        Err(CallFault::Request(fault)) => exists|request: Request| #[trigger]
            calls(request, target, method, body)
                && components::model::request_fault(request) == Some(
                fault,
            ),
    }
}

/// The request of a call to a component, from the URL of its target.
pub fn targeted_request(
    url: Result<outside::UrlParts, String>,
    method: String,
    body: Vec<u8>,
) -> (outcome: Result<Request, CallFault>)
    ensures
        called(
            outcome,
            call_target(
                match url {
                    Ok(url) => Ok(url@),
                    Err(told) => Err(told@),
                },
            ),
            method,
            body,
        ),
{
    let url = match url {
        Ok(url) => url,
        Err(_) => return Err(CallFault::AddressInvalid),
    };
    let local = match &url.host {
        Some(host) => text::same(host.as_str(), "memory"),
        None => false,
    };
    if !local || url.fragment.is_some() {
        return Err(CallFault::AddressInvalid);
    }
    let mut headers: Vec<Header> = Vec::new();
    headers.push(model::header("content-type", "application/json"));
    assert(model::header_texts(headers@) =~= seq![
        ("content-type"@, "application/json"@),
    ]);
    let request = Request { method, path: url.path, query: url.query, headers, body };
    assert(calls(request, Some((url.path@, text::optional(url.query))), method, body));
    match request.accept() {
        Ok(request) => Ok(request),
        Err(fault) => Err(CallFault::Request(fault)),
    }
}

/// The request of a call to a component.
pub fn call_request(method: String, path: &str, body: Vec<u8>) -> (outcome: Result<
    Request,
    CallFault,
>)
    ensures
        called(outcome, call_target(outside::url_parts("http://memory"@ + path@)), method, body),
{
    let address = "http://memory".to_owned().concat(path);
    targeted_request(outside::parse_url(address.as_str()), method, body)
}

/// Whether the answer of a component holds nothing. Anything else that it holds is JSON.
pub fn answers_nothing(body: &Vec<u8>) -> (yes: bool)
    ensures
        yes == (body@.len() == 0),
{
    body.is_empty()
}

/// The answer to a call that is not made, whatever the reason: none is told.
pub fn refused_call() -> (error: RuntimeError)
    ensures
        error.status == 403,
        error.message@ == "资料不可用或调用未授权"@,
{
    RuntimeError::forbidden("资料不可用或调用未授权".to_owned())
}

// Requests to models

/// The answer to a request that does not reach a model, whatever the reason: none is told.
pub fn refused_egress() -> (error: RuntimeError)
    ensures
        error.status == 502,
        error.message@ == "模型出站不可用或未授权"@,
{
    RuntimeError { status: 502, message: "模型出站不可用或未授权".to_owned() }
}

/// Why a request to a model is refused.
#[derive(Clone, Copy, Debug, PartialEq, Eq, Structural)]
pub enum EgressFault {
    EndpointMissing,
    EndpointForbidden,
    NotJson,
    RequestInvalid,
}

/// A request that streams its answer from a named model.
pub open spec fn streams_model(request: (Option<bool>, Option<Seq<char>>)) -> bool {
    &&& request.0 == Some(true)
    &&& request.1 is Some
    &&& request.1->0.len() > 0
    &&& text::byte_len(request.1->0) <= MAX_MODEL_BYTES
}

/// What a model's request says of streaming and of the model, where it is JSON.
pub open spec fn model_request(body: Seq<u8>) -> Option<(Option<bool>, Option<Seq<char>>)> {
    match (outside::json_flag(body, "stream"@), outside::json_string(body, "model"@)) {
        (Some(stream), Some(model)) => Some((stream, model)),
        _ => None,
    }
}

/// Reads what a model's request says of streaming and of the model.
fn read_model_request(body: &[u8]) -> (request: Option<(Option<bool>, Option<String>)>)
    ensures
        match request {
            Some((stream, model)) => model_request(body@) == Some((stream, text::optional(model))),
            None => model_request(body@) is None,
        },
{
    match (outside::read_flag(body, "stream"), outside::read_string(body, "model")) {
        (Some(stream), Some(model)) => Some((stream, model)),
        _ => None,
    }
}

/// The address of a request to a model, or why it is refused.
pub open spec fn model_address(
    endpoint: Option<Seq<char>>,
    endpoints: Seq<Seq<char>>,
    request: Option<(Option<bool>, Option<Seq<char>>)>,
) -> Result<Seq<char>, EgressFault> {
    if endpoint is None {
        Err(EgressFault::EndpointMissing)
    } else if !endpoints.contains(endpoint->0) {
        Err(EgressFault::EndpointForbidden)
    } else if request is None {
        Err(EgressFault::NotJson)
    } else if !streams_model(request->0) {
        Err(EgressFault::RequestInvalid)
    } else {
        Ok(endpoint->0 + "/chat/completions"@)
    }
}

/// The address of a request to a model, from what its body says.
pub fn addressed_egress(
    endpoint: Option<&str>,
    endpoints: &Vec<String>,
    request: Option<(Option<bool>, Option<String>)>,
) -> (outcome: Result<String, EgressFault>)
    ensures
        ({
            let said = match request {
                Some((stream, model)) => Some((stream, text::optional(model))),
                None => None,
            };
            let address = model_address(
                text::optional_str(endpoint),
                text::texts(endpoints@),
                said,
            );
            match outcome {
                Ok(url) => address == Ok::<Seq<char>, EgressFault>(url@),
                Err(fault) => address == Err::<Seq<char>, EgressFault>(fault),
            }
        }),
{
    let endpoint = match endpoint {
        Some(endpoint) => endpoint,
        None => return Err(EgressFault::EndpointMissing),
    };
    if !text::holds(endpoints, endpoint) {
        return Err(EgressFault::EndpointForbidden);
    }
    let (stream, model) = match request {
        Some(request) => request,
        None => return Err(EgressFault::NotJson),
    };
    let streaming = match stream {
        Some(stream) => stream,
        None => false,
    };
    let named = match &model {
        Some(model) => !model.as_str().is_empty() && model.as_str().as_bytes().len()
            <= MAX_MODEL_BYTES,
        None => false,
    };
    if !streaming || !named {
        return Err(EgressFault::RequestInvalid);
    }
    Ok(endpoint.to_owned().concat("/chat/completions"))
}

/// The address of a request to a model: the endpoint must be one that the process was given, and
/// the body must ask a named model for a streamed answer.
pub fn egress(endpoint: Option<&str>, endpoints: &Vec<String>, body: &[u8]) -> (outcome: Result<
    String,
    EgressFault,
>)
    ensures
        ({
            let address = model_address(
                text::optional_str(endpoint),
                text::texts(endpoints@),
                model_request(body@),
            );
            match outcome {
                Ok(url) => address == Ok::<Seq<char>, EgressFault>(url@),
                Err(fault) => address == Err::<Seq<char>, EgressFault>(fault),
            }
        }),
{
    addressed_egress(endpoint, endpoints, read_model_request(body))
}

/// What is done with the answer of a model.
#[derive(Clone, Copy, Debug, PartialEq, Eq, Structural)]
pub enum EgressReply {
    /// The refusal is passed on with its status.
    Refused(u16),
    /// The events are passed on.
    Stream(u16),
    /// The answer is not what was asked for.
    Unusable,
}

/// Whether a reply is what becomes of the answer of a model.
pub open spec fn passes_on(status: u16, content_type: Option<&str>, reply: EgressReply) -> bool {
    reply == if !(200 <= status < 300) {
        EgressReply::Refused(status)
    } else if content_type is Some && "text/event-stream"@.is_prefix_of(content_type->0@) {
        EgressReply::Stream(status)
    } else {
        EgressReply::Unusable
    }
}

/// Decides what is done with the answer of a model: only a success that is a stream of events is
/// passed on.
pub fn egress_reply(status: u16, content_type: Option<&str>) -> (reply: EgressReply)
    ensures
        passes_on(status, content_type, reply),
{
    if !(200 <= status && status < 300) {
        return EgressReply::Refused(status);
    }
    match content_type {
        Some(content_type) => {
            if text::starts_with(content_type, "text/event-stream") {
                EgressReply::Stream(status)
            } else {
                EgressReply::Unusable
            }
        },
        None => EgressReply::Unusable,
    }
}

/// How much of a model's answer was passed on.
#[derive(Debug)]
pub struct StreamQuota {
    pub bytes: u64,
}

/// How much was passed on after another piece, as far as that can be counted.
pub open spec fn counted(bytes: u64, length: u64) -> u64 {
    if bytes + length > u64::MAX {
        u64::MAX
    } else {
        (bytes + length) as u64
    }
}

/// Whether another piece may be passed on.
pub open spec fn within_quota(bytes: u64, length: u64) -> bool {
    bytes + length <= MAX_STREAM_BYTES
}

impl StreamQuota {
    pub fn new() -> (quota: StreamQuota)
        ensures
            quota.bytes == 0,
    {
        StreamQuota { bytes: 0 }
    }

    /// Counts a piece of the answer, and tells whether it may still be passed on.
    pub fn count(&mut self, length: u64) -> (admitted: bool)
        ensures
            final(self).bytes == counted(old(self).bytes, length),
            admitted == within_quota(old(self).bytes, length),
    {
        self.bytes = self.bytes.saturating_add(length);
        self.bytes <= MAX_STREAM_BYTES
    }
}

/// Once a piece went over the quota, no later one is passed on.
pub proof fn lemma_exhausted_stream_stays_exhausted(bytes: u64, length: u64, later: u64)
    requires
        !within_quota(bytes, length),
    ensures
        !within_quota(counted(bytes, length), later),
{
}

// Laws

/// A ticket is the expected one where their digests agree; a missing ticket is taken as an empty
/// one, and the expected ticket itself is always accepted.
pub proof fn lemma_tickets(given: Seq<char>, expected: Seq<char>)
    ensures
        ticket_matches(Some(given), expected)
            <==> outside::sha256(vstd::utf8::encode_utf8(given))
            == outside::sha256(vstd::utf8::encode_utf8(expected)),
        ticket_matches(None, expected) == ticket_matches(Some(""@), expected),
        ticket_matches(Some(expected), expected),
{
    let a = outside::sha256(vstd::utf8::encode_utf8(given));
    let b = outside::sha256(vstd::utf8::encode_utf8(expected));
    if text::hex(a) == text::hex(b) {
        text::lemma_hex_injective(a, b);
    }
}

/// A call needs room, an active process, the process's own tenant and a component that the process
/// was given; its user is asked about only then.
pub proof fn lemma_who_may_call(progress: InvokeProgress, request: ServiceRequest,
    gateway: Gateway, entered: bool, step: InvokeStep)
    requires
        progress.asks(&request, &gateway, entered, step),
    ensures
        !progress.quota ==> step is Refuse,
        progress.quota && progress.active is None ==> step is CheckActive,
        progress.quota && progress.active == Some(false) ==> step is Refuse,
        progress.quota && progress.active == Some(true)
            && !(request.tenant_id@ == gateway.start.tenant@
            && (exists|i: int| 0 <= i < gateway.services@.len()
            && (#[trigger] gateway.services@[i])@ == request.target@)) ==> step is Refuse,
        progress.quota && progress.active == Some(true)
            && request.tenant_id@ == gateway.start.tenant@
            && (exists|i: int| 0 <= i < gateway.services@.len()
            && (#[trigger] gateway.services@[i])@ == request.target@) && progress.actor is None
            ==> step is CheckActor,
        progress.quota && progress.active == Some(true)
            && request.tenant_id@ == gateway.start.tenant@
            && (exists|i: int| 0 <= i < gateway.services@.len()
            && (#[trigger] gateway.services@[i])@ == request.target@)
            && progress.actor == Some(false) ==> step is Refuse,
        step is Call || step is EnterBackground
            ==> progress.quota && progress.active == Some(true) && progress.actor == Some(true)
            && request.tenant_id@ == gateway.start.tenant@
            && (exists|i: int| 0 <= i < gateway.services@.len()
            && (#[trigger] gateway.services@[i])@ == request.target@),
{
    let given = text::texts(gateway.services@);
    assert forall|i: int| 0 <= i < gateway.services@.len() implies given.contains(
        (#[trigger] gateway.services@[i])@,
    ) by {
        assert(given[i] == gateway.services@[i]@);
    }
    if given.contains(request.target@) {
        let i = choose|i: int| 0 <= i < given.len() && given[i] == request.target@;
        assert(gateway.services@[i]@ == request.target@);
    }
}

/// The called component must be enabled, must run, and must not be a process itself. A call for a
/// user needs that user's live session, and a call without one enters the background first.
pub proof fn lemma_what_is_called(progress: InvokeProgress, request: ServiceRequest,
    gateway: Gateway, entered: bool, step: InvokeStep)
    requires
        progress.asks(&request, &gateway, entered, step),
        progress.quota,
        progress.active == Some(true),
        progress.actor == Some(true),
        request.tenant_id@ == gateway.start.tenant@
            && (exists|i: int| 0 <= i < gateway.services@.len()
            && (#[trigger] gateway.services@[i])@ == request.target@),
    ensures
        progress.target is None ==> step is FindTarget,
        progress.target is Some && progress.target->0 is None ==> step is Refuse,
        progress.target is Some && progress.target->0 is Some && progress.running is None
            ==> step is ReadTarget,
        progress.target is Some && progress.target->0 is Some && progress.running is Some
            && progress.running->0 != Some(false) ==> step is Refuse,
        ({
            let reached = progress.target is Some && progress.target->0 is Some
                && progress.running == Some(Some(false));
            let known = reached && request.interactive && request.context_id is Some;
            &&& reached && !request.interactive
                ==> if entered { step is Call } else { step is EnterBackground }
            &&& reached && request.interactive && request.context_id is None ==> step is Refuse
            &&& known && progress.context is None ==> step is FindContext
            &&& known && progress.context == Some(false) ==> step is Refuse
            &&& known && progress.context == Some(true) && progress.session is None
                ==> step is CheckSession
            &&& known && progress.context == Some(true) && progress.session == Some(false)
                ==> step is Refuse
            &&& known && progress.context == Some(true) && progress.session == Some(true)
                ==> step is Call
        }),
{
    let given = text::texts(gateway.services@);
    assert forall|i: int| 0 <= i < gateway.services@.len() implies given.contains(
        (#[trigger] gateway.services@[i])@,
    ) by {
        assert(given[i] == gateway.services@[i]@);
    }
    if given.contains(request.target@) {
        let i = choose|i: int| 0 <= i < given.len() && given[i] == request.target@;
        assert(gateway.services@[i]@ == request.target@);
    }
}

/// In the background a component has every permission of its own, and none of another.
pub proof fn lemma_background_permissions(source: u128, names: Seq<String>, i: int)
    requires
        0 <= i < names.len(),
    ensures
        own_permissions(source, names).len() == names.len(),
        own_permissions(source, names)[i] == "component:"@ + outside::hyphenated(source) + ":"@
            + names[i]@,
{
}

/// A call goes to the path and the query of its address, where that names the placeholder for a
/// host and no fragment.
pub proof fn lemma_target_of_a_call(url: outside::UrlView, told: Seq<char>)
    ensures
        url.host == Some("memory"@) && url.fragment is None
            ==> call_target(Ok(url)) == Some((url.path, url.query)),
        !(url.host == Some("memory"@) && url.fragment is None) ==> call_target(Ok(url)) is None,
        call_target(Err(told)) is None,
{
}

/// The request of a call has the method and the body of the call, the path and query of its target,
/// and says that it is JSON; it passes what every request must pass.
pub proof fn lemma_request_of_a_call(outcome: Result<Request, CallFault>,
    target: Option<(Seq<char>, Option<Seq<char>>)>, method: String, body: Vec<u8>)
    requires
        called(outcome, target, method, body),
    ensures
        outcome is Ok ==> target is Some && outcome->Ok_0.path@ == (target->0).0
            && text::optional(outcome->Ok_0.query) == (target->0).1
            && outcome->Ok_0.method == method && outcome->Ok_0.body == body,
        outcome is Ok ==> outcome->Ok_0.headers@.len() == 1
            && outcome->Ok_0.headers@[0].name@ == "content-type"@
            && outcome->Ok_0.headers@[0].value@ == "application/json"@,
        outcome is Ok ==> components::model::request_fault(outcome->Ok_0) is None,
        outcome is Err && outcome->Err_0 is AddressInvalid <==> target is None,
{
    if outcome is Ok {
        let headers = outcome->Ok_0.headers@;
        let shown = model::header_texts(headers);
        assert(shown.len() == headers.len());
        assert(shown[0] == model::header_text(headers[0]));
    }
}

/// A process reaches a model at an endpoint that it was given, and only with a request that streams
/// from a named model. What is told is the first thing that is wrong.
pub proof fn lemma_which_models_are_reached(endpoint: Option<Seq<char>>,
    endpoints: Seq<Seq<char>>, request: Option<(Option<bool>, Option<Seq<char>>)>)
    ensures
        ({
            let given = endpoint is Some && endpoints.contains(endpoint->0);
            let streams = request is Some && (request->0).0 == Some(true)
                && (request->0).1 is Some && (request->0).1->0.len() > 0
                && vstd::utf8::encode_utf8((request->0).1->0).len() <= 256;
            let address = model_address(endpoint, endpoints, request);
            &&& endpoint is None ==> address
                == Err::<Seq<char>, EgressFault>(EgressFault::EndpointMissing)
            &&& endpoint is Some && !given
                ==> address == Err::<Seq<char>, EgressFault>(EgressFault::EndpointForbidden)
            &&& given && request is None ==> address
                == Err::<Seq<char>, EgressFault>(EgressFault::NotJson)
            &&& given && request is Some && !streams
                ==> address == Err::<Seq<char>, EgressFault>(EgressFault::RequestInvalid)
            &&& given && streams ==> address == Ok::<Seq<char>, EgressFault>(endpoint->0
                + "/chat/completions"@)
        }),
{
}

/// What a model's request asks for stands in its members `stream` and `model`.
pub proof fn lemma_members_of_a_request(body: Seq<u8>)
    ensures
        outside::json_flag(body, "stream"@) is Some
            && outside::json_string(body, "model"@) is Some
            ==> model_request(body)
            == Some((outside::json_flag(body, "stream"@)->0, outside::json_string(body,
            "model"@)->0)),
        outside::json_flag(body, "stream"@) is None
            || outside::json_string(body, "model"@) is None ==> model_request(body) is None,
{
}

/// Of a model's answer two mebibytes are passed on in all.
pub proof fn lemma_quota_of_a_stream(bytes: u64, length: u64)
    ensures
        within_quota(bytes, length) <==> bytes + length <= 2 * 1024 * 1024,
        bytes + length <= u64::MAX ==> counted(bytes, length) == bytes + length,
        bytes + length > u64::MAX ==> counted(bytes, length) == u64::MAX,
{
}

/// A process is served with its own ticket, while the host runs, and as the enabled version;
/// without the ticket or on a host that stops nothing is asked.
pub proof fn lemma_which_processes_are_served(given: Option<&str>, expected: &str, running: bool,
    enabled: Option<bool>, step: ActiveStep)
    requires
        serves(given, expected, running, enabled, step),
    ensures
        !ticket_matches(text::optional_str(given), expected@) ==> step is Refuse,
        !running ==> step is Refuse,
        ticket_matches(text::optional_str(given), expected@) && running && enabled is None
            ==> step is CheckEnabled,
        ticket_matches(text::optional_str(given), expected@) && running
            && enabled == Some(true) ==> step is Serve,
        ticket_matches(text::optional_str(given), expected@) && running
            && enabled == Some(false) ==> step is Refuse,
{
}

/// A model's refusal is passed on with its status; a success is passed on where it is a stream of
/// events, and nothing else is.
pub proof fn lemma_which_answers_are_passed_on(status: u16, content_type: Option<&str>,
    reply: EgressReply)
    requires
        passes_on(status, content_type, reply),
    ensures
        status < 200 || status >= 300 ==> reply == EgressReply::Refused(status),
        200 <= status <= 299 && content_type is Some
            && "text/event-stream"@.is_prefix_of(content_type->0@)
            ==> reply == EgressReply::Stream(status),
        200 <= status <= 299 && (content_type is None
            || !"text/event-stream"@.is_prefix_of(content_type->0@)) ==> reply is Unusable,
{
}

} // verus!
