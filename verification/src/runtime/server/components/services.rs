//! What a component may do on behalf of the request that it answers.
use vstd::prelude::*;

use crate::outside;
use crate::runtime::model::SessionContext;
use crate::text;

verus! {

/// Who asked for what a component does.
#[derive(Clone, Debug, PartialEq, Eq)]
pub struct RequestContext {
    pub tenant_id: Option<String>,
    pub user_id: Option<String>,
    pub session_id: Option<String>,
    pub request_id: String,
}

/// Which component acts, and for whom.
#[derive(Debug)]
pub struct InvocationScope {
    pub source_id: String,
    pub revision: String,
    pub context: RequestContext,
}

/// A request under way and the permissions of the user who made it.
#[derive(Debug)]
pub struct PermittedRequest {
    pub context: RequestContext,
    pub permissions: Vec<String>,
}

/// The requests under way.
#[derive(Debug)]
pub struct Services {
    pub requests: Vec<PermittedRequest>,
}

/// The contents of a context.
#[verifier::ext_equal]
pub struct ContextText {
    pub tenant_id: Option<Seq<char>>,
    pub user_id: Option<Seq<char>>,
    pub session_id: Option<Seq<char>>,
    pub request_id: Seq<char>,
}

impl View for RequestContext {
    type V = ContextText;

    open spec fn view(&self) -> ContextText {
        ContextText {
            tenant_id: text::optional(self.tenant_id),
            user_id: text::optional(self.user_id),
            session_id: text::optional(self.session_id),
            request_id: self.request_id@,
        }
    }
}

/// The name by which a permission of one plugin is granted.
pub open spec fn permission_name(source: Seq<char>, name: Seq<char>) -> Seq<char> {
    "component:"@ + source + ":"@ + name
}

/// The name by which a permission of one plugin is granted.
pub fn permission(source: &str, name: &str) -> (granted: String)
    ensures
        granted@ == permission_name(source@, name@),
{
    "component:".to_owned().concat(source).concat(":").concat(name)
}

/// A permission belongs to one plugin: sources without a colon that share a permission's name
/// are the same source, and the permission is the same.
pub proof fn lemma_permissions_do_not_cross_plugins(
    first: Seq<char>,
    first_name: Seq<char>,
    second: Seq<char>,
    second_name: Seq<char>,
)
    requires
        !first.contains(':'),
        !second.contains(':'),
        permission_name(first, first_name) == permission_name(second, second_name),
    ensures
        first == second,
        first_name == second_name,
{
    let label = "component:"@;
    reveal_strlit("component:");
    reveal_strlit(":");
    let a = first + seq![':'] + first_name;
    let b = second + seq![':'] + second_name;
    assert(":"@ =~= seq![':']);
    assert(permission_name(first, first_name) =~= label + a);
    assert(permission_name(second, second_name) =~= label + b);
    assert(a =~= permission_name(first, first_name).skip(label.len() as int));
    assert(b =~= permission_name(second, second_name).skip(label.len() as int));
    text::lemma_split_at_first(first, ':', first_name);
    text::lemma_split_at_first(second, ':', second_name);
}

/// The ids of the requests under way.
pub open spec fn request_ids(requests: Seq<PermittedRequest>) -> Seq<Seq<char>> {
    requests.map_values(|r: PermittedRequest| r.context.request_id@)
}

/// The request with the given id.
pub open spec fn request_named(requests: Seq<PermittedRequest>, id: Seq<char>) -> Option<
    PermittedRequest,
> {
    let at = text::first_index(request_ids(requests), id);
    if at < requests.len() {
        Some(requests[at])
    } else {
        None
    }
}

/// The requests without the one with the given id.
pub open spec fn requests_without(requests: Seq<PermittedRequest>, id: Seq<char>) -> Seq<
    PermittedRequest,
> {
    let at = text::first_index(request_ids(requests), id);
    if at < requests.len() {
        requests.remove(at)
    } else {
        requests
    }
}

/// Whether a permission of a plugin is granted: the scope's context must be that of a request
/// under way, and its user must hold the plugin's own permission or all of them.
pub open spec fn authorized(
    requests: Seq<PermittedRequest>,
    scope: InvocationScope,
    permission: Seq<char>,
) -> bool {
    match request_named(requests, scope.context.request_id@) {
        Some(request) => {
            &&& request.context@ == scope.context@
            &&& (text::texts(request.permissions@).contains(
                permission_name(scope.source_id@, permission),
            ) || text::texts(request.permissions@).contains("*"@))
        },
        None => false,
    }
}

/// The context of the request that a call names, where the request is one of the same user in the
/// same tenant.
pub open spec fn interactive_context(
    requests: Seq<PermittedRequest>,
    id: Seq<char>,
    tenant: Seq<char>,
    user: Seq<char>,
) -> Option<RequestContext> {
    match request_named(requests, id) {
        Some(request) => if text::optional(request.context.tenant_id) == Some(tenant)
            && text::optional(request.context.user_id) == Some(user) {
            Some(request.context)
        } else {
            None
        },
        None => None,
    }
}

/// The context of a request of a session.
pub open spec fn session_request(session: SessionContext, request_id: Seq<char>) -> ContextText {
    ContextText {
        tenant_id: Some(session.tenant_id@),
        user_id: Some(session.user_id@),
        session_id: Some(session.session_id@),
        request_id,
    }
}

/// Whether a request of a session was begun under an id: its context is that of the session, and
/// its user's permissions are noted with it.
pub open spec fn enters(
    before: Seq<PermittedRequest>,
    session: SessionContext,
    request_id: Seq<char>,
    context: RequestContext,
    after: Seq<PermittedRequest>,
) -> bool {
    &&& context@ == session_request(session, request_id)
    &&& exists|request: PermittedRequest|
        #![trigger requests_without(before, request_id).push(request)]
        request.context@ == context@ && request.permissions@ == session.permissions@ && after
            == requests_without(before, request_id).push(request)
}

/// Whether two contexts hold the same.
fn same_context(left: &RequestContext, right: &RequestContext) -> (equal: bool)
    ensures
        equal == (left@ == right@),
{
    let equal = text::same_optional(&left.tenant_id, &right.tenant_id) && text::same_optional(
        &left.user_id,
        &right.user_id,
    ) && text::same_optional(&left.session_id, &right.session_id) && text::same(
        left.request_id.as_str(),
        right.request_id.as_str(),
    );
    equal
}

impl Services {
    /// No two requests under way share an id.
    pub open spec fn well_formed(&self) -> bool {
        request_ids(self.requests@).no_duplicates()
    }

    pub fn new() -> (services: Services)
        ensures
            services.well_formed(),
            services.requests@.len() == 0,
    {
        Services { requests: Vec::new() }
    }

    /// Where the request with the id stands.
    fn position(&self, id: &str) -> (at: usize)
        ensures
            at == text::first_index(request_ids(self.requests@), id@),
            at <= self.requests@.len(),
    {
        let mut at: usize = 0;
        while at < self.requests.len()
            invariant
                at <= self.requests@.len(),
                forall|k: int| 0 <= k < at ==> request_ids(self.requests@)[k] != id@,
            decreases self.requests@.len() - at,
        {
            if text::same(self.requests[at].context.request_id.as_str(), id) {
                proof {
                    text::lemma_first_index_is(request_ids(self.requests@), id@, at as int);
                }
                return at;
            }
            at += 1;
        }
        proof {
            text::lemma_first_index_is(request_ids(self.requests@), id@, at as int);
        }
        at
    }

    /// Begins a request of a session under a random id: until it ends, its user's permissions
    /// count.
    pub fn enter(&mut self, session: &SessionContext) -> (context: RequestContext)
        requires
            old(self).well_formed(),
        ensures
            final(self).well_formed(),
            exists|id: u128|
                outside::random_uuid(id) && #[trigger] outside::hyphenated(id)
                    == context.request_id@,
            enters(
                old(self).requests@,
                *session,
                context.request_id@,
                context,
                final(self).requests@,
            ),
    {
        let id = outside::fresh_uuid();
        let request_id = outside::uuid_text(id);
        assert(outside::hyphenated(id) == request_id@);
        self.enter_as(session, request_id)
    }

    /// Begins a request of a session under the given id.
    pub fn enter_as(&mut self, session: &SessionContext, request_id: String) -> (context:
        RequestContext)
        requires
            old(self).well_formed(),
        ensures
            final(self).well_formed(),
            enters(old(self).requests@, *session, request_id@, context, final(self).requests@),
    {
        self.leave(request_id.as_str());
        let ghost rest = self.requests@;
        proof {
            text::lemma_first_index(request_ids(rest), request_id@);
        }
        let context = RequestContext {
            tenant_id: Some(session.tenant_id.clone()),
            user_id: Some(session.user_id.clone()),
            session_id: Some(session.session_id.clone()),
            request_id: request_id.clone(),
        };
        let request = PermittedRequest {
            context: RequestContext {
                tenant_id: Some(session.tenant_id.clone()),
                user_id: Some(session.user_id.clone()),
                session_id: Some(session.session_id.clone()),
                request_id,
            },
            permissions: text::copied(&session.permissions),
        };
        let ghost added = request;
        self.requests.push(request);
        proof {
            assert(self.requests@ =~= rest.push(added));
            let all = request_ids(self.requests@);
            assert forall|a: int, b: int| 0 <= a < all.len() && 0 <= b < all.len() && a != b implies
                all[a] != all[b] by {
                if a < rest.len() {
                    assert(all[a] == request_ids(rest)[a]);
                    assert(request_ids(rest).contains(request_ids(rest)[a]));
                }
                if b < rest.len() {
                    assert(all[b] == request_ids(rest)[b]);
                    assert(request_ids(rest).contains(request_ids(rest)[b]));
                }
            }
        }
        context
    }

    /// Ends a request.
    pub fn leave(&mut self, request_id: &str)
        requires
            old(self).well_formed(),
        ensures
            final(self).well_formed(),
            final(self).requests@ == requests_without(old(self).requests@, request_id@),
            request_named(final(self).requests@, request_id@) is None,
    {
        let ghost before = self.requests@;
        let at = self.position(request_id);
        proof {
            lemma_requests_without(before, request_id@);
        }
        if at < self.requests.len() {
            self.requests.remove(at);
        }
    }

    /// The context of the request of a user that a call names.
    pub fn interactive(&self, id: &str, tenant: &str, user: &str) -> (found: Option<
        &RequestContext,
    >)
        ensures
            match found {
                Some(context) => interactive_context(self.requests@, id@, tenant@, user@) == Some(
                    *context,
                ),
                None => interactive_context(self.requests@, id@, tenant@, user@) is None,
            },
    {
        let at = self.position(id);
        if at == self.requests.len() {
            return None;
        }
        let context = &self.requests[at].context;
        let of_tenant = match &context.tenant_id {
            Some(own) => text::same(own.as_str(), tenant),
            None => false,
        };
        let of_user = match &context.user_id {
            Some(own) => text::same(own.as_str(), user),
            None => false,
        };
        if of_tenant && of_user {
            Some(context)
        } else {
            None
        }
    }

    /// Whether the component of the scope may use the permission.
    pub fn authorize(&self, scope: &InvocationScope, permission: &str) -> (granted: bool)
        ensures
            granted == authorized(self.requests@, *scope, permission@),
    {
        let at = self.position(scope.context.request_id.as_str());
        if at == self.requests.len() {
            return false;
        }
        let request = &self.requests[at];
        let required = self::permission(scope.source_id.as_str(), permission);
        same_context(&request.context, &scope.context) && (text::holds(
            &request.permissions,
            required.as_str(),
        ) || text::holds(&request.permissions, "*"))
    }
}

proof fn lemma_requests_without(requests: Seq<PermittedRequest>, id: Seq<char>)
    requires
        request_ids(requests).no_duplicates(),
    ensures
        request_ids(requests_without(requests, id)).no_duplicates(),
        request_named(requests_without(requests, id), id) is None,
{
    let rest = requests_without(requests, id);
    text::lemma_first_index(request_ids(requests), id);
    text::lemma_first_index(request_ids(rest), id);
    let at = text::first_index(request_ids(requests), id);
    if at < requests.len() {
        assert(request_ids(rest) =~= request_ids(requests).remove(at));
    }
    text::lemma_remove_first(request_ids(requests), id, request_ids(rest));
}

/// A request that has ended grants nothing.
pub proof fn lemma_ended_request_grants_nothing(
    requests: Seq<PermittedRequest>,
    scope: InvocationScope,
    permission: Seq<char>,
)
    requires
        request_ids(requests).no_duplicates(),
    ensures
        !authorized(
            requests_without(requests, scope.context.request_id@),
            scope,
            permission,
        ),
{
    lemma_requests_without(requests, scope.context.request_id@);
}

// Laws

/// A permission is granted where a request under way has the very context of the call, and its user
/// holds that permission of that plugin, or all permissions.
pub proof fn lemma_held_permission_is_granted(requests: Seq<PermittedRequest>,
    scope: InvocationScope, permission: Seq<char>, i: int, j: int)
    requires
        forall|a: int, b: int| 0 <= a < b < requests.len()
            ==> (#[trigger] requests[a]).context.request_id@
            != (#[trigger] requests[b]).context.request_id@,
        0 <= i < requests.len(),
        text::optional(requests[i].context.tenant_id) == text::optional(scope.context.tenant_id)
            && text::optional(requests[i].context.user_id)
            == text::optional(scope.context.user_id)
            && text::optional(requests[i].context.session_id)
            == text::optional(scope.context.session_id)
            && requests[i].context.request_id@ == scope.context.request_id@,
        0 <= j < requests[i].permissions@.len(),
        requests[i].permissions@[j]@ == "component:"@ + scope.source_id@ + ":"@ + permission
            || requests[i].permissions@[j]@ == "*"@,
    ensures
        authorized(requests, scope, permission),
{
    let all = request_ids(requests);
    let id = scope.context.request_id@;
    assert forall|k: int| 0 <= k < i implies all[k] != id by {
        assert(all[k] == requests[k].context.request_id@);
    }
    assert(all[i] == id);
    text::lemma_first_index_is(all, id, i);
    let held = text::texts(requests[i].permissions@);
    assert(held[j] == requests[i].permissions@[j]@);
    assert(held.contains(held[j]));
    assert(requests[i].context@ =~= scope.context@);
}

/// Nothing else grants a permission: without such a request, or without the permission, it is
/// denied.
pub proof fn lemma_granted_permission_is_held(requests: Seq<PermittedRequest>,
    scope: InvocationScope, permission: Seq<char>)
    requires
        authorized(requests, scope, permission),
    ensures
        exists|i: int, j: int| #![trigger requests[i].permissions@[j]] 0 <= i < requests.len()
            && 0 <= j < requests[i].permissions@.len()
            && text::optional(requests[i].context.tenant_id)
            == text::optional(scope.context.tenant_id)
            && text::optional(requests[i].context.user_id)
            == text::optional(scope.context.user_id)
            && text::optional(requests[i].context.session_id)
            == text::optional(scope.context.session_id)
            && requests[i].context.request_id@ == scope.context.request_id@
            && (requests[i].permissions@[j]@ == "component:"@ + scope.source_id@ + ":"@
            + permission || requests[i].permissions@[j]@ == "*"@),
{
    let id = scope.context.request_id@;
    text::lemma_first_index(request_ids(requests), id);
    let i = text::first_index(request_ids(requests), id);
    let held = text::texts(requests[i].permissions@);
    let name = "component:"@ + scope.source_id@ + ":"@ + permission;
    let wanted = if held.contains(name) {
        name
    } else {
        "*"@
    };
    let j = choose|j: int| 0 <= j < held.len() && held[j] == wanted;
    assert(requests[i].permissions@[j]@ == wanted);
    assert(requests[i].context@ == scope.context@);
}

/// Ending one request leaves what the others grant as it is.
pub proof fn lemma_other_requests_go_on(requests: Seq<PermittedRequest>, ended: Seq<char>,
    scope: InvocationScope, permission: Seq<char>)
    requires
        forall|a: int, b: int| 0 <= a < b < requests.len()
            ==> (#[trigger] requests[a]).context.request_id@
            != (#[trigger] requests[b]).context.request_id@,
        scope.context.request_id@ != ended,
    ensures
        authorized(requests_without(requests, ended), scope, permission)
            == authorized(requests, scope, permission),
{
    let id = scope.context.request_id@;
    let all = request_ids(requests);
    let rest = requests_without(requests, ended);
    text::lemma_first_index(all, ended);
    text::lemma_first_index(all, id);
    let gone = text::first_index(all, ended);
    let at = text::first_index(all, id);
    if gone < requests.len() {
        let left = request_ids(rest);
        assert(left =~= all.remove(gone));
        let to: int = if at > gone {
            at - 1
        } else {
            at
        };
        assert forall|k: int| 0 <= k < to implies left[k] != id by {
            if k < gone {
                assert(left[k] == all[k]);
            } else {
                assert(left[k] == all[k + 1]);
            }
        }
        if at < requests.len() {
            assert(all[at] == id);
            assert(at != gone);
            assert(left[to] == all[at]);
            assert(rest[to] == requests[at]);
        } else {
            assert(to == left.len());
        }
        text::lemma_first_index_is(left, id, to);
    }
}

/// A request that begins grants its context what its session's user is permitted, and no more.
pub proof fn lemma_begun_request_grants_its_permissions(requests: Seq<PermittedRequest>,
    request: PermittedRequest, scope: InvocationScope, permission: Seq<char>)
    requires
        forall|a: int, b: int| 0 <= a < b < requests.len()
            ==> (#[trigger] requests[a]).context.request_id@
            != (#[trigger] requests[b]).context.request_id@,
        text::optional(request.context.tenant_id) == text::optional(scope.context.tenant_id)
            && text::optional(request.context.user_id) == text::optional(scope.context.user_id)
            && text::optional(request.context.session_id)
            == text::optional(scope.context.session_id)
            && request.context.request_id@ == scope.context.request_id@,
    ensures
        authorized(requests_without(requests, request.context.request_id@).push(request), scope,
            permission) <==> exists|j: int| 0 <= j < request.permissions@.len()
            && ((#[trigger] request.permissions@[j])@ == "component:"@ + scope.source_id@ + ":"@
            + permission || request.permissions@[j]@ == "*"@),
{
    let id = request.context.request_id@;
    assert(request_ids(requests).no_duplicates()) by {
        let all = request_ids(requests);
        assert forall|a: int, b: int| 0 <= a < all.len() && 0 <= b < all.len() && a != b implies
            all[a] != all[b] by {
            assert(all[a] == requests[a].context.request_id@);
            assert(all[b] == requests[b].context.request_id@);
        }
    }
    lemma_requests_without(requests, id);
    let rest = requests_without(requests, id);
    text::lemma_first_index(request_ids(rest), id);
    let under_way = rest.push(request);
    let all = request_ids(under_way);
    assert forall|k: int| 0 <= k < rest.len() implies all[k] != id by {
        assert(all[k] == request_ids(rest)[k]);
        assert(request_ids(rest).contains(request_ids(rest)[k]));
    }
    assert(all[rest.len() as int] == id);
    text::lemma_first_index_is(all, id, rest.len() as int);
    assert(request.context@ =~= scope.context@);
    let held = text::texts(request.permissions@);
    let name = "component:"@ + scope.source_id@ + ":"@ + permission;
    assert(request_named(under_way, id) == Some(request));
    assert forall|j: int| 0 <= j < request.permissions@.len() implies held.contains(
        (#[trigger] request.permissions@[j])@,
    ) by {
        assert(held[j] == request.permissions@[j]@);
    }
    if held.contains(name) {
        let j = choose|j: int| 0 <= j < held.len() && held[j] == name;
        assert(request.permissions@[j]@ == name);
    }
    if held.contains("*"@) {
        let j = choose|j: int| 0 <= j < held.len() && held[j] == "*"@;
        assert(request.permissions@[j]@ == "*"@);
    }
}

/// A call that names a request gets its context where the request is one of that user in that
/// tenant, and otherwise nothing.
pub proof fn lemma_whose_request_is_found(requests: Seq<PermittedRequest>, id: Seq<char>,
    tenant: Seq<char>, user: Seq<char>, i: int)
    requires
        forall|a: int, b: int| 0 <= a < b < requests.len()
            ==> (#[trigger] requests[a]).context.request_id@
            != (#[trigger] requests[b]).context.request_id@,
        0 <= i < requests.len(),
        requests[i].context.request_id@ == id,
    ensures
        interactive_context(requests, id, tenant, user)
            == if requests[i].context.tenant_id is Some
            && requests[i].context.tenant_id->0@ == tenant
            && requests[i].context.user_id is Some
            && requests[i].context.user_id->0@
            == user { Some(requests[i].context) } else { None::<RequestContext> },
{
    let all = request_ids(requests);
    assert forall|k: int| 0 <= k < i implies all[k] != id by {
        assert(all[k] == requests[k].context.request_id@);
    }
    assert(all[i] == id);
    text::lemma_first_index_is(all, id, i);
}

/// Where no request has the id, nothing is found.
pub proof fn lemma_unknown_request_is_not_found(requests: Seq<PermittedRequest>, id: Seq<char>,
    tenant: Seq<char>, user: Seq<char>)
    requires
        forall|i: int| 0 <= i < requests.len()
            ==> (#[trigger] requests[i]).context.request_id@ != id,
    ensures
        interactive_context(requests, id, tenant, user) is None,
{
    let all = request_ids(requests);
    text::lemma_first_index(all, id);
    let at = text::first_index(all, id);
    if at < requests.len() {
        assert(all[at] == requests[at].context.request_id@);
    }
}

/// A request of a session is one of its tenant, its user and itself.
pub proof fn lemma_request_of_a_session(session: SessionContext, request_id: Seq<char>)
    ensures
        session_request(session, request_id).tenant_id == Some(session.tenant_id@),
        session_request(session, request_id).user_id == Some(session.user_id@),
        session_request(session, request_id).session_id == Some(session.session_id@),
        session_request(session, request_id).request_id == request_id,
{
}

/// Once a request of a session has begun, a call in its context is granted exactly what the
/// session's user holds.
pub proof fn lemma_session_grants_what_its_user_holds(before: Seq<PermittedRequest>,
    session: SessionContext, request_id: Seq<char>, context: RequestContext,
    after: Seq<PermittedRequest>, scope: InvocationScope, permission: Seq<char>)
    requires
        request_ids(before).no_duplicates(),
        enters(before, session, request_id, context, after),
        scope.context@ == context@,
    ensures
        context.tenant_id is Some && context.tenant_id->0@ == session.tenant_id@,
        context.user_id is Some && context.user_id->0@ == session.user_id@,
        context.session_id is Some && context.session_id->0@ == session.session_id@,
        context.request_id@ == request_id,
        authorized(after, scope, permission)
            <==> exists|j: int| 0 <= j < session.permissions@.len()
            && ((#[trigger] session.permissions@[j])@ == "component:"@ + scope.source_id@ + ":"@
            + permission || session.permissions@[j]@ == "*"@),
{
    let request = choose|request: PermittedRequest|
        #![trigger requests_without(before, request_id).push(request)]
        request.context@ == context@ && request.permissions@ == session.permissions@ && after
            == requests_without(before, request_id).push(request);
    assert forall|a: int, b: int| 0 <= a < b < before.len() implies (
    #[trigger] before[a]).context.request_id@ != (#[trigger] before[b]).context.request_id@ by {
        assert(request_ids(before)[a] == before[a].context.request_id@);
        assert(request_ids(before)[b] == before[b].context.request_id@);
    }
    assert(scope.context@ == request.context@);
    lemma_begun_request_grants_its_permissions(before, request, scope, permission);
}

} // verus!
