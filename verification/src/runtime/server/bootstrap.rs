//! The snapshot with which a client starts.
use vstd::prelude::*;

use crate::json;
use crate::outside;
use crate::runtime::model;
use crate::runtime::model::Header;
use crate::runtime::server::frontend_routes;
use crate::runtime::server::http_error::Reply;
use crate::text;

verus! {

/// Whether an `If-None-Match` header names exactly the tag.
pub open spec fn holds_tag(header: Seq<char>, etag: Seq<char>) -> bool {
    exists|i: int|
        0 <= i < text::split_on(header, ',').len() && text::trimmed(
            #[trigger] text::split_on(header, ',')[i],
        ) == etag
}

/// Whether an `If-None-Match` header names exactly the tag.
fn names_tag(header: &str, etag: &str) -> (found: bool)
    ensures
        found == holds_tag(header@, etag@),
{
    let items = text::split(header, ',');
    let ghost parts = text::split_on(header@, ',');
    let mut i: usize = 0;
    while i < items.len()
        invariant
            i <= items@.len(),
            text::texts(items@) == parts,
            parts == text::split_on(header@, ','),
            forall|k: int| 0 <= k < i ==> text::trimmed(#[trigger] parts[k]) != etag@,
        decreases items@.len() - i,
    {
        let item = text::trim(items[i].as_str());
        assert(parts[i as int] == items@[i as int]@);
        if text::same(item.as_str(), etag) {
            return true;
        }
        i += 1;
    }
    false
}

/// The headers that every snapshot has.
pub open spec fn snapshot_headers(etag: Seq<char>, timing: Seq<char>) -> Seq<
    (Seq<char>, Seq<char>),
> {
    seq![
        ("cache-control"@, "private, no-store"@),
        ("vary"@, "Cookie"@),
        ("etag"@, etag),
        ("server-timing"@, timing),
    ]
}

/// What a request for a snapshot is answered: status, headers and body.
pub open spec fn snapshot_answer(
    body: Seq<u8>,
    if_none_match: Option<Seq<char>>,
    timing: Seq<char>,
) -> (u16, Seq<(Seq<char>, Seq<char>)>, Seq<u8>) {
    let etag = frontend_routes::entity_tag(body);
    let shared = snapshot_headers(etag, timing);
    if if_none_match is Some && holds_tag(if_none_match->0, etag) {
        (304, shared, Seq::empty())
    } else {
        (200, seq![("content-type"@, "application/json"@)] + shared, body)
    }
}

/// What the application shows a user: the catalog, as JSON, and the user's permissions.
#[derive(Debug)]
pub struct ApplicationSnapshot {
    pub catalog: String,
    pub permissions: Vec<String>,
}

/// An application snapshot, as text.
pub ghost struct ApplicationText {
    pub catalog: Seq<char>,
    pub permissions: Seq<Seq<char>>,
}

impl View for ApplicationSnapshot {
    type V = ApplicationText;

    open spec fn view(&self) -> ApplicationText {
        ApplicationText { catalog: self.catalog@, permissions: text::texts(self.permissions@) }
    }
}

/// An application snapshot, as text, where there is one.
pub open spec fn seen(snapshot: Option<&ApplicationSnapshot>) -> Option<ApplicationText> {
    match snapshot {
        Some(snapshot) => Some(snapshot@),
        None => None,
    }
}

/// An application snapshot as JSON; a request without a session has none.
pub open spec fn application_json(snapshot: Option<ApplicationText>) -> Seq<char> {
    match snapshot {
        None => "null"@,
        Some(snapshot) => "{\"catalog\":"@ + snapshot.catalog + ",\"permissions\":"@
            + json::list_text(snapshot.permissions) + "}"@,
    }
}

/// The body that tells an application snapshot.
pub open spec fn snapshot_body(snapshot: Option<ApplicationText>) -> Seq<u8> {
    vstd::utf8::encode_utf8("{\"data\":"@ + application_json(snapshot) + "}"@)
}

/// A session that ended, other permissions or another catalog show in the body.
proof fn lemma_bodies_differ(first: Option<ApplicationText>, second: Option<ApplicationText>)
    requires
        snapshot_body(first) == snapshot_body(second),
    ensures
        first is Some == second is Some,
        first is Some && first->0.catalog == second->0.catalog ==> first->0.permissions
            == second->0.permissions,
        first is Some && first->0.permissions == second->0.permissions ==> first->0.catalog
            == second->0.catalog,
{
    reveal_strlit("{\"data\":");
    reveal_strlit("null");
    reveal_strlit("}");
    reveal_strlit("{\"catalog\":");
    let (one, two) = (application_json(first), application_json(second));
    let (begun, ended) = ("{\"data\":"@ + one + "}"@, "{\"data\":"@ + two + "}"@);
    vstd::utf8::encode_utf8_decode_utf8(begun);
    vstd::utf8::encode_utf8_decode_utf8(ended);
    assert(begun == ended);
    assert(begun[8] == one[0]);
    assert(ended[8] == two[0]);
    assert(one =~= begun.subrange(8, begun.len() - 1));
    assert(two =~= ended.subrange(8, ended.len() - 1));
    if first is Some && second is Some {
        let (head, middle) = ("{\"catalog\":"@, ",\"permissions\":"@);
        let (l, r) = (first->0, second->0);
        let (left, right) = (json::list_text(l.permissions), json::list_text(r.permissions));
        if l.catalog == r.catalog {
            let start = (head + l.catalog + middle).len() as int;
            assert(left + "}"@ =~= one.skip(start));
            assert(right + "}"@ =~= two.skip(start));
            json::lemma_lists_apart(l.permissions, r.permissions, "}"@, "}"@);
        }
        if l.permissions == r.permissions {
            let end = one.len() - (middle + left + "}"@).len();
            assert(l.catalog =~= one.subrange(head.len() as int, end));
            assert(r.catalog =~= two.subrange(head.len() as int, end));
        }
    }
}

/// Of two requests for a snapshot, the second may send back the tag that it got from the first.
/// While the user sees the same catalog and has the same permissions it is told that its copy is
/// current. After a change of permissions, a switch of tenants that shows in the catalog, or a
/// logout the body is another. Once the body has another tag, the request gets the new snapshot, or
/// after a logout none. No answer may be kept without asking again.
pub proof fn lemma_tag_over_two_requests(
    first: Option<ApplicationText>,
    second: Option<ApplicationText>,
    first_timing: Seq<char>,
    second_timing: Seq<char>,
)
    ensures
        ({
            let tag = frontend_routes::entity_tag(snapshot_body(first));
            let sent = snapshot_answer(snapshot_body(first), None, first_timing);
            let again = snapshot_answer(snapshot_body(second), Some(tag), second_timing);
            let stale = frontend_routes::entity_tag(snapshot_body(second)) != tag;
            &&& sent.0 == 200 && sent.2 == snapshot_body(first)
            &&& sent.1.contains(("etag"@, tag))
            &&& sent.1.contains(("cache-control"@, "private, no-store"@))
            &&& again.1.contains(("cache-control"@, "private, no-store"@))
            &&& second == first ==> again.0 == 304 && again.2.len() == 0
            &&& stale ==> again.0 == 200 && again.2 == snapshot_body(second)
            &&& first is Some && second is None ==> snapshot_body(second) != snapshot_body(first)
            &&& first is Some && second is Some && first->0.catalog == second->0.catalog
                && first->0.permissions != second->0.permissions ==> snapshot_body(second)
                != snapshot_body(first)
            &&& first is Some && second is Some && first->0.permissions == second->0.permissions
                && first->0.catalog != second->0.catalog ==> snapshot_body(second)
                != snapshot_body(first)
            &&& stale && second is None ==> again.2 == vstd::utf8::encode_utf8(
                "{\"data\":null}"@,
            )
        }),
{
    let body = snapshot_body(first);
    let tag = frontend_routes::entity_tag(body);
    frontend_routes::lemma_tag_names_itself(body);
    assert(text::split_on(tag, ',')[0] == tag);
    assert(holds_tag(tag, tag));
    let sent = snapshot_answer(body, None, first_timing);
    assert(sent.1[3] == ("etag"@, tag));
    assert(sent.1[1] == ("cache-control"@, "private, no-store"@));
    let again = snapshot_answer(snapshot_body(second), Some(tag), second_timing);
    let shared = snapshot_headers(
        frontend_routes::entity_tag(snapshot_body(second)),
        second_timing,
    );
    assert(shared[0] == ("cache-control"@, "private, no-store"@));
    if again.0 == 304 {
        assert(again.1[0] == shared[0]);
    } else {
        assert(again.1[1] == shared[0]);
    }
    reveal_strlit("{\"data\":");
    reveal_strlit("null");
    reveal_strlit("}");
    reveal_strlit("{\"data\":null}");
    assert("{\"data\":"@ + application_json(None) + "}"@ =~= "{\"data\":null}"@);
    if snapshot_body(second) == body {
        lemma_bodies_differ(first, second);
    }
}

fn write_application(snapshot: Option<&ApplicationSnapshot>) -> (json: String)
    ensures
        json@ == application_json(seen(snapshot)),
{
    match snapshot {
        None => "null".to_owned(),
        Some(snapshot) => {
            let permissions = outside::write_list(&snapshot.permissions);
            let mut json = "{\"catalog\":".to_owned();
            json.append(snapshot.catalog.as_str());
            json.append(",\"permissions\":");
            json.append(permissions.as_str());
            json.append("}");
            json
        },
    }
}

/// What the start document holds: an application snapshot that no tag confirms.
pub fn start_json(snapshot: Option<&ApplicationSnapshot>) -> (json: String)
    ensures
        json@ == "{\"snapshot\":"@ + application_json(seen(snapshot)) + ",\"etag\":null}"@,
{
    let application = write_application(snapshot);
    let mut json = "{\"snapshot\":".to_owned();
    json.append(application.as_str());
    json.append(",\"etag\":null}");
    json
}

/// Answers with the snapshot of the session that a request has, or confirms the copy that the
/// client holds.
pub fn bootstrap(
    snapshot: Option<&ApplicationSnapshot>,
    if_none_match: Option<&str>,
    timing: &str,
) -> (reply: Reply)
    ensures
        (reply.status, model::header_texts(reply.headers@), reply.body@) == snapshot_answer(
            snapshot_body(seen(snapshot)),
            text::optional_str(if_none_match),
            timing@,
        ),
{
    let application = write_application(snapshot);
    let mut json = "{\"data\":".to_owned();
    json.append(application.as_str());
    json.append("}");
    let body = json.as_str().as_bytes_vec();
    let etag = frontend_routes::etag_of(body.as_slice());
    let unchanged = match if_none_match {
        Some(header) => names_tag(header, etag.as_str()),
        None => false,
    };
    let mut headers: Vec<Header> = Vec::new();
    if !unchanged {
        headers.push(model::header("content-type", "application/json"));
    }
    headers.push(model::header("cache-control", "private, no-store"));
    headers.push(model::header("vary", "Cookie"));
    headers.push(model::header("etag", etag.as_str()));
    headers.push(model::header("server-timing", timing));
    let ghost shared = snapshot_headers(etag@, timing@);
    if unchanged {
        assert(model::header_texts(headers@) =~= shared);
        let empty: Vec<u8> = Vec::new();
        assert(empty@ =~= Seq::<u8>::empty());
        Reply { status: 304, headers, body: empty }
    } else {
        assert(model::header_texts(headers@) =~= seq![("content-type"@, "application/json"@)]
            + shared);
        Reply { status: 200, headers, body }
    }
}

// Laws

/// A client whose header names the tag of the snapshot is told that its copy is current and gets
/// nothing else; any other client gets the snapshot. Every answer names the tag and may not be
/// kept.
pub proof fn lemma_snapshot_is_sent_unless_named(body: Seq<u8>, if_none_match: Option<Seq<char>>,
    timing: Seq<char>)
    ensures
        ({
            let tag = frontend_routes::entity_tag(body);
            let answer = snapshot_answer(body, if_none_match, timing);
            let named = if_none_match is Some
                && exists|i: int| 0 <= i < text::split_on(if_none_match->0, ',').len()
                && text::trimmed(#[trigger] text::split_on(if_none_match->0, ',')[i]) == tag;
            &&& answer.0 == if named { 304u16 } else { 200u16 }
            &&& named ==> answer.2.len() == 0
            &&& !named ==> answer.2 == body
                && answer.1.contains(("content-type"@, "application/json"@))
            &&& answer.1.contains(("cache-control"@, "private, no-store"@))
            &&& answer.1.contains(("vary"@, "Cookie"@))
            &&& answer.1.contains(("etag"@, tag))
            &&& answer.1.contains(("server-timing"@, timing))
        }),
{
    let tag = frontend_routes::entity_tag(body);
    let answer = snapshot_answer(body, if_none_match, timing);
    let shared = snapshot_headers(tag, timing);
    let from: int = if answer.0 == 304 {
        0
    } else {
        1
    };
    assert(answer.1[from] == shared[0]);
    assert(answer.1[from + 1] == shared[1]);
    assert(answer.1[from + 2] == shared[2]);
    assert(answer.1[from + 3] == shared[3]);
    if answer.0 == 200 {
        assert(answer.1[0] == ("content-type"@, "application/json"@));
    }
}

/// The body tells the catalog and the permissions, or that there is no session.
pub proof fn lemma_what_the_body_tells(catalog: Seq<char>, permissions: Seq<Seq<char>>)
    ensures
        snapshot_body(None) == vstd::utf8::encode_utf8("{\"data\":null}"@),
        snapshot_body(Some(ApplicationText { catalog, permissions }))
            == vstd::utf8::encode_utf8("{\"data\":"@ + ("{\"catalog\":"@ + catalog
            + ",\"permissions\":"@ + json::list_text(permissions) + "}"@) + "}"@),
{
    reveal_strlit("{\"data\":");
    reveal_strlit("null");
    reveal_strlit("}");
    reveal_strlit("{\"data\":null}");
    assert("{\"data\":"@ + application_json(None) + "}"@ =~= "{\"data\":null}"@);
}

/// A snapshot tells its catalog and its permissions, and no session tells nothing.
pub proof fn lemma_what_is_seen(snapshot: ApplicationSnapshot)
    ensures
        seen(None) is None,
        seen(Some(&snapshot)) is Some,
        seen(Some(&snapshot))->0.catalog == snapshot.catalog@,
        seen(Some(&snapshot))->0.permissions == text::texts(snapshot.permissions@),
{
}

} // verus!
