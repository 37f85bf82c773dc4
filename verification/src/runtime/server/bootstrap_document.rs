//! The start document, with the client's first snapshot inside it.
use vstd::prelude::*;

use crate::html;
use crate::html::HeadFault;
use crate::outside;
use crate::runtime::model;
use crate::runtime::model::Header;
use crate::runtime::server::frontend_document;
use crate::runtime::server::http_error;
use crate::runtime::server::http_error::Reply;
use crate::text;

verus! {

/// The largest start document that is read.
pub const MAX_DOCUMENT_BYTES: usize = 1048576;

/// The element that holds a snapshot.
pub const SNAPSHOT_MARKUP: &'static str = "<script id='aio-startup-snapshot' type='application/json'></script>";

/// Why a snapshot cannot be put into a document.
#[derive(Clone, Debug, PartialEq, Eq)]
pub enum SnapshotFault {
    NotText(String),
    Head(HeadFault),
}

/// A snapshot to put into the start document.
#[derive(Debug)]
pub struct Snapshot {
    pub json: String,
    pub timing: String,
}

/// Whether a request is none for a document.
pub open spec fn passes(method: &str, path: &str, yes: bool) -> bool {
    yes == (method@ != "GET"@ || "/assets/"@.is_prefix_of(path@) || "/wasm/"@.is_prefix_of(
        path@,
    ))
}

/// Whether a request is none for a document: any method but GET, and the paths of assets.
pub fn passes_through(method: &str, path: &str) -> (yes: bool)
    ensures
        passes(method, path, yes),
{
    !text::same(method, "GET") || text::starts_with(path, "/assets/") || text::starts_with(
        path,
        "/wasm/",
    )
}

/// The headers with which a document is requested: without the conditions under which it would
/// not be sent.
pub fn unconditional(headers: Vec<Header>) -> (rest: Vec<Header>)
    ensures
        model::header_texts(rest@) == http_error::headers_without(
            http_error::headers_without(model::header_texts(headers@), "if-modified-since"@),
            "if-none-match"@,
        ),
{
    let headers = http_error::remove_header(headers, "if-modified-since");
    http_error::remove_header(headers, "if-none-match")
}

/// Whether an answer is a document.
pub open spec fn documents(status: u16, content_type: Option<&[u8]>, yes: bool) -> bool {
    yes == (status == 200 && content_type is Some && vstd::utf8::encode_utf8(
        "text/html"@,
    ).is_prefix_of(content_type->0@))
}

/// Whether an answer is a document: a success whose type begins as HTML's does.
pub fn is_document(status: u16, content_type: Option<&[u8]>) -> (yes: bool)
    ensures
        documents(status, content_type, yes),
{
    match content_type {
        Some(content_type) => {
            let prefix = "text/html".as_bytes();
            if status != 200 || content_type.len() < prefix.len() {
                return false;
            }
            let start = vstd::slice::slice_subrange(content_type, 0, prefix.len());
            text::same_bytes(start, prefix)
        },
        None => false,
    }
}

/// A JSON text in which no `<` is written as it is.
pub open spec fn escaped(json: Seq<char>) -> Seq<char>
    decreases json.len(),
{
    if json.len() == 0 {
        Seq::empty()
    } else if json.last() == '<' {
        escaped(json.drop_last()) + seq!['\\', 'u', '0', '0', '3', 'c']
    } else {
        escaped(json.drop_last()).push(json.last())
    }
}

/// An escaped text holds no `<`, so it cannot end the script element that it stands in.
pub proof fn lemma_escaped(json: Seq<char>)
    ensures
        !escaped(json).contains('<'),
        escaped(json).len() >= json.len(),
        !json.contains('<') ==> escaped(json) == json,
    decreases json.len(),
{
    if json.len() > 0 {
        let front = json.drop_last();
        lemma_escaped(front);
        let all = escaped(json);
        if all.contains('<') {
            let k = choose|k: int| 0 <= k < all.len() && all[k] == '<';
            if k < escaped(front).len() {
                assert(escaped(front)[k] == '<');
            }
        }
        if !json.contains('<') {
            assert(json[json.len() - 1] != '<');
            assert forall|k: int| 0 <= k < front.len() implies front[k] != '<' by {
                assert(json[k] == front[k]);
            }
            assert(all =~= json);
        }
    }
}

/// Writes every `<` of a JSON text as an escape.
pub fn escape(json: &str) -> (safe: String)
    ensures
        safe@ == escaped(json@),
        !safe@.contains('<'),
{
    let chars = text::chars_of(json);
    let mut safe = String::new();
    let mut i: usize = 0;
    while i < chars.len()
        invariant
            i <= chars@.len(),
            chars@ == json@,
            safe@ == escaped(json@.take(i as int)),
        decreases chars@.len() - i,
    {
        assert(json@.take(i as int + 1).drop_last() =~= json@.take(i as int));
        let ghost before = safe@;
        let c = chars[i];
        if c == '<' {
            safe.push('\\');
            safe.push('u');
            safe.push('0');
            safe.push('0');
            safe.push('3');
            safe.push('c');
            assert(safe@ =~= before + seq!['\\', 'u', '0', '0', '3', 'c']);
        } else {
            safe.push(c);
        }
        i += 1;
    }
    assert(json@.take(i as int) =~= json@);
    proof {
        lemma_escaped(json@);
    }
    safe
}

/// A start document with a snapshot's JSON in a script at the start of its head.
pub open spec fn annotated(html: Seq<u8>, json: Seq<char>) -> Result<Seq<u8>, Seq<char>> {
    match frontend_document::decoded(html) {
        Err(told) => Err(told),
        Ok(source) => match html::annotated(source, SNAPSHOT_MARKUP@, escaped(json)) {
            Err(fault) => Err(head_text(fault)),
            Ok(document) => Ok(vstd::utf8::encode_utf8(document)),
        },
    }
}

/// The text shown for a head into which nothing can be put.
pub open spec fn head_text(fault: HeadFault) -> Seq<char> {
    match fault {
        HeadFault::TooComplex => "首页过于复杂"@,
        HeadFault::HeadMissing => "首页缺少 head"@,
        HeadFault::BaseMissing => "首页缺少 base"@,
        HeadFault::ScriptMissing => "创建首页快照失败"@,
    }
}

/// Puts a snapshot's JSON at the start of a document's head.
pub fn render(html: &[u8], json: &str) -> (outcome: Result<Vec<u8>, SnapshotFault>)
    ensures
        match outcome {
            Ok(bytes) => annotated(html@, json@) matches Ok(expected) && expected == bytes@,
            Err(fault) => annotated(html@, json@) matches Err(expected) && expected == fault.text(),
        },
        outcome matches Ok(bytes) ==> exists|served: Seq<char>| #[trigger]
            html::head_begins_with(served, "script"@) && vstd::utf8::encode_utf8(served) == bytes@,
{
    let source = match outside::utf8_text(html) {
        Ok(source) => source,
        Err(told) => return Err(SnapshotFault::NotText(told)),
    };
    let safe = escape(json);
    match html::annotate(source, SNAPSHOT_MARKUP, safe.as_str()) {
        Ok(document) => Ok(document.as_str().as_bytes_vec()),
        Err(fault) => Err(SnapshotFault::Head(fault)),
    }
}

impl SnapshotFault {
    /// The text shown for the fault.
    pub open spec fn text(&self) -> Seq<char> {
        match self {
            SnapshotFault::NotText(told) => told@,
            SnapshotFault::Head(fault) => head_text(*fault),
        }
    }
}

/// The headers of a start document: nothing that lets a client or a proxy keep it.
pub open spec fn document_headers(headers: Seq<(Seq<char>, Seq<char>)>) -> Seq<
    (Seq<char>, Seq<char>),
> {
    let fresh = http_error::headers_without(headers, "cache-control"@).push(
        ("cache-control"@, "private, no-store"@),
    ).push(("vary"@, "Cookie"@));
    http_error::headers_without(
        http_error::headers_without(
            http_error::headers_without(fresh, "last-modified"@),
            "etag"@,
        ),
        "content-length"@,
    )
}

/// The headers of a start document.
fn private_headers(headers: Vec<Header>) -> (rest: Vec<Header>)
    ensures
        model::header_texts(rest@) == document_headers(model::header_texts(headers@)),
{
    let ghost all = model::header_texts(headers@);
    let mut fresh = http_error::remove_header(headers, "cache-control");
    let ghost cleared = model::header_texts(fresh@);
    fresh.push(model::header("cache-control", "private, no-store"));
    fresh.push(model::header("vary", "Cookie"));
    assert(model::header_texts(fresh@) =~= cleared.push(
        ("cache-control"@, "private, no-store"@),
    ).push(("vary"@, "Cookie"@)));
    let fresh = http_error::remove_header(fresh, "last-modified");
    let fresh = http_error::remove_header(fresh, "etag");
    http_error::remove_header(fresh, "content-length")
}

/// The document with the snapshot inside, where there is one and the document takes it.
pub open spec fn embedded(bytes: Seq<u8>, snapshot: Option<Snapshot>) -> Option<Seq<u8>> {
    match snapshot {
        None => None,
        Some(snapshot) => match annotated(bytes, snapshot.json@) {
            Ok(document) => Some(document),
            Err(_) => None,
        },
    }
}

/// Answers with the start document: with the snapshot inside where there is one and the document
/// takes it, and as it is otherwise. A document that could not be read is an error.
pub fn document(headers: Vec<Header>, bytes: Option<Vec<u8>>, snapshot: Option<Snapshot>) -> (reply:
    Reply)
    ensures
        ({
            let fresh = document_headers(model::header_texts(headers@));
            match bytes {
                None => reply.status == 500 && reply.headers@.len() == 0 && reply.body@.len() == 0,
                Some(bytes) => match embedded(bytes@, snapshot) {
                    Some(html) => {
                        &&& reply.status == 200
                        &&& reply.body@ == html
                        &&& model::header_texts(reply.headers@) == http_error::headers_without(
                            fresh,
                            "server-timing"@,
                        ).push(("server-timing"@, snapshot->0.timing@))
                    },
                    None => {
                        &&& reply.status == 200
                        &&& reply.body == bytes
                        &&& model::header_texts(reply.headers@) == fresh
                    },
                },
            }
        }),
{
    let bytes = match bytes {
        Some(bytes) => bytes,
        None => return Reply { status: 500, headers: Vec::new(), body: Vec::new() },
    };
    let headers = private_headers(headers);
    let snapshot = match snapshot {
        Some(snapshot) => snapshot,
        None => return Reply { status: 200, headers, body: bytes },
    };
    match render(bytes.as_slice(), snapshot.json.as_str()) {
        Ok(html) => {
            let mut headers = http_error::remove_header(headers, "server-timing");
            let ghost rest = model::header_texts(headers@);
            headers.push(model::header("server-timing", snapshot.timing.as_str()));
            assert(model::header_texts(headers@) =~= rest.push(
                ("server-timing"@, snapshot.timing@),
            ));
            Reply { status: 200, headers, body: html }
        },
        Err(_) => Reply { status: 200, headers, body: bytes },
    }
}

// Laws

/// Every `<` is written as its escape, and every other character as itself.
pub proof fn lemma_only_brackets_are_escaped(json: Seq<char>, next: char)
    ensures
        escaped(Seq::<char>::empty()).len() == 0,
        next == '<' ==> escaped(json.push(next)) == escaped(json)
            + seq!['\\', 'u', '0', '0', '3', 'c'],
        next != '<' ==> escaped(json.push(next)) == escaped(json).push(next),
{
    assert(json.push(next).drop_last() =~= json);
}

/// The start document holds the snapshot, escaped, in a script of its own at the start of its head;
/// one that takes no script, or is no text, is sent without it.
pub proof fn lemma_snapshot_is_embedded(bytes: Seq<u8>, snapshot: Snapshot)
    ensures
        ({
            let source = vstd::utf8::decode_utf8(bytes);
            let served = html::annotated(
                source,
                "<script id='aio-startup-snapshot' type='application/json'></script>"@,
                escaped(snapshot.json@),
            );
            let text = vstd::utf8::valid_utf8(bytes);
            &&& text && served is Ok ==> embedded(bytes, Some(snapshot)) == Some(
                vstd::utf8::encode_utf8(served->Ok_0),
            )
            &&& !text || served is Err ==> embedded(bytes, Some(snapshot)) is None
            &&& embedded(bytes, None) is None
        }),
{
}

/// A start document may not be kept, whatever the headers said: it is private, it differs by
/// cookie, and no tag, date or length of the file it came from is handed on. Every other header is.
pub proof fn lemma_start_document_is_not_kept(headers: Seq<(Seq<char>, Seq<char>)>,
    header: (Seq<char>, Seq<char>))
    ensures
        ({
            let fresh = document_headers(headers);
            &&& fresh.contains(("cache-control"@, "private, no-store"@))
            &&& fresh.contains(("vary"@, "Cookie"@))
            &&& fresh.contains(header) ==> header.0 != "last-modified"@ && header.0 != "etag"@
                && header.0 != "content-length"@
            &&& fresh.contains(header) && header.0 == "cache-control"@
                ==> header.1 == "private, no-store"@
            &&& headers.contains(header) && header.0 != "cache-control"@
                && header.0 != "last-modified"@ && header.0 != "etag"@
                && header.0 != "content-length"@ ==> fresh.contains(header)
            &&& fresh.contains(header) && header != ("cache-control"@, "private, no-store"@)
                && header != ("vary"@, "Cookie"@) ==> headers.contains(header)
        }),
{
    reveal_strlit("cache-control");
    reveal_strlit("vary");
    reveal_strlit("last-modified");
    reveal_strlit("etag");
    reveal_strlit("content-length");
    assert("cache-control"@.len() == 13 && "vary"@.len() == 4 && "last-modified"@.len() == 13
        && "etag"@.len() == 4 && "content-length"@.len() == 14);
    assert("cache-control"@[0] == 'c' && "last-modified"@[0] == 'l');
    assert("vary"@[0] == 'v' && "etag"@[0] == 'e');
    let kept = http_error::headers_without(headers, "cache-control"@);
    let (control, vary) = (("cache-control"@, "private, no-store"@), ("vary"@, "Cookie"@));
    let fresh = kept.push(control).push(vary);
    let dated = http_error::headers_without(fresh, "last-modified"@);
    let tagged = http_error::headers_without(dated, "etag"@);
    http_error::lemma_headers_without(headers, "cache-control"@);
    http_error::lemma_headers_without(fresh, "last-modified"@);
    http_error::lemma_headers_without(dated, "etag"@);
    http_error::lemma_headers_without(tagged, "content-length"@);
    assert(fresh[kept.len() as int] == control);
    assert(fresh[kept.len() as int + 1] == vary);
    assert(fresh.contains(control) && fresh.contains(vary));
    assert(dated.contains(control) && dated.contains(vary));
    assert(tagged.contains(control) && tagged.contains(vary));
    if fresh.contains(header) {
        let k = choose|k: int| 0 <= k < fresh.len() && fresh[k] == header;
        if k < kept.len() {
            assert(kept[k] == header);
            assert(kept.contains(header));
        }
    }
    if kept.contains(header) {
        let k = choose|k: int| 0 <= k < kept.len() && kept[k] == header;
        assert(fresh[k] == header);
    }
    assert(dated.contains(header) <==> fresh.contains(header) && header.0 != "last-modified"@);
    assert(tagged.contains(header) <==> dated.contains(header) && header.0 != "etag"@);
}

/// Each of these is told in its own words.
pub proof fn lemma_told_snapshot_fault(fault: SnapshotFault)
    ensures
        fault is NotText ==> fault.text() == fault->NotText_0@,
{
}

/// Every request but a GET passes through, and so does a GET of an asset; any other is for the
/// start document.
pub proof fn lemma_which_requests_pass_through(method: &str, path: &str, yes: bool)
    requires
        passes(method, path, yes),
    ensures
        method@ != "GET"@ ==> yes,
        "/assets/"@.is_prefix_of(path@) || "/wasm/"@.is_prefix_of(path@) ==> yes,
        method@ == "GET"@ && !"/assets/"@.is_prefix_of(path@) && !"/wasm/"@.is_prefix_of(path@)
            ==> !yes,
{
}

/// A document is a success with the type of HTML, whatever follows the type.
pub proof fn lemma_which_answers_are_documents(status: u16, content_type: Option<&[u8]>, yes: bool)
    requires
        documents(status, content_type, yes),
    ensures
        yes ==> status == 200,
        content_type is None ==> !yes,
        status == 200 && content_type is Some ==> (yes
            <==> vstd::utf8::encode_utf8("text/html"@).is_prefix_of(content_type->0@)),
{
}

} // verus!
