//! The documents of embedded front ends: how they are framed, what they may load and from which
//! origin they are served.
use vstd::prelude::*;

use crate::html;
use crate::html::HeadFault;
use crate::outside;
use crate::outside::UrlView;
use crate::runtime::server::process;
use crate::steps;
use crate::text;

verus! {

/// The path under which the communication bridge is served.
pub const BRIDGE_PATH: &'static str = "__aio_bridge.js";

/// The attribute of the bridge script that holds the token.
pub const TOKEN_ATTRIBUTE: &'static str = "data-token";

/// Why an entry document cannot be framed.
#[derive(Clone, Debug, PartialEq, Eq)]
pub enum EntryDocumentFault {
    NotText(String),
    Head(HeadFault),
    TooLarge,
}

/// Why an origin is refused.
#[derive(Clone, Debug, PartialEq, Eq)]
pub enum OriginFault {
    Unparsable(String),
    NotSecure,
    NotBare,
}

// Entries

/// The directory part of a path, with its closing slash; nothing where there is no slash.
pub open spec fn directory(path: Seq<char>) -> Seq<char>
    decreases path.len(),
{
    if path.len() == 0 || path.last() == '/' {
        path
    } else {
        directory(path.drop_last())
    }
}

/// A directory is empty or ends with a slash, and what follows it in the path holds none.
pub proof fn lemma_directory(path: Seq<char>)
    ensures
        directory(path).len() <= path.len(),
        directory(path) == path.take(directory(path).len() as int),
        directory(path).len() > 0 ==> directory(path).last() == '/',
        forall|i: int| directory(path).len() <= i < path.len() ==> path[i] != '/',
    decreases path.len(),
{
    if path.len() == 0 || path.last() == '/' {
        assert(path.take(path.len() as int) =~= path);
    } else {
        let shorter = path.drop_last();
        lemma_directory(shorter);
        assert(directory(path) =~= path.take(directory(path).len() as int));
        assert forall|i: int| directory(path).len() <= i < path.len() implies path[i] != '/' by {
            if i < shorter.len() {
                assert(shorter[i] == path[i]);
            }
        }
    }
}

/// The directory part of `path`, with its closing slash.
pub fn directory_of(path: &str) -> (found: String)
    ensures
        found@ == directory(path@),
{
    let chars = text::chars_of(path);
    let mut end: usize = chars.len();
    assert(chars@.take(end as int) =~= chars@);
    while end > 0 && chars[end - 1] != '/'
        invariant
            end <= chars@.len(),
            directory(chars@) == directory(chars@.take(end as int)),
        decreases end,
    {
        assert(chars@.take(end as int).drop_last() =~= chars@.take(end - 1));
        end -= 1;
    }
    let found = text::text_of(&chars, 0, end);
    assert(found@ =~= chars@.take(end as int));
    found
}

/// The text that bytes encode, or why they are not UTF-8.
pub open spec fn decoded(bytes: Seq<u8>) -> Result<Seq<char>, Seq<char>> {
    if vstd::utf8::valid_utf8(bytes) {
        Ok(vstd::utf8::decode_utf8(bytes))
    } else {
        Err(outside::utf8_error(bytes))
    }
}

/// The text shown for a head into which nothing can be put.
pub open spec fn head_text(fault: HeadFault) -> Seq<char> {
    match fault {
        HeadFault::TooComplex => "前端入口过于复杂"@,
        HeadFault::HeadMissing => "前端入口缺少 head"@,
        HeadFault::BaseMissing => "创建前端 base 失败"@,
        HeadFault::ScriptMissing => "创建通信桥失败"@,
    }
}

/// The bytes of a framed document that is not too large, or the text shown for the fault.
pub open spec fn bounded(framed: Result<Seq<char>, HeadFault>, limit: int) -> Result<
    Seq<u8>,
    Seq<char>,
> {
    match framed {
        Err(fault) => Err(head_text(fault)),
        Ok(framed) => if text::byte_len(framed) > limit {
            Err("前端入口过大"@)
        } else {
            Ok(vstd::utf8::encode_utf8(framed))
        },
    }
}

/// An entry document, as it is served: with a base address at the entry's directory below the
/// prefix in place of its own, and with the bridge script below the prefix, which receives the
/// token, at the start of its head; or the text shown where that cannot be.
pub open spec fn framed_entry(
    html: Seq<u8>,
    prefix: Seq<char>,
    entry: Seq<char>,
    token: Seq<char>,
    limit: int,
) -> Result<Seq<u8>, Seq<char>> {
    match decoded(html) {
        Err(told) => Err(steps::explained("前端入口不是 UTF-8"@, told)),
        Ok(source) => bounded(
            html::framed(
                source,
                prefix + directory(entry),
                prefix + BRIDGE_PATH@,
                TOKEN_ATTRIBUTE@,
                token,
            ),
            limit,
        ),
    }
}

/// Whether a function gave the bytes, or a fault with the text, that are due.
pub open spec fn serves(
    outcome: Result<Vec<u8>, EntryDocumentFault>,
    due: Result<Seq<u8>, Seq<char>>,
) -> bool {
    match outcome {
        Ok(bytes) => due matches Ok(expected) && expected == bytes@,
        Err(fault) => due matches Err(expected) && expected == fault.text(),
    }
}

/// Accepts a framed document that is not too large.
pub fn bounded_entry(framed: Result<String, HeadFault>, limit: usize) -> (outcome: Result<
    Vec<u8>,
    EntryDocumentFault,
>)
    ensures
        match framed {
            Ok(framed) => {
                &&& serves(outcome, bounded(Ok(framed@), limit as int))
                &&& outcome matches Ok(bytes) ==> bytes@ == vstd::utf8::encode_utf8(framed@)
            },
            Err(fault) => serves(outcome, bounded(Err(fault), limit as int)),
        },
{
    let framed = match framed {
        Ok(framed) => framed,
        Err(fault) => return Err(EntryDocumentFault::Head(fault)),
    };
    let bytes = framed.as_str().as_bytes_vec();
    if bytes.len() > limit {
        return Err(EntryDocumentFault::TooLarge);
    }
    Ok(bytes)
}

/// Frames an entry document: relative addresses start at the entry's directory below `prefix`,
/// and the bridge script below `prefix` receives the token.
pub fn render_entry(html: &[u8], prefix: &str, entry: &str, token: &str, limit: usize) -> (outcome:
    Result<Vec<u8>, EntryDocumentFault>)
    ensures
        serves(outcome, framed_entry(html@, prefix@, entry@, token@, limit as int)),
        outcome matches Ok(bytes) ==> exists|served: Seq<char>| #[trigger]
            html::head_begins_with(served, "base"@) && vstd::utf8::encode_utf8(served) == bytes@,
{
    let source = match outside::utf8_text(html) {
        Ok(source) => source,
        Err(told) => return Err(EntryDocumentFault::NotText(told)),
    };
    let folder = directory_of(entry);
    let href = prefix.to_owned().concat(folder.as_str());
    let script = prefix.to_owned().concat(BRIDGE_PATH);
    let framed = html::frame(source, href, script, TOKEN_ATTRIBUTE, token.to_owned());
    bounded_entry(framed, limit)
}

impl EntryDocumentFault {
    /// The text shown for the fault.
    pub open spec fn text(&self) -> Seq<char> {
        match self {
            EntryDocumentFault::NotText(told) => steps::explained("前端入口不是 UTF-8"@, told@),
            EntryDocumentFault::Head(fault) => head_text(*fault),
            EntryDocumentFault::TooLarge => "前端入口过大"@,
        }
    }

    /// The text shown for the fault.
    pub fn message(&self) -> (message: String)
        ensures
            message@ == self.text(),
    {
        let message = match self {
            EntryDocumentFault::NotText(told) => {
                return steps::explain("前端入口不是 UTF-8", told.as_str());
            },
            EntryDocumentFault::Head(HeadFault::TooComplex) => "前端入口过于复杂",
            EntryDocumentFault::Head(HeadFault::HeadMissing) => "前端入口缺少 head",
            EntryDocumentFault::Head(HeadFault::BaseMissing) => "创建前端 base 失败",
            EntryDocumentFault::Head(HeadFault::ScriptMissing) => "创建通信桥失败",
            EntryDocumentFault::TooLarge => "前端入口过大",
        };
        message.to_owned()
    }
}

// Policies

/// The parts of the content policy between which the prefix stands.
pub open spec fn policy_parts() -> Seq<Seq<char>> {
    seq![
        "sandbox allow-scripts; default-src 'none'; script-src 'unsafe-inline' 'unsafe-eval' 'wasm-unsafe-eval' "@,
        "; connect-src "@,
        "; style-src 'unsafe-inline' "@,
        "; img-src data: blob: "@,
        "; font-src data: "@,
        "; frame-src 'none'; object-src 'none'; worker-src 'none'; form-action 'none'; base-uri "@,
        "; frame-ancestors 'self'"@,
    ]
}

/// What a framed document may do: run scripts in a sandbox, and load from the prefix alone.
pub fn content_policy(prefix: &str) -> (policy: String)
    ensures
        policy@ == text::joined(policy_parts(), prefix@),
{
    let parts: Vec<String> = vec![
        "sandbox allow-scripts; default-src 'none'; script-src 'unsafe-inline' 'unsafe-eval' 'wasm-unsafe-eval' ".to_owned(),
        "; connect-src ".to_owned(),
        "; style-src 'unsafe-inline' ".to_owned(),
        "; img-src data: blob: ".to_owned(),
        "; font-src data: ".to_owned(),
        "; frame-src 'none'; object-src 'none'; worker-src 'none'; form-action 'none'; base-uri ".to_owned(),
        "; frame-ancestors 'self'".to_owned(),
    ];
    assert(text::texts(parts@) =~= policy_parts());
    text::join(&parts, prefix)
}

/// The directives of the content policy, in order, each with what it begins with.
pub open spec fn directive_starts() -> Seq<Seq<char>> {
    seq![
        "sandbox allow-scripts"@,
        "default-src 'none'"@,
        "script-src 'unsafe-inline' 'unsafe-eval' 'wasm-unsafe-eval' "@,
        "connect-src "@,
        "style-src 'unsafe-inline' "@,
        "img-src data: blob: "@,
        "font-src data: "@,
        "frame-src 'none'"@,
        "object-src 'none'"@,
        "worker-src 'none'"@,
        "form-action 'none'"@,
        "base-uri "@,
        "frame-ancestors 'self'"@,
    ]
}

/// Whether the prefix stands in a directive: in those on scripts, connections, styles, images,
/// fonts and the base address.
pub open spec fn names_prefix(directive: int) -> bool {
    2 <= directive <= 6 || directive == 11
}

/// The directives of the content policy: the prefix stands at the end of those that name it, and
/// nowhere else.
pub open spec fn directives(prefix: Seq<char>) -> Seq<Seq<char>> {
    Seq::new(
        directive_starts().len(),
        |i: int|
            if names_prefix(i) {
                directive_starts()[i] + prefix
            } else {
                directive_starts()[i]
            },
    )
}

proof fn lemma_joined_step<T>(parts: Seq<Seq<T>>, separator: Seq<T>, count: int)
    requires
        0 < count < parts.len(),
    ensures
        text::joined(parts.take(count + 1), separator) == text::joined(parts.take(count), separator)
            + separator + parts[count],
{
    assert(parts.take(count + 1).drop_last() =~= parts.take(count));
}

proof fn lemma_policy_literals()
    ensures
        policy_parts()[0] == directive_starts()[0] + "; "@ + directive_starts()[1] + "; "@
            + directive_starts()[2],
        policy_parts()[1] == "; "@ + directive_starts()[3],
        policy_parts()[2] == "; "@ + directive_starts()[4],
        policy_parts()[3] == "; "@ + directive_starts()[5],
        policy_parts()[4] == "; "@ + directive_starts()[6],
        policy_parts()[5] == "; "@ + directive_starts()[7] + "; "@ + directive_starts()[8]
            + "; "@ + directive_starts()[9] + "; "@ + directive_starts()[10] + "; "@
            + directive_starts()[11],
        policy_parts()[6] == "; "@ + directive_starts()[12],
{
    reveal_strlit("; ");
    reveal_strlit("sandbox allow-scripts");
    reveal_strlit("default-src 'none'");
    reveal_strlit("script-src 'unsafe-inline' 'unsafe-eval' 'wasm-unsafe-eval' ");
    reveal_strlit("connect-src ");
    reveal_strlit("style-src 'unsafe-inline' ");
    reveal_strlit("img-src data: blob: ");
    reveal_strlit("font-src data: ");
    reveal_strlit("frame-src 'none'");
    reveal_strlit("object-src 'none'");
    reveal_strlit("worker-src 'none'");
    reveal_strlit("form-action 'none'");
    reveal_strlit("base-uri ");
    reveal_strlit("frame-ancestors 'self'");
    reveal_strlit("sandbox allow-scripts; default-src 'none'; script-src 'unsafe-inline' 'unsafe-eval' 'wasm-unsafe-eval' ");
    reveal_strlit("; connect-src ");
    reveal_strlit("; style-src 'unsafe-inline' ");
    reveal_strlit("; img-src data: blob: ");
    reveal_strlit("; font-src data: ");
    reveal_strlit("; frame-src 'none'; object-src 'none'; worker-src 'none'; form-action 'none'; base-uri ");
    reveal_strlit("; frame-ancestors 'self'");
    assert(policy_parts()[0] =~= directive_starts()[0] + "; "@ + directive_starts()[1] + "; "@
        + directive_starts()[2]);
    assert(policy_parts()[1] =~= "; "@ + directive_starts()[3]);
    assert(policy_parts()[2] =~= "; "@ + directive_starts()[4]);
    assert(policy_parts()[3] =~= "; "@ + directive_starts()[5]);
    assert(policy_parts()[4] =~= "; "@ + directive_starts()[6]);
    assert(policy_parts()[5] =~= "; "@ + directive_starts()[7] + "; "@ + directive_starts()[8]
        + "; "@ + directive_starts()[9] + "; "@ + directive_starts()[10] + "; "@
        + directive_starts()[11]);
    assert(policy_parts()[6] =~= "; "@ + directive_starts()[12]);
}

proof fn lemma_append_one(start: Seq<char>, gap: Seq<char>, directive: Seq<char>, prefix: Seq<char>)
    ensures
        (start + (gap + directive)) + prefix == start + gap + (directive + prefix),
{
    assert((start + (gap + directive)) + prefix =~= start + gap + (directive + prefix));
}

proof fn lemma_append_two(
    start: Seq<char>,
    gap: Seq<char>,
    first: Seq<char>,
    second: Seq<char>,
    prefix: Seq<char>,
)
    ensures
        (start + gap + first + gap + second) + prefix == start + gap + first + gap + (second
            + prefix),
{
    assert((start + gap + first + gap + second) + prefix =~= start + gap + first + gap + (second
        + prefix));
}

proof fn lemma_append_five(
    start: Seq<char>,
    gap: Seq<char>,
    items: Seq<Seq<char>>,
    prefix: Seq<char>,
)
    ensures
        (start + (gap + items[0] + gap + items[1] + gap + items[2] + gap + items[3] + gap
            + items[4])) + prefix == start + gap + items[0] + gap + items[1] + gap + items[2] + gap
            + items[3] + gap + (items[4] + prefix),
{
    let (a, b, c, d, e) = (items[0], items[1], items[2], items[3], items[4]);
    let left = start + (gap + a + gap + b + gap + c + gap + d + gap + e);
    assert(left =~= start + gap + a + gap + b + gap + c + gap + d + gap + e);
    assert(left + prefix =~= start + gap + a + gap + b + gap + c + gap + d + gap + (e + prefix));
}

proof fn lemma_policy_joined(prefix: Seq<char>)
    ensures
        text::joined(policy_parts(), prefix) == text::joined(directives(prefix), "; "@),
{
    let parts = policy_parts();
    let all = directives(prefix);
    let d = directive_starts();
    let gap = "; "@;
    lemma_policy_literals();
    lemma_joined_step(parts, prefix, 1);
    lemma_joined_step(parts, prefix, 2);
    lemma_joined_step(parts, prefix, 3);
    lemma_joined_step(parts, prefix, 4);
    lemma_joined_step(parts, prefix, 5);
    lemma_joined_step(parts, prefix, 6);
    lemma_joined_step(all, gap, 1);
    lemma_joined_step(all, gap, 2);
    lemma_joined_step(all, gap, 3);
    lemma_joined_step(all, gap, 4);
    lemma_joined_step(all, gap, 5);
    lemma_joined_step(all, gap, 6);
    lemma_joined_step(all, gap, 7);
    lemma_joined_step(all, gap, 8);
    lemma_joined_step(all, gap, 9);
    lemma_joined_step(all, gap, 10);
    lemma_joined_step(all, gap, 11);
    lemma_joined_step(all, gap, 12);
    assert(parts.take(7) =~= parts);
    assert(all.take(13) =~= all);
    assert(parts.take(1) =~= seq![parts[0]]);
    assert(all.take(1) =~= seq![all[0]]);
    lemma_append_two(d[0], gap, d[1], d[2], prefix);
    assert(text::joined(parts.take(1), prefix) + prefix == text::joined(all.take(3), gap));
    lemma_append_one(text::joined(all.take(3), gap), gap, d[3], prefix);
    assert(text::joined(parts.take(2), prefix) + prefix == text::joined(all.take(4), gap));
    lemma_append_one(text::joined(all.take(4), gap), gap, d[4], prefix);
    assert(text::joined(parts.take(3), prefix) + prefix == text::joined(all.take(5), gap));
    lemma_append_one(text::joined(all.take(5), gap), gap, d[5], prefix);
    assert(text::joined(parts.take(4), prefix) + prefix == text::joined(all.take(6), gap));
    lemma_append_one(text::joined(all.take(6), gap), gap, d[6], prefix);
    assert(text::joined(parts.take(5), prefix) + prefix == text::joined(all.take(7), gap));
    lemma_append_five(
        text::joined(all.take(7), gap),
        gap,
        seq![d[7], d[8], d[9], d[10], d[11]],
        prefix,
    );
    assert(text::joined(parts.take(6), prefix) + prefix == text::joined(all.take(12), gap));
    let start = text::joined(all.take(12), gap);
    assert(start + (gap + d[12]) =~= start + gap + d[12]);
}

proof fn lemma_starts_are_single()
    ensures
        forall|i: int| 0 <= i < 13 ==> !(#[trigger] directive_starts()[i]).contains(';'),
{
    reveal_strlit("sandbox allow-scripts");
    reveal_strlit("default-src 'none'");
    reveal_strlit("script-src 'unsafe-inline' 'unsafe-eval' 'wasm-unsafe-eval' ");
    reveal_strlit("connect-src ");
    reveal_strlit("style-src 'unsafe-inline' ");
    reveal_strlit("img-src data: blob: ");
    reveal_strlit("font-src data: ");
    reveal_strlit("frame-src 'none'");
    reveal_strlit("object-src 'none'");
    reveal_strlit("worker-src 'none'");
    reveal_strlit("form-action 'none'");
    reveal_strlit("base-uri ");
    reveal_strlit("frame-ancestors 'self'");
}

/// The policy is its directives with a semicolon and a space between each two neighbours: thirteen
/// of them, of which exactly six name the prefix. No directive holds a semicolon where the prefix
/// holds none. Another prefix changes these six and no other, and frames, objects, workers, forms
/// and whatever no directive names get nothing.
pub proof fn lemma_policy_directives(prefix: Seq<char>, other: Seq<char>)
    ensures
        text::joined(policy_parts(), prefix) == text::joined(directives(prefix), "; "@),
        directives(prefix).len() == 13,
        forall|i: int|
            0 <= i < 13 && !names_prefix(i) ==> #[trigger] directives(prefix)[i] == directives(
                other,
            )[i],
        forall|i: int|
            0 <= i < 13 && names_prefix(i) ==> #[trigger] directives(prefix)[i]
                == directive_starts()[i] + prefix,
        directives(prefix)[1] == "default-src 'none'"@,
        directives(prefix)[7] == "frame-src 'none'"@,
        directives(prefix)[8] == "object-src 'none'"@,
        directives(prefix)[9] == "worker-src 'none'"@,
        directives(prefix)[10] == "form-action 'none'"@,
        !prefix.contains(';') ==> forall|i: int|
            0 <= i < 13 ==> !(#[trigger] directives(prefix)[i]).contains(';'),
{
    lemma_policy_joined(prefix);
    if !prefix.contains(';') {
        assert forall|i: int| 0 <= i < 13 implies !(#[trigger] directives(prefix)[i]).contains(
            ';',
        ) by {
            lemma_starts_are_single();
            let start = directive_starts()[i];
            if directives(prefix)[i].contains(';') {
                let at = choose|k: int|
                    0 <= k < directives(prefix)[i].len() && directives(prefix)[i][k] == ';';
                if at < start.len() {
                    assert(start.contains(start[at]));
                } else {
                    assert(prefix.contains(prefix[at - start.len()]));
                }
            }
        }
    }
}

/// Another prefix takes the place of the first wherever it occurs, which is exactly six times:
/// where a prefix holds a slash and no space, as an address does, nothing else in the policy reads
/// like it.
pub proof fn lemma_policy_of_another_prefix(prefix: Seq<char>, other: Seq<char>)
    requires
        prefix.contains('/'),
        !prefix.contains(' '),
    ensures
        text::replaced(text::joined(policy_parts(), prefix), prefix, other) == text::joined(
            policy_parts(),
            other,
        ),
        text::occurrences(text::joined(policy_parts(), prefix), prefix) == 6,
{
    reveal_strlit("sandbox allow-scripts; default-src 'none'; script-src 'unsafe-inline' 'unsafe-eval' 'wasm-unsafe-eval' ");
    reveal_strlit("; connect-src ");
    reveal_strlit("; style-src 'unsafe-inline' ");
    reveal_strlit("; img-src data: blob: ");
    reveal_strlit("; font-src data: ");
    reveal_strlit("; frame-src 'none'; object-src 'none'; worker-src 'none'; form-action 'none'; base-uri ");
    reveal_strlit("; frame-ancestors 'self'");
    text::lemma_replaced_joined(policy_parts(), prefix, other, '/', ' ');
}

// Origins

/// An address over HTTPS, or over HTTP on the machine itself.
pub open spec fn trustworthy(url: UrlView) -> bool {
    ||| url.scheme == "https"@
    ||| url.scheme == "http"@ && url.host is Some && (url.host->0 == "localhost"@
        || process::is_loopback_address(url.host->0))
}

/// An address of nothing but a scheme, a host and a port.
pub open spec fn bare(url: UrlView) -> bool {
    &&& url.username.len() == 0
    &&& url.password is None
    &&& url.path == "/"@
    &&& url.query is None
    &&& url.fragment is None
}

/// Why a parsed address is refused as an origin.
pub open spec fn origin_refusal(url: Result<UrlView, Seq<char>>) -> Option<Seq<char>> {
    match url {
        Err(told) => Some(steps::explained("AIO_PUBLIC_ORIGIN 无效"@, told)),
        Ok(url) => if !trustworthy(url) {
            Some("前端公开地址必须为 HTTPS 或本机 HTTP"@)
        } else if !bare(url) {
            Some("AIO_PUBLIC_ORIGIN 只能包含协议与主机"@)
        } else {
            None
        },
    }
}

/// The origin that a configured address stands for, or the text shown where it is refused.
pub open spec fn origin_of(configured: Seq<char>) -> Result<Seq<char>, Seq<char>> {
    match origin_refusal(outside::url_parts(configured)) {
        Some(text) => Err(text),
        None => Ok(outside::origin_notation(outside::url_parts(configured)->Ok_0)),
    }
}

/// Checks that a parsed address can be an origin.
pub fn checked_origin(url: Result<outside::UrlParts, String>) -> (outcome: Result<(), OriginFault>)
    ensures
        ({
            let parsed = match url {
                Ok(url) => Ok(url@),
                Err(told) => Err(told@),
            };
            match outcome {
                Ok(()) => origin_refusal(parsed) is None,
                Err(fault) => origin_refusal(parsed) == Some(fault.text()),
            }
        }),
{
    let url = match url {
        Ok(url) => url,
        Err(told) => return Err(OriginFault::Unparsable(told)),
    };
    let local = match &url.host {
        Some(host) => {
            text::same(host.as_str(), "localhost") || match process::parse_address(host.as_str()) {
                Some((a, b, c, d)) => {
                    assert(process::denotes(host@, (a, b, c, d)));
                    a == 127
                },
                None => false,
            }
        },
        None => false,
    };
    if !(text::same(url.scheme.as_str(), "https") || (text::same(url.scheme.as_str(), "http")
        && local)) {
        return Err(OriginFault::NotSecure);
    }
    if !(url.username.as_str().is_empty() && url.password.is_none() && text::same(
        url.path.as_str(),
        "/",
    ) && url.query.is_none() && url.fragment.is_none()) {
        return Err(OriginFault::NotBare);
    }
    Ok(())
}

/// The origin under which front ends are served, from its configured address.
pub fn public_origin(configured: &str) -> (outcome: Result<String, OriginFault>)
    ensures
        match outcome {
            Ok(origin) => origin_of(configured@) matches Ok(expected) && expected == origin@,
            Err(fault) => origin_of(configured@) matches Err(expected) && expected == fault.text(),
        },
{
    match checked_origin(outside::parse_url(configured)) {
        Ok(()) => Ok(outside::origin_text(configured)),
        Err(fault) => Err(fault),
    }
}

impl OriginFault {
    /// The text shown for the fault.
    pub open spec fn text(&self) -> Seq<char> {
        match self {
            OriginFault::Unparsable(told) => steps::explained("AIO_PUBLIC_ORIGIN 无效"@, told@),
            OriginFault::NotSecure => "前端公开地址必须为 HTTPS 或本机 HTTP"@,
            OriginFault::NotBare => "AIO_PUBLIC_ORIGIN 只能包含协议与主机"@,
        }
    }

    /// The text shown for the fault.
    pub fn message(&self) -> (message: String)
        ensures
            message@ == self.text(),
    {
        let message = match self {
            OriginFault::Unparsable(told) => {
                return steps::explain("AIO_PUBLIC_ORIGIN 无效", told.as_str());
            },
            OriginFault::NotSecure => "前端公开地址必须为 HTTPS 或本机 HTTP",
            OriginFault::NotBare => "AIO_PUBLIC_ORIGIN 只能包含协议与主机",
        };
        message.to_owned()
    }
}

// Laws

/// A path is its directory and a name without a slash, and the directory is found.
pub proof fn lemma_folder(folder: Seq<char>, name: Seq<char>)
    requires
        folder.len() == 0 || folder.last() == '/',
        !name.contains('/'),
    ensures
        directory(folder + name) == folder,
{
    let path = folder + name;
    lemma_directory(path);
    let found = directory(path);
    if found.len() > folder.len() {
        assert(found.last() == path[found.len() - 1]);
        assert(path[found.len() - 1] == name[found.len() - 1 - folder.len()]);
        assert(name.contains(name[found.len() - 1 - folder.len()]));
    }
    if found.len() < folder.len() {
        assert(path[folder.len() - 1] == folder.last());
    }
    assert(found =~= folder);
}

/// The entry that is served is the package's own, with the base address of its directory below the
/// prefix and the bridge, which gets the token, in its head; one that grew too large is refused.
pub proof fn lemma_entry_is_framed(source: Seq<char>, bytes: Seq<u8>, prefix: Seq<char>,
    folder: Seq<char>, name: Seq<char>, token: Seq<char>, limit: int)
    requires
        vstd::utf8::valid_utf8(bytes),
        vstd::utf8::decode_utf8(bytes) == source,
        folder.len() == 0 || folder.last() == '/',
        !name.contains('/'),
    ensures
        ({
            let served = html::framed(
                source,
                prefix + folder,
                prefix + "__aio_bridge.js"@,
                "data-token"@,
                token,
            );
            let outcome = framed_entry(bytes, prefix, folder + name, token, limit);
            &&& served is Err ==> outcome is Err
            &&& served is Ok && vstd::utf8::encode_utf8(served->Ok_0).len() > limit
                ==> outcome == Err::<Seq<u8>, Seq<char>>("前端入口过大"@)
            &&& served is Ok && vstd::utf8::encode_utf8(served->Ok_0).len() <= limit
                ==> outcome == Ok::<Seq<u8>, Seq<char>>(vstd::utf8::encode_utf8(served->Ok_0))
        }),
{
    lemma_folder(folder, name);
}

/// Bytes that are no text are refused.
pub proof fn lemma_entry_is_text(bytes: Seq<u8>, prefix: Seq<char>, entry: Seq<char>,
    token: Seq<char>, limit: int)
    requires
        !vstd::utf8::valid_utf8(bytes),
    ensures
        framed_entry(bytes, prefix, entry, token, limit)
            == Err::<Seq<u8>, Seq<char>>("前端入口不是 UTF-8"@ + ": "@ + outside::utf8_error(bytes)),
{
}

/// Front ends are served under an address over HTTPS, or over HTTP on the machine itself, that
/// holds nothing but a scheme, a host and a port.
pub proof fn lemma_accepted_origins(url: UrlView)
    ensures
        ({
            let local = url.host is Some && (url.host->0 == "localhost"@
                || exists|a: u8, b: u8, c: u8, d: u8| #![trigger process::dotted(a, b, c, d)] a
                == 127 && url.host->0 == process::dotted(a, b, c, d));
            let secure = url.scheme == "https"@ || url.scheme == "http"@ && local;
            let bare = url.username.len() == 0 && url.password is None && url.path == "/"@
                && url.query is None && url.fragment is None;
            &&& secure && bare <==> origin_refusal(Ok(url)) is None
            &&& !secure ==> origin_refusal(Ok(url)) == Some("前端公开地址必须为 HTTPS 或本机 HTTP"@)
            &&& secure && !bare ==> origin_refusal(Ok(url)) == Some("AIO_PUBLIC_ORIGIN 只能包含协议与主机"@)
        }),
{
    if url.host is Some {
        let host = url.host->0;
        if process::is_loopback_address(host) {
            let o = choose|o: (u8, u8, u8, u8)| process::denotes(host, o) && o.0 == 127;
            assert(host == process::dotted(o.0, o.1, o.2, o.3));
        }
        assert forall|a: u8, b: u8, c: u8, d: u8|
            #![trigger process::dotted(a, b, c, d)]
            a == 127 && host == process::dotted(a, b, c, d) implies process::is_loopback_address(
            host,
        ) by {
            assert(process::denotes(host, (a, b, c, d)));
        }
    }
}

/// An address that cannot be parsed is refused; one that is accepted is served under its own
/// origin.
pub proof fn lemma_origin_of_an_address(configured: Seq<char>)
    ensures
        outside::url_parts(configured) is Err
            ==> origin_of(configured) == Err::<Seq<char>, Seq<char>>("AIO_PUBLIC_ORIGIN 无效"@
            + ": "@ + outside::url_parts(configured)->Err_0),
        outside::url_parts(configured) is Ok
            && origin_refusal(outside::url_parts(configured)) is None
            ==> origin_of(configured)
            == Ok::<Seq<char>,
            Seq<char>>(outside::origin_notation(outside::url_parts(configured)->Ok_0)),
        outside::url_parts(configured) is Ok
            && origin_refusal(outside::url_parts(configured)) is Some
            ==> origin_of(configured)
            == Err::<Seq<char>, Seq<char>>(origin_refusal(outside::url_parts(configured))->0),
{
}

/// A front end runs scripts in a sandbox and loads from its own prefix alone.
pub proof fn lemma_policy(prefix: Seq<char>)
    ensures
        text::joined(policy_parts(), prefix)
            == "sandbox allow-scripts; default-src 'none'; script-src 'unsafe-inline' 'unsafe-eval' 'wasm-unsafe-eval' "@ + prefix + "; connect-src "@ + prefix + "; style-src 'unsafe-inline' "@ + prefix + "; img-src data: blob: "@ + prefix + "; font-src data: "@ + prefix + "; frame-src 'none'; object-src 'none'; worker-src 'none'; form-action 'none'; base-uri "@ + prefix + "; frame-ancestors 'self'"@,
{
    let parts = policy_parts();
    lemma_joined_step(parts, prefix, 1);
    lemma_joined_step(parts, prefix, 2);
    lemma_joined_step(parts, prefix, 3);
    lemma_joined_step(parts, prefix, 4);
    lemma_joined_step(parts, prefix, 5);
    lemma_joined_step(parts, prefix, 6);
    assert(parts.take(7) =~= parts);
    assert(parts.take(1) =~= seq![parts[0]]);
    assert(text::joined(parts.take(1), prefix) =~= parts[0]);
}

/// Each of these is told in its own words.
pub proof fn lemma_told_entry_document_fault(fault: EntryDocumentFault)
    ensures
        fault is NotText ==> fault.text() == "前端入口不是 UTF-8"@ + ": "@ + fault->NotText_0@,
        fault is TooLarge ==> fault.text() == "前端入口过大"@,
{
}

/// Each of these is told in its own words.
pub proof fn lemma_told_origin_fault(fault: OriginFault)
    ensures
        fault is Unparsable ==> fault.text() == "AIO_PUBLIC_ORIGIN 无效"@ + ": "@
            + fault->Unparsable_0@,
        fault is NotSecure ==> fault.text() == "前端公开地址必须为 HTTPS 或本机 HTTP"@,
        fault is NotBare ==> fault.text() == "AIO_PUBLIC_ORIGIN 只能包含协议与主机"@,
{
}

/// An entry is served where one is due, and the same; otherwise the text that is due is told.
pub proof fn lemma_serves(outcome: Result<Vec<u8>, EntryDocumentFault>, due: Result<Seq<u8>,
    Seq<char>>)
    requires
        serves(outcome, due),
    ensures
        outcome is Ok <==> due is Ok,
        outcome is Ok ==> outcome->Ok_0@ == due->Ok_0,
        outcome is Err ==> outcome->Err_0.text() == due->Err_0,
{
}

} // verus!
