//! Functions of other crates, with what is known of them.
use base64::Engine;
use kuchikiki::parse_html;
use kuchikiki::traits::TendrilSink;
use sha2::Digest;
use vstd::prelude::*;

use crate::json;
use crate::text;

verus! {

/// The SHA-1 digest of a byte sequence.
pub uninterp spec fn sha1(data: Seq<u8>) -> Seq<u8>;

/// The SHA-256 digest of a byte sequence.
pub uninterp spec fn sha256(data: Seq<u8>) -> Seq<u8>;

/// The bytes that a text stands for in padded standard Base64, or why it is no such text.
pub uninterp spec fn base64_decoded(encoded: Seq<char>) -> Result<Seq<u8>, Seq<char>>;

/// The parts of a URL, as text.
#[verifier::ext_equal]
pub struct UrlView {
    pub scheme: Seq<char>,
    pub username: Seq<char>,
    pub password: Option<Seq<char>>,
    pub host: Option<Seq<char>>,
    pub port: Option<u16>,
    pub path: Seq<char>,
    pub query: Option<Seq<char>>,
    pub fragment: Option<Seq<char>>,
}

/// The parts of the URL that a text denotes, or why it denotes none.
pub uninterp spec fn url_parts(address: Seq<char>) -> Result<UrlView, Seq<char>>;

/// The origin of an address over HTTP or HTTPS: its scheme, its host and, where it is not the
/// scheme's own, its port.
pub open spec fn origin_notation(url: UrlView) -> Seq<char> {
    let hosted = url.scheme + "://"@ + url.host->0;
    match url.port {
        Some(port) => hosted + ":"@ + text::decimal(port as nat),
        None => hosted,
    }
}

/// The URL that a text denotes, with its path and query replaced, as text.
pub uninterp spec fn url_redirected(
    address: Seq<char>,
    path: Seq<char>,
    query: Option<Seq<char>>,
) -> Option<Seq<char>>;

/// The longest text, in bytes, that is put into a URL. Positions in a URL are kept in 32 bits, and
/// escaping makes a text longer.
pub const MAX_URL_BYTES: usize = 0x0100_0000;

/// The parts of a URL.
#[derive(Debug)]
pub struct UrlParts {
    pub scheme: String,
    pub username: String,
    pub password: Option<String>,
    pub host: Option<String>,
    pub port: Option<u16>,
    pub path: String,
    pub query: Option<String>,
    pub fragment: Option<String>,
}

impl View for UrlParts {
    type V = UrlView;

    open spec fn view(&self) -> UrlView {
        UrlView {
            scheme: self.scheme@,
            username: self.username@,
            password: text::optional(self.password),
            host: text::optional(self.host),
            port: self.port,
            path: self.path@,
            query: text::optional(self.query),
            fragment: text::optional(self.fragment),
        }
    }
}

/// `reqwest::Url::parse` and the accessors of the URL it returns, or the text of its error. The
/// port is absent where it is the scheme's own.
#[verifier::external_body]
pub(crate) fn parse_url(address: &str) -> (parts: Result<UrlParts, String>)
    ensures
        match parts {
            Ok(parts) => url_parts(address@) matches Ok(view) && view == parts@,
            Err(told) => url_parts(address@) matches Err(expected) && expected == told@,
        },
{
    let url = reqwest::Url::parse(address).map_err(|error| error.to_string())?;
    Ok(UrlParts {
        scheme: url.scheme().to_owned(),
        username: url.username().to_owned(),
        password: url.password().map(str::to_owned),
        host: url.host_str().map(str::to_owned),
        port: url.port(),
        path: url.path().to_owned(),
        query: url.query().map(str::to_owned),
        fragment: url.fragment().map(str::to_owned),
    })
}

/// `reqwest::Url::parse`, `origin` and `ascii_serialization`: the origin of an address over HTTP or
/// HTTPS that `parse_url` takes. (The origin of a `blob:` address is found by recursion.)
#[verifier::external_body]
pub(crate) fn origin_text(address: &str) -> (origin: String)
    requires
        url_parts(address@) matches Ok(parts) && (parts.scheme == "http"@ || parts.scheme
            == "https"@),
    ensures
        url_parts(address@) matches Ok(parts) ==> origin@ == origin_notation(parts),
{
    reqwest::Url::parse(address).map(|url| url.origin().ascii_serialization()).unwrap_or_default()
}

/// `reqwest::Url::parse`, `set_path` and `set_query`: the parsed URL with another path and
/// query, or the text of the error where the address does not parse, exactly as `parse_url` finds
/// it. The position of a fragment behind the query has to fit, too.
#[verifier::external_body]
pub(crate) fn redirect_url(address: &str, path: &str, query: Option<&str>) -> (url: Result<
    String,
    String,
>)
    requires
        text::byte_len(address@) <= MAX_URL_BYTES,
        text::byte_len(path@) <= MAX_URL_BYTES,
        (query matches Some(query) ==> text::byte_len(query@) <= MAX_URL_BYTES) || (url_parts(
            address@,
        ) matches Ok(parts) ==> parts.fragment is None),
    ensures
        match url {
            Ok(url) => {
                &&& url_redirected(address@, path@, text::optional_str(query)) == Some(url@)
                &&& url_parts(address@) is Ok
            },
            Err(told) => {
                &&& url_redirected(address@, path@, text::optional_str(query)) is None
                &&& url_parts(address@) matches Err(expected)
                &&& expected == told@
            },
        },
{
    let mut url = reqwest::Url::parse(address).map_err(|error| error.to_string())?;
    url.set_path(path);
    url.set_query(query);
    Ok(url.to_string())
}

/// Why a URL cannot be moved to another host.
#[derive(Clone, Copy, Debug, PartialEq, Eq, Structural)]
pub enum RelocationFault {
    Address,
    Host,
    Port,
}

/// The URL that a text denotes, at another host and port and with one more pair in its query, as
/// text.
pub uninterp spec fn url_relocated(
    address: Seq<char>,
    host: Seq<char>,
    port: u16,
    name: Seq<char>,
    value: Seq<char>,
) -> Result<Seq<char>, RelocationFault>;

/// `reqwest::Url::parse`, `set_host`, `set_port` and `query_pairs_mut().append_pair`: the parsed
/// URL at another host and port and with one more pair in its query, or which of the first three
/// failed. It fails to parse exactly where `parse_url` does.
#[verifier::external_body]
pub(crate) fn relocate_url(address: &str, host: &str, port: u16, name: &str, value: &str) -> (url:
    Result<String, RelocationFault>)
    requires
        text::byte_len(address@) <= MAX_URL_BYTES,
        text::byte_len(host@) <= MAX_URL_BYTES,
        text::byte_len(name@) <= MAX_URL_BYTES,
        text::byte_len(value@) <= MAX_URL_BYTES,
    ensures
        match url {
            Ok(url) => url_relocated(address@, host@, port, name@, value@) == Ok::<
                Seq<char>,
                RelocationFault,
            >(url@),
            Err(fault) => url_relocated(address@, host@, port, name@, value@) == Err::<
                Seq<char>,
                RelocationFault,
            >(fault),
        },
        (url is Err && url->Err_0 is Address) <==> url_parts(address@) is Err,
{
    let mut url = reqwest::Url::parse(address).map_err(|_| RelocationFault::Address)?;
    url.set_host(Some(host)).map_err(|_| RelocationFault::Host)?;
    url.set_port(Some(port)).map_err(|_| RelocationFault::Port)?;
    url.query_pairs_mut().append_pair(name, value);
    Ok(url.to_string())
}

/// `sha1_smol::Sha1`: the digest of what was given to `update` in order, written by `Digest`'s
/// `Display` as the lower-case hexadecimal notation of its 20 bytes.
#[verifier::external_body]
pub(crate) fn sha1_hex(header: &[u8], content: &[u8]) -> (digest: String)
    ensures
        digest@ == text::hex(sha1(header@ + content@)),
        digest@.len() == 40,
{
    let mut hash = sha1_smol::Sha1::new();
    hash.update(header);
    hash.update(content);
    hash.digest().to_string()
}

/// `sha2::Sha256::digest`: the digest of the data, written by `LowerHex` as the lower-case
/// hexadecimal notation of its 32 bytes.
#[verifier::external_body]
pub(crate) fn sha256_hex(data: &[u8]) -> (digest: String)
    ensures
        digest@ == text::hex(sha256(data@)),
        digest@.len() == 64,
{
    format!("{:x}", sha2::Sha256::digest(data))
}

/// `base64::engine::general_purpose::STANDARD.decode`: the decoded bytes, or the text of its error
/// where the text is not padded standard Base64.
#[verifier::external_body]
pub(crate) fn base64_decode(encoded: &str) -> (decoded: Result<Vec<u8>, String>)
    ensures
        match decoded {
            Ok(bytes) => base64_decoded(encoded@) matches Ok(expected) && expected == bytes@,
            Err(told) => base64_decoded(encoded@) matches Err(expected) && expected == told@,
        },
{
    base64::engine::general_purpose::STANDARD.decode(encoded).map_err(|error| error.to_string())
}

/// A byte sequence in padded standard Base64.
pub uninterp spec fn base64_encoded(bytes: Seq<u8>) -> Seq<char>;

/// `base64::engine::general_purpose::STANDARD.encode`: four characters for every three bytes
/// begun, which `decode` turns back into the bytes.
#[verifier::external_body]
pub(crate) fn base64_encode(bytes: &[u8]) -> (encoded: String)
    requires
        bytes@.len() <= 0x1000_0000,
    ensures
        encoded@ == base64_encoded(bytes@),
        encoded@.len() == (bytes@.len() + 2) / 3 * 4,
        base64_decoded(encoded@) is Ok,
        base64_decoded(encoded@)->Ok_0 == bytes@,
{
    base64::engine::general_purpose::STANDARD.encode(bytes)
}

/// `getrandom::fill` on a buffer of 32 bytes: random bytes, or the text of its error where the
/// system has no source of them. Which bytes come, and whether any do, rests on the system, and is
/// not stated.
#[verifier::external_body]
pub(crate) fn random_key() -> (bytes: Result<Vec<u8>, String>)
    ensures
        bytes matches Ok(bytes) ==> bytes@.len() == 32,
{
    let mut bytes = [0u8; 32];
    getrandom::fill(&mut bytes).map_err(|error| error.to_string())?;
    Ok(bytes.to_vec())
}

/// A key, as it is stored: the JSON array of its bytes.
pub open spec fn stored_key(key: Seq<u8>) -> Seq<u8> {
    let numbers = key.map_values(|byte: u8| text::decimal(byte as nat));
    vstd::utf8::encode_utf8("["@ + text::joined(numbers, ","@) + "]"@)
}

/// The key that a stored text stands for, or why it stands for none.
pub uninterp spec fn key_of(stored: Seq<u8>) -> Result<Seq<u8>, Seq<char>>;

/// `serde_json::to_vec` of a byte slice: its JSON array, which `from_slice` reads back where it has
/// 32 elements.
#[verifier::external_body]
pub(crate) fn write_key(key: &[u8]) -> (stored: Vec<u8>)
    ensures
        stored@ == stored_key(key@),
        key@.len() == 32 ==> key_of(stored@) is Ok,
        key@.len() == 32 ==> key_of(stored@)->Ok_0 == key@,
{
    serde_json::to_vec(key).unwrap_or_default()
}

/// `serde_json::from_slice` to an array of 32 bytes: the key, or the text of its error where the
/// text is not the JSON array of 32 bytes.
#[verifier::external_body]
pub(crate) fn read_key(stored: &[u8]) -> (key: Result<Vec<u8>, String>)
    ensures
        match key {
            Ok(key) => key_of(stored@) matches Ok(read) && read == key@ && key@.len() == 32,
            Err(told) => key_of(stored@) matches Err(expected) && expected == told@,
        },
{
    let key: [u8; 32] = serde_json::from_slice(stored).map_err(|error| error.to_string())?;
    Ok(key.to_vec())
}

/// `serde_json::to_string` of a list of texts: a JSON array of JSON strings, without spaces.
#[verifier::external_body]
pub(crate) fn write_list(list: &Vec<String>) -> (json: String)
    ensures
        json@ == json::list_text(text::texts(list@)),
{
    serde_json::to_string(list).unwrap_or_default()
}

/// Whether a version meets a requirement, or why the first of them that is ill formed is so.
pub uninterp spec fn version_meets(requirement: Seq<char>, version: Seq<char>) -> Result<
    bool,
    Seq<char>,
>;

/// `semver::VersionReq::parse`, `semver::Version::parse` and `VersionReq::matches`: whether the
/// version meets the requirement, or the text of the first error where one of them does not parse.
#[verifier::external_body]
pub(crate) fn meets_requirement(requirement: &str, version: &str) -> (meets: Result<bool, String>)
    ensures
        match meets {
            Ok(meets) => version_meets(requirement@, version@) matches Ok(said) && said == meets,
            Err(told) => version_meets(requirement@, version@) matches Err(said) && said == told@,
        },
{
    let requirement = semver::VersionReq::parse(requirement).map_err(|error| error.to_string())?;
    let version = semver::Version::parse(version).map_err(|error| error.to_string())?;
    Ok(requirement.matches(&version))
}

/// The value of a member of a JSON object that is a boolean, where the text is JSON.
pub uninterp spec fn json_flag(body: Seq<u8>, member: Seq<char>) -> Option<Option<bool>>;

/// `serde_json::from_slice` to a `Value`, its `index` by a name and `as_bool`: the boolean that
/// the member is, where it is one; nothing where the text is not JSON.
#[verifier::external_body]
pub(crate) fn read_flag(body: &[u8], member: &str) -> (flag: Option<Option<bool>>)
    ensures
        flag == json_flag(body@, member@),
{
    let value: serde_json::Value = serde_json::from_slice(body).ok()?;
    Some(value[member].as_bool())
}

/// The value of a member of a JSON object that is a string, where the text is JSON.
pub uninterp spec fn json_string(body: Seq<u8>, member: Seq<char>) -> Option<Option<Seq<char>>>;

/// `serde_json::from_slice` to a `Value`, its `index` by a name and `as_str`: the string that the
/// member is, where it is one; nothing where the text is not JSON, exactly as `read_flag` finds it.
#[verifier::external_body]
pub(crate) fn read_string(body: &[u8], member: &str) -> (found: Option<Option<String>>)
    ensures
        match found {
            Some(string) => json_string(body@, member@) == Some(text::optional(string)),
            None => json_string(body@, member@) is None,
        },
{
    let value: serde_json::Value = serde_json::from_slice(body).ok()?;
    Some(value[member].as_str().map(str::to_owned))
}

/// Why a byte sequence is not UTF-8.
pub uninterp spec fn utf8_error(bytes: Seq<u8>) -> Seq<char>;

/// `std::str::from_utf8`: the text that the bytes encode where they are valid UTF-8, and
/// the text of its error, which tells where they are not, otherwise.
#[verifier::external_body]
pub(crate) fn utf8_text(bytes: &[u8]) -> (decoded: Result<&str, String>)
    ensures
        match decoded {
            Ok(decoded) => vstd::utf8::valid_utf8(bytes@) && decoded@ == vstd::utf8::decode_utf8(
                bytes@,
            ),
            Err(told) => !vstd::utf8::valid_utf8(bytes@) && told@ == utf8_error(bytes@),
        },
{
    std::str::from_utf8(bytes).map_err(|error| error.to_string())
}

/// The media type that a path's extension stands for.
pub uninterp spec fn media_type(path: Seq<char>) -> Seq<char>;

/// `mime_guess::from_path(..).first_or_octet_stream()`: the first media type known for the path's
/// extension, and `application/octet-stream` where none is. What the extension is, `std::path`
/// tells by the rules of systems on which a slash alone separates the parts of a path.
#[verifier::external_body]
pub(crate) fn guess_media_type(path: &str) -> (guessed: String)
    ensures
        guessed@ == media_type(path@),
{
    mime_guess::from_path(path).first_or_octet_stream().to_string()
}

/// `kuchikiki::NodeRef`: a node of a document, with the nodes below it.
#[verifier::external_type_specification]
#[verifier::external_body]
pub struct ExNodeRef(kuchikiki::NodeRef);

/// An HTML document.
pub struct Document {
    root: kuchikiki::NodeRef,
}

/// The longest HTML text, in bytes, that is parsed. The parser counts the bytes of a text in 32
/// bits, and may write one byte as three.
pub const MAX_HTML_BYTES: usize = 0x4000_0000;

/// The most templates that an HTML text may open. The contents of nested templates are released by
/// recursion, for which the same stack serves as for writing a document.
pub const MAX_TEMPLATES: usize = 512;

/// How deep the elements of a document may be nested. They are written by recursion, and a program
/// whose stack ends is aborted: so many levels fit into the two mebibytes of a thread's stack where
/// each takes up to four kibibytes.
pub const MAX_DEPTH: usize = 512;

/// The start of a template's tag.
pub open spec fn template_tag() -> Seq<u8> {
    seq![0x3cu8, 0x74, 0x65, 0x6d, 0x70, 0x6c, 0x61, 0x74, 0x65]
}

/// A byte, in lower case where it is an ASCII letter.
pub open spec fn lower_byte(byte: u8) -> u8 {
    if 0x41 <= byte <= 0x5a {
        (byte + 0x20) as u8
    } else {
        byte
    }
}

/// Whether the start of a template's tag, in letters of either case, ends where the bytes end.
pub open spec fn ends_template_tag(bytes: Seq<u8>) -> bool {
    &&& bytes.len() >= template_tag().len()
    &&& forall|k: int|
        0 <= k < template_tag().len() ==> lower_byte(
            bytes[bytes.len() - template_tag().len() + k],
        ) == #[trigger] template_tag()[k]
}

/// How often bytes hold the start of a template's tag.
pub open spec fn template_tags(bytes: Seq<u8>) -> nat
    decreases bytes.len(),
{
    if bytes.len() == 0 {
        0
    } else {
        template_tags(bytes.drop_last()) + if ends_template_tag(bytes) {
            1nat
        } else {
            0
        }
    }
}

/// Whether an HTML text can be parsed: it is not too long, and does not open too many templates.
pub open spec fn parsable(html: Seq<char>) -> bool {
    &&& text::byte_len(html) <= MAX_HTML_BYTES
    &&& template_tags(vstd::utf8::encode_utf8(html)) <= MAX_TEMPLATES
}

/// A selector of the elements that are nested so deep that they have `depth` elements in a line,
/// themselves the last.
pub open spec fn nested_selector(depth: nat) -> Seq<char>
    decreases depth,
{
    if depth <= 1 {
        seq!['*']
    } else {
        nested_selector((depth - 1) as nat) + seq![' ', '*']
    }
}

/// Whether a text is the name of an element, and as a selector selects the elements of that name.
pub open spec fn element_name(selector: Seq<char>) -> bool {
    &&& selector.len() > 0
    &&& forall|i: int| 0 <= i < selector.len() ==> 'a' <= #[trigger] selector[i] <= 'z'
}

/// The document that an HTML text denotes.
pub uninterp spec fn parsed(html: Seq<char>) -> Document;

/// Whether a selector selects an element of a document.
pub uninterp spec fn selects(document: Document, selector: Seq<char>) -> bool;

/// A document without the first element that a selector selects.
pub uninterp spec fn detached(document: Document, selector: Seq<char>) -> Document;

/// A document with an attribute set at the first element that a selector selects.
pub uninterp spec fn with_attribute(
    document: Document,
    selector: Seq<char>,
    name: Seq<char>,
    value: Seq<char>,
) -> Document;

/// A document with a text behind what the first element holds that a selector selects.
pub uninterp spec fn with_text(
    document: Document,
    selector: Seq<char>,
    content: Seq<char>,
) -> Document;

/// A document with an element of another one, the first that is wanted, before all that the first
/// element holds that a selector selects.
pub uninterp spec fn prepended(
    document: Document,
    selector: Seq<char>,
    part: Document,
    wanted: Seq<char>,
) -> Document;

/// The HTML text of a document.
pub uninterp spec fn serialized(document: Document) -> Seq<char>;

/// `kuchikiki::parse_html().one`: the document that the HTML parser makes of a text. It makes one
/// of every text.
#[verifier::external_body]
pub(crate) fn parse(html: &str) -> (document: Document)
    requires
        parsable(html@),
    ensures
        document == parsed(html@),
{
    Document { root: parse_html().one(html) }
}

/// `kuchikiki::NodeRef::select_first`: whether the selector selects an element of the document. It
/// selects none where it is not a selector.
#[verifier::external_body]
pub(crate) fn has(document: &Document, selector: &str) -> (found: bool)
    requires
        element_name(selector@) || selector@ == nested_selector(MAX_DEPTH as nat),
    ensures
        found == selects(*document, selector@),
{
    document.root.select_first(selector).is_ok()
}

/// `kuchikiki::NodeRef::select_first` and `detach`: takes the first selected element, in the order
/// of the text, out of the document.
#[verifier::external_body]
pub(crate) fn detach_first(document: &mut Document, selector: &str)
    requires
        element_name(selector@),
        selects(*old(document), selector@),
    ensures
        *final(document) == detached(*old(document), selector@),
{
    if let Ok(element) = document.root.select_first(selector) {
        element.as_node().detach();
    }
}

/// `kuchikiki::NodeRef::select_first` and `Attributes::insert`: sets an attribute of the first
/// selected element. The elements keep their names.
#[verifier::external_body]
pub(crate) fn set_attribute(document: &mut Document, selector: &str, name: &str, value: String)
    requires
        element_name(selector@),
        selects(*old(document), selector@),
    ensures
        *final(document) == with_attribute(*old(document), selector@, name@, value@),
        selects(*final(document), selector@),
{
    if let Ok(element) = document.root.select_first(selector) {
        element.attributes.borrow_mut().insert(name, value);
    }
}

/// `kuchikiki::NodeRef::select_first`, `new_text` and `append`: puts a text behind what the first
/// selected element holds. The elements keep their names.
#[verifier::external_body]
pub(crate) fn append_text(document: &mut Document, selector: &str, content: &str)
    requires
        element_name(selector@),
        selects(*old(document), selector@),
    ensures
        *final(document) == with_text(*old(document), selector@, content@),
        selects(*final(document), selector@),
{
    if let Ok(element) = document.root.select_first(selector) {
        element.as_node().append(kuchikiki::NodeRef::new_text(content));
    }
}

/// `kuchikiki::NodeRef::select_first` and `prepend`: moves the first wanted element of another
/// document before all that the first selected element holds. Both are elements of the document
/// then, and the wanted one is the first child of the selected one.
#[verifier::external_body]
pub(crate) fn prepend(document: &mut Document, selector: &str, part: &mut Document, wanted: &str)
    requires
        element_name(selector@),
        element_name(wanted@),
        selects(*old(document), selector@),
        selects(*old(part), wanted@),
    ensures
        *final(document) == prepended(*old(document), selector@, *old(part), wanted@),
        *final(part) == detached(*old(part), wanted@),
        selects(*final(document), selector@),
        selects(*final(document), selector@ + ">"@ + wanted@ + ":first-child"@),
{
    if let Ok(element) = part.root.select_first(wanted) {
        if let Ok(parent) = document.root.select_first(selector) {
            parent.as_node().prepend(element.as_node().clone());
        }
    }
}

/// `kuchikiki::NodeRef`'s `to_string`: the HTML text of the document.
#[verifier::external_body]
pub(crate) fn serialize(document: &Document) -> (html: String)
    requires
        !selects(*document, nested_selector(MAX_DEPTH as nat)),
    ensures
        html@ == serialized(*document),
{
    document.root.to_string()
}

/// The bytes of a number, the most significant first.
pub open spec fn big_endian(value: nat, count: nat) -> Seq<u8>
    decreases count,
{
    if count == 0 {
        Seq::empty()
    } else {
        big_endian(value / 256, (count - 1) as nat).push((value % 256) as u8)
    }
}

/// The hyphenated notation of a UUID: its 32 hexadecimal digits in groups of 8, 4, 4, 4 and 12.
pub open spec fn hyphenated(value: u128) -> Seq<char> {
    let digits = text::hex(big_endian(value as nat, 16));
    digits.subrange(0, 8) + seq!['-'] + digits.subrange(8, 12) + seq!['-'] + digits.subrange(12, 16)
        + seq!['-'] + digits.subrange(16, 20) + seq!['-'] + digits.subrange(20, 32)
}

/// The UUID that a text denotes in any of its notations, or why it denotes none.
pub uninterp spec fn uuid_value(notation: Seq<char>) -> Result<u128, Seq<char>>;

/// `uuid::Uuid`'s `Display`: the hyphenated notation in lower case, which `Uuid::parse_str` reads
/// back.
#[verifier::external_body]
pub(crate) fn uuid_text(value: u128) -> (notation: String)
    ensures
        notation@ == hyphenated(value),
        uuid_value(notation@) is Ok,
        uuid_value(notation@)->Ok_0 == value,
{
    uuid::Uuid::from_u128(value).to_string()
}

/// Whether a number is a random UUID: the bits of its version and of its variant say so.
pub open spec fn random_uuid(value: u128) -> bool {
    &&& (value as int / 0x1000_0000_0000_0000_0000) % 16 == 4
    &&& (value as int / 0x4000_0000_0000_0000) % 4 == 2
}

/// `uuid::Uuid::new_v4`: a random UUID. Nothing else is known of it, not even that it is a new
/// one. It does not return where the system has no source of random bytes.
#[verifier::external_body]
pub(crate) fn fresh_uuid() -> (value: u128)
    ensures
        random_uuid(value),
{
    uuid::Uuid::new_v4().as_u128()
}

/// `uuid::Uuid::parse_str`: the UUID that a text denotes, or the text of its error.
#[verifier::external_body]
pub(crate) fn parse_uuid(notation: &str) -> (value: Result<u128, String>)
    ensures
        match value {
            Ok(value) => uuid_value(notation@) matches Ok(read) && read == value,
            Err(told) => uuid_value(notation@) matches Err(expected) && expected == told@,
        },
{
    uuid::Uuid::parse_str(notation).map(|uuid| uuid.as_u128()).map_err(|error| error.to_string())
}

proof fn lemma_big_endian_len(value: nat, count: nat)
    ensures
        big_endian(value, count).len() == count,
    decreases count,
{
    if count > 0 {
        lemma_big_endian_len(value / 256, (count - 1) as nat);
    }
}

/// A UUID's notation has 36 characters, all of them hexadecimal digits or hyphens.
pub proof fn lemma_hyphenated(value: u128)
    ensures
        hyphenated(value).len() == 36,
        forall|i: int|
            0 <= i < hyphenated(value).len() ==> text::is_hex(#[trigger] hyphenated(value)[i])
                || hyphenated(value)[i] == '-',
        !hyphenated(value).contains(':'),
{
    let bytes = big_endian(value as nat, 16);
    let digits = text::hex(bytes);
    lemma_big_endian_len(value as nat, 16);
    text::lemma_hex(bytes);
    let all = hyphenated(value);
    assert forall|i: int| 0 <= i < all.len() implies text::is_hex(#[trigger] all[i]) || all[i]
        == '-' by {
        let k = if i < 8 {
            i
        } else if i < 13 {
            i - 1
        } else if i < 18 {
            i - 2
        } else if i < 23 {
            i - 3
        } else {
            i - 4
        };
        if i != 8 && i != 13 && i != 18 && i != 23 {
            assert(all[i] == digits[k]);
        }
    }
}

/// What is left of a number without its last bytes.
spec fn without_bytes(value: nat, count: nat) -> nat
    decreases count,
{
    if count == 0 {
        value
    } else {
        without_bytes(value / 256, (count - 1) as nat)
    }
}

proof fn lemma_big_endian_injective(left: nat, right: nat, count: nat)
    requires
        big_endian(left, count) == big_endian(right, count),
        without_bytes(left, count) == without_bytes(right, count),
    ensures
        left == right,
    decreases count,
{
    if count > 0 {
        let fewer = (count - 1) as nat;
        let a = big_endian(left, count);
        let b = big_endian(right, count);
        assert(a.last() == (left % 256) as u8);
        assert(b.last() == (right % 256) as u8);
        assert(a.drop_last() =~= big_endian(left / 256, fewer));
        assert(b.drop_last() =~= big_endian(right / 256, fewer));
        lemma_big_endian_injective(left / 256, right / 256, fewer);
    }
}

proof fn lemma_sixteen_bytes(value: u128)
    ensures
        without_bytes(value as nat, 16) == 0,
{
    reveal_with_fuel(without_bytes, 17);
    let v0 = value as nat;
    let v1 = v0 / 256;
    assert(v1 < 0x1000000000000000000000000000000);
    let v2 = v1 / 256;
    assert(v2 < 0x10000000000000000000000000000);
    let v3 = v2 / 256;
    assert(v3 < 0x100000000000000000000000000);
    let v4 = v3 / 256;
    assert(v4 < 0x1000000000000000000000000);
    let v5 = v4 / 256;
    assert(v5 < 0x10000000000000000000000);
    let v6 = v5 / 256;
    assert(v6 < 0x100000000000000000000);
    let v7 = v6 / 256;
    assert(v7 < 0x1000000000000000000);
    let v8 = v7 / 256;
    assert(v8 < 0x10000000000000000);
    let v9 = v8 / 256;
    assert(v9 < 0x100000000000000);
    let v10 = v9 / 256;
    assert(v10 < 0x1000000000000);
    let v11 = v10 / 256;
    assert(v11 < 0x10000000000);
    let v12 = v11 / 256;
    assert(v12 < 0x100000000);
    let v13 = v12 / 256;
    assert(v13 < 0x1000000);
    let v14 = v13 / 256;
    assert(v14 < 0x10000);
    let v15 = v14 / 256;
    assert(v15 < 0x100);
    let v16 = v15 / 256;
    assert(v16 < 0x1);
}

/// Different UUIDs have different notations.
pub proof fn lemma_hyphenated_injective(left: u128, right: u128)
    requires
        hyphenated(left) == hyphenated(right),
    ensures
        left == right,
{
    let a = text::hex(big_endian(left as nat, 16));
    let b = text::hex(big_endian(right as nat, 16));
    lemma_big_endian_len(left as nat, 16);
    lemma_big_endian_len(right as nat, 16);
    text::lemma_hex(big_endian(left as nat, 16));
    text::lemma_hex(big_endian(right as nat, 16));
    let x = hyphenated(left);
    let y = hyphenated(right);
    assert forall|i: int| 0 <= i < 32 implies a[i] == b[i] by {
        let k = if i < 8 {
            i
        } else if i < 12 {
            i + 1
        } else if i < 16 {
            i + 2
        } else if i < 20 {
            i + 3
        } else {
            i + 4
        };
        assert(x[k] == a[i]);
        assert(y[k] == b[i]);
    }
    assert(a =~= b);
    text::lemma_hex_injective(big_endian(left as nat, 16), big_endian(right as nat, 16));
    lemma_sixteen_bytes(left);
    lemma_sixteen_bytes(right);
    lemma_big_endian_injective(left as nat, right as nat, 16);
}

} // verus!
