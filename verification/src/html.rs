//! HTML documents, and what is put into their heads.
use vstd::prelude::*;

use crate::outside;
use crate::outside::Document;
use crate::text;

verus! {

/// The markup of a base element.
pub const BASE_MARKUP: &'static str = "<head><base></head>";

/// The markup of a script element.
pub const SCRIPT_MARKUP: &'static str = "<script></script>";

/// Why nothing can be put into a document's head.
#[derive(Clone, Copy, Debug, PartialEq, Eq, Structural)]
pub enum HeadFault {
    /// The document is too long, opens too many templates or is nested too deep.
    TooComplex,
    HeadMissing,
    BaseMissing,
    ScriptMissing,
}

// Limits

/// Whether the start of a template's tag ends before a position.
fn tag_ends(bytes: &[u8], end: usize) -> (yes: bool)
    requires
        end <= bytes@.len(),
    ensures
        yes == outside::ends_template_tag(bytes@.take(end as int)),
{
    let tag: Vec<u8> = vec![0x3c, 0x74, 0x65, 0x6d, 0x70, 0x6c, 0x61, 0x74, 0x65];
    let ghost before = bytes@.take(end as int);
    assert(tag@ =~= outside::template_tag());
    if end < tag.len() {
        return false;
    }
    let start: usize = end - tag.len();
    let mut k: usize = 0;
    while k < tag.len()
        invariant
            k <= tag@.len(),
            tag@ == outside::template_tag(),
            tag@.len() <= end <= bytes@.len(),
            start == end - tag@.len(),
            before == bytes@.take(end as int),
            forall|j: int|
                0 <= j < k ==> outside::lower_byte(
                    before[before.len() - outside::template_tag().len() + j],
                ) == #[trigger] outside::template_tag()[j],
        decreases tag@.len() - k,
    {
        let byte: u8 = bytes[start + k];
        let lowered: u8 = if 0x41 <= byte && byte <= 0x5a {
            byte + 0x20
        } else {
            byte
        };
        assert(before[before.len() - outside::template_tag().len() + k] == byte);
        if lowered != tag[k] {
            assert(outside::lower_byte(
                before[before.len() - outside::template_tag().len() + k],
            ) != outside::template_tag()[k as int]);
            return false;
        }
        k += 1;
    }
    true
}

/// Whether an HTML text can be parsed.
pub fn is_parsable(html: &str) -> (yes: bool)
    ensures
        yes == outside::parsable(html@),
{
    let bytes = html.as_bytes();
    if bytes.len() > outside::MAX_HTML_BYTES {
        return false;
    }
    let mut count: usize = 0;
    let mut i: usize = 0;
    while i < bytes.len()
        invariant
            i <= bytes@.len(),
            count <= i,
            count == outside::template_tags(bytes@.take(i as int)),
        decreases bytes@.len() - i,
    {
        assert(bytes@.take(i as int + 1).drop_last() =~= bytes@.take(i as int));
        if tag_ends(bytes, i + 1) {
            count += 1;
        }
        i += 1;
    }
    assert(bytes@.take(i as int) =~= bytes@);
    count <= outside::MAX_TEMPLATES
}

/// The selector of the elements that are nested too deep.
fn deep_selector() -> (selector: String)
    ensures
        selector@ == outside::nested_selector(outside::MAX_DEPTH as nat),
{
    let mut selector = String::new();
    selector.push('*');
    assert(selector@ =~= outside::nested_selector(1));
    let mut depth: usize = 1;
    while depth < outside::MAX_DEPTH
        invariant
            1 <= depth <= outside::MAX_DEPTH,
            selector@ == outside::nested_selector(depth as nat),
        decreases outside::MAX_DEPTH - depth,
    {
        let ghost before = selector@;
        selector.push(' ');
        selector.push('*');
        assert(selector@ =~= before + seq![' ', '*']);
        depth += 1;
    }
    selector
}

/// Whether elements of a document are nested too deep.
pub open spec fn too_deep(document: Document) -> bool {
    outside::selects(document, outside::nested_selector(outside::MAX_DEPTH as nat))
}

// Parts

proof fn lemma_names()
    ensures
        outside::element_name("base"@),
        outside::element_name("script"@),
        outside::element_name("head"@),
{
    reveal_strlit("base");
    reveal_strlit("script");
    reveal_strlit("head");
}

proof fn lemma_template_tags(bytes: Seq<u8>)
    ensures
        outside::template_tags(bytes) <= bytes.len(),
    decreases bytes.len(),
{
    if bytes.len() > 0 {
        lemma_template_tags(bytes.drop_last());
    }
}

proof fn lemma_byte_len(html: Seq<char>)
    ensures
        text::byte_len(html) <= 4 * html.len(),
    decreases html.len(),
{
    if html.len() > 0 {
        lemma_byte_len(html.drop_first());
        assert(html =~= seq![html[0]] + html.drop_first());
        assert(vstd::utf8::encode_scalar(html[0] as u32).len() <= 4);
    }
}

proof fn lemma_markups()
    ensures
        outside::parsable(BASE_MARKUP@),
        outside::parsable(SCRIPT_MARKUP@),
{
    reveal_strlit("<head><base></head>");
    reveal_strlit("<script></script>");
    lemma_byte_len(BASE_MARKUP@);
    lemma_byte_len(SCRIPT_MARKUP@);
    lemma_template_tags(vstd::utf8::encode_utf8(BASE_MARKUP@));
    lemma_template_tags(vstd::utf8::encode_utf8(SCRIPT_MARKUP@));
}

/// The element of a markup, in a document of its own.
fn element(markup: &str, name: &str) -> (part: Option<Document>)
    requires
        outside::parsable(markup@),
        outside::element_name(name@),
    ensures
        match part {
            Some(part) => part == outside::parsed(markup@) && outside::selects(part, name@),
            None => !outside::selects(outside::parsed(markup@), name@),
        },
{
    let part = outside::parse(markup);
    if outside::has(&part, name) {
        Some(part)
    } else {
        None
    }
}

// Documents

/// A document without its first base element.
pub open spec fn without_base(document: Document) -> Document {
    if outside::selects(document, "base"@) {
        outside::detached(document, "base"@)
    } else {
        document
    }
}

/// A document whose head begins with a base element, where there is one, and a script element.
pub open spec fn furnished(document: Document, base: Option<Document>,
    script: Document) -> Document {
    let scripted = outside::prepended(document, "head"@, script, "script"@);
    match base {
        Some(base) => outside::prepended(scripted, "head"@, base, "base"@),
        None => scripted,
    }
}

/// The text of a document that is not nested too deep.
pub open spec fn written(document: Document) -> Result<Seq<char>, HeadFault> {
    if too_deep(document) {
        Err(HeadFault::TooComplex)
    } else {
        Ok(outside::serialized(document))
    }
}

/// Whether an HTML text is that of a document whose head begins with an element of a name.
pub open spec fn head_begins_with(html: Seq<char>, name: Seq<char>) -> bool {
    exists|document: Document| #[trigger]
        outside::serialized(document) == html && outside::selects(
            document,
            "head"@ + ">"@ + name + ":first-child"@,
        )
}

/// Whether a function gave the text, or the fault, that is due.
pub open spec fn yields(outcome: Result<String, HeadFault>, due: Result<Seq<char>,
    HeadFault>) -> bool {
    match outcome {
        Ok(html) => due matches Ok(expected) && expected == html@,
        Err(fault) => due matches Err(expected) && expected == fault,
    }
}

/// Takes the first base element out of a document.
fn remove_base(document: &mut Document)
    ensures
        *final(document) == without_base(*old(document)),
{
    proof {
        lemma_names();
    }
    if outside::has(document, "base") {
        outside::detach_first(document, "base");
    }
}

/// Writes a document.
fn write(document: &Document) -> (outcome: Result<String, HeadFault>)
    ensures
        yields(outcome, written(*document)),
{
    let deep = deep_selector();
    if outside::has(document, deep.as_str()) {
        Err(HeadFault::TooComplex)
    } else {
        Ok(outside::serialize(document))
    }
}

/// Puts a script element and, where there is one, a base element before it at the start of a
/// document's head, and writes the document.
fn furnish(document: Document, base: Option<Document>, script: Document) -> (outcome: Result<
    String,
    HeadFault,
>)
    requires
        outside::selects(document, "head"@),
        base matches Some(base) ==> outside::selects(base, "base"@),
        outside::selects(script, "script"@),
    ensures
        yields(outcome, written(furnished(document, base, script))),
        outcome matches Ok(html) ==> head_begins_with(
            html@,
            if base is Some {
                "base"@
            } else {
                "script"@
            },
        ),
{
    proof {
        lemma_names();
    }
    let mut document = document;
    let mut script = script;
    outside::prepend(&mut document, "head", &mut script, "script");
    if let Some(base) = base {
        let mut base = base;
        outside::prepend(&mut document, "head", &mut base, "base");
    }
    write(&document)
}

/// A document with a base address, in place of its first base element, and a script of which the
/// source and one more attribute are given, both at the start of its head.
pub open spec fn framed(
    html: Seq<char>,
    href: Seq<char>,
    source: Seq<char>,
    attribute: Seq<char>,
    value: Seq<char>,
) -> Result<Seq<char>, HeadFault> {
    let document = without_base(outside::parsed(html));
    let base = outside::parsed(BASE_MARKUP@);
    let script = outside::parsed(SCRIPT_MARKUP@);
    if !outside::parsable(html) {
        Err(HeadFault::TooComplex)
    } else if !outside::selects(document, "head"@) {
        Err(HeadFault::HeadMissing)
    } else if !outside::selects(base, "base"@) {
        Err(HeadFault::BaseMissing)
    } else if !outside::selects(script, "script"@) {
        Err(HeadFault::ScriptMissing)
    } else {
        let base = outside::with_attribute(base, "base"@, "href"@, href);
        let sourced = outside::with_attribute(script, "script"@, "src"@, source);
        let script = outside::with_attribute(sourced, "script"@, attribute, value);
        written(furnished(document, Some(base), script))
    }
}

/// A document with a base address, in place of its first base element, and a script of which the
/// content is given, both at the start of its head.
pub open spec fn guided(html: Seq<char>, href: Seq<char>, content: Seq<char>) -> Result<
    Seq<char>,
    HeadFault,
> {
    let document = without_base(outside::parsed(html));
    let base = outside::parsed(BASE_MARKUP@);
    let script = outside::parsed(SCRIPT_MARKUP@);
    if !outside::parsable(html) {
        Err(HeadFault::TooComplex)
    } else if !outside::selects(base, "base"@) {
        Err(HeadFault::BaseMissing)
    } else if !outside::selects(document, "head"@) {
        Err(HeadFault::HeadMissing)
    } else if !outside::selects(script, "script"@) {
        Err(HeadFault::ScriptMissing)
    } else {
        let base = outside::with_attribute(base, "base"@, "href"@, href);
        let script = outside::with_text(script, "script"@, content);
        written(furnished(document, Some(base), script))
    }
}

/// A document with the script of some markup, of which the content is given, at the start of its
/// head.
pub open spec fn annotated(html: Seq<char>, markup: Seq<char>, content: Seq<char>) -> Result<
    Seq<char>,
    HeadFault,
> {
    let document = outside::parsed(html);
    let script = outside::parsed(markup);
    if !outside::parsable(html) || !outside::parsable(markup) {
        Err(HeadFault::TooComplex)
    } else if !outside::selects(document, "head"@) {
        Err(HeadFault::HeadMissing)
    } else if !outside::selects(script, "script"@) {
        Err(HeadFault::ScriptMissing)
    } else {
        written(furnished(document, None, outside::with_text(script, "script"@, content)))
    }
}

/// Gives a document a base address and a script with a source and one more attribute.
pub fn frame(html: &str, href: String, source: String, attribute: &str, value: String) -> (outcome:
    Result<String, HeadFault>)
    ensures
        yields(outcome, framed(html@, href@, source@, attribute@, value@)),
        outcome matches Ok(html) ==> head_begins_with(html@, "base"@),
{
    proof {
        lemma_names();
        lemma_markups();
    }
    if !is_parsable(html) {
        return Err(HeadFault::TooComplex);
    }
    let mut document = outside::parse(html);
    remove_base(&mut document);
    if !outside::has(&document, "head") {
        return Err(HeadFault::HeadMissing);
    }
    let mut base = match element(BASE_MARKUP, "base") {
        Some(base) => base,
        None => return Err(HeadFault::BaseMissing),
    };
    outside::set_attribute(&mut base, "base", "href", href);
    let mut script = match element(SCRIPT_MARKUP, "script") {
        Some(script) => script,
        None => return Err(HeadFault::ScriptMissing),
    };
    outside::set_attribute(&mut script, "script", "src", source);
    outside::set_attribute(&mut script, "script", attribute, value);
    furnish(document, Some(base), script)
}

/// Gives a document a base address and a script with its content.
pub fn guide(html: &str, href: String, content: &str) -> (outcome: Result<String, HeadFault>)
    ensures
        yields(outcome, guided(html@, href@, content@)),
        outcome matches Ok(html) ==> head_begins_with(html@, "base"@),
{
    proof {
        lemma_names();
        lemma_markups();
    }
    if !is_parsable(html) {
        return Err(HeadFault::TooComplex);
    }
    let mut document = outside::parse(html);
    remove_base(&mut document);
    let mut base = match element(BASE_MARKUP, "base") {
        Some(base) => base,
        None => return Err(HeadFault::BaseMissing),
    };
    outside::set_attribute(&mut base, "base", "href", href);
    if !outside::has(&document, "head") {
        return Err(HeadFault::HeadMissing);
    }
    let mut script = match element(SCRIPT_MARKUP, "script") {
        Some(script) => script,
        None => return Err(HeadFault::ScriptMissing),
    };
    outside::append_text(&mut script, "script", content);
    furnish(document, Some(base), script)
}

/// Gives a document the script of a markup, with its content.
pub fn annotate(html: &str, markup: &str, content: &str) -> (outcome: Result<String, HeadFault>)
    ensures
        yields(outcome, annotated(html@, markup@, content@)),
        outcome matches Ok(html) ==> head_begins_with(html@, "script"@),
{
    proof {
        lemma_names();
    }
    if !is_parsable(html) || !is_parsable(markup) {
        return Err(HeadFault::TooComplex);
    }
    let document = outside::parse(html);
    if !outside::has(&document, "head") {
        return Err(HeadFault::HeadMissing);
    }
    let mut script = match element(markup, "script") {
        Some(script) => script,
        None => return Err(HeadFault::ScriptMissing),
    };
    outside::append_text(&mut script, "script", content);
    furnish(document, None, script)
}

// Laws

/// A framed document is the given one without its first base element; its head begins with a base
/// element at the given address and, after it, a script with the given source and attribute. A
/// document that is too complex or has no head is refused.
pub proof fn lemma_framed_document(html: Seq<char>, href: Seq<char>, source: Seq<char>,
    attribute: Seq<char>, value: Seq<char>)
    ensures
        ({
            let document = if outside::selects(outside::parsed(html),
                "base"@) { outside::detached(outside::parsed(html),
                "base"@) } else { outside::parsed(html) };
            let base = outside::parsed("<head><base></head>"@);
            let plain = outside::parsed("<script></script>"@);
            let script = outside::with_attribute(outside::with_attribute(plain, "script"@, "src"@,
                source), "script"@, attribute, value);
            let based = outside::with_attribute(base, "base"@, "href"@, href);
            let whole = outside::prepended(outside::prepended(document, "head"@, script,
                "script"@), "head"@, based, "base"@);
            let deep = outside::selects(whole, outside::nested_selector(outside::MAX_DEPTH as nat));
            let outcome = framed(html, href, source, attribute, value);
            &&& !outside::parsable(html) ==> outcome
                == Err::<Seq<char>, HeadFault>(HeadFault::TooComplex)
            &&& outside::parsable(html) && outside::selects(base, "base"@)
                && !outside::selects(document, "head"@) && outside::selects(plain, "script"@)
                ==> outcome == Err::<Seq<char>, HeadFault>(HeadFault::HeadMissing)
            &&& outside::parsable(html) && outside::selects(base, "base"@)
                && outside::selects(document, "head"@) && !outside::selects(plain, "script"@)
                ==> outcome == Err::<Seq<char>, HeadFault>(HeadFault::ScriptMissing)
            &&& outside::parsable(html) && outside::selects(document, "head"@)
                && !outside::selects(base, "base"@)
                ==> outcome == Err::<Seq<char>, HeadFault>(HeadFault::BaseMissing)
            &&& outside::parsable(html) && outside::selects(base, "base"@)
                && outside::selects(document, "head"@) && outside::selects(plain, "script"@)
                && deep ==> outcome == Err::<Seq<char>, HeadFault>(HeadFault::TooComplex)
            &&& outside::parsable(html) && outside::selects(base, "base"@)
                && outside::selects(document, "head"@) && outside::selects(plain, "script"@)
                && !deep ==> outcome == Ok::<Seq<char>, HeadFault>(outside::serialized(whole))
        }),
{
}

/// A guided document is the given one without its first base element; its head begins with a base
/// element at the given address and, after it, a script with the given content. A document that is
/// too complex or has no head is refused.
pub proof fn lemma_guided_document(html: Seq<char>, href: Seq<char>, content: Seq<char>)
    ensures
        ({
            let document = if outside::selects(outside::parsed(html),
                "base"@) { outside::detached(outside::parsed(html),
                "base"@) } else { outside::parsed(html) };
            let base = outside::parsed("<head><base></head>"@);
            let plain = outside::parsed("<script></script>"@);
            let script = outside::with_text(plain, "script"@, content);
            let based = outside::with_attribute(base, "base"@, "href"@, href);
            let whole = outside::prepended(outside::prepended(document, "head"@, script,
                "script"@), "head"@, based, "base"@);
            let deep = outside::selects(whole, outside::nested_selector(outside::MAX_DEPTH as nat));
            let outcome = guided(html, href, content);
            &&& !outside::parsable(html) ==> outcome
                == Err::<Seq<char>, HeadFault>(HeadFault::TooComplex)
            &&& outside::parsable(html) && outside::selects(base, "base"@)
                && !outside::selects(document, "head"@) && outside::selects(plain, "script"@)
                ==> outcome == Err::<Seq<char>, HeadFault>(HeadFault::HeadMissing)
            &&& outside::parsable(html) && outside::selects(base, "base"@)
                && outside::selects(document, "head"@) && !outside::selects(plain, "script"@)
                ==> outcome == Err::<Seq<char>, HeadFault>(HeadFault::ScriptMissing)
            &&& outside::parsable(html) && outside::selects(document, "head"@)
                && !outside::selects(base, "base"@)
                ==> outcome == Err::<Seq<char>, HeadFault>(HeadFault::BaseMissing)
            &&& outside::parsable(html) && outside::selects(base, "base"@)
                && outside::selects(document, "head"@) && outside::selects(plain, "script"@)
                && deep ==> outcome == Err::<Seq<char>, HeadFault>(HeadFault::TooComplex)
            &&& outside::parsable(html) && outside::selects(base, "base"@)
                && outside::selects(document, "head"@) && outside::selects(plain, "script"@)
                && !deep ==> outcome == Ok::<Seq<char>, HeadFault>(outside::serialized(whole))
        }),
{
}

/// An annotated document is the given one with the script of the markup, and the content inside it,
/// at the start of its head.
pub proof fn lemma_annotated_document(html: Seq<char>, markup: Seq<char>, content: Seq<char>)
    ensures
        ({
            let script = outside::with_text(outside::parsed(markup), "script"@, content);
            let whole = outside::prepended(outside::parsed(html), "head"@, script, "script"@);
            let deep = outside::selects(whole, outside::nested_selector(outside::MAX_DEPTH as nat));
            let outcome = annotated(html, markup, content);
            let parts = outside::parsable(html) && outside::parsable(markup);
            let head = outside::selects(outside::parsed(html), "head"@);
            let known = outside::selects(outside::parsed(markup), "script"@);
            &&& !parts ==> outcome == Err::<Seq<char>, HeadFault>(HeadFault::TooComplex)
            &&& parts && !head ==> outcome == Err::<Seq<char>, HeadFault>(HeadFault::HeadMissing)
            &&& parts && head && !known ==> outcome
                == Err::<Seq<char>, HeadFault>(HeadFault::ScriptMissing)
            &&& parts && head && known && deep
                ==> outcome == Err::<Seq<char>, HeadFault>(HeadFault::TooComplex)
            &&& parts && head && known && !deep
                ==> outcome == Ok::<Seq<char>, HeadFault>(outside::serialized(whole))
        }),
{
}

/// A document is written where one is due, and the same; otherwise the fault that is due is told.
pub proof fn lemma_yields(outcome: Result<String, HeadFault>, due: Result<Seq<char>, HeadFault>)
    requires
        yields(outcome, due),
    ensures
        outcome is Ok <==> due is Ok,
        outcome is Ok ==> outcome->Ok_0@ == due->Ok_0,
        outcome is Err ==> outcome->Err_0 == due->Err_0,
{
}

} // verus!
