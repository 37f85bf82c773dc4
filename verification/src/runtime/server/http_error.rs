//! Errors as they are answered over HTTP.
use vstd::prelude::*;

use crate::runtime::model;
use crate::runtime::model::Header;
use crate::text;

verus! {

/// An answer over HTTP. Header names are in lower case.
#[derive(Debug)]
pub struct Reply {
    pub status: u16,
    pub headers: Vec<Header>,
    pub body: Vec<u8>,
}

/// The headers without those of the given name.
pub open spec fn headers_without(
    headers: Seq<(Seq<char>, Seq<char>)>,
    name: Seq<char>,
) -> Seq<(Seq<char>, Seq<char>)>
    decreases headers.len(),
{
    if headers.len() == 0 {
        Seq::empty()
    } else if headers.last().0 == name {
        headers_without(headers.drop_last(), name)
    } else {
        headers_without(headers.drop_last(), name).push(headers.last())
    }
}

/// Takes the headers of the given name away.
pub fn remove_header(headers: Vec<Header>, name: &str) -> (rest: Vec<Header>)
    ensures
        model::header_texts(rest@) == headers_without(model::header_texts(headers@), name@),
{
    let mut rest: Vec<Header> = Vec::new();
    let ghost all = model::header_texts(headers@);
    let mut i: usize = 0;
    while i < headers.len()
        invariant
            i <= headers@.len(),
            all == model::header_texts(headers@),
            model::header_texts(rest@) == headers_without(all.take(i as int), name@),
        decreases headers@.len() - i,
    {
        assert(all.take(i as int + 1).drop_last() =~= all.take(i as int));
        assert(all[i as int] == model::header_text(headers@[i as int]));
        if !text::same(headers[i].name.as_str(), name) {
            let ghost before = model::header_texts(rest@);
            rest.push(model::header(headers[i].name.as_str(), headers[i].value.as_str()));
            assert(model::header_texts(rest@) =~= before.push(all[i as int]));
        }
        i += 1;
    }
    assert(all.take(i as int) =~= all);
    rest
}

/// Whether a text can be the value of a header: of the control characters it holds only tabs.
pub open spec fn header_value(value: Seq<char>) -> bool {
    forall|i: int|
        0 <= i < value.len() ==> (#[trigger] value[i] >= ' ' && value[i] != '\u{7f}') || value[i]
            == '\t'
}

/// Whether a text can be the value of a header.
pub fn is_header_value(value: &str) -> (yes: bool)
    ensures
        yes == header_value(value@),
{
    let chars = text::chars_of(value);
    let mut i: usize = 0;
    while i < chars.len()
        invariant
            i <= chars@.len(),
            chars@ == value@,
            forall|k: int|
                0 <= k < i ==> (#[trigger] chars@[k] >= ' ' && chars@[k] != '\u{7f}') || chars@[k]
                    == '\t',
        decreases chars@.len() - i,
    {
        let c = chars[i];
        if !((c >= ' ' && c != '\u{7f}') || c == '\t') {
            assert(!((value@[i as int] >= ' ' && value@[i as int] != '\u{7f}') || value@[i as int]
                == '\t'));
            return false;
        }
        i += 1;
    }
    true
}

/// A header that was taken away is gone, and every other header stays.
pub proof fn lemma_headers_without(headers: Seq<(Seq<char>, Seq<char>)>, name: Seq<char>)
    ensures
        forall|h: (Seq<char>, Seq<char>)| #[trigger]
            headers_without(headers, name).contains(h) <==> headers.contains(h) && h.0 != name,
    decreases headers.len(),
{
    if headers.len() > 0 {
        let front = headers.drop_last();
        lemma_headers_without(front, name);
        let kept = headers_without(front, name);
        let all = headers_without(headers, name);
        assert forall|h: (Seq<char>, Seq<char>)| #[trigger] all.contains(h) <==> headers.contains(h)
            && h.0 != name by {
            if headers.contains(h) {
                let k = choose|k: int| 0 <= k < headers.len() && headers[k] == h;
                if k < front.len() {
                    assert(front[k] == h);
                }
            }
            if front.contains(h) {
                let k = choose|k: int| 0 <= k < front.len() && front[k] == h;
                assert(headers[k] == h);
            }
            if kept.contains(h) {
                let k = choose|k: int| 0 <= k < kept.len() && kept[k] == h;
                if headers.last().0 != name {
                    assert(all[k] == h);
                }
            }
            if all.contains(h) {
                let k = choose|k: int| 0 <= k < all.len() && all[k] == h;
                if k < kept.len() {
                    assert(kept[k] == h);
                }
            }
            if h == headers.last() {
                assert(headers[headers.len() - 1] == h);
                if h.0 != name {
                    assert(all[all.len() - 1] == h);
                }
            }
        }
    }
}

/// A status and the text that explains it.
#[derive(Debug)]
pub struct RuntimeError {
    pub status: u16,
    pub message: String,
}

/// Whether an outcome is a success, or the refusal with the given status and text.
pub open spec fn answers<T>(
    outcome: Result<T, RuntimeError>,
    refusal: Option<(u16, Seq<char>)>,
) -> bool {
    match outcome {
        Ok(_) => refusal is None,
        Err(error) => refusal == Some((error.status, error.message@)),
    }
}

impl RuntimeError {
    pub fn bad_request(message: String) -> (error: RuntimeError)
        ensures
            error.status == 400,
            error.message == message,
    {
        RuntimeError { status: 400, message }
    }

    pub fn unauthorized(message: String) -> (error: RuntimeError)
        ensures
            error.status == 401,
            error.message == message,
    {
        RuntimeError { status: 401, message }
    }

    pub fn forbidden(message: String) -> (error: RuntimeError)
        ensures
            error.status == 403,
            error.message == message,
    {
        RuntimeError { status: 403, message }
    }

    pub fn not_found(message: String) -> (error: RuntimeError)
        ensures
            error.status == 404,
            error.message == message,
    {
        RuntimeError { status: 404, message }
    }

    pub fn unsupported_media_type(message: String) -> (error: RuntimeError)
        ensures
            error.status == 415,
            error.message == message,
    {
        RuntimeError { status: 415, message }
    }

    pub fn unavailable(message: String) -> (error: RuntimeError)
        ensures
            error.status == 503,
            error.message == message,
    {
        RuntimeError { status: 503, message }
    }
}

// Laws

/// Where a refusal is due, the outcome is an error with its status and its text; where none is, the
/// outcome is a success.
pub proof fn lemma_answers<T>(outcome: Result<T, RuntimeError>, refusal: Option<(u16, Seq<char>)>)
    requires
        answers(outcome, refusal),
    ensures
        refusal is None <==> outcome is Ok,
        refusal is Some ==> outcome->Err_0.status == (refusal->0).0
            && outcome->Err_0.message@ == (refusal->0).1,
{
}

/// A header may hold any text but control characters; a tab is let through.
pub proof fn lemma_header_values(value: Seq<char>)
    ensures
        header_value(value) <==> forall|i: int|
            0 <= i < value.len() ==> (#[trigger] value[i]) != '\u{7f}' && (value[i] < ' '
                ==> value[i] == '\t'),
{
}

} // verus!
