//! Which answers are compressed on their way to the client.
use vstd::prelude::*;

use crate::text;

verus! {

/// Answers smaller than this many bytes are sent as they are.
pub const COMPRESSION_THRESHOLD: u16 = 1024;

/// The media types of code and style sheets.
pub open spec fn code_type(content_type: Seq<char>) -> bool {
    ||| content_type == "application/wasm"@
    ||| content_type == "application/javascript"@
    ||| content_type == "text/javascript"@
    ||| content_type == "text/css"@
}

/// Whether an answer is compressed: a success of exactly one of the code types. Documents are
/// left as they are.
pub fn compression(status: u16, content_type: Option<&str>) -> (compressed: bool)
    ensures
        compressed == (status == 200 && content_type is Some && code_type(content_type->0@)),
{
    match content_type {
        Some(content_type) => status == 200 && (text::same(content_type, "application/wasm")
            || text::same(content_type, "application/javascript") || text::same(
            content_type,
            "text/javascript",
        ) || text::same(content_type, "text/css")),
        None => false,
    }
}

/// Code and style sheets are compressed, and nothing else: no document, no image, no data.
pub proof fn lemma_which_types_are_compressed(content_type: Seq<char>)
    ensures
        code_type(content_type)
            <==> seq!["application/wasm"@, "application/javascript"@, "text/javascript"@,
            "text/css"@].contains(content_type),
{
    let types = seq![
        "application/wasm"@,
        "application/javascript"@,
        "text/javascript"@,
        "text/css"@,
    ];
    assert(types[0] == "application/wasm"@ && types[1] == "application/javascript"@ && types[2]
        == "text/javascript"@ && types[3] == "text/css"@);
    if types.contains(content_type) {
        let k = choose|k: int| 0 <= k < types.len() && types[k] == content_type;
        assert(k == 0 || k == 1 || k == 2 || k == 3);
    }
}

} // verus!
