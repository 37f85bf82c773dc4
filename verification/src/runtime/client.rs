//! What a client does with the answers of the server.
use vstd::prelude::*;

use crate::text;

verus! {

/// What is shown where the catalog could not be read: the status, where it is no success.
pub fn catalog(status: u16) -> (outcome: Result<(), String>)
    ensures
        outcome is Ok <==> 200 <= status <= 299,
        outcome matches Err(told) ==> told@ == "HTTP "@ + text::decimal(status as nat),
{
    if 200 <= status && status <= 299 {
        return Ok(());
    }
    let number = text::decimal_text(status as u64);
    Err("HTTP ".to_owned().concat(number.as_str()))
}

/// Whether an action of the account menu ends the session; every other action does nothing.
pub fn account_action(action: &str) -> (logout: bool)
    ensures
        logout == (action@ == "logout"@),
{
    text::same(action, "logout")
}

/// The next value of a counter, which stops at the largest one.
pub fn increment(count: u64) -> (next: u64)
    ensures
        next == if count == u64::MAX {
            count as int
        } else {
            count + 1
        },
{
    if count == u64::MAX {
        count
    } else {
        count + 1
    }
}

/// What is shown where a page cannot be mounted: the answer's text, where it has one.
pub fn mount_refusal(answer: Option<&str>) -> (told: String)
    ensures
        told@ == match answer {
            Some(answer) => answer@,
            None => "挂载前端失败"@,
        },
{
    match answer {
        Some(answer) => answer.to_owned(),
        None => "挂载前端失败".to_owned(),
    }
}

/// The id of the frame that shows a mounted page.
pub fn frame_id(token: &str) -> (id: String)
    ensures
        id@ == "aio-frontend-"@ + token@,
{
    "aio-frontend-".to_owned().concat(token)
}

/// Different mounts are shown in different frames.
pub proof fn lemma_frames_differ(left: Seq<char>, right: Seq<char>)
    requires
        "aio-frontend-"@ + left == "aio-frontend-"@ + right,
    ensures
        left == right,
{
    let prefix = "aio-frontend-"@;
    assert((prefix + left).skip(prefix.len() as int) =~= left);
    assert((prefix + right).skip(prefix.len() as int) =~= right);
}

} // verus!
