//! The state of pages that change: what a page shows now, over what its plugin declares.
use vstd::prelude::*;

use crate::runtime::model;
use crate::runtime::model::{PageBody, PageBodyText, PageDefinition, PageText};
use crate::steps;
use crate::text;

verus! {

/// A stored state of a page: what it shows, or why that could not be read.
#[derive(Debug)]
pub struct StoredState {
    pub page_id: String,
    pub body: Result<PageBody, String>,
    pub generation: i64,
}

/// The generation of a page's state.
#[derive(Debug)]
pub struct PageGeneration {
    pub page_id: String,
    pub generation: i64,
}

/// The place of the last page with the id, or -1 where there is none.
pub open spec fn last_place(pages: Seq<PageText>, id: Seq<char>) -> int
    decreases pages.len(),
{
    if pages.len() == 0 {
        -1
    } else if pages.last().id == id {
        pages.len() - 1
    } else {
        last_place(pages.drop_last(), id)
    }
}

/// The pages with one stored state over them. A state of an unknown page changes nothing.
pub open spec fn overlaid_one(pages: Seq<PageText>, state: StoredState) -> Seq<PageText> {
    let at = last_place(pages, state.page_id@);
    if at >= 0 {
        pages.update(at, PageText { body: state.body->Ok_0@, ..pages[at] })
    } else {
        pages
    }
}

/// The pages with the stored states over them, in order.
pub open spec fn overlaid(pages: Seq<PageText>, states: Seq<StoredState>) -> Seq<PageText>
    decreases states.len(),
{
    if states.len() == 0 {
        pages
    } else {
        overlaid_one(overlaid(pages, states.drop_last()), states.last())
    }
}

/// The generations of the pages whose states are known.
pub open spec fn generations(pages: Seq<PageText>, states: Seq<StoredState>) -> Map<Seq<char>, i64>
    decreases states.len(),
{
    if states.len() == 0 {
        Map::empty()
    } else {
        let earlier = generations(pages, states.drop_last());
        if last_place(pages, states.last().page_id@) >= 0 {
            earlier.insert(states.last().page_id@, states.last().generation)
        } else {
            earlier
        }
    }
}

/// Noted generations as a map from the pages' ids.
pub open spec fn generation_map(noted: Seq<PageGeneration>) -> Map<Seq<char>, i64>
    decreases noted.len(),
{
    if noted.len() == 0 {
        Map::empty()
    } else {
        generation_map(noted.drop_last()).insert(noted.last().page_id@, noted.last().generation)
    }
}

/// Whether a state belongs to a known page and could not be read.
pub open spec fn unreadable(pages: Seq<PageText>, state: StoredState) -> bool {
    last_place(pages, state.page_id@) >= 0 && state.body is Err
}

proof fn lemma_last_place(pages: Seq<PageText>, id: Seq<char>)
    ensures
        -1 <= last_place(pages, id) < pages.len(),
        last_place(pages, id) >= 0 ==> pages[last_place(pages, id)].id == id,
    decreases pages.len(),
{
    if pages.len() > 0 && pages.last().id != id {
        lemma_last_place(pages.drop_last(), id);
    }
}

/// The place of a page depends on the ids alone.
proof fn lemma_same_ids(left: Seq<PageText>, right: Seq<PageText>, id: Seq<char>)
    requires
        left.len() == right.len(),
        forall|i: int| 0 <= i < left.len() ==> (#[trigger] left[i]).id == right[i].id,
    ensures
        last_place(left, id) == last_place(right, id),
    decreases left.len(),
{
    if left.len() > 0 {
        assert(left[left.len() - 1].id == right[left.len() - 1].id);
        if left.last().id != id {
            assert forall|i: int| 0 <= i < left.drop_last().len() implies (
            #[trigger] left.drop_last()[i]).id == right.drop_last()[i].id by {
                assert(left[i].id == right[i].id);
            }
            lemma_same_ids(left.drop_last(), right.drop_last(), id);
        }
    }
}

/// Overlaying states changes what pages show, and nothing else of them.
pub proof fn lemma_overlay_keeps_pages(pages: Seq<PageText>, states: Seq<StoredState>)
    ensures
        overlaid(pages, states).len() == pages.len(),
        forall|i: int|
            0 <= i < pages.len() ==> #[trigger] overlaid(pages, states)[i] == (PageText {
                body: overlaid(pages, states)[i].body,
                ..pages[i]
            }),
    decreases states.len(),
{
    if states.len() > 0 {
        lemma_overlay_keeps_pages(pages, states.drop_last());
        let before = overlaid(pages, states.drop_last());
        lemma_last_place(before, states.last().page_id@);
        let after = overlaid(pages, states);
        assert forall|i: int| 0 <= i < pages.len() implies #[trigger] after[i] == (PageText {
            body: after[i].body,
            ..pages[i]
        }) by {
            assert(before[i] == (PageText { body: before[i].body, ..pages[i] }));
        }
    }
}

/// Where the last page with the id stands.
fn find_last(pages: &Vec<PageDefinition>, id: &str) -> (at: Option<usize>)
    ensures
        match at {
            Some(at) => last_place(model::page_texts(pages@), id@) == at && at < pages@.len(),
            None => last_place(model::page_texts(pages@), id@) == -1,
        },
{
    let ghost all = model::page_texts(pages@);
    let mut n: usize = pages.len();
    assert(all.take(n as int) =~= all);
    while n > 0
        invariant
            n <= pages@.len(),
            all == model::page_texts(pages@),
            last_place(all, id@) == last_place(all.take(n as int), id@),
        decreases n,
    {
        assert(all.take(n as int).last() == all[n - 1]);
        assert(all.take(n as int).drop_last() =~= all.take(n - 1));
        if text::same(pages[n - 1].id.as_str(), id) {
            return Some(n - 1);
        }
        n -= 1;
    }
    None
}

/// What is told of a state that could not be read.
pub open spec fn unreadable_text(state: StoredState) -> Seq<char> {
    steps::explained("解析页面状态失败: "@ + state.page_id@, state.body->Err_0@)
}

/// Lays the stored states over the pages, and notes the generation of each. A state of a known
/// page that could not be read is told by the page's id and the cause; the states before it are
/// laid over the pages then, and no other.
pub fn overlay_page_states(pages: &mut Vec<PageDefinition>, states: Vec<StoredState>) -> (outcome:
    Result<Vec<PageGeneration>, String>)
    ensures
        ({
            let before = model::page_texts(old(pages)@);
            match outcome {
                Ok(noted) => {
                    &&& model::page_texts(final(pages)@) == overlaid(before, states@)
                    &&& generation_map(noted@) == generations(before, states@)
                    &&& forall|i: int|
                        0 <= i < states@.len() ==> !unreadable(before, #[trigger] states@[i])
                },
                Err(told) => exists|i: int|
                    {
                        &&& 0 <= i < states@.len()
                        &&& unreadable(before, #[trigger] states@[i])
                        &&& told@ == unreadable_text(states@[i])
                        &&& model::page_texts(final(pages)@) == overlaid(before, states@.take(i))
                        &&& forall|k: int|
                            0 <= k < i ==> !unreadable(before, #[trigger] states@[k])
                    },
            }
        }),
{
    let ghost all = states@;
    let ghost before = model::page_texts(pages@);
    let mut noted: Vec<PageGeneration> = Vec::new();
    let mut rest = states;
    let ghost mut seen: int = 0;
    assert(all.skip(0) =~= all);
    while rest.len() > 0
        invariant
            0 <= seen <= all.len(),
            rest@ == all.skip(seen),
            all == states@,
            before == model::page_texts(old(pages)@),
            model::page_texts(pages@) == overlaid(before, all.take(seen)),
            generation_map(noted@) == generations(before, all.take(seen)),
            forall|k: int| 0 <= k < seen ==> !unreadable(before, #[trigger] all[k]),
        decreases rest@.len(),
    {
        let ghost here = all[seen];
        let state = rest.remove(0);
        assert(state == here);
        assert(rest@ =~= all.skip(seen + 1));
        proof {
            assert(all.take(seen + 1).drop_last() =~= all.take(seen));
            lemma_overlay_keeps_pages(before, all.take(seen));
            lemma_same_ids(before, model::page_texts(pages@), state.page_id@);
        }
        match find_last(pages, state.page_id.as_str()) {
            Some(at) => {
                match state.body {
                    Err(cause) => {
                        assert(unreadable(before, all[seen]));
                        let label = "解析页面状态失败: ".to_owned().concat(state.page_id.as_str());
                        return Err(steps::explain(label.as_str(), cause.as_str()));
                    },
                    Ok(body) => {
                        let ghost shown = model::page_texts(pages@);
                        let ghost noted_before = noted@;
                        let mut page = pages.remove(at);
                        let ghost removed = page@;
                        page.body = body;
                        let ghost changed = page@;
                        pages.insert(at, page);
                        assert(changed =~= (PageText { body: body@, ..removed }));
                        assert(model::page_texts(pages@) =~= shown.update(at as int, changed));
                        noted.push(
                            PageGeneration {
                                page_id: state.page_id,
                                generation: state.generation,
                            },
                        );
                        assert(noted@.drop_last() =~= noted_before);
                    },
                }
            },
            None => {},
        }
        proof {
            seen = seen + 1;
        }
    }
    assert(all.take(seen) =~= all);
    Ok(noted)
}

/// How a state is written.
#[derive(Clone, Copy, Debug, PartialEq, Eq, Structural)]
pub enum SaveStatement {
    /// A page without a state gets its first one.
    Insert,
    /// The state of this generation is replaced by the next one.
    Update(i64),
}

/// Whether a statement writes a state for a writer who saw a generation.
pub open spec fn written_by(expected_generation: Option<i64>, statement: SaveStatement) -> bool {
    statement == match expected_generation {
        Some(generation) => SaveStatement::Update(generation),
        None => SaveStatement::Insert,
    }
}

/// How a state is written, from the generation that the writer saw.
pub fn save_statement(expected_generation: Option<i64>) -> (statement: SaveStatement)
    ensures
        written_by(expected_generation, statement),
{
    match expected_generation {
        Some(generation) => SaveStatement::Update(generation),
        None => SaveStatement::Insert,
    }
}

/// Whether an outcome says that a state was written.
pub open spec fn saved(rows_affected: u64, outcome: Result<(), String>) -> bool {
    &&& outcome is Ok <==> rows_affected == 1
    &&& outcome matches Err(told) ==> told@ == "页面状态已变化或插件版本已切换，请重试"@
}

/// Requires that exactly one state was written: the page was not changed meanwhile, and its plugin
/// was not switched.
pub fn save_page_state(rows_affected: u64) -> (outcome: Result<(), String>)
    ensures
        saved(rows_affected, outcome),
{
    if rows_affected == 1 {
        Ok(())
    } else {
        Err("页面状态已变化或插件版本已切换，请重试".to_owned())
    }
}

proof fn lemma_last_place_is(pages: Seq<PageText>, at: int)
    requires
        0 <= at < pages.len(),
        forall|k: int| at < k < pages.len() ==> (#[trigger] pages[k]).id != pages[at].id,
    ensures
        last_place(pages, pages[at].id) == at,
    decreases pages.len(),
{
    if at < pages.len() - 1 {
        assert(pages[pages.len() - 1].id != pages[at].id);
        let front = pages.drop_last();
        assert forall|k: int| at < k < front.len() implies (#[trigger] front[k]).id
            != front[at].id by {
            assert(pages[k].id != pages[at].id);
        }
        lemma_last_place_is(front, at);
    }
}

/// A page shows its latest stored state and carries its generation; without a stored state it shows
/// what its plugin declares. Of several pages with one id the last one is meant.
pub proof fn lemma_page_shows_its_latest_state(
    pages: Seq<PageText>,
    states: Seq<StoredState>,
    at: int,
    s: int,
)
    requires
        0 <= at < pages.len(),
        forall|k: int| at < k < pages.len() ==> (#[trigger] pages[k]).id != pages[at].id,
        -1 <= s < states.len(),
        s >= 0 ==> states[s].page_id@ == pages[at].id,
        forall|k: int| s < k < states.len() ==> (#[trigger] states[k]).page_id@ != pages[at].id,
    ensures
        ({
            let after = overlaid(pages, states);
            let noted = generations(pages, states);
            &&& after.len() == pages.len()
            &&& s >= 0 ==> after[at].body == states[s].body->Ok_0@ && noted.contains_key(
                pages[at].id,
            ) && noted[pages[at].id] == states[s].generation
            &&& s < 0 ==> after[at].body == pages[at].body && !noted.contains_key(pages[at].id)
            &&& after[at].id == pages[at].id && after[at].label == pages[at].label
                && after[at].scene_id == pages[at].scene_id && after[at].menu_path
                == pages[at].menu_path && after[at].required_permission
                == pages[at].required_permission
        }),
    decreases states.len(),
{
    lemma_overlay_keeps_pages(pages, states);
    if states.len() > 0 {
        let front = states.drop_last();
        let last = states.last();
        let before = overlaid(pages, front);
        lemma_overlay_keeps_pages(pages, front);
        assert forall|i: int| 0 <= i < pages.len() implies (#[trigger] before[i]).id
            == pages[i].id by {}
        lemma_last_place(before, last.page_id@);
        lemma_same_ids(before, pages, last.page_id@);
        if s == states.len() - 1 {
            lemma_last_place_is(pages, at);
        } else {
            assert(states[states.len() - 1].page_id@ != pages[at].id);
            assert forall|k: int| s < k < front.len() implies (#[trigger] front[k]).page_id@
                != pages[at].id by {
                assert(states[k].page_id@ != pages[at].id);
            }
            lemma_page_shows_its_latest_state(pages, front, at, s);
        }
    }
}

/// A state of a page that no longer exists changes nothing, and a page behind which another one of
/// the same id stands is left as it was declared.
pub proof fn lemma_other_pages_stay(
    pages: Seq<PageText>,
    states: Seq<StoredState>,
    at: int,
    later: int,
    unknown: Seq<char>,
)
    requires
        0 <= at < later < pages.len(),
        pages[later].id == pages[at].id,
        forall|k: int| 0 <= k < pages.len() ==> (#[trigger] pages[k]).id != unknown,
    ensures
        overlaid(pages, states)[at].body == pages[at].body,
        !generations(pages, states).contains_key(unknown),
    decreases states.len(),
{
    lemma_overlay_keeps_pages(pages, states);
    if states.len() > 0 {
        let front = states.drop_last();
        let before = overlaid(pages, front);
        lemma_other_pages_stay(pages, front, at, later, unknown);
        lemma_overlay_keeps_pages(pages, front);
        lemma_last_place(before, states.last().page_id@);
        lemma_last_place(pages, states.last().page_id@);
        assert forall|i: int| 0 <= i < pages.len() implies (#[trigger] before[i]).id
            == pages[i].id by {}
        lemma_last_place_at_least(before, later);
    }
}

proof fn lemma_last_place_at_least(pages: Seq<PageText>, at: int)
    requires
        0 <= at < pages.len(),
    ensures
        last_place(pages, pages[at].id) >= at,
    decreases pages.len(),
{
    if pages.last().id != pages[at].id {
        lemma_last_place_at_least(pages.drop_last(), at);
    }
}

/// Noted generations are read back by their page: the last one of a page counts.
pub proof fn lemma_noted_generation_is_read_back(noted: Seq<PageGeneration>, next: PageGeneration)
    ensures
        generation_map(noted.push(next)).contains_key(next.page_id@),
        generation_map(noted.push(next))[next.page_id@] == next.generation,
        forall|other: Seq<char>|
            other != next.page_id@
                ==> #[trigger] generation_map(noted.push(next)).contains_key(other)
                == generation_map(noted).contains_key(other),
        forall|other: Seq<char>|
            other != next.page_id@ && generation_map(noted).contains_key(other)
                ==> #[trigger] generation_map(noted.push(next))[other]
                    == generation_map(noted)[other],
        generation_map(Seq::empty()) == Map::<Seq<char>, i64>::empty(),
{
    assert(noted.push(next).drop_last() =~= noted);
}

/// A state that cannot be read is told by its page and the cause, but only where the page is there.
pub proof fn lemma_unreadable_states_are_told(pages: Seq<PageText>, state: StoredState)
    ensures
        unreadable(pages, state) <==> state.body is Err && exists|k: int|
            0 <= k < pages.len() && (#[trigger] pages[k]).id == state.page_id@,
        state.body is Err ==> unreadable_text(state) == "解析页面状态失败: "@ + state.page_id@ + ": "@
            + state.body->Err_0@,
{
    lemma_last_place(pages, state.page_id@);
    if exists|k: int| 0 <= k < pages.len() && (#[trigger] pages[k]).id == state.page_id@ {
        let k = choose|k: int| 0 <= k < pages.len() && (#[trigger] pages[k]).id == state.page_id@;
        lemma_last_place_at_least(pages, k);
    }
}

/// A writer who saw a generation replaces exactly that one; a writer who saw none adds the first.
pub proof fn lemma_how_a_state_is_written(expected_generation: Option<i64>,
    statement: SaveStatement)
    requires
        written_by(expected_generation, statement),
    ensures
        expected_generation is Some ==> statement == SaveStatement::Update(expected_generation->0),
        expected_generation is None ==> statement is Insert,
{
}

/// A state is saved where one row was written; a writer who came too late is told to try again.
pub proof fn lemma_when_a_state_is_saved(rows_affected: u64, outcome: Result<(), String>)
    requires
        saved(rows_affected, outcome),
    ensures
        rows_affected == 1 ==> outcome is Ok,
        rows_affected != 1 ==> outcome is Err && outcome->Err_0@ == "页面状态已变化或插件版本已切换，请重试"@,
{
}

} // verus!
