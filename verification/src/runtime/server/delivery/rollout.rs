//! Rolling out published versions, and clearing away old ones.
use vstd::prelude::*;

use crate::text;

verus! {

/// Whether an outcome says that a build was not overtaken.
pub open spec fn current_build(current: Option<bool>, outcome: Result<(), String>) -> bool {
    &&& outcome is Ok <==> current != Some(false)
    &&& outcome matches Err(told) ==> told@ == "构建已被后续源码提交替代"@
}

/// Requires that a build was not overtaken: a version that belongs to no build, or to one of the
/// current commit, may be published.
pub fn ensure_current(current: Option<bool>) -> (outcome: Result<(), String>)
    ensures
        current_build(current, outcome),
{
    match current {
        Some(false) => Err("构建已被后续源码提交替代".to_owned()),
        _ => Ok(()),
    }
}

/// What is recorded of a rollout.
#[derive(Debug)]
pub struct RolloutRecord {
    pub state: String,
    pub error: Option<String>,
}

/// Whether a record tells how an installation ended.
pub open spec fn records(result: Result<(), String>, record: RolloutRecord) -> bool {
    match result {
        Ok(_) => record.state@ == "active"@ && record.error is None,
        Err(told) => record.state@ == "failed"@ && record.error == Some(told),
    }
}

/// What is recorded of a rollout, from how the installation ended.
pub fn rollout_record(result: Result<(), String>) -> (record: RolloutRecord)
    ensures
        records(result, record),
{
    match result {
        Ok(()) => RolloutRecord { state: "active".to_owned(), error: None },
        Err(told) => RolloutRecord { state: "failed".to_owned(), error: Some(told) },
    }
}

// Rows

/// How many rollouts one round takes up.
pub const MAX_ROUND: usize = 8;

/// How many microseconds pass before a failed rollout is tried again.
pub const RETRY_MICROS: i64 = 60_000_000;

/// A tenant's binding to a plugin: the revision that it runs, whether it is enabled, the published
/// revision, and the one that the tenant turned away. The statements that read and write the tables
/// must agree with what is said of these rows here.
#[derive(Debug)]
pub struct BindingRow {
    pub tenant_id: String,
    pub source_id: String,
    pub git: String,
    pub revision: String,
    pub enabled: bool,
    pub published: Option<String>,
    pub excluded: Option<String>,
}

/// How far a rollout is.
#[derive(Clone, Copy, Debug, PartialEq, Eq, Structural)]
pub enum RolloutState {
    Queued,
    Active,
    Failed,
}

/// A rollout of a revision to a tenant's binding. Times are in microseconds.
#[derive(Debug)]
pub struct RolloutRow {
    pub tenant_id: String,
    pub source_id: String,
    pub revision: String,
    pub state: RolloutState,
    pub updated_at: i64,
}

/// What a binding holds.
#[verifier::ext_equal]
pub struct BindingText {
    pub tenant_id: Seq<char>,
    pub source_id: Seq<char>,
    pub git: Seq<char>,
    pub revision: Seq<char>,
    pub enabled: bool,
    pub published: Option<Seq<char>>,
    pub excluded: Option<Seq<char>>,
}

/// What a rollout holds.
#[verifier::ext_equal]
pub struct RolloutText {
    pub tenant_id: Seq<char>,
    pub source_id: Seq<char>,
    pub revision: Seq<char>,
    pub state: RolloutState,
    pub updated_at: i64,
}

impl View for BindingRow {
    type V = BindingText;

    open spec fn view(&self) -> BindingText {
        BindingText {
            tenant_id: self.tenant_id@,
            source_id: self.source_id@,
            git: self.git@,
            revision: self.revision@,
            enabled: self.enabled,
            published: text::optional(self.published),
            excluded: text::optional(self.excluded),
        }
    }
}

impl View for RolloutRow {
    type V = RolloutText;

    open spec fn view(&self) -> RolloutText {
        RolloutText {
            tenant_id: self.tenant_id@,
            source_id: self.source_id@,
            revision: self.revision@,
            state: self.state,
            updated_at: self.updated_at,
        }
    }
}

/// What the bindings hold.
pub open spec fn binding_texts(rows: Seq<BindingRow>) -> Seq<BindingText> {
    rows.map_values(|row: BindingRow| row@)
}

/// What the rollouts hold.
pub open spec fn rollout_texts(rows: Seq<RolloutRow>) -> Seq<RolloutText> {
    rows.map_values(|row: RolloutRow| row@)
}

/// Whether a binding is to be moved to the published revision: it is enabled, runs another one, and
/// its tenant did not turn the published one away.
pub open spec fn eligible(binding: BindingText) -> bool {
    &&& binding.enabled
    &&& binding.published is Some
    &&& binding.revision != binding.published->0
    &&& binding.excluded != binding.published
}

/// Whether there is a rollout of a revision to a binding.
pub open spec fn rolled(rollouts: Seq<RolloutText>, binding: BindingText,
    revision: Seq<char>) -> bool {
    exists|i: int|
        0 <= i < rollouts.len() && (#[trigger] rollouts[i]).tenant_id == binding.tenant_id
            && rollouts[i].source_id == binding.source_id && rollouts[i].revision == revision
}

/// The rollouts with those that the bindings wait for, in order.
pub open spec fn queued(
    rollouts: Seq<RolloutText>,
    bindings: Seq<BindingText>,
    now: i64,
) -> Seq<RolloutText>
    decreases bindings.len(),
{
    if bindings.len() == 0 {
        rollouts
    } else {
        let earlier = queued(rollouts, bindings.drop_last(), now);
        let binding = bindings.last();
        if eligible(binding) && !rolled(earlier, binding, binding.published->0) {
            earlier.push(
                RolloutText {
                    tenant_id: binding.tenant_id,
                    source_id: binding.source_id,
                    revision: binding.published->0,
                    state: RolloutState::Queued,
                    updated_at: now,
                },
            )
        } else {
            earlier
        }
    }
}

/// Whether a rollout is of a binding and may be carried out: the binding is enabled, the revision
/// is still the published one, and its tenant did not turn it away.
pub open spec fn admits(binding: BindingText, rollout: RolloutText) -> bool {
    &&& binding.tenant_id == rollout.tenant_id
    &&& binding.source_id == rollout.source_id
    &&& binding.enabled
    &&& binding.published == Some(rollout.revision)
    &&& binding.excluded != Some(rollout.revision)
}

/// Whether a rollout waits to be carried out, or to be tried again.
pub open spec fn waits(rollout: RolloutText, now: i64) -> bool {
    rollout.state is Queued || rollout.state is Failed && rollout.updated_at < now - RETRY_MICROS
}

/// Whether a rollout is due.
pub open spec fn due(bindings: Seq<BindingText>, rollout: RolloutText, now: i64) -> bool {
    waits(rollout, now) && exists|i: int|
        0 <= i < bindings.len() && admits(#[trigger] bindings[i], rollout)
}

/// The rollouts that are due, in order.
pub open spec fn all_due(
    bindings: Seq<BindingText>,
    rollouts: Seq<RolloutText>,
    now: i64,
) -> Seq<RolloutText>
    decreases rollouts.len(),
{
    if rollouts.len() == 0 {
        Seq::empty()
    } else {
        let earlier = all_due(bindings, rollouts.drop_last(), now);
        if due(bindings, rollouts.last(), now) {
            earlier.push(rollouts.last())
        } else {
            earlier
        }
    }
}

/// The rollouts that one round carries out: the first of those that are due.
pub open spec fn round(
    bindings: Seq<BindingText>,
    rollouts: Seq<RolloutText>,
    now: i64,
) -> Seq<RolloutText> {
    let waiting = all_due(bindings, rollouts, now);
    if waiting.len() > MAX_ROUND {
        waiting.take(MAX_ROUND as int)
    } else {
        waiting
    }
}

/// Whether a binding is to be moved to the published revision.
fn is_eligible(binding: &BindingRow) -> (yes: bool)
    ensures
        yes == eligible(binding@),
{
    match &binding.published {
        None => false,
        Some(published) => binding.enabled && !text::same(
            binding.revision.as_str(),
            published.as_str(),
        ) && match &binding.excluded {
            Some(excluded) => !text::same(excluded.as_str(), published.as_str()),
            None => true,
        },
    }
}

/// Whether there is a rollout of a revision to a binding.
fn is_rolled(rollouts: &Vec<RolloutRow>, binding: &BindingRow, revision: &str) -> (yes: bool)
    ensures
        yes == rolled(rollout_texts(rollouts@), binding@, revision@),
{
    let ghost rows = rollout_texts(rollouts@);
    let mut i: usize = 0;
    while i < rollouts.len()
        invariant
            i <= rollouts@.len(),
            rows == rollout_texts(rollouts@),
            forall|k: int|
                0 <= k < i ==> !((#[trigger] rows[k]).tenant_id == binding@.tenant_id
                    && rows[k].source_id == binding@.source_id && rows[k].revision == revision@),
        decreases rollouts@.len() - i,
    {
        let row = &rollouts[i];
        assert(rows[i as int] == row@);
        if text::same(row.tenant_id.as_str(), binding.tenant_id.as_str()) && text::same(
            row.source_id.as_str(),
            binding.source_id.as_str(),
        ) && text::same(row.revision.as_str(), revision) {
            return true;
        }
        i += 1;
    }
    false
}

/// Queues the rollouts that the bindings wait for.
pub fn queue_rollouts(bindings: &Vec<BindingRow>, rollouts: &mut Vec<RolloutRow>, now: i64)
    ensures
        rollout_texts(final(rollouts)@) == queued(
            rollout_texts(old(rollouts)@),
            binding_texts(bindings@),
            now,
        ),
{
    let ghost before = rollout_texts(rollouts@);
    let ghost all = binding_texts(bindings@);
    let mut i: usize = 0;
    while i < bindings.len()
        invariant
            i <= bindings@.len(),
            all == binding_texts(bindings@),
            rollout_texts(rollouts@) == queued(before, all.take(i as int), now),
        decreases bindings@.len() - i,
    {
        let binding = &bindings[i];
        let ghost earlier = rollout_texts(rollouts@);
        assert(all.take(i as int + 1).drop_last() =~= all.take(i as int));
        assert(all.take(i as int + 1).last() == binding@);
        if is_eligible(binding) {
            if let Some(published) = &binding.published {
                if !is_rolled(rollouts, binding, published.as_str()) {
                    let row = RolloutRow {
                        tenant_id: binding.tenant_id.clone(),
                        source_id: binding.source_id.clone(),
                        revision: published.clone(),
                        state: RolloutState::Queued,
                        updated_at: now,
                    };
                    let ghost added = row@;
                    rollouts.push(row);
                    assert(rollout_texts(rollouts@) =~= earlier.push(added));
                }
            }
        }
        i += 1;
    }
    assert(all.take(i as int) =~= all);
}

/// Whether a rollout is of a binding and may be carried out.
fn does_admit(binding: &BindingRow, rollout: &RolloutRow) -> (yes: bool)
    ensures
        yes == admits(binding@, rollout@),
{
    let revision = rollout.revision.as_str();
    let current = match &binding.published {
        Some(published) => text::same(published.as_str(), revision),
        None => false,
    };
    let excluded = match &binding.excluded {
        Some(excluded) => text::same(excluded.as_str(), revision),
        None => false,
    };
    text::same(binding.tenant_id.as_str(), rollout.tenant_id.as_str()) && text::same(
        binding.source_id.as_str(),
        rollout.source_id.as_str(),
    ) && binding.enabled && current && !excluded
}

/// The place of a binding that admits a rollout.
fn find_admitting(bindings: &Vec<BindingRow>, rollout: &RolloutRow) -> (at: Option<usize>)
    ensures
        match at {
            Some(at) => at < bindings@.len() && admits(bindings@[at as int]@, rollout@),
            None => forall|i: int|
                0 <= i < bindings@.len() ==> !admits(
                    #[trigger] binding_texts(bindings@)[i],
                    rollout@,
                ),
        },
{
    let ghost all = binding_texts(bindings@);
    let mut i: usize = 0;
    while i < bindings.len()
        invariant
            i <= bindings@.len(),
            all == binding_texts(bindings@),
            forall|k: int| 0 <= k < i ==> !admits(#[trigger] all[k], rollout@),
        decreases bindings@.len() - i,
    {
        assert(all[i as int] == bindings@[i as int]@);
        if does_admit(&bindings[i], rollout) {
            return Some(i);
        }
        i += 1;
    }
    None
}

/// A rollout that is to be carried out.
#[derive(Debug)]
pub struct DueRollout {
    pub tenant_id: String,
    pub source_id: String,
    pub git: String,
    pub revision: String,
}

/// Whether the rollouts to be carried out are those of a round, each with its plugin's address.
pub open spec fn carried(
    chosen: Seq<DueRollout>,
    bindings: Seq<BindingText>,
    wanted: Seq<RolloutText>,
) -> bool {
    &&& chosen.len() == wanted.len()
    &&& forall|i: int|
        0 <= i < chosen.len() ==> {
            &&& (#[trigger] chosen[i]).tenant_id@ == wanted[i].tenant_id
            &&& chosen[i].source_id@ == wanted[i].source_id
            &&& chosen[i].revision@ == wanted[i].revision
            &&& exists|k: int|
                0 <= k < bindings.len() && admits(#[trigger] bindings[k], wanted[i])
                    && bindings[k].git == chosen[i].git@
        }
}

/// The rollouts that one round carries out.
pub fn due_rollouts(bindings: &Vec<BindingRow>, rollouts: &Vec<RolloutRow>,
    now: i64) -> (chosen: Vec<
    DueRollout,
>)
    ensures
        carried(
            chosen@,
            binding_texts(bindings@),
            round(binding_texts(bindings@), rollout_texts(rollouts@), now),
        ),
{
    let ghost all = binding_texts(bindings@);
    let ghost rows = rollout_texts(rollouts@);
    let mut chosen: Vec<DueRollout> = Vec::new();
    let ghost mut wanted: Seq<RolloutText> = Seq::empty();
    let mut i: usize = 0;
    while i < rollouts.len() && chosen.len() < MAX_ROUND
        invariant
            i <= rollouts@.len(),
            all == binding_texts(bindings@),
            rows == rollout_texts(rollouts@),
            wanted == all_due(all, rows.take(i as int), now),
            carried(chosen@, all, wanted),
            chosen@.len() <= MAX_ROUND,
        decreases rollouts@.len() - i,
    {
        let rollout = &rollouts[i];
        let ghost picked = chosen@;
        assert(rows.take(i as int + 1).drop_last() =~= rows.take(i as int));
        assert(rows.take(i as int + 1).last() == rollout@);
        let waiting = rollout.state == RolloutState::Queued || (rollout.state
            == RolloutState::Failed && now >= i64::MIN + RETRY_MICROS && rollout.updated_at < now
            - RETRY_MICROS);
        if waiting {
            match find_admitting(bindings, rollout) {
                None => {},
                Some(at) => {
                    let binding = &bindings[at];
                    assert(admits(all[at as int], rollout@));
                    let next = DueRollout {
                        tenant_id: rollout.tenant_id.clone(),
                        source_id: rollout.source_id.clone(),
                        git: binding.git.clone(),
                        revision: rollout.revision.clone(),
                    };
                    chosen.push(next);
                    proof {
                        let ghost more = wanted.push(rollout@);
                        assert(all[at as int].git == next.git@);
                        assert forall|k: int| 0 <= k < chosen@.len() implies {
                            &&& (#[trigger] chosen@[k]).tenant_id@ == more[k].tenant_id
                            &&& chosen@[k].source_id@ == more[k].source_id
                            &&& chosen@[k].revision@ == more[k].revision
                            &&& exists|m: int|
                                0 <= m < all.len() && admits(#[trigger] all[m], more[k])
                                    && all[m].git == chosen@[k].git@
                        } by {
                            if k < picked.len() {
                                assert(chosen@[k] == picked[k]);
                                assert(more[k] == wanted[k]);
                            }
                        }
                        wanted = more;
                    }
                },
            }
        }
        i += 1;
    }
    proof {
        lemma_due_prefix(all, rows, i as int, now);
        assert(rows.take(rows.len() as int) =~= rows);
        let whole = all_due(all, rows, now);
        assert(whole.take(wanted.len() as int) == wanted);
        assert(round(all, rows, now) =~= wanted);
    }
    chosen
}

/// The rollouts that are due among the first rows come first among all that are due.
proof fn lemma_due_prefix(
    bindings: Seq<BindingText>,
    rollouts: Seq<RolloutText>,
    count: int,
    now: i64,
)
    requires
        0 <= count <= rollouts.len(),
    ensures
        ({
            let first = all_due(bindings, rollouts.take(count), now);
            let whole = all_due(bindings, rollouts, now);
            &&& first.len() <= whole.len()
            &&& whole.take(first.len() as int) == first
        }),
    decreases rollouts.len() - count,
{
    let first = all_due(bindings, rollouts.take(count), now);
    let whole = all_due(bindings, rollouts, now);
    if count == rollouts.len() {
        assert(rollouts.take(count) =~= rollouts);
        assert(whole.take(first.len() as int) =~= first);
    } else {
        lemma_due_prefix(bindings, rollouts, count + 1, now);
        let more = all_due(bindings, rollouts.take(count + 1), now);
        assert(rollouts.take(count + 1).drop_last() =~= rollouts.take(count));
        assert(more.take(first.len() as int) =~= first);
        assert(whole.take(first.len() as int) =~= whole.take(more.len() as int).take(
            first.len() as int,
        ));
    }
}

// Laws

proof fn lemma_due_are_due(
    bindings: Seq<BindingText>,
    rollouts: Seq<RolloutText>,
    now: i64,
    at: int,
)
    requires
        0 <= at < all_due(bindings, rollouts, now).len(),
    ensures
        due(bindings, all_due(bindings, rollouts, now)[at], now),
        rollouts.contains(all_due(bindings, rollouts, now)[at]),
    decreases rollouts.len(),
{
    if rollouts.len() > 0 {
        let earlier = all_due(bindings, rollouts.drop_last(), now);
        if at < earlier.len() {
            lemma_due_are_due(bindings, rollouts.drop_last(), now, at);
            let k = choose|k: int|
                0 <= k < rollouts.drop_last().len() && rollouts.drop_last()[k] == earlier[at];
            assert(rollouts[k] == earlier[at]);
        } else {
            assert(rollouts[rollouts.len() - 1] == rollouts.last());
        }
    }
}

/// One round over all bindings moves a binding only to the published revision, and only where the
/// binding is enabled and its tenant did not turn that revision away. So a disabled binding keeps
/// its revision, a tenant without a binding gets none, and one that went back to another revision
/// is not put on the published one again.
pub proof fn lemma_round_moves_only_what_it_may(
    bindings: Seq<BindingText>,
    rollouts: Seq<RolloutText>,
    now: i64,
    at: int,
    tenant: Seq<char>,
    source: Seq<char>,
)
    requires
        0 <= at < round(bindings, queued(rollouts, bindings, now), now).len(),
    ensures
        ({
            let moved = round(bindings, queued(rollouts, bindings, now), now)[at];
            &&& exists|i: int| 0 <= i < bindings.len() && admits(#[trigger] bindings[i], moved)
            &&& (forall|i: int|
                0 <= i < bindings.len() && (#[trigger] bindings[i]).tenant_id == tenant
                    && bindings[i].source_id == source ==> !bindings[i].enabled
                    || bindings[i].excluded == bindings[i].published) ==> !(moved.tenant_id
                == tenant && moved.source_id == source)
        }),
{
    let all = queued(rollouts, bindings, now);
    lemma_due_are_due(bindings, all, now, at);
    let moved = round(bindings, all, now)[at];
    assert(moved == all_due(bindings, all, now)[at]);
    let k = choose|k: int| 0 <= k < bindings.len() && admits(#[trigger] bindings[k], moved);
    assert(admits(bindings[k], moved));
}

proof fn lemma_nothing_is_queued(rollouts: Seq<RolloutText>, bindings: Seq<BindingText>, now: i64)
    requires
        forall|i: int| 0 <= i < bindings.len() ==> !eligible(#[trigger] bindings[i]),
    ensures
        queued(rollouts, bindings, now) == rollouts,
    decreases bindings.len(),
{
    if bindings.len() > 0 {
        let front = bindings.drop_last();
        assert forall|i: int| 0 <= i < front.len() implies !eligible(#[trigger] front[i]) by {
            assert(bindings[i] == front[i]);
        }
        lemma_nothing_is_queued(rollouts, front, now);
        assert(!eligible(bindings[bindings.len() - 1]));
    }
}

/// Where no rollout is queued or failed and every binding that may follow runs the published
/// revision, a round queues nothing and carries out nothing.
pub proof fn lemma_settled_round_does_nothing(
    bindings: Seq<BindingText>,
    rollouts: Seq<RolloutText>,
    now: i64,
)
    requires
        forall|i: int| 0 <= i < bindings.len() ==> !eligible(#[trigger] bindings[i]),
        forall|i: int| 0 <= i < rollouts.len() ==> (#[trigger] rollouts[i]).state is Active,
    ensures
        queued(rollouts, bindings, now) == rollouts,
        round(bindings, queued(rollouts, bindings, now), now).len() == 0,
{
    lemma_nothing_is_queued(rollouts, bindings, now);
    if all_due(bindings, rollouts, now).len() > 0 {
        lemma_due_are_due(bindings, rollouts, now, 0);
        let first = all_due(bindings, rollouts, now)[0];
        let k = choose|k: int| 0 <= k < rollouts.len() && rollouts[k] == first;
        assert(rollouts[k].state is Active);
    }
}

/// A binding that runs the published revision after its rollout is not moved again, and a tenant
/// that turned a revision away follows again when another one is published.
pub proof fn lemma_binding_follows_once(binding: BindingText, next: Seq<char>)
    requires
        binding.published is Some,
    ensures
        !eligible(BindingText { revision: binding.published->0, ..binding }),
        !eligible(BindingText { excluded: binding.published, ..binding }),
        binding.enabled && next != binding.revision && binding.excluded != Some(next) ==> eligible(
            BindingText { published: Some(next), ..binding },
        ),
{
}

proof fn lemma_queued_rows(rollouts: Seq<RolloutText>, bindings: Seq<BindingText>, now: i64)
    ensures
        ({
            let after = queued(rollouts, bindings, now);
            &&& rollouts.is_prefix_of(after)
            &&& forall|b: int|
                0 <= b < bindings.len() && eligible(#[trigger] bindings[b]) ==> rolled(
                    after,
                    bindings[b],
                    bindings[b].published->0,
                )
            &&& forall|k: int|
                rollouts.len() <= k < after.len() ==> (#[trigger] after[k]).state is Queued
                    && after[k].updated_at == now && exists|b: int|
                    0 <= b < bindings.len() && eligible(#[trigger] bindings[b])
                        && bindings[b].tenant_id == after[k].tenant_id && bindings[b].source_id
                        == after[k].source_id && bindings[b].published == Some(after[k].revision)
            &&& forall|j: int, k: int|
                0 <= j < k < after.len() && rollouts.len() <= k
                    ==> !((#[trigger] after[j]).tenant_id
                    == (#[trigger] after[k]).tenant_id && after[j].source_id == after[k].source_id
                    && after[j].revision == after[k].revision)
        }),
    decreases bindings.len(),
{
    if bindings.len() > 0 {
        let front = bindings.drop_last();
        let last = bindings.last();
        lemma_queued_rows(rollouts, front, now);
        let earlier = queued(rollouts, front, now);
        let after = queued(rollouts, bindings, now);
        assert forall|b: int| 0 <= b < bindings.len()
            && eligible(#[trigger] bindings[b]) implies rolled(
            after,
            bindings[b],
            bindings[b].published->0,
        ) by {
            let wanted = bindings[b].published->0;
            if b < front.len() {
                assert(front[b] == bindings[b]);
                assert(rolled(earlier, bindings[b], wanted));
            }
            if rolled(earlier, bindings[b], wanted) {
                let i = choose|i: int|
                    0 <= i < earlier.len() && (#[trigger] earlier[i]).tenant_id
                        == bindings[b].tenant_id && earlier[i].source_id == bindings[b].source_id
                        && earlier[i].revision == wanted;
                assert(after[i] == earlier[i]);
            } else {
                assert(after[earlier.len() as int].revision == wanted);
            }
        }
        assert forall|k: int| rollouts.len() <= k < after.len() implies (
        #[trigger] after[k]).state is Queued && after[k].updated_at == now && exists|b: int|
            0 <= b < bindings.len() && eligible(#[trigger] bindings[b]) && bindings[b].tenant_id
                == after[k].tenant_id && bindings[b].source_id == after[k].source_id
                && bindings[b].published == Some(after[k].revision) by {
            if k < earlier.len() {
                assert(after[k] == earlier[k]);
                let b = choose|b: int|
                    0 <= b < front.len() && eligible(#[trigger] front[b]) && front[b].tenant_id
                        == earlier[k].tenant_id && front[b].source_id == earlier[k].source_id
                        && front[b].published == Some(earlier[k].revision);
                assert(bindings[b] == front[b]);
            } else {
                assert(eligible(bindings[bindings.len() - 1]));
            }
        }
        assert forall|j: int, k: int|
            0 <= j < k < after.len() && rollouts.len() <= k implies !((
        #[trigger] after[j]).tenant_id == (#[trigger] after[k]).tenant_id && after[j].source_id
            == after[k].source_id && after[j].revision == after[k].revision) by {
            assert(after[j] == earlier[j]);
            if k < earlier.len() {
                assert(after[k] == earlier[k]);
            }
        }
    }
}

/// Every release is rolled out: after the rollouts were queued, each enabled binding that does not
/// run the published revision, and whose tenant did not turn that revision away, has a rollout of
/// exactly that revision, whatever rollouts of other revisions it had before. What was there stays
/// as it was. Each new row is queued now, for such a binding, and none is there twice.
pub proof fn lemma_every_release_is_queued(
    bindings: Seq<BindingRow>,
    before: Seq<RolloutRow>,
    after: Seq<RolloutRow>,
    now: i64,
)
    requires
        rollout_texts(after) == queued(rollout_texts(before), binding_texts(bindings), now),
    ensures
        before.len() <= after.len(),
        forall|k: int|
            0 <= k < before.len() ==> (#[trigger] after[k]).tenant_id@ == before[k].tenant_id@
                && after[k].source_id@ == before[k].source_id@ && after[k].revision@
                == before[k].revision@ && after[k].state == before[k].state && after[k].updated_at
                == before[k].updated_at,
        forall|b: int|
            0 <= b < bindings.len() && (#[trigger] bindings[b]).enabled
                && bindings[b].published is Some && bindings[b].revision@
                != bindings[b].published->0@ && (bindings[b].excluded is None
                || bindings[b].excluded->0@ != bindings[b].published->0@) ==> exists|i: int|
                0 <= i < after.len() && (#[trigger] after[i]).tenant_id@ == bindings[b].tenant_id@
                    && after[i].source_id@ == bindings[b].source_id@ && after[i].revision@
                    == bindings[b].published->0@,
        forall|k: int|
            before.len() <= k < after.len() ==> (#[trigger] after[k]).state is Queued
                && after[k].updated_at == now && exists|b: int|
                0 <= b < bindings.len() && (#[trigger] bindings[b]).enabled
                    && bindings[b].published is Some && bindings[b].revision@
                    != bindings[b].published->0@ && (bindings[b].excluded is None
                    || bindings[b].excluded->0@ != bindings[b].published->0@)
                    && bindings[b].tenant_id@ == after[k].tenant_id@ && bindings[b].source_id@
                    == after[k].source_id@ && bindings[b].published->0@ == after[k].revision@,
        forall|j: int, k: int|
            0 <= j < k < after.len() && before.len() <= k
                ==> !((#[trigger] after[j]).tenant_id@ == (
            #[trigger] after[k]).tenant_id@ && after[j].source_id@ == after[k].source_id@
                && after[j].revision@ == after[k].revision@),
{
    let (old_rows, new_rows, all) = (
        rollout_texts(before),
        rollout_texts(after),
        binding_texts(bindings),
    );
    lemma_queued_rows(old_rows, all, now);
    assert forall|k: int| 0 <= k < before.len() implies (#[trigger] after[k]).tenant_id@
        == before[k].tenant_id@ && after[k].source_id@ == before[k].source_id@ && after[k].revision@
        == before[k].revision@ && after[k].state == before[k].state && after[k].updated_at
        == before[k].updated_at by {
        assert(new_rows[k] == old_rows[k]);
        assert(new_rows[k] == after[k]@);
        assert(old_rows[k] == before[k]@);
    }
    assert forall|b: int|
        0 <= b < bindings.len() && (#[trigger] bindings[b]).enabled && bindings[b].published is Some
            && bindings[b].revision@ != bindings[b].published->0@ && (bindings[b].excluded is None
            || bindings[b].excluded->0@ != bindings[b].published->0@) implies exists|i: int|
        0 <= i < after.len() && (#[trigger] after[i]).tenant_id@ == bindings[b].tenant_id@
            && after[i].source_id@ == bindings[b].source_id@ && after[i].revision@
            == bindings[b].published->0@ by {
        assert(all[b] == bindings[b]@);
        assert(eligible(all[b]));
        let i = choose|i: int|
            0 <= i < new_rows.len() && (#[trigger] new_rows[i]).tenant_id == all[b].tenant_id
                && new_rows[i].source_id == all[b].source_id && new_rows[i].revision
                == all[b].published->0;
        assert(new_rows[i] == after[i]@);
    }
    assert forall|k: int| before.len()
        <= k < after.len() implies (#[trigger] after[k]).state is Queued
        && after[k].updated_at == now && exists|b: int|
        0 <= b < bindings.len() && (#[trigger] bindings[b]).enabled && bindings[b].published is Some
            && bindings[b].revision@ != bindings[b].published->0@ && (bindings[b].excluded is None
            || bindings[b].excluded->0@ != bindings[b].published->0@) && bindings[b].tenant_id@
            == after[k].tenant_id@ && bindings[b].source_id@ == after[k].source_id@
            && bindings[b].published->0@ == after[k].revision@ by {
        assert(new_rows[k] == after[k]@);
        let b = choose|b: int|
            0 <= b < all.len() && eligible(#[trigger] all[b]) && all[b].tenant_id
                == new_rows[k].tenant_id && all[b].source_id == new_rows[k].source_id
                && all[b].published == Some(new_rows[k].revision);
        assert(all[b] == bindings[b]@);
    }
    assert forall|j: int, k: int| 0 <= j < k < after.len() && before.len() <= k implies !((
    #[trigger] after[j]).tenant_id@ == (#[trigger] after[k]).tenant_id@ && after[j].source_id@
        == after[k].source_id@ && after[j].revision@ == after[k].revision@) by {
        assert(new_rows[j] == after[j]@);
        assert(new_rows[k] == after[k]@);
    }
}

proof fn lemma_due_sources(
    bindings: Seq<BindingText>,
    rollouts: Seq<RolloutText>,
    now: i64,
) -> (from: Seq<int>)
    ensures
        ({
            let chosen = all_due(bindings, rollouts, now);
            &&& from.len() == chosen.len()
            &&& forall|i: int|
                0 <= i < from.len() ==> 0 <= #[trigger] from[i] < rollouts.len()
                    && rollouts[from[i]] == chosen[i] && due(bindings, chosen[i], now)
            &&& forall|i: int, j: int| 0 <= i < j < from.len()
                ==> #[trigger] from[i] < #[trigger] from[j]
            &&& forall|r: int|
                0 <= r < rollouts.len() && due(bindings, #[trigger] rollouts[r], now)
                    ==> from.contains(r)
        }),
    decreases rollouts.len(),
{
    if rollouts.len() == 0 {
        Seq::empty()
    } else {
        let front = rollouts.drop_last();
        let earlier = lemma_due_sources(bindings, front, now);
        let at = rollouts.len() - 1;
        assert forall|i: int| 0 <= i < earlier.len() implies rollouts[#[trigger] earlier[i]]
            == front[earlier[i]] by {}
        let from = if due(bindings, rollouts.last(), now) {
            earlier.push(at)
        } else {
            earlier
        };
        assert forall|r: int|
            0 <= r < rollouts.len()
                && due(bindings, #[trigger] rollouts[r], now) implies from.contains(
            r,
        ) by {
            if r < at {
                assert(rollouts[r] == front[r]);
                let i = choose|i: int| 0 <= i < earlier.len() && earlier[i] == r;
                assert(from[i] == r);
            } else {
                assert(from[from.len() - 1] == r);
            }
        }
        from
    }
}

/// What a round carries out, and where it comes from: at most eight rollouts, in the order of their
/// rows and none twice. Each is queued, or failed more than a minute ago, and goes to an enabled
/// binding of its tenant whose plugin is published at that very revision and whose tenant did not
/// turn it away. Where the round is not full, no such rollout is left out.
pub proof fn lemma_round_carries_out_what_waits(
    bindings: Seq<BindingRow>,
    rollouts: Seq<RolloutRow>,
    chosen: Seq<DueRollout>,
    now: i64,
) -> (from: Seq<int>)
    requires
        carried(chosen, binding_texts(bindings), round(binding_texts(bindings),
            rollout_texts(rollouts), now)),
    ensures
        chosen.len() <= 8,
        from.len() == chosen.len(),
        forall|i: int, j: int| 0 <= i < j < from.len() ==> #[trigger] from[i] < #[trigger] from[j],
        forall|i: int|
            #![trigger chosen[i]]
            #![trigger from[i]]
            0 <= i < chosen.len() ==> {
                let row = rollouts[from[i]];
                &&& 0 <= from[i] < rollouts.len()
                &&& chosen[i].tenant_id@ == row.tenant_id@
                &&& chosen[i].source_id@ == row.source_id@
                &&& chosen[i].revision@ == row.revision@
                &&& row.state is Queued || row.state is Failed && row.updated_at < now - 60_000_000
                &&& exists|b: int|
                    0 <= b < bindings.len() && (#[trigger] bindings[b]).enabled
                        && bindings[b].tenant_id@ == row.tenant_id@ && bindings[b].source_id@
                        == row.source_id@ && bindings[b].published is Some
                        && bindings[b].published->0@ == row.revision@ && (
                    bindings[b].excluded is None || bindings[b].excluded->0@ != row.revision@)
                        && bindings[b].git@ == chosen[i].git@
            },
        chosen.len() < 8 ==> forall|r: int, b: int|
            0 <= r < rollouts.len() && 0 <= b < bindings.len()
                && ((#[trigger] rollouts[r]).state is Queued
                || rollouts[r].state is Failed && rollouts[r].updated_at < now - 60_000_000) && (
            #[trigger] bindings[b]).enabled && bindings[b].tenant_id@ == rollouts[r].tenant_id@
                && bindings[b].source_id@ == rollouts[r].source_id@ && bindings[b].published is Some
                && bindings[b].published->0@ == rollouts[r].revision@ && (
            bindings[b].excluded is None || bindings[b].excluded->0@ != rollouts[r].revision@)
                ==> from.contains(r),
{
    let (all, rows) = (binding_texts(bindings), rollout_texts(rollouts));
    let every = lemma_due_sources(all, rows, now);
    let wanted = round(all, rows, now);
    let from = every.take(wanted.len() as int);
    assert forall|i: int|
        #![trigger chosen[i]]
        #![trigger from[i]]
        0 <= i < chosen.len() implies {
        let row = rollouts[from[i]];
        &&& 0 <= from[i] < rollouts.len()
        &&& chosen[i].tenant_id@ == row.tenant_id@
        &&& chosen[i].source_id@ == row.source_id@
        &&& chosen[i].revision@ == row.revision@
        &&& row.state is Queued || row.state is Failed && row.updated_at < now - 60_000_000
        &&& exists|b: int|
            0 <= b < bindings.len() && (#[trigger] bindings[b]).enabled && bindings[b].tenant_id@
                == row.tenant_id@ && bindings[b].source_id@ == row.source_id@
                && bindings[b].published is Some && bindings[b].published->0@ == row.revision@ && (
            bindings[b].excluded is None || bindings[b].excluded->0@ != row.revision@)
                && bindings[b].git@ == chosen[i].git@
    } by {
        assert(from[i] == every[i]);
        assert(wanted[i] == all_due(all, rows, now)[i]);
        assert(rows[from[i]] == rollouts[from[i]]@);
        let b = choose|b: int|
            0 <= b < all.len() && admits(#[trigger] all[b], wanted[i]) && all[b].git
                == chosen[i].git@;
        assert(all[b] == bindings[b]@);
        assert(bindings[b].enabled);
    }
    if chosen.len() < 8 {
        assert(from =~= every);
        assert forall|r: int, b: int|
            0 <= r < rollouts.len() && 0 <= b < bindings.len() && ((
            #[trigger] rollouts[r]).state is Queued || rollouts[r].state is Failed
                && rollouts[r].updated_at < now - 60_000_000) && (#[trigger] bindings[b]).enabled
                && bindings[b].tenant_id@ == rollouts[r].tenant_id@ && bindings[b].source_id@
                == rollouts[r].source_id@ && bindings[b].published is Some
                && bindings[b].published->0@ == rollouts[r].revision@ && (
            bindings[b].excluded is None || bindings[b].excluded->0@
                != rollouts[r].revision@) implies from.contains(
            r,
        ) by {
            assert(rows[r] == rollouts[r]@);
            assert(all[b] == bindings[b]@);
            assert(admits(all[b], rows[r]));
            assert(due(all, rows[r], now));
        }
    }
    from
}

/// Whether a revision names a directory of the cache: a digest, and so nothing that leads out of
/// it.
pub open spec fn cache_directory(revision: Seq<char>) -> bool {
    revision.len() == 64 && text::all_hex(revision)
}

/// The directories of the cache to remove, from the revisions that were cleared away.
pub open spec fn removable(revisions: Seq<Seq<char>>) -> Seq<Seq<char>>
    decreases revisions.len(),
{
    if revisions.len() == 0 {
        Seq::empty()
    } else if cache_directory(revisions.last()) {
        removable(revisions.drop_last()).push(revisions.last())
    } else {
        removable(revisions.drop_last())
    }
}

/// The directories of the cache to remove, from the revisions that were cleared away.
pub fn expired_directories(revisions: &Vec<String>) -> (directories: Vec<String>)
    ensures
        text::texts(directories@) == removable(text::texts(revisions@)),
{
    let mut directories: Vec<String> = Vec::new();
    let ghost all = text::texts(revisions@);
    let mut i: usize = 0;
    while i < revisions.len()
        invariant
            i <= revisions@.len(),
            all == text::texts(revisions@),
            text::texts(directories@) == removable(all.take(i as int)),
        decreases revisions@.len() - i,
    {
        assert(all.take(i as int + 1).drop_last() =~= all.take(i as int));
        assert(all[i as int] == revisions@[i as int]@);
        if text::is_hex_text(revisions[i].as_str(), 64) {
            let ghost before = text::texts(directories@);
            directories.push(revisions[i].clone());
            assert(text::texts(directories@) =~= before.push(all[i as int]));
        }
        i += 1;
    }
    assert(all.take(i as int) =~= all);
    directories
}

/// What is removed lies in the cache: no removed name holds a slash or a dot.
pub proof fn lemma_removal_stays_in_cache(revisions: Seq<Seq<char>>)
    ensures
        forall|i: int|
            0 <= i < removable(revisions).len() ==> !(#[trigger] removable(revisions)[i]).contains(
                '/',
            ) && !removable(revisions)[i].contains('.') && removable(revisions)[i].len() == 64,
    decreases revisions.len(),
{
    if revisions.len() > 0 {
        lemma_removal_stays_in_cache(revisions.drop_last());
        let earlier = removable(revisions.drop_last());
        let all = removable(revisions);
        assert forall|i: int| 0 <= i < all.len() implies !(#[trigger] all[i]).contains('/')
            && !all[i].contains('.') && all[i].len() == 64 by {
            if i < earlier.len() {
                assert(all[i] == earlier[i]);
            } else {
                assert(text::all_hex(all[i]));
            }
        }
    }
}

/// Two bindings that hold the same agree in every column.
pub proof fn lemma_what_a_binding_holds(row: BindingRow, other: BindingRow)
    requires
        row@ == other@,
    ensures
        row.tenant_id@ == other.tenant_id@,
        row.source_id@ == other.source_id@,
        row.git@ == other.git@,
        row.revision@ == other.revision@,
        row.enabled == other.enabled,
        text::optional(row.published) == text::optional(other.published),
        text::optional(row.excluded) == text::optional(other.excluded),
{
}

/// Two rollouts that hold the same agree in every column.
pub proof fn lemma_what_a_rollout_holds(row: RolloutRow, other: RolloutRow)
    requires
        row@ == other@,
    ensures
        row.tenant_id@ == other.tenant_id@,
        row.source_id@ == other.source_id@,
        row.revision@ == other.revision@,
        row.state == other.state,
        row.updated_at == other.updated_at,
{
}

/// Only a build that a later commit overtook is turned away.
pub proof fn lemma_overtaken_builds(current: Option<bool>, outcome: Result<(), String>)
    requires
        current_build(current, outcome),
    ensures
        current is None ==> outcome is Ok,
        current == Some(true) ==> outcome is Ok,
        current == Some(false) ==> outcome is Err && outcome->Err_0@ == "构建已被后续源码提交替代"@,
{
}

/// A rollout that was installed is active; one that was not has failed, with what was told.
pub proof fn lemma_how_a_rollout_ends(result: Result<(), String>, record: RolloutRecord)
    requires
        records(result, record),
    ensures
        result is Ok ==> record.state@ == "active"@ && record.error is None,
        result is Err ==> record.state@ == "failed"@ && record.error == Some(result->Err_0),
{
}

} // verus!
