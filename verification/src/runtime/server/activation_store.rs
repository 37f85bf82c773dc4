//! The record of activated plugins.
use vstd::prelude::*;

use crate::text;

verus! {

/// The id under which a revision of a source is recorded.
pub open spec fn revision_key(source: Seq<char>, revision: Seq<char>) -> Seq<char> {
    source + ":"@ + revision
}

/// The id under which a revision of a source is recorded.
pub fn revision_id(source_id: &str, revision: &str) -> (id: String)
    ensures
        id@ == revision_key(source_id@, revision@),
{
    source_id.to_owned().concat(":").concat(revision)
}

/// Two revisions are recorded under different ids: the sources' ids hold no colon.
pub proof fn lemma_revision_ids_are_distinct(
    source: Seq<char>,
    revision: Seq<char>,
    other_source: Seq<char>,
    other_revision: Seq<char>,
)
    requires
        !source.contains(':'),
        !other_source.contains(':'),
        revision_key(source, revision) == revision_key(other_source, other_revision),
    ensures
        source == other_source,
        revision == other_revision,
{
    reveal_strlit(":");
    assert(":"@ =~= seq![':']);
    text::lemma_split_at_first(source, ':', revision);
    text::lemma_split_at_first(other_source, ':', other_revision);
}

/// What is to be recorded next of an activation, in one transaction.
#[derive(Clone, Copy, Debug, PartialEq, Eq, Structural)]
pub enum RecordStep {
    RequireCurrentPublication,
    SaveSource,
    SaveRevision,
    Bind,
    StopInstances,
    StartInstance,
    NoteActivation,
    SaveMarketplaceEntry,
    Commit,
}

/// The steps of recording an activation, in order. A publication must still be the current one,
/// and takes the place of the earlier offer.
pub open spec fn record_steps(publishing: bool) -> Seq<RecordStep> {
    let recorded = seq![
        RecordStep::SaveSource,
        RecordStep::SaveRevision,
        RecordStep::Bind,
        RecordStep::StopInstances,
        RecordStep::StartInstance,
        RecordStep::NoteActivation,
    ];
    if publishing {
        seq![RecordStep::RequireCurrentPublication] + recorded + seq![
            RecordStep::SaveMarketplaceEntry,
            RecordStep::Commit,
        ]
    } else {
        recorded + seq![RecordStep::Commit]
    }
}

/// The steps of recording an activation, in order.
pub fn activate(publishing: bool) -> (steps: Vec<RecordStep>)
    ensures
        steps@ == record_steps(publishing),
{
    let mut steps: Vec<RecordStep> = Vec::new();
    if publishing {
        steps.push(RecordStep::RequireCurrentPublication);
    }
    steps.push(RecordStep::SaveSource);
    steps.push(RecordStep::SaveRevision);
    steps.push(RecordStep::Bind);
    steps.push(RecordStep::StopInstances);
    steps.push(RecordStep::StartInstance);
    steps.push(RecordStep::NoteActivation);
    if publishing {
        steps.push(RecordStep::SaveMarketplaceEntry);
    }
    steps.push(RecordStep::Commit);
    assert(steps@ =~= record_steps(publishing));
    steps
}

/// What is to be recorded next, after some steps were recorded; nothing where one of them failed or
/// all of them are done.
pub fn next_record(publishing: bool, recorded: usize, failed: bool) -> (step: Option<RecordStep>)
    ensures
        step == if failed || recorded >= record_steps(publishing).len() {
            None
        } else {
            Some(record_steps(publishing)[recorded as int])
        },
{
    if failed {
        return None;
    }
    let steps = activate(publishing);
    if recorded < steps.len() {
        Some(steps[recorded])
    } else {
        None
    }
}

/// An activation counts only once everything of it is recorded: the transaction is committed last,
/// and a publication that is no longer the current one is found out first.
pub proof fn lemma_commit_comes_last(publishing: bool, at: int)
    requires
        0 <= at < record_steps(publishing).len(),
    ensures
        record_steps(publishing)[at] is Commit <==> at == record_steps(publishing).len() - 1,
        record_steps(publishing)[at] is RequireCurrentPublication <==> publishing && at == 0,
{
}

// Superseded publications

/// A request to publish a revision of a plugin, as its row holds it. The statements that read and
/// write the table must agree with what is said of these rows here.
#[derive(Debug)]
pub struct PublishRow {
    pub git: String,
    pub revision: String,
}

/// The requests of a tenant: each a plugin and a revision, in the order in which they came.
pub open spec fn requests_of(rows: Seq<PublishRow>) -> Seq<(Seq<char>, Seq<char>)> {
    rows.map_values(|row: PublishRow| (row.git@, row.revision@))
}

/// The revision of a plugin that was asked for last.
pub open spec fn current_request(
    requests: Seq<(Seq<char>, Seq<char>)>,
    git: Seq<char>,
) -> Option<Seq<char>>
    decreases requests.len(),
{
    if requests.len() == 0 {
        None
    } else if requests.last().0 == git {
        Some(requests.last().1)
    } else {
        current_request(requests.drop_last(), git)
    }
}

/// Requires that a revision is the one that was asked for last, among the requests of a tenant in
/// order.
pub fn ensure_current_publication(requests: &Vec<PublishRow>, git: &str,
    revision: &str) -> (outcome:
    Result<(), String>)
    ensures
        outcome is Ok <==> current_request(requests_of(requests@), git@) == Some(revision@),
        outcome matches Err(told) ==> told@ == "发布已被后续请求替代"@,
{
    let ghost all = requests_of(requests@);
    let mut n: usize = requests.len();
    assert(all.take(n as int) =~= all);
    while n > 0
        invariant
            n <= requests@.len(),
            all == requests_of(requests@),
            current_request(all, git@) == current_request(all.take(n as int), git@),
        decreases n,
    {
        let row = &requests[n - 1];
        assert(all.take(n as int).last() == (row.git@, row.revision@));
        assert(all.take(n as int).drop_last() =~= all.take(n - 1));
        if text::same(row.git.as_str(), git) {
            if text::same(row.revision.as_str(), revision) {
                return Ok(());
            }
            return Err("发布已被后续请求替代".to_owned());
        }
        n -= 1;
    }
    Err("发布已被后续请求替代".to_owned())
}

/// What a tenant and the marketplace hold of a plugin: the revision that runs and whether it is
/// enabled, the instances that run it, and the revision that is offered. The statements that record
/// an activation must agree with what is said of these records here.
#[derive(Debug)]
pub struct PluginRecords {
    pub binding: Option<(String, bool)>,
    pub instances: Vec<String>,
    pub offer: Option<String>,
}

/// What the records of a plugin hold.
#[verifier::ext_equal]
pub struct RecordText {
    pub binding: Option<(Seq<char>, bool)>,
    pub instances: Seq<Seq<char>>,
    pub offer: Option<Seq<char>>,
}

impl View for PluginRecords {
    type V = RecordText;

    open spec fn view(&self) -> RecordText {
        RecordText {
            binding: match self.binding {
                Some((revision, enabled)) => Some((revision@, enabled)),
                None => None,
            },
            instances: text::texts(self.instances@),
            offer: text::optional(self.offer),
        }
    }
}

/// The records after a step of an activation of a revision, which may run as a new instance.
pub open spec fn after_record(
    records: RecordText,
    step: RecordStep,
    revision: Seq<char>,
    instance: Option<Seq<char>>,
) -> RecordText {
    match step {
        RecordStep::Bind => RecordText { binding: Some((revision, true)), ..records },
        RecordStep::StopInstances => RecordText { instances: Seq::empty(), ..records },
        RecordStep::StartInstance => RecordText {
            instances: match instance {
                Some(instance) => records.instances.push(instance),
                None => records.instances,
            },
            ..records
        },
        RecordStep::SaveMarketplaceEntry => RecordText { offer: Some(revision), ..records },
        _ => records,
    }
}

/// How an activation ends that has recorded some steps: whether it succeeds, and what is stored
/// then. What was recorded counts once it is committed. The first step of a publication fails where
/// a later request superseded it; whether any other step fails is not decided here.
pub open spec fn transacted(
    publishing: bool,
    recorded: int,
    stored: RecordText,
    working: RecordText,
    current: Option<Seq<char>>,
    revision: Seq<char>,
    instance: Option<Seq<char>>,
) -> (bool, RecordText)
    decreases record_steps(publishing).len() - recorded,
{
    if recorded < 0 || recorded >= record_steps(publishing).len() {
        (false, stored)
    } else {
        let step = record_steps(publishing)[recorded];
        if step is RequireCurrentPublication && current != Some(revision) {
            (false, stored)
        } else if step is Commit {
            (true, working)
        } else {
            transacted(
                publishing,
                recorded + 1,
                stored,
                after_record(working, step, revision, instance),
                current,
                revision,
                instance,
            )
        }
    }
}

/// Carries out a step of an activation on the records of its plugin.
fn record(
    records: &mut PluginRecords,
    step: RecordStep,
    revision: &str,
    instance: Option<&str>,
)
    ensures
        final(records)@ == after_record(
            old(records)@,
            step,
            revision@,
            text::optional_str(instance),
        ),
{
    match step {
        RecordStep::Bind => {
            records.binding = Some((revision.to_owned(), true));
        },
        RecordStep::StopInstances => {
            records.instances = Vec::new();
            assert(text::texts(records.instances@) =~= Seq::<Seq<char>>::empty());
        },
        RecordStep::StartInstance => {
            if let Some(instance) = instance {
                let ghost before = text::texts(records.instances@);
                records.instances.push(instance.to_owned());
                assert(text::texts(records.instances@) =~= before.push(instance@));
            }
        },
        RecordStep::SaveMarketplaceEntry => {
            records.offer = Some(revision.to_owned());
        },
        _ => {},
    }
}

/// Carries out an activation on the records of its plugin, all of it or nothing: a publication that
/// a later request superseded leaves them as they were.
pub fn transact(
    stored: &mut PluginRecords,
    publishing: bool,
    requests: &Vec<PublishRow>,
    git: &str,
    revision: &str,
    instance: Option<&str>,
) -> (outcome: Result<(), String>)
    ensures
        (outcome is Ok, final(stored)@) == transacted(
            publishing,
            0,
            old(stored)@,
            old(stored)@,
            current_request(requests_of(requests@), git@),
            revision@,
            text::optional_str(instance),
        ),
        outcome matches Err(told) ==> told@ == "发布已被后续请求替代"@,
        outcome is Err ==> *final(stored) == *old(stored),
{
    let ghost current = current_request(requests_of(requests@), git@);
    let ghost due = transacted(
        publishing,
        0,
        stored@,
        stored@,
        current,
        revision@,
        text::optional_str(instance),
    );
    let steps = activate(publishing);
    let binding = match &stored.binding {
        Some((bound, enabled)) => Some((bound.clone(), *enabled)),
        None => None,
    };
    let mut working = PluginRecords {
        binding,
        instances: text::copied(&stored.instances),
        offer: stored.offer.clone(),
    };
    assert(working@ == stored@);
    let mut recorded: usize = 0;
    loop
        invariant
            *stored == *old(stored),
            steps@ == record_steps(publishing),
            recorded < steps@.len(),
            current == current_request(requests_of(requests@), git@),
            due == transacted(
                publishing,
                0,
                stored@,
                stored@,
                current,
                revision@,
                text::optional_str(instance),
            ),
            due == transacted(
                publishing,
                recorded as int,
                stored@,
                working@,
                current,
                revision@,
                text::optional_str(instance),
            ),
        decreases steps@.len() - recorded,
    {
        let step = steps[recorded];
        proof {
            lemma_commit_comes_last(publishing, recorded as int);
        }
        match step {
            RecordStep::RequireCurrentPublication => {
                match ensure_current_publication(requests, git, revision) {
                    Ok(()) => {},
                    Err(told) => return Err(told),
                }
            },
            RecordStep::Commit => {
                *stored = working;
                return Ok(());
            },
            _ => {},
        }
        record(&mut working, step, revision, instance);
        recorded += 1;
    }
}

proof fn lemma_transacted_from_binding(
    publishing: bool,
    from: int,
    stored: RecordText,
    current: Option<Seq<char>>,
    revision: Seq<char>,
    instance: Option<Seq<char>>,
)
    requires
        from == if publishing {
            1int
        } else {
            0
        },
    ensures
        transacted(publishing, from, stored, stored, current, revision, instance) == (
            true,
            RecordText {
                binding: Some((revision, true)),
                instances: match instance {
                    Some(instance) => seq![instance],
                    None => Seq::empty(),
                },
                offer: if publishing {
                    Some(revision)
                } else {
                    stored.offer
                },
            },
        ),
{
    reveal_with_fuel(transacted, 9);
    assert(Seq::<Seq<char>>::empty().push(instance->0) =~= seq![instance->0]);
}

/// A publication that a later request for its plugin superseded fails, and leaves the binding, the
/// instances and the offer as they were. Asked for again, it succeeds: the tenant runs the
/// revision, enabled, and it is the one that is offered.
pub proof fn lemma_superseded_activation_changes_nothing(
    requests: Seq<(Seq<char>, Seq<char>)>,
    git: Seq<char>,
    first: Seq<char>,
    second: Seq<char>,
    stored: RecordText,
    instance: Option<Seq<char>>,
)
    requires
        first != second,
    ensures
        ({
            let both = requests.push((git, first)).push((git, second));
            let again = both.push((git, first));
            let late = transacted(
                true,
                0,
                stored,
                stored,
                current_request(both, git),
                first,
                instance,
            );
            let renewed = transacted(
                true,
                0,
                stored,
                stored,
                current_request(again, git),
                first,
                instance,
            );
            &&& current_request(both, git) == Some(second)
            &&& late == (false, stored)
            &&& renewed.0
            &&& renewed.1.binding == Some((first, true))
            &&& renewed.1.offer == Some(first)
            &&& renewed.1.instances == match instance {
                Some(instance) => seq![instance],
                None => Seq::empty(),
            }
        }),
{
    let both = requests.push((git, first)).push((git, second));
    let again = both.push((git, first));
    assert(record_steps(true)[0] is RequireCurrentPublication);
    assert(current_request(again, git) == Some(first));
    lemma_transacted_from_binding(true, 1, stored, current_request(again, git), first, instance);
    assert(after_record(stored, RecordStep::RequireCurrentPublication, first, instance) == stored);
}

/// Requests for other plugins supersede nothing.
pub proof fn lemma_other_requests_supersede_nothing(
    requests: Seq<(Seq<char>, Seq<char>)>,
    git: Seq<char>,
    other: Seq<char>,
    revision: Seq<char>,
)
    requires
        other != git,
    ensures
        current_request(requests.push((other, revision)), git) == current_request(requests, git),
{
    assert(requests.push((other, revision)).drop_last() =~= requests);
}

/// What an activation records, in this order: the source, its revision, the binding, that earlier
/// instances stopped, the new instance and the note; a publication is checked first and offered
/// last, and the commit ends it.
pub proof fn lemma_what_an_activation_records(publishing: bool)
    ensures
        record_steps(false)
            == seq![RecordStep::SaveSource, RecordStep::SaveRevision, RecordStep::Bind,
            RecordStep::StopInstances, RecordStep::StartInstance, RecordStep::NoteActivation,
            RecordStep::Commit],
        record_steps(true)
            == seq![RecordStep::RequireCurrentPublication, RecordStep::SaveSource,
            RecordStep::SaveRevision, RecordStep::Bind, RecordStep::StopInstances,
            RecordStep::StartInstance, RecordStep::NoteActivation,
            RecordStep::SaveMarketplaceEntry, RecordStep::Commit],
{
}

/// An activation that is not superseded leaves the tenant with the new revision, enabled, and with
/// the new instance alone, where there is one; the offer changes only where it is a publication.
pub proof fn lemma_activation_binds_its_revision(publishing: bool, stored: RecordText,
    revision: Seq<char>, instance: Option<Seq<char>>, current: Option<Seq<char>>)
    ensures
        ({
            let ended = transacted(publishing, 0, stored, stored, current, revision, instance);
            &&& ended.0 <==> !publishing || current == Some(revision)
            &&& !ended.0 ==> ended.1 == stored
            &&& ended.0 ==> ended.1.binding == Some((revision, true))
            &&& ended.0 && instance is Some ==> ended.1.instances == seq![instance->0]
            &&& ended.0 && instance is None ==> ended.1.instances.len() == 0
            &&& ended.0 && publishing ==> ended.1.offer == Some(revision)
            &&& ended.0 && !publishing ==> ended.1.offer == stored.offer
        }),
{
    if publishing {
        assert(record_steps(true)[0] is RequireCurrentPublication);
        lemma_transacted_from_binding(true, 1, stored, current, revision, instance);
        assert(after_record(stored, RecordStep::RequireCurrentPublication, revision, instance)
            == stored);
    } else {
        lemma_transacted_from_binding(false, 0, stored, current, revision, instance);
    }
}

/// The current request for a plugin is the last one for it; requests for other plugins do not
/// matter.
pub proof fn lemma_last_request_counts(requests: Seq<(Seq<char>, Seq<char>)>, git: Seq<char>,
    revision: Seq<char>, other: Seq<char>)
    requires
        other != git,
    ensures
        current_request(Seq::empty(), git) is None,
        current_request(requests.push((git, revision)), git) == Some(revision),
        current_request(requests.push((other, revision)), git) == current_request(requests, git),
{
    assert(requests.push((other, revision)).drop_last() =~= requests);
}

/// What is asked for is a revision of a plugin, in the order of the rows.
pub proof fn lemma_what_is_asked_for(rows: Seq<PublishRow>, i: int)
    ensures
        requests_of(rows).len() == rows.len(),
        0 <= i < rows.len() ==> requests_of(rows)[i] == (rows[i].git@, rows[i].revision@),
{
}

} // verus!
