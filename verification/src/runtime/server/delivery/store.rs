//! Build jobs, as they are stored and handed out.
use vstd::prelude::*;

use crate::outside;
use crate::text;

verus! {

/// The length of a commit's id.
pub const COMMIT_CHARS: usize = 40;

/// For how many microseconds a lease counts.
pub const LEASE_MICROS: i64 = 300_000_000;

/// A job of the build service.
#[derive(Debug)]
pub struct BuildJob {
    pub id: i64,
    pub lease: String,
    pub git: String,
    pub version: String,
    pub source_revision: String,
}

/// How far a job is.
#[derive(Clone, Copy, Debug, PartialEq, Eq, Structural)]
pub enum JobState {
    Queued,
    Building,
    Uploaded,
    Other,
}

/// A row of the jobs, with the row of its source. Times are in microseconds. The statements that
/// read and write the table must agree with what is said of these rows here.
#[derive(Debug)]
pub struct JobRow {
    pub id: i64,
    pub git: String,
    pub source_revision: String,
    pub state: JobState,
    /// Whether the job's package was uploaded.
    pub packaged: bool,
    pub lease: Option<String>,
    pub lease_until: Option<i64>,
    pub next_attempt_at: i64,
    /// Whether the source is built at all.
    pub enabled: bool,
    /// The commit at which the source is to be built.
    pub desired: String,
}

/// What a row of the jobs holds.
#[verifier::ext_equal]
pub struct JobText {
    pub id: i64,
    pub git: Seq<char>,
    pub source_revision: Seq<char>,
    pub state: JobState,
    pub packaged: bool,
    pub lease: Option<Seq<char>>,
    pub lease_until: Option<i64>,
    pub next_attempt_at: i64,
    pub enabled: bool,
    pub desired: Seq<char>,
}

impl View for JobRow {
    type V = JobText;

    open spec fn view(&self) -> JobText {
        JobText {
            id: self.id,
            git: self.git@,
            source_revision: self.source_revision@,
            state: self.state,
            packaged: self.packaged,
            lease: text::optional(self.lease),
            lease_until: self.lease_until,
            next_attempt_at: self.next_attempt_at,
            enabled: self.enabled,
            desired: self.desired@,
        }
    }
}

/// What the rows of the jobs hold.
pub open spec fn job_texts(rows: Seq<JobRow>) -> Seq<JobText> {
    rows.map_values(|row: JobRow| row@)
}

/// Why a lease does not count.
#[derive(Clone, Copy, Debug, PartialEq, Eq, Structural)]
pub enum LeaseFault {
    Expired,
    CommitInvalid,
}

/// The version under which a job's package is published.
pub open spec fn job_version(id: i64, source_revision: Seq<char>) -> Seq<char> {
    "0.0.0-dev."@ + text::signed_decimal(id as int) + "+"@ + source_revision
}

/// Whether a job is that of a row under a lease.
pub open spec fn is_job(job: BuildJob, row: JobText, lease: Seq<char>) -> bool {
    &&& job.id == row.id
    &&& job.lease@ == lease
    &&& job.git@ == row.git
    &&& job.source_revision@ == row.source_revision
    &&& job.version@ == job_version(row.id, row.source_revision)
}

/// Whether a row is of a job that is being built.
pub open spec fn under_way(row: JobText) -> bool {
    row.state is Building || row.state is Uploaded
}

/// Whether a row is of a job that is being built under a lease that counts.
pub open spec fn leased(row: JobText, now: int) -> bool {
    under_way(row) && row.lease_until is Some && row.lease_until->0 > now
}

/// Whether some job is being built under a lease that counts.
pub open spec fn busy(rows: Seq<JobText>, now: int) -> bool {
    exists|i: int| 0 <= i < rows.len() && leased(#[trigger] rows[i], now)
}

/// Whether a job is for the commit at which its source is to be built.
pub open spec fn wanted(row: JobText) -> bool {
    row.enabled && row.desired == row.source_revision
}

/// Whether a job can be handed out: it waits, or its lease has lapsed; it may be tried again; and
/// it is for the commit at which its source is to be built.
pub open spec fn claimable(row: JobText, now: int) -> bool {
    &&& row.state is Queued || under_way(row) && row.lease_until is Some && row.lease_until->0 < now
    &&& row.next_attempt_at <= now
    &&& wanted(row)
}

/// Whether one job comes before another.
pub open spec fn before(left: JobText, right: JobText) -> bool {
    left.next_attempt_at < right.next_attempt_at || left.next_attempt_at == right.next_attempt_at
        && left.id < right.id
}

/// Whether a job is the next to be handed out.
pub open spec fn is_next(rows: Seq<JobText>, now: int, at: int) -> bool {
    &&& 0 <= at < rows.len()
    &&& claimable(rows[at], now)
    &&& forall|i: int|
        0 <= i < rows.len() && claimable(#[trigger] rows[i], now) ==> !before(rows[i], rows[at])
}

/// Until when a lease counts.
pub open spec fn lease_end(now: int) -> int {
    if now + LEASE_MICROS > i64::MAX {
        i64::MAX as int
    } else {
        now + LEASE_MICROS
    }
}

/// A job's row after it was handed out under a lease.
pub open spec fn handed_out(row: JobText, lease: Seq<char>, now: int) -> JobText {
    JobText {
        state: if row.packaged {
            JobState::Uploaded
        } else {
            JobState::Building
        },
        lease: Some(lease),
        lease_until: Some(lease_end(now) as i64),
        ..row
    }
}

/// Whether the rows give out a job under a lease, and what they are then: nothing while a lease
/// counts or where no job can be handed out, and otherwise the next job, whose row alone changes.
pub open spec fn claims(
    rows: Seq<JobText>,
    now: int,
    lease: Seq<char>,
    job: Option<BuildJob>,
    after: Seq<JobText>,
) -> bool {
    match job {
        None => {
            &&& after == rows
            &&& busy(rows, now) || forall|i: int|
                0 <= i < rows.len() ==> !claimable(#[trigger] rows[i], now)
        },
        Some(job) => {
            &&& !busy(rows, now)
            &&& exists|at: int| #[trigger]
                is_next(rows, now, at) && is_job(job, rows[at], lease) && after == rows.update(
                    at,
                    handed_out(rows[at], lease, now),
                )
        },
    }
}

/// Hands out the next job under a random lease, unless another one is being built.
pub fn claim(jobs: &mut Vec<JobRow>, now: i64) -> (job: Option<BuildJob>)
    ensures
        exists|lease: u128|
            outside::random_uuid(lease) && claims(
                job_texts(old(jobs)@),
                now as int,
                #[trigger] outside::hyphenated(lease),
                job,
                job_texts(final(jobs)@),
            ),
{
    let id = outside::fresh_uuid();
    let lease = outside::uuid_text(id);
    assert(outside::hyphenated(id) == lease@);
    claim_under(jobs, now, lease)
}

/// Whether a row is of a job that is being built under a lease that counts.
fn is_leased(row: &JobRow, now: i64) -> (yes: bool)
    ensures
        yes == leased(row@, now as int),
{
    (row.state == JobState::Building || row.state == JobState::Uploaded) && match row.lease_until {
        Some(until) => until > now,
        None => false,
    }
}

/// Whether a job is for the commit at which its source is to be built.
fn is_wanted(row: &JobRow) -> (yes: bool)
    ensures
        yes == wanted(row@),
{
    row.enabled && text::same(row.desired.as_str(), row.source_revision.as_str())
}

/// Whether a job can be handed out.
fn is_claimable(row: &JobRow, now: i64) -> (yes: bool)
    ensures
        yes == claimable(row@, now as int),
{
    let lapsed = (row.state == JobState::Building || row.state == JobState::Uploaded)
        && match row.lease_until {
        Some(until) => until < now,
        None => false,
    };
    (row.state == JobState::Queued || lapsed) && row.next_attempt_at <= now && is_wanted(row)
}

/// The job of a row, under a lease.
fn job_of(row: &JobRow, lease: &str) -> (job: BuildJob)
    ensures
        is_job(job, row@, lease@),
{
    let number = text::signed_decimal_text(row.id);
    let version = "0.0.0-dev.".to_owned().concat(number.as_str()).concat("+").concat(
        row.source_revision.as_str(),
    );
    BuildJob {
        id: row.id,
        lease: lease.to_owned(),
        git: row.git.clone(),
        version,
        source_revision: row.source_revision.clone(),
    }
}

/// Hands out the next job under a lease, unless another one is being built.
pub fn claim_under(jobs: &mut Vec<JobRow>, now: i64, lease: String) -> (job: Option<BuildJob>)
    ensures
        claims(job_texts(old(jobs)@), now as int, lease@, job, job_texts(final(jobs)@)),
{
    let ghost rows = job_texts(jobs@);
    let mut next: Option<usize> = None;
    let mut i: usize = 0;
    while i < jobs.len()
        invariant
            i <= jobs@.len(),
            rows == job_texts(jobs@),
            forall|k: int| 0 <= k < i ==> !leased(#[trigger] rows[k], now as int),
            match next {
                None => forall|k: int| 0 <= k < i ==> !claimable(#[trigger] rows[k], now as int),
                Some(at) => {
                    &&& at < i
                    &&& claimable(rows[at as int], now as int)
                    &&& forall|k: int|
                        0 <= k < i && claimable(#[trigger] rows[k], now as int) ==> !before(
                            rows[k],
                            rows[at as int],
                        )
                },
            },
        decreases jobs@.len() - i,
    {
        assert(rows[i as int] == jobs@[i as int]@);
        if is_leased(&jobs[i], now) {
            assert(leased(rows[i as int], now as int));
            return None;
        }
        if is_claimable(&jobs[i], now) {
            match next {
                None => {
                    next = Some(i);
                },
                Some(at) => {
                    assert(rows[at as int] == jobs@[at as int]@);
                    let sooner = jobs[i].next_attempt_at < jobs[at].next_attempt_at || (
                    jobs[i].next_attempt_at == jobs[at].next_attempt_at && jobs[i].id
                        < jobs[at].id);
                    if sooner {
                        next = Some(i);
                    }
                },
            }
        }
        i += 1;
    }
    match next {
        None => None,
        Some(at) => {
            assert(is_next(rows, now as int, at as int));
            let row = jobs.remove(at);
            let job = job_of(&row, lease.as_str());
            let state = if row.packaged {
                JobState::Uploaded
            } else {
                JobState::Building
            };
            let until: i64 = if now > i64::MAX - LEASE_MICROS {
                i64::MAX
            } else {
                now + LEASE_MICROS
            };
            let changed = JobRow { state, lease: Some(lease), lease_until: Some(until), ..row };
            let ghost shown = changed@;
            jobs.insert(at, changed);
            assert(shown =~= handed_out(rows[at as int], lease@, now as int));
            assert(job_texts(jobs@) =~= rows.update(at as int, shown));
            Some(job)
        },
    }
}

/// Whether a row is that of a job, found under a lease that counts.
pub open spec fn held(row: JobText, id: i64, lease: Seq<char>, now: int) -> bool {
    row.id == id && row.lease == Some(lease) && leased(row, now) && wanted(row)
}

/// Where the job stands that is found under a lease; behind all rows where none is.
pub open spec fn held_at(rows: Seq<JobText>, id: i64, lease: Seq<char>, now: int) -> int {
    text::first_index(rows.map_values(|row: JobText| held(row, id, lease, now)), true)
}

/// The job that a lease was given for, where it still counts.
pub fn check_lease(jobs: &Vec<JobRow>, id: i64, lease: &str, now: i64) -> (outcome: Result<
    BuildJob,
    LeaseFault,
>)
    ensures
        ({
            let rows = job_texts(jobs@);
            let at = held_at(rows, id, lease@, now as int);
            match outcome {
                Ok(job) => {
                    &&& at < rows.len()
                    &&& text::byte_len(rows[at].source_revision) == COMMIT_CHARS
                    &&& is_job(job, rows[at], lease@)
                },
                Err(LeaseFault::Expired) => at == rows.len(),
                Err(LeaseFault::CommitInvalid) => at < rows.len() && text::byte_len(
                    rows[at].source_revision,
                ) != COMMIT_CHARS,
            }
        }),
{
    let ghost rows = job_texts(jobs@);
    let ghost marks = rows.map_values(|row: JobText| held(row, id, lease@, now as int));
    let mut i: usize = 0;
    while i < jobs.len()
        invariant
            i <= jobs@.len(),
            rows == job_texts(jobs@),
            marks == rows.map_values(|row: JobText| held(row, id, lease@, now as int)),
            forall|k: int| 0 <= k < i ==> !marks[k],
        decreases jobs@.len() - i,
    {
        let row = &jobs[i];
        let named = match &row.lease {
            Some(own) => text::same(own.as_str(), lease),
            None => false,
        };
        assert(marks[i as int] == held(row@, id, lease@, now as int));
        if row.id == id && named && is_leased(row, now) && is_wanted(row) {
            proof {
                text::lemma_first_index_is(marks, true, i as int);
            }
            if row.source_revision.as_str().as_bytes().len() != COMMIT_CHARS {
                return Err(LeaseFault::CommitInvalid);
            }
            return Ok(job_of(row, lease));
        }
        i += 1;
    }
    proof {
        text::lemma_first_index_is(marks, true, i as int);
    }
    Err(LeaseFault::Expired)
}

// Laws

/// Whether no two rows are of one job.
pub open spec fn distinct_jobs(rows: Seq<JobText>) -> bool {
    forall|i: int, j: int|
        0 <= i < rows.len() && 0 <= j < rows.len() && i != j ==> (#[trigger] rows[i]).id != (
        #[trigger] rows[j]).id
}

proof fn lemma_held_at(rows: Seq<JobText>, at: int, lease: Seq<char>, now: int)
    requires
        distinct_jobs(rows),
        0 <= at < rows.len(),
    ensures
        held_at(rows, rows[at].id, lease, now) == if held(rows[at], rows[at].id, lease, now) {
            at
        } else {
            rows.len() as int
        },
{
    let id = rows[at].id;
    let marks = rows.map_values(|row: JobText| held(row, id, lease, now));
    assert forall|k: int| 0 <= k < marks.len() && k != at implies !marks[k] by {
        assert(rows[k].id != rows[at].id);
    }
    if held(rows[at], id, lease, now) {
        text::lemma_first_index_is(marks, true, at);
    } else {
        text::lemma_first_index_is(marks, true, rows.len() as int);
    }
}

/// A job that was handed out is for the commit at which its source is to be built, and may be
/// tried. While its lease counts nothing is handed out.
pub proof fn lemma_nothing_is_claimed_under_a_lease(
    rows: Seq<JobText>,
    claimed_at: int,
    lease: Seq<char>,
    job: BuildJob,
    after: Seq<JobText>,
    now: int,
    other: Seq<char>,
    second: Option<BuildJob>,
    last: Seq<JobText>,
)
    requires
        claims(rows, claimed_at, lease, Some(job), after),
        i64::MIN <= claimed_at <= now < lease_end(claimed_at),
        claims(after, now, other, second, last),
    ensures
        exists|at: int|
            #![trigger rows[at]]
            0 <= at < rows.len() && is_job(job, rows[at], lease) && wanted(rows[at])
                && rows[at].next_attempt_at <= claimed_at,
        job.version@ == job_version(job.id, job.source_revision@),
        second is None,
        last == after,
{
    let at = choose|at: int| #[trigger]
        is_next(rows, claimed_at, at) && is_job(job, rows[at], lease) && after == rows.update(
            at,
            handed_out(rows[at], lease, claimed_at),
        );
    assert(is_job(job, rows[at], lease));
    assert(leased(after[at], now));
}

/// Once a lease has lapsed, and nothing else changed, the same job is handed out again, under the
/// same version and the new lease. (Another job may come first whose lease ended at the very moment
/// of the first claim: at that moment it neither counts nor has lapsed.)
pub proof fn lemma_lapsed_job_is_claimed_again(
    rows: Seq<JobText>,
    claimed_at: int,
    lease: Seq<char>,
    job: BuildJob,
    after: Seq<JobText>,
    now: int,
    next: Seq<char>,
    second: Option<BuildJob>,
    last: Seq<JobText>,
)
    requires
        distinct_jobs(rows),
        forall|i: int|
            0 <= i < rows.len() && under_way(#[trigger] rows[i]) ==> rows[i].lease_until != Some(
                claimed_at as i64,
            ),
        i64::MIN <= claimed_at,
        lease_end(claimed_at) < now <= i64::MAX,
        claims(rows, claimed_at, lease, Some(job), after),
        claims(after, now, next, second, last),
    ensures
        second matches Some(second) && second.id == job.id && second.version@ == job.version@
            && second.git@ == job.git@ && second.lease@ == next,
{
    let at = choose|at: int| #[trigger]
        is_next(rows, claimed_at, at) && is_job(job, rows[at], lease) && after == rows.update(
            at,
            handed_out(rows[at], lease, claimed_at),
        );
    assert forall|i: int| 0 <= i < after.len() implies !leased(#[trigger] after[i], now) by {
        if i != at {
            assert(!leased(rows[i], claimed_at));
        }
    }
    assert(claimable(after[at], now));
    if second is Some {
        let again = choose|again: int| #[trigger]
            is_next(after, now, again) && is_job(second->0, after[again], next) && last
                == after.update(again, handed_out(after[again], next, now));
        if again != at {
            assert(after[again] == rows[again]);
            assert(rows[again].id != rows[at].id);
            assert(!before(after[at], after[again]));
            assert(claimable(rows[again], claimed_at) ==> !before(rows[again], rows[at]));
            assert(!leased(rows[again], claimed_at));
        }
    }
}

/// After a job was taken over, the new lease finds it, as long as the lease counts and the source
/// is to be built at the job's commit; the old lease and every other one do not. Once the source is
/// to be built at another commit, or not at all, no lease finds it.
pub proof fn lemma_leases_after_a_takeover(
    rows: Seq<JobText>,
    claimed_at: int,
    lease: Seq<char>,
    job: BuildJob,
    after: Seq<JobText>,
    taken_at: int,
    next: Seq<char>,
    taken: BuildJob,
    last: Seq<JobText>,
    now: int,
    wrong: Seq<char>,
    enabled: bool,
    desired: Seq<char>,
)
    requires
        distinct_jobs(rows),
        claims(rows, claimed_at, lease, Some(job), after),
        claims(after, taken_at, next, Some(taken), last),
        taken.id == job.id,
        next != lease,
        wrong != next,
        i64::MIN <= taken_at <= now < lease_end(taken_at),
        !enabled || desired != job.source_revision@,
    ensures
        ({
            let at = held_at(last, job.id, next, now);
            let obsolete = last.update(at, JobText { enabled, desired, ..last[at] });
            &&& 0 <= at < last.len()
            &&& is_job(taken, last[at], next)
            &&& taken.version@ == job.version@
            &&& taken.source_revision@ == job.source_revision@
            &&& held_at(last, job.id, lease, now) == last.len()
            &&& held_at(last, job.id, wrong, now) == last.len()
            &&& held_at(obsolete, job.id, next, now) == obsolete.len()
        }),
{
    let first = choose|at: int| #[trigger]
        is_next(rows, claimed_at, at) && is_job(job, rows[at], lease) && after == rows.update(
            at,
            handed_out(rows[at], lease, claimed_at),
        );
    let at = choose|at: int| #[trigger]
        is_next(after, taken_at, at) && is_job(taken, after[at], next) && last == after.update(
            at,
            handed_out(after[at], next, taken_at),
        );
    assert(after[first].id == after[at].id);
    if first != at {
        assert(rows[first].id != rows[at].id);
    }
    let obsolete = last.update(at, JobText { enabled, desired, ..last[at] });
    assert forall|i: int, j: int| 0 <= i < last.len() && 0 <= j < last.len() && i != j implies (
    #[trigger] last[i]).id != (#[trigger] last[j]).id by {
        assert(rows[i].id != rows[j].id);
    }
    assert forall|i: int, j: int|
        0 <= i < obsolete.len() && 0 <= j < obsolete.len() && i != j implies (
    #[trigger] obsolete[i]).id != (#[trigger] obsolete[j]).id by {
        assert(rows[i].id != rows[j].id);
    }
    lemma_held_at(last, at, next, now);
    lemma_held_at(last, at, lease, now);
    lemma_held_at(last, at, wrong, now);
    lemma_held_at(obsolete, at, next, now);
}

impl LeaseFault {
    /// The text shown for the fault.
    pub open spec fn text(&self) -> Seq<char> {
        match self {
            LeaseFault::Expired => "构建租约已失效或源码版本已被替代"@,
            LeaseFault::CommitInvalid => "源码提交无效"@,
        }
    }

    /// The text shown for the fault.
    pub fn message(&self) -> (message: String)
        ensures
            message@ == self.text(),
    {
        let message = match self {
            LeaseFault::Expired => "构建租约已失效或源码版本已被替代",
            LeaseFault::CommitInvalid => "源码提交无效",
        };
        message.to_owned()
    }
}

/// Which job is handed out, in terms of the rows. None is while some job is being built under a
/// lease that has not ended. Otherwise it is a job that waits or whose lease has lapsed, that may
/// be tried, and that is for the very commit at which its enabled source is to be built; of these
/// the one that may be tried earliest, and among equals the one that came first. Its row alone
/// changes: it is being built, or uploaded where its package is there, under the new lease for five
/// minutes.
pub proof fn lemma_which_job_is_handed_out(
    before: Seq<JobRow>,
    now: i64,
    lease: Seq<char>,
    job: Option<BuildJob>,
    after: Seq<JobRow>,
) -> (at: int)
    requires
        claims(job_texts(before), now as int, lease, job, job_texts(after)),
    ensures
        after.len() == before.len(),
        (exists|i: int|
            0 <= i < before.len() && ((#[trigger] before[i]).state is Building
                || before[i].state is Uploaded) && before[i].lease_until is Some
                && before[i].lease_until->0 > now) ==> job is None,
        (exists|i: int| 0 <= i < before.len() && ((#[trigger] before[i]).state is Queued
            || (before[i].state is Building || before[i].state is Uploaded)
                && before[i].lease_until is Some && before[i].lease_until->0 < now)
                && before[i].next_attempt_at <= now && before[i].enabled && before[i].desired@
                == before[i].source_revision@) && (forall|i: int|
            0 <= i < before.len() && ((#[trigger] before[i]).state is Building
                || before[i].state is Uploaded) && before[i].lease_until is Some
                ==> before[i].lease_until->0 <= now) ==> job is Some,
        job is None ==> forall|k: int| 0 <= k < before.len()
            ==> (#[trigger] after[k])@ == before[k]@,
        job is Some ==> {
            &&& 0 <= at < before.len()
            &&& before[at].state is Queued || (before[at].state is Building
                || before[at].state is Uploaded) && before[at].lease_until is Some
                && before[at].lease_until->0 < now
            &&& before[at].next_attempt_at <= now
            &&& before[at].enabled
            &&& before[at].desired@ == before[at].source_revision@
            &&& forall|i: int| 0 <= i < before.len() && ((#[trigger] before[i]).state is Queued
                || (before[i].state is Building || before[i].state is Uploaded)
                && before[i].lease_until is Some && before[i].lease_until->0 < now)
                && before[i].next_attempt_at <= now && before[i].enabled && before[i].desired@
                == before[i].source_revision@ ==> before[at].next_attempt_at
                < before[i].next_attempt_at
                    || before[at].next_attempt_at == before[i].next_attempt_at
                && before[at].id <= before[i].id
            &&& job->0.id == before[at].id
            &&& job->0.git@ == before[at].git@
            &&& job->0.source_revision@ == before[at].source_revision@
            &&& job->0.lease@ == lease
            &&& job->0.version@ == "0.0.0-dev."@ + text::signed_decimal(before[at].id as int) + "+"@
                + before[at].source_revision@
            &&& before[at].packaged ==> after[at].state is Uploaded
            &&& !before[at].packaged ==> after[at].state is Building
            &&& after[at].lease is Some && after[at].lease->0@ == lease
            &&& after[at].lease_until is Some
            &&& now + 300_000_000 <= i64::MAX ==> after[at].lease_until->0 == now + 300_000_000
            &&& after[at].id == before[at].id && after[at].git@ == before[at].git@
                && after[at].source_revision@ == before[at].source_revision@ && after[at].packaged
                == before[at].packaged && after[at].enabled == before[at].enabled
                && after[at].desired@ == before[at].desired@ && after[at].next_attempt_at
                == before[at].next_attempt_at
            &&& forall|k: int|
                0 <= k < before.len() && k != at ==> (#[trigger] after[k])@ == before[k]@
        },
{
    let (rows, seen) = (job_texts(before), job_texts(after));
    assert forall|i: int| 0 <= i < before.len() implies rows[i] == (#[trigger] before[i])@ by {}
    assert(seen.len() == after.len());
    assert forall|i: int| 0 <= i < after.len() implies seen[i] == (#[trigger] after[i])@ by {}
    if exists|i: int|
        0 <= i < before.len() && ((#[trigger] before[i]).state is Building
            || before[i].state is Uploaded) && before[i].lease_until is Some
            && before[i].lease_until->0 > now {
        let i = choose|i: int|
            0 <= i < before.len() && ((#[trigger] before[i]).state is Building
                || before[i].state is Uploaded) && before[i].lease_until is Some
                && before[i].lease_until->0 > now;
        assert(leased(rows[i], now as int));
    }
    if exists|i: int| 0 <= i < before.len() && ((#[trigger] before[i]).state is Queued
        || (before[i].state is Building || before[i].state is Uploaded)
                && before[i].lease_until is Some && before[i].lease_until->0 < now)
                && before[i].next_attempt_at <= now && before[i].enabled && before[i].desired@
                == before[i].source_revision@ {
        let i = choose|i: int| 0 <= i < before.len() && ((#[trigger] before[i]).state is Queued
            || (before[i].state is Building || before[i].state is Uploaded)
                && before[i].lease_until is Some && before[i].lease_until->0 < now)
                && before[i].next_attempt_at <= now && before[i].enabled && before[i].desired@
                == before[i].source_revision@;
        assert(claimable(rows[i], now as int));
    }
    if busy(rows, now as int) {
        let i = choose|i: int| 0 <= i < rows.len() && leased(#[trigger] rows[i], now as int);
        assert(before[i].lease_until->0 > now);
    }
    match job {
        None => {
            assert(seen == rows);
            -1
        },
        Some(job) => {
            let at = choose|at: int| #[trigger]
                is_next(rows, now as int, at) && is_job(job, rows[at], lease)
                    && seen == rows.update(
                    at,
                    handed_out(rows[at], lease, now as int),
                );
            assert forall|i: int| 0 <= i < before.len()
                && ((#[trigger] before[i]).state is Queued || (before[i].state is Building
                || before[i].state is Uploaded)
                && before[i].lease_until is Some && before[i].lease_until->0 < now)
                && before[i].next_attempt_at <= now && before[i].enabled && before[i].desired@
                == before[i].source_revision@ implies before[at].next_attempt_at
                < before[i].next_attempt_at
                    || before[at].next_attempt_at == before[i].next_attempt_at
                && before[at].id <= before[i].id by {
                assert(claimable(rows[i], now as int));
                assert(!self::before(rows[i], rows[at]));
            }
            at
        },
    }
}

/// Which job a lease finds, in terms of the rows: the one with its id that is being built under
/// this very lease, not yet ended, for the commit at which its enabled source is to be built. The
/// first row counts.
pub proof fn lemma_which_job_a_lease_finds(rows: Seq<JobRow>, id: i64, lease: Seq<char>, now: i64)
    ensures
        ({
            let at = held_at(job_texts(rows), id, lease, now as int);
            &&& 0 <= at <= rows.len()
            &&& at < rows.len() ==> {
                &&& rows[at].id == id
                &&& rows[at].lease is Some && rows[at].lease->0@ == lease
                &&& rows[at].state is Building || rows[at].state is Uploaded
                &&& rows[at].lease_until is Some && rows[at].lease_until->0 > now
                &&& rows[at].enabled
                &&& rows[at].desired@ == rows[at].source_revision@
            }
            &&& forall|i: int|
                0 <= i < at ==> !((#[trigger] rows[i]).id == id && rows[i].lease is Some
                    && rows[i].lease->0@ == lease && (rows[i].state is Building
                    || rows[i].state is Uploaded) && rows[i].lease_until is Some
                    && rows[i].lease_until->0 > now && rows[i].enabled && rows[i].desired@
                    == rows[i].source_revision@)
        }),
{
    let seen = job_texts(rows);
    let marks = seen.map_values(|row: JobText| held(row, id, lease, now as int));
    text::lemma_first_index(marks, true);
    let at = held_at(seen, id, lease, now as int);
    if at < rows.len() {
        assert(seen[at] == rows[at]@);
        assert(marks[at]);
    }
    assert forall|i: int| 0 <= i < at implies !((#[trigger] rows[i]).id == id
        && rows[i].lease is Some
        && rows[i].lease->0@ == lease && (rows[i].state is Building || rows[i].state is Uploaded)
        && rows[i].lease_until is Some && rows[i].lease_until->0 > now && rows[i].enabled
        && rows[i].desired@ == rows[i].source_revision@) by {
        assert(seen[i] == rows[i]@);
        assert(!marks[i]);
    }
}

/// Each of these is told in its own words.
pub proof fn lemma_told_lease_fault(fault: LeaseFault)
    ensures
        fault is Expired ==> fault.text() == "构建租约已失效或源码版本已被替代"@,
        fault is CommitInvalid ==> fault.text() == "源码提交无效"@,
{
}

/// Two jobs that hold the same agree in every column.
pub proof fn lemma_what_a_job_holds(row: JobRow, other: JobRow)
    requires
        row@ == other@,
    ensures
        row.id == other.id,
        row.git@ == other.git@,
        row.source_revision@ == other.source_revision@,
        row.state == other.state,
        row.packaged == other.packaged,
        text::optional(row.lease) == text::optional(other.lease),
        row.lease_until == other.lease_until,
        row.next_attempt_at == other.next_attempt_at,
        row.enabled == other.enabled,
        row.desired@ == other.desired@,
{
}

} // verus!
