//! Mounted front ends: which tokens give access, for how long, and how many one user may hold.
use vstd::prelude::*;

use crate::runtime::server::frontend_document;
use crate::runtime::server::frontend_document::OriginFault;
use crate::text;

verus! {

/// How many seconds a mount lasts without being renewed.
pub const MOUNT_SECONDS: u64 = 1800;

/// How many mounts one user may hold at a time.
pub const MOUNTS_PER_USER: usize = 16;

/// A file of a front end and the digest under which it was published.
#[derive(Clone, Debug, PartialEq, Eq)]
pub struct AssetDigest {
    pub path: String,
    pub sha256: String,
}

/// What a mounted front end was mounted for. Times are seconds on the host's clock.
#[derive(Clone, Debug, PartialEq, Eq)]
pub struct FrontendGrant {
    pub cookie: String,
    pub session_id: String,
    pub tenant_id: String,
    pub user_id: String,
    pub page_id: String,
    pub source_id: String,
    pub activation_generation: String,
    pub revision: String,
    pub entry: String,
    pub frontend_path: String,
    pub assets: Vec<AssetDigest>,
    pub issued: u64,
}

/// A grant and the token that stands for it.
#[derive(Debug)]
pub struct Mount {
    pub token: String,
    pub grant: FrontendGrant,
}

/// The mounted front ends, and the origin under which they are served.
#[derive(Debug)]
pub struct FrontendAccess {
    pub origin: String,
    pub mounts: Vec<Mount>,
}

/// Why a front end is not mounted.
#[derive(Clone, Copy, Debug, PartialEq, Eq, Structural)]
pub enum MountFault {
    QuotaExhausted,
}

/// Whether a grant has not run out yet.
pub open spec fn live(grant: FrontendGrant, now: u64) -> bool {
    now - grant.issued < MOUNT_SECONDS
}

/// The tokens of the mounts.
pub open spec fn tokens(mounts: Seq<Mount>) -> Seq<Seq<char>> {
    mounts.map_values(|m: Mount| m.token@)
}

/// The grant that a token stands for, whether or not it has run out.
pub open spec fn granted(mounts: Seq<Mount>, token: Seq<char>) -> Option<FrontendGrant> {
    let at = text::first_index(tokens(mounts), token);
    if at < mounts.len() {
        Some(mounts[at].grant)
    } else {
        None
    }
}

/// The grant that a token gives access to.
pub open spec fn accessible(mounts: Seq<Mount>, token: Seq<char>, now: u64) -> Option<
    FrontendGrant,
> {
    match granted(mounts, token) {
        Some(grant) => if live(grant, now) {
            Some(grant)
        } else {
            None
        },
        None => None,
    }
}

/// The mounts that have not run out, in order.
pub open spec fn unexpired(mounts: Seq<Mount>, now: u64) -> Seq<Mount>
    decreases mounts.len(),
{
    if mounts.len() == 0 {
        Seq::empty()
    } else if live(mounts.last().grant, now) {
        unexpired(mounts.drop_last(), now).push(mounts.last())
    } else {
        unexpired(mounts.drop_last(), now)
    }
}

/// How many mounts a user holds that have not run out.
pub open spec fn held(mounts: Seq<Mount>, user: Seq<char>, now: u64) -> nat
    decreases mounts.len(),
{
    if mounts.len() == 0 {
        0
    } else {
        let last = mounts.last().grant;
        held(mounts.drop_last(), user, now) + if last.user_id@ == user && live(last, now) {
            1nat
        } else {
            0nat
        }
    }
}

/// The mounts without the one that a token stands for.
pub open spec fn without(mounts: Seq<Mount>, token: Seq<char>) -> Seq<Mount> {
    let at = text::first_index(tokens(mounts), token);
    if at < mounts.len() {
        mounts.remove(at)
    } else {
        mounts
    }
}

/// Whether the mounts after an attempt to mount a front end are what they must be: what has run out
/// is dropped, and the new mount is added where its user holds fewer mounts than allowed.
pub open spec fn issues(
    before: Seq<Mount>,
    token: String,
    grant: FrontendGrant,
    now: u64,
    issued: bool,
    after: Seq<Mount>,
) -> bool {
    &&& issued <==> held(before, grant.user_id@, now) < MOUNTS_PER_USER
    &&& issued ==> exists|mount: Mount|
        mount.token == token && mount.grant == grant && after == without(
            unexpired(before, now),
            token@,
        ).push(mount)
    &&& !issued ==> after == unexpired(before, now)
}

/// Whether the mounts after an attempt to renew one are what they must be: one that has not run out
/// lasts from now on, and nothing else changes.
pub open spec fn renews(
    before: Seq<Mount>,
    token: Seq<char>,
    now: u64,
    renewed: bool,
    after: Seq<Mount>,
) -> bool {
    &&& renewed == (accessible(before, token, now) is Some)
    &&& !renewed ==> after == before
    &&& renewed ==> {
        let at = text::first_index(tokens(before), token);
        let mount = before[at];
        after == before.update(
            at,
            Mount { token: mount.token, grant: FrontendGrant { issued: now, ..mount.grant } },
        )
    }
}

impl FrontendAccess {
    /// No two mounts share a token.
    pub open spec fn well_formed(&self) -> bool {
        tokens(self.mounts@).no_duplicates()
    }

    /// No user holds more mounts than allowed.
    pub open spec fn within_quota(&self, now: u64) -> bool {
        forall|user: Seq<char>| #[trigger] held(self.mounts@, user, now) <= MOUNTS_PER_USER
    }

    /// Serves front ends under the configured origin; nothing is mounted yet.
    pub fn new(configured: &str) -> (outcome: Result<FrontendAccess, OriginFault>)
        ensures
            match outcome {
                Ok(access) => {
                    &&& frontend_document::origin_of(configured@) matches Ok(origin)
                    &&& origin == access.origin@
                    &&& access.mounts@.len() == 0
                    &&& access.well_formed()
                    &&& forall|now: u64| access.within_quota(now)
                },
                Err(fault) => frontend_document::origin_of(configured@) matches Err(expected)
                    && expected == fault.text(),
            },
    {
        match frontend_document::public_origin(configured) {
            Ok(origin) => Ok(FrontendAccess { origin, mounts: Vec::new() }),
            Err(fault) => Err(fault),
        }
    }

    /// Where the mount with the token stands.
    fn position(&self, token: &str) -> (at: usize)
        ensures
            at == text::first_index(tokens(self.mounts@), token@),
            at <= self.mounts@.len(),
    {
        let mut at: usize = 0;
        while at < self.mounts.len()
            invariant
                at <= self.mounts@.len(),
                forall|k: int| 0 <= k < at ==> tokens(self.mounts@)[k] != token@,
            decreases self.mounts@.len() - at,
        {
            if text::same(self.mounts[at].token.as_str(), token) {
                proof {
                    text::lemma_first_index_is(tokens(self.mounts@), token@, at as int);
                }
                return at;
            }
            at += 1;
        }
        proof {
            text::lemma_first_index_is(tokens(self.mounts@), token@, at as int);
        }
        at
    }

    /// Drops the mounts that have run out.
    fn prune(&mut self, now: u64)
        ensures
            final(self).mounts@ == unexpired(old(self).mounts@, now),
            final(self).origin == old(self).origin,
    {
        let ghost before = self.mounts@;
        let ghost origin = self.origin;
        let mut i: usize = 0;
        let ghost mut seen: int = 0;
        assert(before.take(0) =~= Seq::<Mount>::empty());
        assert(before.skip(0) =~= before);
        while i < self.mounts.len()
            invariant
                0 <= seen <= before.len(),
                i <= self.mounts@.len(),
                self.mounts@.take(i as int) =~= unexpired(before.take(seen), now),
                self.mounts@.skip(i as int) =~= before.skip(seen),
                self.origin == origin,
            decreases self.mounts@.len() - i,
        {
            let ghost held_now = self.mounts@;
            assert(held_now.skip(i as int).len() == before.skip(seen).len());
            assert(held_now[i as int] == held_now.skip(i as int)[0]);
            assert(before[seen] == before.skip(seen)[0]);
            assert(before.take(seen + 1).drop_last() =~= before.take(seen));
            let issued = self.mounts[i].grant.issued;
            if issued <= now && now - issued >= MOUNT_SECONDS {
                self.mounts.remove(i);
                assert(self.mounts@.take(i as int) =~= held_now.take(i as int));
                assert(self.mounts@.skip(i as int) =~= held_now.skip(i as int + 1));
                assert(held_now.skip(i as int + 1) =~= held_now.skip(i as int).drop_first());
            } else {
                i += 1;
                assert(self.mounts@.take(i as int) =~= held_now.take(i - 1).push(held_now[i - 1]));
                assert(held_now.skip(i as int) =~= held_now.skip(i - 1).drop_first());
            }
            assert(before.skip(seen + 1) =~= before.skip(seen).drop_first());
            proof {
                seen = seen + 1;
            }
        }
        assert(self.mounts@.take(i as int) =~= self.mounts@);
        assert(self.mounts@.skip(i as int).len() == before.skip(seen).len());
        assert(before.take(seen) =~= before);
    }

    /// How many mounts the user holds.
    fn count(&self, user: &str, now: u64) -> (count: usize)
        ensures
            count == held(self.mounts@, user@, now),
    {
        let mut count: usize = 0;
        let mut i: usize = 0;
        while i < self.mounts.len()
            invariant
                i <= self.mounts@.len(),
                count <= i,
                count == held(self.mounts@.take(i as int), user@, now),
            decreases self.mounts@.len() - i,
        {
            assert(self.mounts@.take(i as int + 1).drop_last() =~= self.mounts@.take(i as int));
            let issued = self.mounts[i].grant.issued;
            let running = issued > now || now - issued < MOUNT_SECONDS;
            if text::same(self.mounts[i].grant.user_id.as_str(), user) && running {
                count += 1;
            }
            i += 1;
        }
        assert(self.mounts@.take(i as int) =~= self.mounts@);
        count
    }

    /// Mounts a front end under a token, where the user holds fewer mounts than allowed. Mounts
    /// that have run out are dropped first.
    pub fn issue(&mut self, token: String, grant: FrontendGrant, now: u64) -> (outcome: Result<
        (),
        MountFault,
    >)
        requires
            old(self).well_formed(),
        ensures
            final(self).well_formed(),
            final(self).origin == old(self).origin,
            issues(old(self).mounts@, token, grant, now, outcome is Ok, final(self).mounts@),
    {
        let ghost before = self.mounts@;
        proof {
            lemma_unexpired(before, now);
            lemma_held_unexpired(before, grant.user_id@, now);
        }
        self.prune(now);
        if self.count(grant.user_id.as_str(), now) >= MOUNTS_PER_USER {
            return Err(MountFault::QuotaExhausted);
        }
        let ghost kept = self.mounts@;
        self.remove(token.as_str());
        let ghost rest = self.mounts@;
        let ghost mount = Mount { token, grant };
        proof {
            text::lemma_first_index(tokens(rest), token@);
        }
        self.mounts.push(Mount { token, grant });
        proof {
            assert(self.mounts@ =~= rest.push(mount));
            let all = tokens(self.mounts@);
            assert forall|a: int, b: int| 0 <= a < all.len() && 0 <= b < all.len() && a != b implies
                all[a] != all[b] by {
                if a < rest.len() {
                    assert(all[a] == tokens(rest)[a]);
                    assert(tokens(rest).contains(tokens(rest)[a]));
                }
                if b < rest.len() {
                    assert(all[b] == tokens(rest)[b]);
                    assert(tokens(rest).contains(tokens(rest)[b]));
                }
            }
        }
        Ok(())
    }

    /// The grant that a token gives access to.
    pub fn get(&self, token: &str, now: u64) -> (found: Option<&FrontendGrant>)
        ensures
            match found {
                Some(grant) => accessible(self.mounts@, token@, now) == Some(*grant),
                None => accessible(self.mounts@, token@, now) is None,
            },
    {
        let at = self.position(token);
        if at == self.mounts.len() {
            return None;
        }
        let grant = &self.mounts[at].grant;
        if grant.issued <= now && now - grant.issued >= MOUNT_SECONDS {
            return None;
        }
        Some(grant)
    }

    /// Takes a mount away.
    pub fn remove(&mut self, token: &str)
        requires
            old(self).well_formed(),
        ensures
            final(self).well_formed(),
            final(self).origin == old(self).origin,
            final(self).mounts@ == without(old(self).mounts@, token@),
            granted(final(self).mounts@, token@) is None,
    {
        let ghost before = self.mounts@;
        let at = self.position(token);
        proof {
            lemma_without(before, token@);
        }
        if at < self.mounts.len() {
            self.mounts.remove(at);
        }
    }

    /// Lets a mount that has not run out last from now on.
    pub fn renew(&mut self, token: &str, now: u64) -> (renewed: bool)
        requires
            old(self).well_formed(),
        ensures
            final(self).well_formed(),
            final(self).origin == old(self).origin,
            renews(old(self).mounts@, token@, now, renewed, final(self).mounts@),
    {
        let ghost before = self.mounts@;
        let at = self.position(token);
        if at == self.mounts.len() {
            return false;
        }
        let issued = self.mounts[at].grant.issued;
        if issued <= now && now - issued >= MOUNT_SECONDS {
            return false;
        }
        let mut mount = self.mounts.remove(at);
        mount.grant.issued = now;
        self.mounts.insert(at, mount);
        proof {
            let renewed = Mount {
                token: before[at as int].token,
                grant: FrontendGrant { issued: now, ..before[at as int].grant },
            };
            assert(self.mounts@ =~= before.update(at as int, renewed));
            assert(tokens(self.mounts@) =~= tokens(before));
        }
        true
    }
}

proof fn lemma_unexpired(mounts: Seq<Mount>, now: u64)
    ensures
        unexpired(mounts, now).len() <= mounts.len(),
        forall|i: int|
            0 <= i < unexpired(mounts, now).len() ==> live(
                (#[trigger] unexpired(mounts, now)[i]).grant,
                now,
            ),
        tokens(mounts).no_duplicates() ==> tokens(unexpired(mounts, now)).no_duplicates(),
        forall|i: int|
            0 <= i < unexpired(mounts, now).len() ==> mounts.contains(
                #[trigger] unexpired(mounts, now)[i],
            ),
    decreases mounts.len(),
{
    if mounts.len() > 0 {
        let front = mounts.drop_last();
        lemma_unexpired(front, now);
        let kept = unexpired(front, now);
        let all = unexpired(mounts, now);
        if tokens(mounts).no_duplicates() {
            assert(tokens(front) =~= tokens(mounts).drop_last());
            assert(tokens(front).no_duplicates());
            assert forall|i: int| 0 <= i < kept.len() implies tokens(kept)[i]
                != mounts.last().token@ by {
                assert(front.contains(kept[i]));
                let k = choose|k: int| 0 <= k < front.len() && front[k] == kept[i];
                assert(tokens(mounts)[k] == kept[i].token@);
                assert(tokens(mounts)[mounts.len() - 1] == mounts.last().token@);
            }
            assert forall|a: int, b: int| 0 <= a < all.len() && 0 <= b < all.len() && a != b implies
                tokens(all)[a] != tokens(all)[b] by {
                if a < kept.len() {
                    assert(tokens(all)[a] == tokens(kept)[a]);
                }
                if b < kept.len() {
                    assert(tokens(all)[b] == tokens(kept)[b]);
                }
            }
        }
        assert forall|i: int| 0 <= i < all.len() implies mounts.contains(#[trigger] all[i]) by {
            if i < kept.len() {
                assert(front.contains(kept[i]));
                let k = choose|k: int| 0 <= k < front.len() && front[k] == kept[i];
                assert(mounts[k] == all[i]);
            } else {
                assert(mounts[mounts.len() - 1] == all[i]);
            }
        }
    }
}

/// Dropping what has run out changes nobody's count.
proof fn lemma_held_unexpired(mounts: Seq<Mount>, user: Seq<char>, now: u64)
    ensures
        held(unexpired(mounts, now), user, now) == held(mounts, user, now),
    decreases mounts.len(),
{
    if mounts.len() > 0 {
        lemma_held_unexpired(mounts.drop_last(), user, now);
        if live(mounts.last().grant, now) {
            let kept = unexpired(mounts.drop_last(), now);
            assert(kept.push(mounts.last()).drop_last() =~= kept);
        }
    }
}

proof fn lemma_without(mounts: Seq<Mount>, token: Seq<char>)
    requires
        tokens(mounts).no_duplicates(),
    ensures
        tokens(without(mounts, token)).no_duplicates(),
        granted(without(mounts, token), token) is None,
{
    let rest = without(mounts, token);
    text::lemma_first_index(tokens(mounts), token);
    text::lemma_first_index(tokens(rest), token);
    let at = text::first_index(tokens(mounts), token);
    if at < mounts.len() {
        assert(tokens(rest) =~= tokens(mounts).remove(at));
    }
    text::lemma_remove_first(tokens(mounts), token, tokens(rest));
}

proof fn lemma_held_remove(mounts: Seq<Mount>, at: int, user: Seq<char>, now: u64)
    requires
        0 <= at < mounts.len(),
    ensures
        held(mounts.remove(at), user, now) <= held(mounts, user, now),
    decreases mounts.len(),
{
    let rest = mounts.remove(at);
    if at == mounts.len() - 1 {
        assert(rest =~= mounts.drop_last());
    } else {
        lemma_held_remove(mounts.drop_last(), at, user, now);
        assert(rest.drop_last() =~= mounts.drop_last().remove(at));
        assert(rest.last() == mounts.last());
    }
}

/// A mounted front end is found under its token until it runs out, and the user's other mounts
/// are no more than before.
pub proof fn lemma_issue_gives_access(
    before: FrontendAccess,
    after: FrontendAccess,
    mount: Mount,
    now: u64,
)
    requires
        before.well_formed(),
        before.within_quota(now),
        held(before.mounts@, mount.grant.user_id@, now) < MOUNTS_PER_USER,
        after.mounts@ == without(unexpired(before.mounts@, now), mount.token@).push(mount),
    ensures
        granted(after.mounts@, mount.token@) == Some(mount.grant),
        forall|later: u64|
            live(mount.grant, later) ==> accessible(after.mounts@, mount.token@, later) == Some(
                mount.grant,
            ),
        after.within_quota(now),
{
    let kept = unexpired(before.mounts@, now);
    let rest = without(kept, mount.token@);
    lemma_unexpired(before.mounts@, now);
    lemma_without(kept, mount.token@);
    text::lemma_first_index(tokens(rest), mount.token@);
    let all = tokens(after.mounts@);
    assert forall|k: int| 0 <= k < rest.len() implies all[k] != mount.token@ by {
        assert(all[k] == tokens(rest)[k]);
        assert(tokens(rest).contains(tokens(rest)[k]));
    }
    assert(all[rest.len() as int] == mount.token@);
    text::lemma_first_index_is(all, mount.token@, rest.len() as int);
    assert forall|user: Seq<char>| #[trigger] held(after.mounts@, user, now) <= MOUNTS_PER_USER by {
        lemma_held_unexpired(before.mounts@, user, now);
        let at = text::first_index(tokens(kept), mount.token@);
        text::lemma_first_index(tokens(kept), mount.token@);
        if at < kept.len() {
            lemma_held_remove(kept, at, user, now);
        }
        assert(after.mounts@.drop_last() =~= rest);
        assert(held(before.mounts@, user, now) <= MOUNTS_PER_USER);
    }
}

/// A token that was taken away or has run out gives no access, and renewing it does not change
/// that.
pub proof fn lemma_no_revival(mounts: Seq<Mount>, token: Seq<char>, now: u64)
    requires
        tokens(mounts).no_duplicates(),
    ensures
        accessible(without(mounts, token), token, now) is None,
        granted(mounts, token) is Some && !live(granted(mounts, token)->0, now) ==> accessible(
            mounts,
            token,
            now,
        ) is None,
{
    lemma_without(mounts, token);
}

// Laws

/// A token opens the mount that has it, for half an hour after the mount was issued or renewed, and
/// no other.
pub proof fn lemma_token_opens_its_mount(mounts: Seq<Mount>, token: Seq<char>, now: u64, i: int)
    requires
        forall|a: int, b: int| 0 <= a < b < mounts.len()
            ==> (#[trigger] mounts[a]).token@ != (#[trigger] mounts[b]).token@,
        0 <= i < mounts.len(),
        mounts[i].token@ == token,
    ensures
        now < mounts[i].grant.issued + 1800
            ==> accessible(mounts, token, now) == Some(mounts[i].grant),
        now >= mounts[i].grant.issued + 1800 ==> accessible(mounts, token, now) is None,
{
    let all = tokens(mounts);
    assert forall|k: int| 0 <= k < i implies all[k] != token by {
        assert(all[k] == mounts[k].token@);
    }
    assert(all[i] == token);
    text::lemma_first_index_is(all, token, i);
}

/// A token that no mount has opens nothing.
pub proof fn lemma_unknown_token_opens_nothing(mounts: Seq<Mount>, token: Seq<char>, now: u64)
    requires
        forall|i: int| 0 <= i < mounts.len() ==> (#[trigger] mounts[i]).token@ != token,
    ensures
        accessible(mounts, token, now) is None,
{
    let all = tokens(mounts);
    text::lemma_first_index(all, token);
    let at = text::first_index(all, token);
    if at < mounts.len() {
        assert(all[at] == mounts[at].token@);
    }
}

/// What has run out is dropped, everything else stays in its place; what counts against a user is
/// what that user holds and what has not run out.
pub proof fn lemma_what_counts(mounts: Seq<Mount>, mount: Mount, user: Seq<char>, now: u64)
    ensures
        unexpired(Seq::<Mount>::empty(), now).len() == 0,
        held(Seq::<Mount>::empty(), user, now) == 0,
        now < mount.grant.issued + 1800 ==> unexpired(mounts.push(mount), now)
            == unexpired(mounts, now).push(mount),
        now >= mount.grant.issued + 1800 ==> unexpired(mounts.push(mount), now)
            == unexpired(mounts, now),
        now < mount.grant.issued + 1800 && mount.grant.user_id@ == user
            ==> held(mounts.push(mount), user, now) == held(mounts, user, now) + 1,
        now >= mount.grant.issued + 1800 || mount.grant.user_id@ != user
            ==> held(mounts.push(mount), user, now) == held(mounts, user, now),
        MOUNTS_PER_USER == 16,
{
    assert(mounts.push(mount).drop_last() =~= mounts);
}

/// Taking one mount away leaves what every other token opens as it is.
pub proof fn lemma_other_mounts_stay(mounts: Seq<Mount>, removed: Seq<char>, token: Seq<char>,
    now: u64)
    requires
        token != removed,
    ensures
        accessible(without(mounts, removed), token, now) == accessible(mounts, token, now),
{
    let all = tokens(mounts);
    let rest = without(mounts, removed);
    text::lemma_first_index(all, removed);
    text::lemma_first_index(all, token);
    let gone = text::first_index(all, removed);
    let at = text::first_index(all, token);
    if gone < mounts.len() {
        let left = tokens(rest);
        assert(left =~= all.remove(gone));
        let to: int = if at > gone {
            at - 1
        } else {
            at
        };
        assert forall|k: int| 0 <= k < to implies left[k] != token by {
            if k < gone {
                assert(left[k] == all[k]);
            } else {
                assert(left[k] == all[k + 1]);
            }
        }
        if at < mounts.len() {
            assert(all[at] == token);
            assert(at != gone);
            assert(left[to] == all[at]);
            assert(rest[to] == mounts[at]);
        } else {
            assert(to == left.len());
        }
        text::lemma_first_index_is(left, token, to);
    }
}

proof fn lemma_live_mounts_stay(mounts: Seq<Mount>, i: int, now: u64)
    requires
        0 <= i < mounts.len(),
        live(mounts[i].grant, now),
    ensures
        unexpired(mounts, now).contains(mounts[i]),
    decreases mounts.len(),
{
    let all = unexpired(mounts, now);
    if i == mounts.len() - 1 {
        assert(all[all.len() - 1] == mounts[i]);
    } else {
        let front = mounts.drop_last();
        lemma_live_mounts_stay(front, i, now);
        let kept = unexpired(front, now);
        assert(front[i] == mounts[i]);
        let k = choose|k: int| 0 <= k < kept.len() && kept[k] == mounts[i];
        assert(all[k] == mounts[i]);
    }
}

/// What a token opens does not change where only what has run out is dropped.
proof fn lemma_dropping_keeps_access(mounts: Seq<Mount>, token: Seq<char>, now: u64)
    requires
        tokens(mounts).no_duplicates(),
    ensures
        accessible(unexpired(mounts, now), token, now) == accessible(mounts, token, now),
{
    let kept = unexpired(mounts, now);
    lemma_unexpired(mounts, now);
    text::lemma_first_index(tokens(mounts), token);
    text::lemma_first_index(tokens(kept), token);
    let at = text::first_index(tokens(mounts), token);
    let to = text::first_index(tokens(kept), token);
    if to < kept.len() {
        assert(tokens(kept)[to] == kept[to].token@);
        let k = choose|k: int| 0 <= k < mounts.len() && mounts[k] == kept[to];
        assert(tokens(mounts)[k] == token);
        assert(tokens(mounts).contains(token));
        assert(at < mounts.len());
        assert(tokens(mounts)[at] == token);
        assert(k == at);
    }
    if at < mounts.len() && live(mounts[at].grant, now) {
        lemma_live_mounts_stay(mounts, at, now);
        let k = choose|k: int| 0 <= k < kept.len() && kept[k] == mounts[at];
        assert(tokens(mounts)[at] == token);
        assert(tokens(kept)[k] == token);
        assert(tokens(kept).contains(token));
    }
}

/// Mounting opens the new token for half an hour where the user held fewer than sixteen mounts, and
/// opens nothing otherwise; what every other token opens stays as it was.
pub proof fn lemma_mounting(before: Seq<Mount>, token: String, grant: FrontendGrant, now: u64,
    issued: bool, after: Seq<Mount>, other: Seq<char>, later: u64)
    requires
        tokens(before).no_duplicates(),
        issues(before, token, grant, now, issued, after),
    ensures
        issued <==> held(before, grant.user_id@, now) < 16,
        issued && later < grant.issued + 1800 ==> accessible(after, token@, later) == Some(grant),
        other != token@ || !issued ==> accessible(after, other, now)
            == accessible(before, other, now),
{
    let kept = unexpired(before, now);
    lemma_unexpired(before, now);
    lemma_dropping_keeps_access(before, other, now);
    if issued {
        let mount = choose|mount: Mount|
            mount.token == token && mount.grant == grant && after == without(kept, token@).push(
                mount,
            );
        let rest = without(kept, token@);
        lemma_without(kept, token@);
        if other != token@ {
            lemma_other_mounts_stay(kept, token@, other, now);
        }
        text::lemma_first_index(tokens(rest), token@);
        text::lemma_first_index(tokens(rest), other);
        let all = tokens(after);
        assert forall|k: int| 0 <= k < rest.len() implies all[k] == tokens(rest)[k] by {}
        assert forall|k: int| 0 <= k < rest.len() implies all[k] != token@ by {
            assert(tokens(rest).contains(tokens(rest)[k]));
        }
        assert(all[rest.len() as int] == token@);
        text::lemma_first_index_is(all, token@, rest.len() as int);
        if other != token@ {
            let at = text::first_index(tokens(rest), other);
            if at < rest.len() {
                text::lemma_first_index_is(all, other, at);
                assert(after[at] == rest[at]);
            } else {
                text::lemma_first_index_is(all, other, all.len() as int);
            }
        }
    }
}

/// Renewing a mount that has not run out lets it last half an hour from now, for the same user and
/// page; one that has run out stays closed, and no other token is touched.
pub proof fn lemma_renewing(before: Seq<Mount>, token: Seq<char>, now: u64, renewed: bool,
    after: Seq<Mount>, other: Seq<char>, later: u64)
    requires
        tokens(before).no_duplicates(),
        renews(before, token, now, renewed, after),
    ensures
        renewed <==> accessible(before, token, now) is Some,
        !renewed ==> after == before,
        renewed && later < now + 1800 ==> accessible(after, token, later)
            == Some(FrontendGrant { issued: now, ..accessible(before, token, now)->0 }),
        renewed && later >= now + 1800 ==> accessible(after, token, later) is None,
        other != token ==> accessible(after, other, later) == accessible(before, other, later),
{
    if renewed {
        text::lemma_first_index(tokens(before), token);
        assert forall|k: int| 0 <= k < before.len() implies tokens(after)[k] == tokens(before)[k] by {
            assert(after[k].token == before[k].token);
        }
        assert(tokens(after) =~= tokens(before));
        text::lemma_first_index(tokens(before), other);
        let (at, to) = (
            text::first_index(tokens(before), token),
            text::first_index(tokens(before), other),
        );
        assert(tokens(before)[at] == token);
        if other != token && to < before.len() {
            assert(tokens(before)[to] == other);
            assert(after[to] == before[to]);
        }
    }
}

} // verus!
