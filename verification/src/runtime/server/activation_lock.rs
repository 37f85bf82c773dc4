//! The locks that keep two changes of one plugin from running at the same time.
use vstd::prelude::*;

use crate::text;

verus! {

/// The name of the lock of a tenant's plugin.
pub open spec fn lock_key(tenant: Seq<char>, source: Seq<char>) -> Seq<char> {
    tenant + seq!['\0'] + source
}

/// The name of the lock of a tenant's plugin.
pub fn activation_key(tenant: &str, source: &str) -> (key: String)
    ensures
        key@ == lock_key(tenant@, source@),
{
    let mut key = tenant.to_owned();
    key.push('\0');
    key.append(source);
    assert(key@ =~= lock_key(tenant@, source@));
    key
}

/// Plugins of different tenants, and different plugins of a tenant, have different locks. The
/// names of tenants hold no zero character.
pub proof fn lemma_locks_do_not_collide(
    tenant: Seq<char>,
    source: Seq<char>,
    other_tenant: Seq<char>,
    other_source: Seq<char>,
)
    requires
        !tenant.contains('\0'),
        !other_tenant.contains('\0'),
        lock_key(tenant, source) == lock_key(other_tenant, other_source),
    ensures
        tenant == other_tenant,
        source == other_source,
{
    text::lemma_split_at_first(tenant, '\0', source);
    text::lemma_split_at_first(other_tenant, '\0', other_source);
}

/// A lock, and whether anyone still holds or waits for it.
#[derive(Debug)]
pub struct LockEntry {
    pub key: String,
    pub held: bool,
}

/// What is to be done about the table of locks.
#[derive(Debug)]
pub struct LockPlan {
    /// The entries to keep, by their places, in order.
    pub keep: Vec<usize>,
    /// The entry whose lock is used; a new one is made where there is none.
    pub reuse: Option<usize>,
}

/// The places of the locks that are held, among the first `count`.
pub open spec fn held_places(entries: Seq<LockEntry>, count: int) -> Seq<usize>
    decreases count,
{
    if count <= 0 {
        Seq::empty()
    } else if entries[count - 1].held {
        held_places(entries, count - 1).push((count - 1) as usize)
    } else {
        held_places(entries, count - 1)
    }
}

/// Decides about the table of locks: those that no one holds are forgotten, and the lock with the
/// key is used where it is held.
pub fn activation_lock(entries: &Vec<LockEntry>, key: &str) -> (plan: LockPlan)
    ensures
        plan.keep@ == held_places(entries@, entries@.len() as int),
        match plan.reuse {
            Some(at) => {
                &&& at < entries@.len()
                &&& entries@[at as int].held
                &&& entries@[at as int].key@ == key@
            },
            None => forall|i: int|
                0 <= i < entries@.len() && (#[trigger] entries@[i]).held ==> entries@[i].key@
                    != key@,
        },
{
    let mut keep: Vec<usize> = Vec::new();
    let mut reuse: Option<usize> = None;
    let mut i: usize = 0;
    while i < entries.len()
        invariant
            i <= entries@.len(),
            keep@ == held_places(entries@, i as int),
            match reuse {
                Some(at) => {
                    &&& at < i
                    &&& entries@[at as int].held
                    &&& entries@[at as int].key@ == key@
                },
                None => forall|k: int|
                    0 <= k < i && (#[trigger] entries@[k]).held ==> entries@[k].key@ != key@,
            },
        decreases entries@.len() - i,
    {
        if entries[i].held {
            keep.push(i);
            if reuse.is_none() && text::same(entries[i].key.as_str(), key) {
                reuse = Some(i);
            }
        }
        i += 1;
    }
    LockPlan { keep, reuse }
}

/// Every lock that someone holds is kept, each once and in its order, and no other.
pub proof fn lemma_held_locks_are_kept(entries: Seq<LockEntry>, count: int)
    requires
        0 <= count <= entries.len() <= usize::MAX,
    ensures
        ({
            let kept = held_places(entries, count);
            &&& forall|k: int|
                0 <= k < kept.len() ==> (#[trigger] kept[k]) < count && entries[kept[k] as int].held
            &&& forall|j: int, k: int| 0 <= j < k < kept.len()
                ==> #[trigger] kept[j] < #[trigger] kept[k]
            &&& forall|i: int|
                0 <= i < count && (#[trigger] entries[i]).held ==> kept.contains(i as usize)
        }),
    decreases count,
{
    if count > 0 {
        lemma_held_locks_are_kept(entries, count - 1);
        let earlier = held_places(entries, count - 1);
        let kept = held_places(entries, count);
        assert forall|i: int| 0 <= i < count && (#[trigger] entries[i]).held implies kept.contains(
            i as usize,
        ) by {
            if i < count - 1 {
                let k = choose|k: int| 0 <= k < earlier.len() && earlier[k] == i as usize;
                assert(kept[k] == i as usize);
            } else {
                assert(kept[kept.len() - 1] == i as usize);
            }
        }
    }
}

} // verus!
