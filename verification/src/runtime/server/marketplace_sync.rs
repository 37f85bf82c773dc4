//! Keeping the list of offered plugins in step with its sources.
use vstd::prelude::*;

use crate::text;

verus! {

/// The sources that are being read.
#[derive(Debug)]
pub struct SyncSet {
    pub sources: Vec<String>,
}

impl SyncSet {
    /// No source is being read twice.
    pub open spec fn well_formed(&self) -> bool {
        text::texts(self.sources@).no_duplicates()
    }

    pub fn new() -> (set: SyncSet)
        ensures
            set.sources@.len() == 0,
            set.well_formed(),
    {
        SyncSet { sources: Vec::new() }
    }

    /// Begins to read a source, unless it is being read.
    pub fn begin(&mut self, source: &str) -> (begun: bool)
        requires
            old(self).well_formed(),
        ensures
            final(self).well_formed(),
            begun == !text::texts(old(self).sources@).contains(source@),
            begun ==> text::texts(final(self).sources@) == text::texts(
                old(self).sources@,
            ).push(source@),
            !begun ==> final(self).sources@ == old(self).sources@,
    {
        if text::holds(&self.sources, source) {
            return false;
        }
        let ghost before = text::texts(self.sources@);
        self.sources.push(source.to_owned());
        proof {
            let after = text::texts(self.sources@);
            assert(after =~= before.push(source@));
            assert forall|a: int, b: int| 0 <= a < after.len() && 0 <= b < after.len() && a
                != b implies after[a] != after[b] by {
                if a < before.len() {
                    assert(after[a] == before[a]);
                    assert(before.contains(before[a]));
                }
                if b < before.len() {
                    assert(after[b] == before[b]);
                    assert(before.contains(before[b]));
                }
            }
        }
        true
    }

    /// Ends the reading of a source.
    pub fn end(&mut self, source: &str)
        requires
            old(self).well_formed(),
        ensures
            final(self).well_formed(),
            !text::texts(final(self).sources@).contains(source@),
            forall|other: Seq<char>|
                other != source@ ==> (#[trigger] text::texts(final(self).sources@).contains(other)
                    == text::texts(old(self).sources@).contains(other)),
    {
        let ghost before = text::texts(self.sources@);
        let mut i: usize = 0;
        while i < self.sources.len()
            invariant
                i <= self.sources@.len(),
                self.well_formed(),
                text::texts(self.sources@) == before,
                before == text::texts(old(self).sources@),
                forall|k: int| 0 <= k < i ==> text::texts(self.sources@)[k] != source@,
            decreases self.sources@.len() - i,
        {
            if text::same(self.sources[i].as_str(), source) {
                self.sources.remove(i);
                proof {
                    let after = text::texts(self.sources@);
                    assert(after =~= before.remove(i as int));
                    assert(before.contains(before[i as int]));
                    text::lemma_first_index_is(before, source@, i as int);
                    text::lemma_remove_first(before, source@, after);
                }
                return;
            }
            i += 1;
        }
    }
}

/// What is to be done next while a source is being read.
#[derive(Debug)]
pub enum SyncStep {
    /// The entries that were read take the place of the earlier ones.
    Replace,
    /// What went wrong is recorded.
    RecordFailure(String),
    End,
}

/// Whether a step is the one to be taken with what was read of a source.
pub open spec fn follows(read: &Result<(), String>, written: Option<bool>, noted: bool,
    step: SyncStep) -> bool {
    match step {
        SyncStep::Replace => *read is Ok && written is None,
        SyncStep::RecordFailure(told) => {
            ||| written is None && *read is Err && told@ == read->Err_0@
            ||| written == Some(false) && !noted && told@ == "写入市场索引缓存失败"@
        },
        SyncStep::End => written == Some(true) || (written == Some(false) && noted),
    }
}

/// Decides what is to be done with what was read of a source: the entries are written or the
/// failure is recorded, and where that does not work this is recorded, once.
pub fn sync_step(read: &Result<(), String>, written: Option<bool>, noted: bool) -> (step: SyncStep)
    ensures
        follows(read, written, noted, step),
{
    match written {
        None => match read {
            Ok(()) => SyncStep::Replace,
            Err(told) => SyncStep::RecordFailure(told.clone()),
        },
        Some(true) => SyncStep::End,
        Some(false) => {
            if noted {
                SyncStep::End
            } else {
                SyncStep::RecordFailure("写入市场索引缓存失败".to_owned())
            }
        },
    }
}

/// What was read takes the place of the earlier entries, and what failed is recorded; where writing
/// failed, that is recorded once, and then the reading ends.
pub proof fn lemma_source_is_read_once(read: &Result<(), String>, written: Option<bool>,
    noted: bool, step: SyncStep)
    requires
        follows(read, written, noted, step),
    ensures
        written is None && *read is Ok ==> step is Replace,
        written is None && *read is Err ==> step is RecordFailure
            && step->RecordFailure_0@ == read->Err_0@,
        written == Some(true) ==> step is End,
        written == Some(false) && !noted ==> step is RecordFailure
            && step->RecordFailure_0@ == "写入市场索引缓存失败"@,
        written == Some(false) && noted ==> step is End,
{
}

} // verus!
