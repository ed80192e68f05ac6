use vstd::prelude::*;

use crate::text::contains_str;
use crate::text::str_eq;

verus! {

/// One record of the ledger: a provider event that has been applied.
#[derive(Clone, Debug)]
pub struct ProcessedEvent {
    pub event_id: String,
    pub event_type: String,
    pub created_at: i64,
}

/// Append-only record of the provider events already applied. An event whose
/// identifier is here is never applied again.
#[derive(Clone, Debug)]
pub struct Ledger {
    pub records: Vec<ProcessedEvent>,
}

impl Ledger {
    /// Whether an event with this identifier has been recorded.
    pub open spec fn has_id(&self, id: Seq<char>) -> bool {
        exists|i: int| 0 <= i < self.records@.len() && self.records@[i].event_id@ == id
    }

    /// No identifier is recorded twice.
    pub open spec fn wf(&self) -> bool {
        forall|i: int, j: int|
            0 <= i < self.records@.len() && 0 <= j < self.records@.len() && i != j
                ==> self.records@[i].event_id@ != self.records@[j].event_id@
    }

    pub fn new() -> (r: Ledger)
        ensures
            r.records@.len() == 0,
            r.wf(),
    {
        Ledger { records: Vec::new() }
    }

    /// Whether the event `id` has been applied.
    pub fn is_processed(&self, id: &str) -> (r: bool)
        ensures
            r == self.has_id(id@),
    {
        let mut i: usize = 0;
        while i < self.records.len()
            invariant
                i <= self.records@.len(),
                forall|j: int| 0 <= j < i ==> self.records@[j].event_id@ != id@,
            decreases self.records@.len() - i,
        {
            if str_eq(self.records[i].event_id.as_str(), id) {
                return true;
            }
            i = i + 1;
        }
        false
    }

    /// Of the given identifiers, those already recorded, in the order given.
    pub fn has_processed(&self, ids: &Vec<String>) -> (r: Vec<String>)
        ensures
            r@ == ids@.filter(|s: String| self.has_id(s@)),
    {
        let mut r: Vec<String> = Vec::new();
        let mut i: usize = 0;
        while i < ids.len()
            invariant
                i <= ids@.len(),
                r@ == ids@.take(i as int).filter(|s: String| self.has_id(s@)),
            decreases ids@.len() - i,
        {
            proof {
                ids@.take(i as int).lemma_filter_push(ids@[i as int], |s: String| self.has_id(s@));
                assert(ids@.take(i + 1) =~= ids@.take(i as int).push(ids@[i as int]));
            }
            if self.is_processed(ids[i].as_str()) {
                r.push(ids[i].clone());
            }
            i = i + 1;
        }
        assert(ids@.take(i as int) =~= ids@);
        r
    }

    /// Records that `record.event_id` has been applied. A second record for the
    /// same identifier is not written.
    pub fn mark_processed(&mut self, record: ProcessedEvent)
        requires
            old(self).wf(),
        ensures
            final(self).wf(),
            old(self).has_id(record.event_id@) ==> final(self).records@ == old(self).records@,
            !old(self).has_id(record.event_id@) ==> final(self).records@ == old(
                self,
            ).records@.push(record),
    {
        if !self.is_processed(record.event_id.as_str()) {
            self.records.push(record);
        }
    }
}

/// Whether `id` is among `ids`.
pub open spec fn listed(ids: Seq<String>, id: Seq<char>) -> bool {
    exists|j: int| 0 <= j < ids.len() && ids[j]@ == id
}

/// Whether `id` is among `ids`, as the answer of a batch lookup is read.
pub fn is_listed(ids: &Vec<String>, id: &str) -> (r: bool)
    ensures
        r == listed(ids@, id@),
{
    contains_str(ids, id)
}

} // verus!
