//! The unit of persisted clipboard history.

use vstd::prelude::*;

verus! {

/// Mathematical value of a stored record.
pub struct RecordView {
    pub id: nat,
    pub content: Seq<char>,
    pub captured_at: Seq<char>,
}

/// One captured clipboard entry as the store hands it out.
///
/// `id` is assigned by the store on insert, `captured_at` is the store's
/// timestamp of the insert. A record handed out is a copy: changing it does
/// not change what the store holds.
#[derive(Clone, Debug, PartialEq, Eq)]
pub struct ClipRecord {
    pub id: u64,
    pub content: String,
    pub captured_at: String,
}

impl View for ClipRecord {
    type V = RecordView;

    open spec fn view(&self) -> RecordView {
        RecordView { id: self.id as nat, content: self.content@, captured_at: self.captured_at@ }
    }
}

/// The values of a sequence of records, in the same order.
pub open spec fn record_views(records: Seq<ClipRecord>) -> Seq<RecordView> {
    records.map_values(|r: ClipRecord| r@)
}

impl ClipRecord {
    /// A record with the same id, content and timestamp.
    pub fn duplicate(&self) -> (copy: ClipRecord)
        ensures
            copy@ == self@,
    {
        ClipRecord {
            id: self.id,
            content: self.content.clone(),
            captured_at: self.captured_at.clone(),
        }
    }
}

} // verus!
