//! The record store: an append-only log of captured entries.

use vstd::prelude::*;
use crate::record::{ClipRecord, RecordView, record_views};

verus! {

/// Why the store refused an operation.
#[derive(Clone, Copy, Debug, PartialEq, Eq, Structural)]
pub enum StoreError {
    /// The content to insert was empty.
    EmptyContent,
    /// Every identifier has been handed out.
    IdsExhausted,
    /// Rows loaded from the storage medium do not form a valid history.
    Corrupt,
}

/// Mathematical state of the store: the records in insertion order, and the
/// last identifier ever handed out (0 before the first insert).
#[verifier::ext_equal]
pub struct StoreView {
    pub records: Seq<RecordView>,
    pub last_id: nat,
}

impl StoreView {
    /// The store before anything was inserted.
    pub open spec fn empty() -> StoreView {
        StoreView { records: Seq::empty(), last_id: 0 }
    }

    /// Identifiers start at 1, strictly increase in insertion order and never
    /// exceed the last one handed out; no record has empty content.
    pub open spec fn well_formed(self) -> bool {
        &&& self.last_id <= u64::MAX
        &&& forall|i: int|
            0 <= i < self.records.len() ==> {
                &&& 1 <= #[trigger] self.records[i].id <= self.last_id
                &&& self.records[i].content.len() > 0
            }
        &&& forall|i: int, j: int|
            0 <= i < j < self.records.len() ==> self.records[i].id < self.records[j].id
    }

    /// The record that an insert of `content` at `captured_at` creates.
    pub open spec fn next_record(self, content: Seq<char>, captured_at: Seq<char>) -> RecordView {
        RecordView { id: self.last_id + 1, content, captured_at }
    }

    /// Whether an insert of `content` is accepted.
    pub open spec fn accepts(self, content: Seq<char>) -> bool {
        content.len() > 0 && self.last_id < u64::MAX
    }

    /// The error with which an insert of `content` is refused.
    pub open spec fn refusal(self, content: Seq<char>) -> StoreError {
        if content.len() == 0 {
            StoreError::EmptyContent
        } else {
            StoreError::IdsExhausted
        }
    }

    /// The state after an accepted insert.
    pub open spec fn insert(self, content: Seq<char>, captured_at: Seq<char>) -> StoreView {
        StoreView {
            records: self.records.push(self.next_record(content, captured_at)),
            last_id: self.last_id + 1,
        }
    }

    /// The state after a clear: no records, the identifier counter kept.
    pub open spec fn clear(self) -> StoreView {
        StoreView { records: Seq::empty(), last_id: self.last_id }
    }

    /// The `limit` most recently inserted records, newest first.
    pub open spec fn recent(self, limit: nat) -> Seq<RecordView> {
        let n = if limit <= self.records.len() { limit } else { self.records.len() };
        Seq::new(n, |k: int| self.records[self.records.len() - 1 - k])
    }

    /// The state after one accepted insert for each of `entries`, a content
    /// and a timestamp each, in that order.
    pub open spec fn insert_all(self, entries: Seq<(Seq<char>, Seq<char>)>) -> StoreView
        decreases entries.len(),
    {
        if entries.len() == 0 {
            self
        } else {
            self.insert_all(entries.drop_last()).insert(entries.last().0, entries.last().1)
        }
    }

    /// What a consumer is shown: content and timestamp of the
    /// `HISTORY_LIMIT` most recent records, newest first.
    pub open spec fn listing(self) -> Seq<(Seq<char>, Seq<char>)> {
        self.recent(HISTORY_LIMIT as nat).map_values(|r: RecordView| (r.content, r.captured_at))
    }
}

/// How many records a listing holds at most.
pub const HISTORY_LIMIT: usize = 50;

/// The pattern of a record's timestamp: date and time of day to the second.
pub const TIMESTAMP_FORMAT: &'static str = "%Y-%m-%d %H:%M:%S";

/// The values of a sequence of content and timestamp pairs.
pub open spec fn pair_views(pairs: Seq<(String, String)>) -> Seq<(Seq<char>, Seq<char>)> {
    pairs.map_values(|p: (String, String)| (p.0@, p.1@))
}

/// The record store.
///
/// Every store is well formed in the sense of `StoreView::well_formed`; the
/// functions below repeat this in their `ensures` for the store that they
/// leave or read, so that a caller need not carry it along.
pub struct RecordStore {
    records: Vec<ClipRecord>,
    last_id: u64,
}

impl View for RecordStore {
    type V = StoreView;

    closed spec fn view(&self) -> StoreView {
        StoreView { records: record_views(self.records@), last_id: self.last_id as nat }
    }
}

impl RecordStore {
    #[verifier::type_invariant]
    spec fn inv(&self) -> bool {
        self@.well_formed()
    }

    /// An empty store that has handed out no identifier yet.
    pub fn new() -> (store: RecordStore)
        ensures
            store@ == StoreView::empty(),
            store@.well_formed(),
    {
        RecordStore { records: Vec::new(), last_id: 0 }
    }

    /// Appends a record holding `content`, stamped `captured_at`, under the
    /// next identifier, and returns a copy of it.
    ///
    /// Empty content is refused, and so is an insert once the identifiers are
    /// used up; a refused insert leaves the store as it was.
    pub fn insert(&mut self, content: &str, captured_at: &str) -> (result: Result<
        ClipRecord,
        StoreError,
    >)
        ensures
            final(self)@.well_formed(),
            result is Ok <==> old(self)@.accepts(content@),
            match result {
                Ok(record) => {
                    &&& record@ == old(self)@.next_record(content@, captured_at@)
                    &&& final(self)@ == old(self)@.insert(content@, captured_at@)
                },
                Err(error) => {
                    &&& final(self)@ == old(self)@
                    &&& error == old(self)@.refusal(content@)
                },
            },
    {
        proof {
            use_type_invariant(&*self);
        }
        if content.is_empty() {
            return Err(StoreError::EmptyContent);
        }
        if self.last_id == u64::MAX {
            return Err(StoreError::IdsExhausted);
        }
        let id: u64 = self.last_id + 1;
        let stored = ClipRecord {
            id,
            content: content.to_owned(),
            captured_at: captured_at.to_owned(),
        };
        let copy = stored.duplicate();
        let mut records: Vec<ClipRecord> = Vec::new();
        std::mem::swap(&mut records, &mut self.records);
        records.push(stored);
        proof {
            let before = old(self)@;
            let after = before.insert(content@, captured_at@);
            lemma_insert_keeps_well_formed(before, content@, captured_at@);
            assert(record_views(records@) =~= after.records);
        }
        self.last_id = id;
        self.records = records;
        Ok(copy)
    }

    /// Up to `limit` of the most recently inserted records, newest first.
    pub fn recent(&self, limit: usize) -> (out: Vec<ClipRecord>)
        ensures
            record_views(out@) == self@.recent(limit as nat),
            self@.well_formed(),
    {
        proof {
            use_type_invariant(self);
        }
        let total: usize = self.records.len();
        let count: usize = if limit <= total { limit } else { total };
        let mut out: Vec<ClipRecord> = Vec::new();
        let mut k: usize = 0;
        while k < count
            invariant
                total == self.records.len(),
                count <= total,
                k <= count,
                out.len() == k,
                forall|j: int| 0 <= j < k ==> out@[j]@ == self.records@[total - 1 - j]@,
            decreases count - k,
        {
            out.push(self.records[total - 1 - k].duplicate());
            k = k + 1;
        }
        proof {
            assert(record_views(out@) =~= self@.recent(limit as nat));
        }
        out
    }

    /// Removes every record. The identifier counter is kept, so later
    /// inserts continue after the last identifier handed out.
    pub fn clear(&mut self)
        ensures
            final(self)@ == old(self)@.clear(),
            final(self)@.well_formed(),
    {
        proof {
            use_type_invariant(&*self);
        }
        self.records = Vec::new();
    }

    /// The number of records held.
    pub fn len(&self) -> (n: usize)
        ensures
            n == self@.records.len(),
            self@.well_formed(),
    {
        proof {
            use_type_invariant(self);
        }
        self.records.len()
    }

    /// Whether the store holds no record.
    pub fn is_empty(&self) -> (empty: bool)
        ensures
            empty == (self@.records.len() == 0),
    {
        self.records.len() == 0
    }

    /// The last identifier handed out, 0 if none was.
    pub fn last_id(&self) -> (id: u64)
        ensures
            id == self@.last_id,
            self@.well_formed(),
    {
        proof {
            use_type_invariant(self);
        }
        self.last_id
    }
}

/// An accepted insert keeps the store well formed.
pub proof fn lemma_insert_keeps_well_formed(
    store: StoreView,
    content: Seq<char>,
    captured_at: Seq<char>,
)
    requires
        store.well_formed(),
        store.accepts(content),
    ensures
        store.insert(content, captured_at).well_formed(),
{
    let after = store.insert(content, captured_at);
    assert forall|i: int| 0 <= i < after.records.len() implies {
        &&& 1 <= #[trigger] after.records[i].id <= after.last_id
        &&& after.records[i].content.len() > 0
    } by {
        if i < store.records.len() {
            assert(after.records[i] == store.records[i]);
        }
    }
    assert forall|i: int, j: int| 0 <= i < j < after.records.len() implies after.records[i].id
        < after.records[j].id by {
        assert(after.records[i] == store.records[i]);
        if j < store.records.len() {
            assert(after.records[j] == store.records[j]);
        }
    }
}

/// The record just inserted is the newest: it heads every non-empty query,
/// and a query for one record returns exactly it.
pub proof fn lemma_insert_then_recent(
    store: StoreView,
    content: Seq<char>,
    captured_at: Seq<char>,
    limit: nat,
)
    requires
        limit >= 1,
    ensures
        store.insert(content, captured_at).recent(limit).len() >= 1,
        store.insert(content, captured_at).recent(limit)[0] == store.next_record(
            content,
            captured_at,
        ),
        store.insert(content, captured_at).recent(1) == seq![
            store.next_record(content, captured_at),
        ],
{
    let after = store.insert(content, captured_at);
    assert(after.recent(1) =~= seq![store.next_record(content, captured_at)]);
}

/// After a clear every query is empty, whatever its limit.
pub proof fn lemma_clear_then_recent(store: StoreView, limit: nat)
    ensures
        store.clear().recent(limit) == Seq::<RecordView>::empty(),
        store.clear().listing() == Seq::<(Seq<char>, Seq<char>)>::empty(),
{
    assert(store.clear().recent(limit) =~= Seq::<RecordView>::empty());
    assert(store.clear().recent(HISTORY_LIMIT as nat) =~= Seq::<RecordView>::empty());
    assert(store.clear().listing() =~= Seq::<(Seq<char>, Seq<char>)>::empty());
}

/// No identifier is used twice: a clear refuses no insert that was accepted
/// before it, and the record inserted after a clear has an identifier above
/// every one handed out before the clear.
pub proof fn lemma_no_id_reuse_after_clear(
    store: StoreView,
    content: Seq<char>,
    captured_at: Seq<char>,
)
    requires
        store.well_formed(),
    ensures
        store.clear().well_formed(),
        store.clear().accepts(content) == store.accepts(content),
        store.clear().next_record(content, captured_at).id > store.last_id,
        forall|i: int|
            0 <= i < store.records.len() ==> (#[trigger] store.records[i]).id
                < store.clear().next_record(content, captured_at).id,
{
}

/// Inserts that follow one another, by whichever callers, lose nothing and
/// share no identifier: `entries.len()` inserts add exactly that many
/// records behind those already held, each under the identifier after the
/// one before it.
pub proof fn lemma_inserts_are_counted(store: StoreView, entries: Seq<(Seq<char>, Seq<char>)>)
    requires
        store.well_formed(),
        store.last_id + entries.len() <= u64::MAX,
        forall|k: int| 0 <= k < entries.len() ==> (#[trigger] entries[k]).0.len() > 0,
    ensures
        store.insert_all(entries).well_formed(),
        store.insert_all(entries).last_id == store.last_id + entries.len(),
        store.insert_all(entries).records.len() == store.records.len() + entries.len(),
        forall|i: int|
            0 <= i < store.records.len() ==> #[trigger] store.insert_all(entries).records[i]
                == store.records[i],
        forall|k: int|
            0 <= k < entries.len() ==> #[trigger] store.insert_all(
                entries,
            ).records[store.records.len() + k] == (RecordView {
                id: (store.last_id + 1 + k) as nat,
                content: entries[k].0,
                captured_at: entries[k].1,
            }),
        forall|k: int|
            0 <= k < entries.len() ==> #[trigger] store.insert_all(entries.take(k)).accepts(
                entries[k].0,
            ),
    decreases entries.len(),
{
    if entries.len() > 0 {
        let front = entries.drop_last();
        let before = store.insert_all(front);
        let after = store.insert_all(entries);
        lemma_inserts_are_counted(store, front);
        assert(entries.take(entries.len() - 1) =~= front);
        assert forall|k: int| 0 <= k < entries.len() implies #[trigger] store.insert_all(
            entries.take(k),
        ).accepts(entries[k].0) by {
            if k < front.len() {
                assert(front.take(k) =~= entries.take(k));
                assert(front[k] == entries[k]);
            }
        }
        assert forall|k: int| 0 <= k < entries.len() implies #[trigger] after.records[store.records.len()
            + k] == (RecordView {
            id: (store.last_id + 1 + k) as nat,
            content: entries[k].0,
            captured_at: entries[k].1,
        }) by {
            if k < front.len() {
                assert(after.records[store.records.len() + k] == before.records[store.records.len()
                    + k]);
                assert(front[k] == entries[k]);
            }
        }
        lemma_insert_keeps_well_formed(before, entries.last().0, entries.last().1);
    }
}

/// The local time of the machine's clock, written in `TIMESTAMP_FORMAT`.
///
/// Calls `chrono::Local::now`, then `format` and `to_string` on the result.
/// Nothing is claimed of the text that comes back: it depends on the clock
/// and the time zone of the machine.
#[verifier::external_body]
fn local_timestamp(pattern: &str) -> (stamp: String)
    requires
        pattern@ == TIMESTAMP_FORMAT@,
{
    chrono::Local::now().format(pattern).to_string()
}

/// Builds the store from what the storage medium held at startup: `rows` in
/// insertion order, and `last_id`, the last identifier that was ever handed out.
///
/// Rows that do not form a valid history are refused as `Corrupt`.
pub fn init_db(rows: Vec<ClipRecord>, last_id: u64) -> (result: Result<RecordStore, StoreError>)
    ensures
        result is Ok <==> (StoreView {
            records: record_views(rows@),
            last_id: last_id as nat,
        }).well_formed(),
        match result {
            Ok(store) => store@ == (StoreView {
                records: record_views(rows@),
                last_id: last_id as nat,
            }),
            Err(error) => error == StoreError::Corrupt,
        },
{
    let ghost loaded = StoreView { records: record_views(rows@), last_id: last_id as nat };
    let mut previous: u64 = 0;
    let mut k: usize = 0;
    while k < rows.len()
        invariant
            k <= rows.len(),
            loaded == (StoreView { records: record_views(rows@), last_id: last_id as nat }),
            previous <= last_id,
            k == 0 ==> previous == 0,
            k > 0 ==> previous == rows@[k - 1].id,
            forall|i: int|
                0 <= i < k ==> {
                    &&& 1 <= #[trigger] loaded.records[i].id <= previous
                    &&& loaded.records[i].content.len() > 0
                },
            forall|i: int, j: int|
                0 <= i < j < k ==> loaded.records[i].id < loaded.records[j].id,
        decreases rows.len() - k,
    {
        let row = &rows[k];
        assert(loaded.records[k as int] == row@);
        if row.id <= previous || row.id > last_id || row.content.as_str().is_empty() {
            proof {
                if k > 0 {
                    assert(loaded.records[k - 1] == rows@[k - 1]@);
                }
            }
            return Err(StoreError::Corrupt);
        }
        previous = row.id;
        k = k + 1;
    }
    Ok(RecordStore { records: rows, last_id })
}

/// Inserts `content` stamped with the local time of the insert.
///
/// The timestamp is the store's own: it is read from the clock here, and the
/// record that comes back holds it.
pub fn insert_clip(conn: &mut RecordStore, content: &str) -> (result: Result<
    ClipRecord,
    StoreError,
>)
    ensures
        result is Ok <==> old(conn)@.accepts(content@),
        match result {
            Ok(record) => {
                &&& record@ == old(conn)@.next_record(content@, record@.captured_at)
                &&& final(conn)@ == old(conn)@.insert(content@, record@.captured_at)
            },
            Err(error) => {
                &&& final(conn)@ == old(conn)@
                &&& error == old(conn)@.refusal(content@)
            },
        },
{
    let timestamp = local_timestamp(TIMESTAMP_FORMAT);
    conn.insert(content, timestamp.as_str())
}

/// Content and timestamp of the `HISTORY_LIMIT` most recent records, newest first.
pub fn get_all_clips(conn: &RecordStore) -> (clips: Vec<(String, String)>)
    ensures
        pair_views(clips@) == conn@.listing(),
{
    let records = conn.recent(HISTORY_LIMIT);
    let mut clips: Vec<(String, String)> = Vec::new();
    let mut k: usize = 0;
    while k < records.len()
        invariant
            k <= records.len(),
            clips.len() == k,
            forall|j: int|
                0 <= j < k ==> (#[trigger] clips@[j]).0@ == records@[j]@.content && clips@[j].1@
                    == records@[j]@.captured_at,
        decreases records.len() - k,
    {
        let record = &records[k];
        clips.push((record.content.clone(), record.captured_at.clone()));
        k = k + 1;
    }
    proof {
        let shown = conn@.recent(HISTORY_LIMIT as nat);
        assert(record_views(records@) == shown);
        assert forall|j: int| 0 <= j < records.len() implies records@[j]@ == shown[j] by {
            assert(record_views(records@)[j] == records@[j]@);
        }
        assert(pair_views(clips@) =~= conn@.listing());
    }
    clips
}

/// Deletes the whole history. Identifiers are not handed out again.
pub fn clear_history(conn: &mut RecordStore)
    ensures
        final(conn)@ == old(conn)@.clear(),
{
    conn.clear();
}

} // verus!
