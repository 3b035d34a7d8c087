//! The pipeline coordinator: it persists a capture, then notifies.

use vstd::prelude::*;
use crate::bus::{ChangeBus, pulsed};
use crate::clipboard::{
    Poller, captures, emitted, last_after, neighbours_differ, next_last, reading_view,
};
use crate::db::{
    RecordStore, StoreError, StoreView, clear_history, get_all_clips, insert_clip, pair_views,
};
use crate::record::{ClipRecord, RecordView};

verus! {

/// The store and the bus that its changes are announced on. Whoever holds
/// the coordinator holds both, so a pulse is never seen before its record.
pub struct Coordinator {
    pub store: RecordStore,
    pub bus: ChangeBus,
}

/// What one tick of the poller came to.
#[derive(Clone, Debug, PartialEq, Eq)]
pub enum Tick {
    /// The reading was no change: nothing was stored, nothing announced.
    Unchanged,
    /// The reading was a change and is stored as this record.
    Captured(ClipRecord),
    /// The reading was a change, and the store refused it.
    Dropped(StoreError),
}

/// The contents of a sequence of records, in the same order.
pub open spec fn contents(records: Seq<RecordView>) -> Seq<Seq<char>> {
    records.map_values(|r: RecordView| r.content)
}

/// The store holds what a poller that remembers `last` has fed it: no record
/// is directly followed by one of equal content, and while identifiers are
/// left the newest record is the text that the poller saw last.
pub open spec fn in_step(last: Seq<char>, store: StoreView) -> bool {
    &&& neighbours_differ(contents(store.records))
    &&& store.records.len() > 0 && store.last_id < u64::MAX ==> store.records.last().content
        == last
}

/// The entries that a run of ticks hands to the store: each text with the
/// timestamp of its insert.
pub open spec fn stamped(texts: Seq<Seq<char>>, stamps: Seq<Seq<char>>) -> Seq<
    (Seq<char>, Seq<char>),
>
    recommends
        stamps.len() == texts.len(),
{
    Seq::new(texts.len(), |k: int| (texts[k], stamps[k]))
}

impl Coordinator {
    /// A coordinator over `store`, with nothing pending on its bus.
    pub fn new(store: RecordStore) -> (coordinator: Coordinator)
        ensures
            coordinator.store == store,
            coordinator.bus@ == 0,
    {
        Coordinator { store, bus: ChangeBus::new() }
    }

    /// Takes one capture from the poller: inserts it into the store and, if
    /// the store accepted it, publishes one pulse. A refused capture changes
    /// nothing and is not announced.
    pub fn on_capture(&mut self, content: &str) -> (result: Result<ClipRecord, StoreError>)
        ensures
            result is Ok <==> old(self).store@.accepts(content@),
            match result {
                Ok(record) => {
                    &&& record@ == old(self).store@.next_record(content@, record@.captured_at)
                    &&& final(self).store@ == old(self).store@.insert(
                        content@,
                        record@.captured_at,
                    )
                    &&& final(self).bus@ == pulsed(old(self).bus@)
                },
                Err(error) => {
                    &&& final(self).store@ == old(self).store@
                    &&& final(self).bus@ == old(self).bus@
                    &&& error == old(self).store@.refusal(content@)
                },
            },
    {
        let result = insert_clip(&mut self.store, content);
        if result.is_ok() {
            self.bus.publish();
        }
        result
    }

    /// A consumer's refresh cycle: takes every pending pulse off the bus and,
    /// if there was any, returns the current listing once for all of them.
    pub fn refresh(&mut self) -> (listing: Option<Vec<(String, String)>>)
        ensures
            final(self).store == old(self).store,
            final(self).bus@ == 0,
            listing is Some <==> old(self).bus@ > 0,
            match listing {
                Some(clips) => pair_views(clips@) == old(self).store@.listing(),
                None => true,
            },
    {
        let pulses: u64 = self.bus.drain();
        if pulses > 0 {
            Some(get_all_clips(&self.store))
        } else {
            None
        }
    }

    /// A consumer's clear command: deletes the whole history. Nothing is
    /// announced, and what the poller remembers is not touched.
    pub fn clear(&mut self)
        ensures
            final(self).store@ == old(self).store@.clear(),
            final(self).bus == old(self).bus,
    {
        clear_history(&mut self.store);
    }
}

/// One tick of the capture pipeline: the poller judges `reading`, and a
/// change goes to the coordinator, which stores and announces it.
pub fn poll_once(poller: &mut Poller, coordinator: &mut Coordinator, reading: Option<String>) -> (tick:
    Tick)
    ensures
        final(poller)@ == next_last(old(poller)@, reading_view(reading)),
        match emitted(old(poller)@, reading_view(reading)) {
            None => {
                &&& tick is Unchanged
                &&& final(coordinator).store@ == old(coordinator).store@
                &&& final(coordinator).bus@ == old(coordinator).bus@
            },
            Some(content) => if old(coordinator).store@.accepts(content) {
                &&& tick matches Tick::Captured(record)
                &&& record@ == old(coordinator).store@.next_record(content, record@.captured_at)
                &&& final(coordinator).store@ == old(coordinator).store@.insert(
                    content,
                    record@.captured_at,
                )
                &&& final(coordinator).bus@ == pulsed(old(coordinator).bus@)
            } else {
                &&& tick == Tick::Dropped(old(coordinator).store@.refusal(content))
                &&& final(coordinator).store@ == old(coordinator).store@
                &&& final(coordinator).bus@ == old(coordinator).bus@
            },
        },
        in_step(old(poller)@, old(coordinator).store@) ==> in_step(
            final(poller)@,
            final(coordinator).store@,
        ),
{
    match poller.observe(reading) {
        None => Tick::Unchanged,
        Some(content) => {
            match coordinator.on_capture(content.as_str()) {
                Ok(record) => {
                    proof {
                        if in_step(old(poller)@, old(coordinator).store@) {
                            lemma_capture_keeps_step(
                                old(poller)@,
                                old(coordinator).store@,
                                content@,
                                record@.captured_at,
                            );
                        }
                    }
                    Tick::Captured(record)
                },
                Err(error) => Tick::Dropped(error),
            }
        },
    }
}

/// Storing a change keeps the store in step with the poller.
pub proof fn lemma_capture_keeps_step(
    last: Seq<char>,
    store: StoreView,
    content: Seq<char>,
    captured_at: Seq<char>,
)
    requires
        in_step(last, store),
        store.accepts(content),
        content != last,
    ensures
        in_step(content, store.insert(content, captured_at)),
{
    let before = contents(store.records);
    let after = contents(store.insert(content, captured_at).records);
    assert(after =~= before.push(content));
    assert forall|i: int, j: int| 0 <= i && j == i + 1 && j < after.len() implies #[trigger] after[i]
        != #[trigger] after[j] by {
        if j < before.len() {
            assert(before[i] != before[j]);
        } else {
            assert(before[i] == store.records.last().content);
        }
    }
}

/// Dedup correctness over a whole run: whatever the poller reads, tick after
/// tick, the store gains exactly what the run emits, in order, and stays in
/// step with the poller, so that no record is directly followed by one of
/// equal content. `stamps` are the timestamps of the inserts; the run is one
/// in which the identifiers suffice for every capture.
pub proof fn lemma_run_keeps_step(
    last: Seq<char>,
    store: StoreView,
    readings: Seq<Option<Seq<char>>>,
    stamps: Seq<Seq<char>>,
)
    requires
        in_step(last, store),
        stamps.len() == captures(last, readings).len(),
        store.last_id + stamps.len() <= u64::MAX,
    ensures
        in_step(
            last_after(last, readings),
            store.insert_all(stamped(captures(last, readings), stamps)),
        ),
        contents(store.insert_all(stamped(captures(last, readings), stamps)).records) == contents(
            store.records,
        ) + captures(last, readings),
        store.insert_all(stamped(captures(last, readings), stamps)).last_id == store.last_id
            + stamps.len(),
    decreases readings.len(),
{
    let texts = captures(last, readings);
    let entries = stamped(texts, stamps);
    if readings.len() == 0 {
        assert(contents(store.records) + texts =~= contents(store.records));
    } else {
        let front = readings.drop_last();
        let texts_front = captures(last, front);
        let last_front = last_after(last, front);
        match emitted(last_front, readings.last()) {
            None => {
                lemma_run_keeps_step(last, store, front, stamps);
            },
            Some(text) => {
                let stamps_front = stamps.drop_last();
                let entries_front = stamped(texts_front, stamps_front);
                lemma_run_keeps_step(last, store, front, stamps_front);
                let before = store.insert_all(entries_front);
                assert(entries.drop_last() =~= entries_front);
                assert(entries.last() == (text, stamps.last()));
                assert(store.insert_all(entries) == before.insert(text, stamps.last()));
                lemma_capture_keeps_step(last_front, before, text, stamps.last());
                assert(contents(before.insert(text, stamps.last()).records) =~= contents(
                    before.records,
                ).push(text));
                assert(contents(store.records) + texts =~= (contents(store.records)
                    + texts_front).push(text));
            },
        }
    }
}

/// An empty store is in step with every poller: so is a new store with a
/// new poller, and so is any store after a clear, whatever the poller
/// remembers by then.
pub proof fn lemma_empty_store_in_step(last: Seq<char>, store: StoreView)
    ensures
        in_step(last, StoreView::empty()),
        in_step(last, store.clear()),
{
}

} // verus!
