use cliptrack::bus::ChangeBus;
use cliptrack::clipboard::{Poller, POLL_INTERVAL_MS};
use cliptrack::db::{init_db, RecordStore, StoreError};
use cliptrack::pipeline::{poll_once, Coordinator, Tick};

fn text(s: &str) -> Option<String> {
    Some(s.to_string())
}

fn contents(store: &RecordStore) -> Vec<String> {
    let mut out: Vec<String> = store.recent(usize::MAX).into_iter().map(|r| r.content).collect();
    out.reverse();
    out
}

#[test]
fn poller_starts_with_nothing_observed() {
    let poller = Poller::new();
    assert_eq!(poller.last_observed(), "");
    assert_eq!(POLL_INTERVAL_MS, 100);
}

#[test]
fn first_text_is_always_emitted() {
    let mut poller = Poller::new();
    assert_eq!(poller.observe(text("already there")), text("already there"));
    assert_eq!(poller.last_observed(), "already there");
    assert_eq!(poller.observe(text("already there")), None);
}

#[test]
fn unreadable_clipboard_is_skipped() {
    let mut poller = Poller::new();
    assert_eq!(poller.observe(None), None);
    assert_eq!(poller.last_observed(), "");
    assert_eq!(poller.observe(text("A")), text("A"));
    assert_eq!(poller.observe(None), None);
    assert_eq!(poller.last_observed(), "A");
    assert_eq!(poller.observe(text("A")), None);
}

#[test]
fn empty_text_is_never_emitted_and_not_remembered() {
    let mut poller = Poller::new();
    assert_eq!(poller.observe(text("")), None);
    assert_eq!(poller.observe(text("A")), text("A"));
    assert_eq!(poller.observe(text("")), None);
    assert_eq!(poller.last_observed(), "A");
    assert_eq!(poller.observe(text("A")), None);
    assert_eq!(poller.observe(text("B")), text("B"));
}

#[test]
fn emissions_never_repeat_their_neighbour() {
    let readings = vec![
        text("A"),
        text("A"),
        None,
        text("B"),
        text(""),
        text("B"),
        text("A"),
        None,
        text("A"),
        text("C"),
        text("C"),
    ];
    let mut poller = Poller::new();
    let mut emitted: Vec<String> = Vec::new();
    for reading in readings {
        if let Some(change) = poller.observe(reading) {
            emitted.push(change);
        }
    }
    assert_eq!(emitted, vec!["A", "B", "A", "C"]);
    for k in 1..emitted.len() {
        assert_ne!(emitted[k - 1], emitted[k]);
    }
    assert_eq!(poller.last_observed(), "C");
}

#[test]
fn bus_counts_and_drains_pulses() {
    let mut bus = ChangeBus::new();
    assert_eq!(bus.pending(), 0);
    assert_eq!(bus.drain(), 0);
    bus.publish();
    assert_eq!(bus.pending(), 1);
    bus.publish();
    bus.publish();
    assert_eq!(bus.pending(), 3);
    assert_eq!(bus.drain(), 3);
    assert_eq!(bus.pending(), 0);
    assert_eq!(bus.drain(), 0);
}

#[test]
fn on_capture_persists_then_notifies() {
    let mut coordinator = Coordinator::new(RecordStore::new());
    assert_eq!(coordinator.bus.pending(), 0);
    let stored = coordinator.on_capture("first").unwrap();
    assert_eq!(stored.id, 1);
    assert_eq!(stored.content, "first");
    assert_eq!(coordinator.bus.pending(), 1);
    assert_eq!(coordinator.store.recent(1), vec![stored]);
    coordinator.on_capture("second").unwrap();
    assert_eq!(coordinator.bus.pending(), 2);
    assert_eq!(coordinator.store.len(), 2);
}

#[test]
fn a_refused_capture_is_not_announced() {
    let mut coordinator = Coordinator::new(RecordStore::new());
    assert_eq!(coordinator.on_capture(""), Err(StoreError::EmptyContent));
    assert_eq!(coordinator.bus.pending(), 0);
    assert!(coordinator.store.is_empty());
    let mut full = Coordinator::new(init_db(Vec::new(), u64::MAX).unwrap());
    assert_eq!(full.on_capture("lost"), Err(StoreError::IdsExhausted));
    assert_eq!(full.bus.pending(), 0);
    assert!(full.store.is_empty());
}

#[test]
fn refresh_coalesces_pending_pulses() {
    let mut coordinator = Coordinator::new(RecordStore::new());
    assert_eq!(coordinator.refresh(), None);
    coordinator.on_capture("a").unwrap();
    coordinator.on_capture("b").unwrap();
    coordinator.on_capture("c").unwrap();
    assert_eq!(coordinator.bus.pending(), 3);
    let listing = coordinator.refresh().unwrap();
    let shown: Vec<&str> = listing.iter().map(|clip| clip.0.as_str()).collect();
    assert_eq!(shown, vec!["c", "b", "a"]);
    assert_eq!(coordinator.bus.pending(), 0);
    assert_eq!(coordinator.refresh(), None);
    assert_eq!(coordinator.store.len(), 3);
}

#[test]
fn clear_is_not_announced() {
    let mut coordinator = Coordinator::new(RecordStore::new());
    coordinator.on_capture("a").unwrap();
    coordinator.clear();
    assert!(coordinator.store.is_empty());
    assert_eq!(coordinator.store.last_id(), 1);
    assert_eq!(coordinator.bus.pending(), 1);
    assert_eq!(coordinator.refresh(), Some(Vec::new()));
}

#[test]
fn scenario_capture_dedup_and_clear() {
    let mut poller = Poller::new();
    let mut coordinator = Coordinator::new(RecordStore::new());

    let tick = poll_once(&mut poller, &mut coordinator, text("A"));
    assert!(matches!(&tick, Tick::Captured(r) if r.id == 1 && r.content == "A"));
    assert_eq!(contents(&coordinator.store), vec!["A"]);

    let tick = poll_once(&mut poller, &mut coordinator, text("A"));
    assert_eq!(tick, Tick::Unchanged);
    assert_eq!(coordinator.store.len(), 1);

    let tick = poll_once(&mut poller, &mut coordinator, text("B"));
    assert!(matches!(&tick, Tick::Captured(r) if r.id == 2 && r.content == "B"));
    assert_eq!(coordinator.store.len(), 2);
    assert_eq!(coordinator.store.recent(1)[0].content, "B");
    assert_eq!(coordinator.bus.pending(), 2);

    coordinator.clear();
    assert_eq!(coordinator.store.len(), 0);

    let tick = poll_once(&mut poller, &mut coordinator, text("B"));
    assert_eq!(tick, Tick::Unchanged);
    assert_eq!(coordinator.store.len(), 0);
    assert_eq!(poller.last_observed(), "B");

    let tick = poll_once(&mut poller, &mut coordinator, text("A"));
    assert!(matches!(&tick, Tick::Captured(r) if r.id == 3 && r.content == "A"));
}

#[test]
fn store_never_holds_equal_neighbours_from_one_poller() {
    let readings = vec![
        text("A"),
        text("A"),
        None,
        text("A"),
        text("B"),
        text(""),
        text("B"),
        None,
        text("A"),
        text("A"),
        text("C"),
    ];
    let mut poller = Poller::new();
    let mut coordinator = Coordinator::new(RecordStore::new());
    let mut captured = 0;
    for reading in readings {
        if let Tick::Captured(_) = poll_once(&mut poller, &mut coordinator, reading) {
            captured += 1;
        }
    }
    assert_eq!(captured, 4);
    assert_eq!(contents(&coordinator.store), vec!["A", "B", "A", "C"]);
    let all = coordinator.store.recent(usize::MAX);
    for k in 1..all.len() {
        assert_ne!(all[k - 1].content, all[k].content);
        assert!(all[k - 1].id > all[k].id);
    }
    assert_eq!(coordinator.bus.pending(), 4);
}

#[test]
fn unreadable_tick_changes_nothing() {
    let mut poller = Poller::new();
    let mut coordinator = Coordinator::new(RecordStore::new());
    assert_eq!(poll_once(&mut poller, &mut coordinator, None), Tick::Unchanged);
    assert_eq!(poll_once(&mut poller, &mut coordinator, text("")), Tick::Unchanged);
    assert!(coordinator.store.is_empty());
    assert_eq!(coordinator.bus.pending(), 0);
    assert_eq!(poller.last_observed(), "");
}

#[test]
fn a_dropped_capture_is_remembered_but_not_announced() {
    let mut poller = Poller::new();
    let mut coordinator = Coordinator::new(init_db(Vec::new(), u64::MAX).unwrap());
    let tick = poll_once(&mut poller, &mut coordinator, text("A"));
    assert_eq!(tick, Tick::Dropped(StoreError::IdsExhausted));
    assert!(coordinator.store.is_empty());
    assert_eq!(coordinator.bus.pending(), 0);
    assert_eq!(poller.last_observed(), "A");
    assert_eq!(poll_once(&mut poller, &mut coordinator, text("A")), Tick::Unchanged);
}
