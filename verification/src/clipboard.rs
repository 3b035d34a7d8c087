//! The deduplicating poller: it turns a stream of clipboard readings into the
//! stream of genuine changes.

use vstd::prelude::*;

verus! {

/// The pause between two ticks, in milliseconds.
pub const POLL_INTERVAL_MS: u64 = 100;

/// Whether a tick that reads `reading` after `last` was observed sees a change:
/// the clipboard was readable, holds text, and the text is not what was seen last.
pub open spec fn is_change(last: Seq<char>, reading: Option<Seq<char>>) -> bool {
    match reading {
        Some(current) => current.len() > 0 && current != last,
        None => false,
    }
}

/// What a tick emits.
pub open spec fn emitted(last: Seq<char>, reading: Option<Seq<char>>) -> Option<Seq<char>> {
    if is_change(last, reading) {
        reading
    } else {
        None
    }
}

/// What the poller remembers after a tick.
pub open spec fn next_last(last: Seq<char>, reading: Option<Seq<char>>) -> Seq<char> {
    if is_change(last, reading) {
        reading->Some_0
    } else {
        last
    }
}

/// What the poller remembers after a run of ticks, one reading each.
pub open spec fn last_after(last: Seq<char>, readings: Seq<Option<Seq<char>>>) -> Seq<char>
    decreases readings.len(),
{
    if readings.len() == 0 {
        last
    } else {
        next_last(last_after(last, readings.drop_last()), readings.last())
    }
}

/// Everything a run of ticks emits, in order.
pub open spec fn captures(last: Seq<char>, readings: Seq<Option<Seq<char>>>) -> Seq<Seq<char>>
    decreases readings.len(),
{
    if readings.len() == 0 {
        Seq::empty()
    } else {
        let before = captures(last, readings.drop_last());
        match emitted(last_after(last, readings.drop_last()), readings.last()) {
            Some(current) => before.push(current),
            None => before,
        }
    }
}

/// No text is directly followed by an equal one.
pub open spec fn neighbours_differ(texts: Seq<Seq<char>>) -> bool {
    forall|i: int, j: int|
        0 <= i && j == i + 1 && j < texts.len() ==> #[trigger] texts[i] != #[trigger] texts[j]
}

/// The value of a reading: the text read, or nothing where the clipboard
/// could not be read.
pub open spec fn reading_view(reading: Option<String>) -> Option<Seq<char>> {
    match reading {
        Some(text) => Some(text@),
        None => None,
    }
}

/// The poller's state: the text it observed last.
pub struct Poller {
    last: String,
}

impl View for Poller {
    type V = Seq<char>;

    closed spec fn view(&self) -> Seq<char> {
        self.last@
    }
}

impl Poller {
    /// A poller that has observed nothing yet.
    pub fn new() -> (poller: Poller)
        ensures
            poller@ == Seq::<char>::empty(),
    {
        Poller { last: String::new() }
    }

    /// One tick. `reading` is the clipboard's text, or `None` where it could
    /// not be read. Returns the text if it is a change, and remembers it.
    pub fn observe(&mut self, reading: Option<String>) -> (emission: Option<String>)
        ensures
            final(self)@ == next_last(old(self)@, reading_view(reading)),
            reading_view(emission) == emitted(old(self)@, reading_view(reading)),
    {
        match reading {
            Some(current) => {
                if current.as_str().is_empty() || current == self.last {
                    None
                } else {
                    self.last = current.clone();
                    Some(current)
                }
            },
            None => None,
        }
    }

    /// The text observed last, empty before the first change.
    pub fn last_observed(&self) -> (last: &str)
        ensures
            last@ == self@,
    {
        self.last.as_str()
    }
}

/// Dedup correctness: in what a run of ticks emits, no two neighbours are
/// equal and nothing is empty; the first emission differs from what the
/// poller remembered at the start, and the last one is what it remembers at
/// the end.
pub proof fn lemma_captures_distinct(last: Seq<char>, readings: Seq<Option<Seq<char>>>)
    ensures
        neighbours_differ(captures(last, readings)),
        forall|i: int|
            0 <= i < captures(last, readings).len() ==> (#[trigger] captures(
                last,
                readings,
            )[i]).len() > 0,
        captures(last, readings).len() > 0 ==> captures(last, readings)[0] != last,
        last_after(last, readings) == if captures(last, readings).len() > 0 {
            captures(last, readings).last()
        } else {
            last
        },
    decreases readings.len(),
{
    if readings.len() > 0 {
        lemma_captures_distinct(last, readings.drop_last());
    }
}

/// A reading that repeats the one before it emits nothing and changes nothing.
pub proof fn lemma_repeat_is_silent(
    last: Seq<char>,
    readings: Seq<Option<Seq<char>>>,
    reading: Option<Seq<char>>,
)
    ensures
        captures(last, readings.push(reading).push(reading)) == captures(
            last,
            readings.push(reading),
        ),
        last_after(last, readings.push(reading).push(reading)) == last_after(
            last,
            readings.push(reading),
        ),
{
    let once = readings.push(reading);
    let twice = once.push(reading);
    assert(twice.drop_last() =~= once);
    assert(once.drop_last() =~= readings);
}

/// Whatever text the clipboard holds at the first tick is emitted.
pub proof fn lemma_first_text_is_captured(text: Seq<char>)
    requires
        text.len() > 0,
    ensures
        captures(Seq::empty(), seq![Some(text)]) == seq![text],
        last_after(Seq::empty(), seq![Some(text)]) == text,
{
    let readings = seq![Some(text)];
    assert(readings.drop_last() =~= Seq::<Option<Seq<char>>>::empty());
    assert(captures(Seq::empty(), readings.drop_last()) =~= Seq::<Seq<char>>::empty());
    assert(Seq::<Seq<char>>::empty().push(text) =~= seq![text]);
}

} // verus!
