//! Selecting the messages of a channel that are due for deletion.
//!
//! The channel's history is read newest first. A message that has reached the
//! platform's hard ceiling ends the scan: its id is handed back as the truncation
//! marker, and nothing behind it is looked at. Before that point every message
//! that is at least as old as the schedule's threshold is a candidate.

use crate::time::{TimeDelta, Timestamp, MICROS_PER_DAY};
use vstd::prelude::*;

verus! {

/// The platform refuses to bulk-delete a message once it is this many days old.
pub const MAX_MESSAGE_AGE_DAYS: u64 = 14;

/// A message as the history source reports it.
#[derive(Clone, Copy, Debug, PartialEq, Eq)]
pub struct HistoryMessage {
    pub id: u64,
    pub timestamp: Timestamp,
}

/// A page of the history that could not be read.
#[derive(Clone, Copy, Debug, PartialEq, Eq)]
pub struct HistoryReadError {}

/// What the history source yields at each step: a message, or the failure to read one.
pub type HistoryItem = Result<HistoryMessage, HistoryReadError>;

/// A message's id with its age at the reference instant of the scan.
#[derive(Clone, Copy, Debug, PartialEq, Eq)]
pub struct MessageCandidate {
    pub id: u64,
    pub age: TimeDelta,
}

/// How a message's age compares with the schedule's threshold and the hard ceiling.
#[derive(Clone, Copy, Debug, PartialEq, Eq)]
pub enum AgeClass {
    /// Younger than the threshold: the message stays.
    TooYoung,
    /// At least as old as the threshold and younger than the hard ceiling: the message is deleted.
    Due,
    /// At least as old as the hard ceiling: the message can only be deleted by hand.
    PastCeiling,
}

/// What a scan hands back.
#[derive(Debug, PartialEq, Eq)]
pub struct ScanResult {
    /// The ids of the messages to delete, in the order of the history.
    pub messages: Vec<u64>,
    /// The truncation marker: the id of the message at which the scan met the hard ceiling.
    pub first_message_past_deletion_range: Option<u64>,
}

/// The mathematical content of a [`ScanResult`].
pub struct Scan {
    pub messages: Seq<u64>,
    pub marker: Option<u64>,
}

impl View for ScanResult {
    type V = Scan;

    open spec fn view(&self) -> Scan {
        Scan { messages: self.messages@, marker: self.first_message_past_deletion_range }
    }
}

/// The hard ceiling in microseconds.
pub open spec fn hard_ceiling() -> int {
    MAX_MESSAGE_AGE_DAYS * MICROS_PER_DAY
}

/// The age of `message` at `asked_at`, in microseconds.
pub open spec fn age_at(message: HistoryMessage, asked_at: Timestamp) -> int {
    asked_at.micros - message.timestamp.micros
}

/// The class of an age of `age` microseconds under a threshold of `threshold`.
pub open spec fn age_class(age: int, threshold: TimeDelta) -> AgeClass {
    if age >= hard_ceiling() {
        AgeClass::PastCeiling
    } else if age >= threshold.micros {
        AgeClass::Due
    } else {
        AgeClass::TooYoung
    }
}

/// Whether `item` is a message that has reached the hard ceiling.
pub open spec fn past_ceiling(item: HistoryItem, asked_at: Timestamp) -> bool {
    item matches Ok(message) && age_at(message, asked_at) >= hard_ceiling()
}

/// The id of `item` where it is a message that is due, and nothing otherwise.
pub open spec fn due_id(item: HistoryItem, threshold: TimeDelta, asked_at: Timestamp) -> Option<u64> {
    match item {
        Ok(message) => if threshold.micros <= age_at(message, asked_at) < hard_ceiling() {
            Some(message.id)
        } else {
            None
        },
        Err(_) => None,
    }
}

/// The ids of the messages among `items` that are due, in their order.
pub open spec fn due_ids(items: Seq<HistoryItem>, threshold: TimeDelta, asked_at: Timestamp) -> Seq<u64> {
    items.filter_map(|item: HistoryItem| due_id(item, threshold, asked_at))
}

/// Where a scan of `items` ends: the position of the first message that has
/// reached the hard ceiling, or the length of `items` where none has.
pub open spec fn scan_end(items: Seq<HistoryItem>, asked_at: Timestamp) -> int
    decreases items.len(),
{
    if items.len() == 0 || past_ceiling(items[0], asked_at) {
        0
    } else {
        1 + scan_end(items.drop_first(), asked_at)
    }
}

/// The result of scanning `items`, newest first, for messages that are at least
/// `threshold` old at `asked_at`.
pub open spec fn scan(items: Seq<HistoryItem>, threshold: TimeDelta, asked_at: Timestamp) -> Scan {
    let end = scan_end(items, asked_at);
    Scan {
        messages: due_ids(items.take(end), threshold, asked_at),
        marker: if end < items.len() {
            Some(items[end]->Ok_0.id)
        } else {
            None
        },
    }
}

/// The state of a scan after it was shown one more item. A scan that has its
/// truncation marker is over and takes nothing more in.
pub open spec fn advance(state: Scan, item: HistoryItem, threshold: TimeDelta, asked_at: Timestamp) -> Scan {
    if state.marker is Some {
        state
    } else if past_ceiling(item, asked_at) {
        Scan { messages: state.messages, marker: Some(item->Ok_0.id) }
    } else {
        match due_id(item, threshold, asked_at) {
            Some(id) => Scan { messages: state.messages.push(id), marker: None },
            None => state,
        }
    }
}

impl MessageCandidate {
    /// The candidate that `message` makes at the reference instant `asked_at`.
    pub fn of(message: &HistoryMessage, asked_at: Timestamp) -> (candidate: MessageCandidate)
        ensures
            candidate.id == message.id,
            candidate.age.micros == age_at(*message, asked_at),
    {
        MessageCandidate { id: message.id, age: asked_at.since(message.timestamp) }
    }

    /// Compares the candidate's age with `threshold` and with the hard ceiling.
    pub fn class(&self, threshold: TimeDelta) -> (class: AgeClass)
        ensures
            class == age_class(self.age.micros as int, threshold),
    {
        if self.age.is_at_least(TimeDelta::days(MAX_MESSAGE_AGE_DAYS)) {
            AgeClass::PastCeiling
        } else if self.age.is_at_least(threshold) {
            AgeClass::Due
        } else {
            AgeClass::TooYoung
        }
    }
}

/// A scan in progress. The caller shows it the history item by item and stops
/// reading when `observe` says so.
#[derive(Debug, PartialEq, Eq)]
pub struct MessageSelector {
    pub age_deletion_threshold: TimeDelta,
    pub asked_at: Timestamp,
    pub result: ScanResult,
}

impl MessageSelector {
    /// A scan that has seen nothing yet.
    pub fn new(age_deletion_threshold: TimeDelta, asked_at: Timestamp) -> (selector: MessageSelector)
        ensures
            selector.age_deletion_threshold == age_deletion_threshold,
            selector.asked_at == asked_at,
            selector.result@ == scan(Seq::empty(), age_deletion_threshold, asked_at),
            selector.result@ == (Scan { messages: Seq::empty(), marker: None }),
    {
        MessageSelector {
            age_deletion_threshold,
            asked_at,
            result: ScanResult { messages: Vec::new(), first_message_past_deletion_range: None },
        }
    }

    /// Shows the scan the next item of the history. The answer says whether the
    /// caller should read on: it is `false` from the moment the scan has met the
    /// hard ceiling.
    pub fn observe(&mut self, item: &HistoryItem) -> (keep_scanning: bool)
        ensures
            final(self).age_deletion_threshold == old(self).age_deletion_threshold,
            final(self).asked_at == old(self).asked_at,
            final(self).result@ == advance(
                old(self).result@,
                *item,
                old(self).age_deletion_threshold,
                old(self).asked_at,
            ),
            keep_scanning == (final(self).result@.marker is None),
    {
        if self.result.first_message_past_deletion_range.is_some() {
            return false;
        }
        match item {
            Ok(message) => {
                let candidate = MessageCandidate::of(message, self.asked_at);
                match candidate.class(self.age_deletion_threshold) {
                    AgeClass::PastCeiling => {
                        self.result.first_message_past_deletion_range = Some(candidate.id);
                        false
                    },
                    AgeClass::Due => {
                        self.result.messages.push(candidate.id);
                        true
                    },
                    AgeClass::TooYoung => true,
                }
            },
            Err(_) => true,
        }
    }

    /// Ends the scan and hands back what it selected.
    pub fn finish(self) -> (result: ScanResult)
        ensures
            result == self.result,
    {
        self.result
    }
}

/// Scans a channel's history, given newest first, for the messages that are at
/// least `age_deletion_threshold` old at `asked_at`.
pub fn get_messages_for_deletion(
    history: &Vec<HistoryItem>,
    age_deletion_threshold: TimeDelta,
    asked_at: Timestamp,
) -> (result: ScanResult)
    ensures
        result@ == scan(history@, age_deletion_threshold, asked_at),
{
    let mut selector = MessageSelector::new(age_deletion_threshold, asked_at);
    let mut i: usize = 0;
    assert(history@.take(0) == Seq::<HistoryItem>::empty());
    while i < history.len()
        invariant
            i <= history.len(),
            selector.age_deletion_threshold == age_deletion_threshold,
            selector.asked_at == asked_at,
            selector.result@ == scan(history@.take(i as int), age_deletion_threshold, asked_at),
            selector.result@.marker is None,
        decreases history.len() - i,
    {
        let keep_scanning = selector.observe(&history[i]);
        proof {
            assert(history@.take(i + 1) == history@.take(i as int).push(history@[i as int]));
            lemma_scan_push(history@.take(i as int), history@[i as int], age_deletion_threshold, asked_at);
        }
        i += 1;
        if !keep_scanning {
            proof {
                lemma_scan_ignores_what_follows(history@, age_deletion_threshold, asked_at, i as int);
            }
            return selector.finish();
        }
    }
    assert(history@.take(i as int) == history@);
    selector.finish()
}

/// A scan ends within the history, at the first message that has reached the
/// hard ceiling if there is one, and meets no such message before.
pub proof fn lemma_scan_end(items: Seq<HistoryItem>, asked_at: Timestamp)
    ensures
        0 <= scan_end(items, asked_at) <= items.len(),
        forall|j: int| 0 <= j < scan_end(items, asked_at) ==> !past_ceiling(#[trigger] items[j], asked_at),
        scan_end(items, asked_at) < items.len() ==> past_ceiling(items[scan_end(items, asked_at)], asked_at),
    decreases items.len(),
{
    if items.len() == 0 || past_ceiling(items[0], asked_at) {
    } else {
        let rest = items.drop_first();
        lemma_scan_end(rest, asked_at);
        assert forall|j: int| 0 <= j < scan_end(items, asked_at) implies !past_ceiling(
            #[trigger] items[j],
            asked_at,
        ) by {
            if j > 0 {
                assert(items[j] == rest[j - 1]);
            }
        }
    }
}

/// The place where a scan ends is the only place that no message at the hard
/// ceiling precedes and that holds such a message or closes the history.
pub proof fn lemma_scan_end_is(items: Seq<HistoryItem>, asked_at: Timestamp, end: int)
    requires
        0 <= end <= items.len(),
        forall|j: int| 0 <= j < end ==> !past_ceiling(#[trigger] items[j], asked_at),
        end < items.len() ==> past_ceiling(items[end], asked_at),
    ensures
        scan_end(items, asked_at) == end,
{
    lemma_scan_end(items, asked_at);
    let found = scan_end(items, asked_at);
    if found < end {
        assert(!past_ceiling(items[found], asked_at));
    } else if end < found {
        assert(!past_ceiling(items[end], asked_at));
    }
}

/// Showing a scan one more item is scanning the history that is longer by that item.
pub proof fn lemma_scan_push(
    items: Seq<HistoryItem>,
    item: HistoryItem,
    threshold: TimeDelta,
    asked_at: Timestamp,
)
    ensures
        scan(items.push(item), threshold, asked_at) == advance(
            scan(items, threshold, asked_at),
            item,
            threshold,
            asked_at,
        ),
{
    let longer = items.push(item);
    let end = scan_end(items, asked_at);
    lemma_scan_end(items, asked_at);
    if end < items.len() {
        assert(longer[end] == items[end]);
        assert forall|j: int| 0 <= j < end implies !past_ceiling(#[trigger] longer[j], asked_at) by {
            assert(longer[j] == items[j]);
        }
        lemma_scan_end_is(longer, asked_at, end);
        assert(longer.take(end) == items.take(end));
    } else {
        assert forall|j: int| 0 <= j < end implies !past_ceiling(#[trigger] longer[j], asked_at) by {
            assert(longer[j] == items[j]);
        }
        assert(items.take(end) == items);
        if past_ceiling(item, asked_at) {
            lemma_scan_end_is(longer, asked_at, end);
            assert(longer.take(end) == items);
        } else {
            lemma_scan_end_is(longer, asked_at, end + 1);
            assert(longer.take(end + 1) == longer);
            assert(longer.drop_last() == items);
            assert(due_ids(longer, threshold, asked_at) == match due_id(item, threshold, asked_at) {
                Some(id) => due_ids(items, threshold, asked_at).push(id),
                None => due_ids(items, threshold, asked_at),
            });
        }
    }
}

/// Once a scan has its truncation marker, the rest of the history has no part in
/// the result.
pub proof fn lemma_scan_ignores_what_follows(
    items: Seq<HistoryItem>,
    threshold: TimeDelta,
    asked_at: Timestamp,
    seen: int,
)
    requires
        0 <= seen <= items.len(),
        scan(items.take(seen), threshold, asked_at).marker is Some,
    ensures
        scan(items, threshold, asked_at) == scan(items.take(seen), threshold, asked_at),
{
    let prefix = items.take(seen);
    let end = scan_end(prefix, asked_at);
    lemma_scan_end(prefix, asked_at);
    assert(prefix[end] == items[end]);
    assert forall|j: int| 0 <= j < end implies !past_ceiling(#[trigger] items[j], asked_at) by {
        assert(prefix[j] == items[j]);
    }
    lemma_scan_end_is(items, asked_at, end);
    assert(prefix.take(end) == items.take(end));
}

/// A scan halts at the first message that has reached the hard ceiling. The
/// truncation marker is that message's id, the candidates are the due messages
/// before it, and nothing behind it has any part in the result.
pub proof fn lemma_scan_halts_at_ceiling(
    items: Seq<HistoryItem>,
    threshold: TimeDelta,
    asked_at: Timestamp,
    place: int,
)
    requires
        0 <= place < items.len(),
        past_ceiling(items[place], asked_at),
        forall|j: int| 0 <= j < place ==> !past_ceiling(#[trigger] items[j], asked_at),
    ensures
        scan(items, threshold, asked_at).marker == Some(items[place]->Ok_0.id),
        scan(items, threshold, asked_at).messages == due_ids(items.take(place), threshold, asked_at),
        scan(items, threshold, asked_at) == scan(items.take(place + 1), threshold, asked_at),
{
    lemma_scan_end_is(items, asked_at, place);
    let prefix = items.take(place + 1);
    assert(prefix[place] == items[place]);
    assert forall|j: int| 0 <= j < place implies !past_ceiling(#[trigger] prefix[j], asked_at) by {
        assert(prefix[j] == items[j]);
    }
    lemma_scan_end_is(prefix, asked_at, place);
    assert(prefix.take(place) == items.take(place));
}

/// Where no message has reached the hard ceiling the scan runs to the end of the
/// history: there is no truncation marker, and every due message is a candidate.
pub proof fn lemma_scan_without_ceiling(items: Seq<HistoryItem>, threshold: TimeDelta, asked_at: Timestamp)
    requires
        forall|j: int| 0 <= j < items.len() ==> !past_ceiling(#[trigger] items[j], asked_at),
    ensures
        scan(items, threshold, asked_at).marker is None,
        scan(items, threshold, asked_at).messages == due_ids(items, threshold, asked_at),
{
    lemma_scan_end_is(items, asked_at, items.len() as int);
    assert(items.take(items.len() as int) == items);
}

/// No two positions of the history hold messages with the same id.
pub open spec fn distinct_ids(items: Seq<HistoryItem>) -> bool {
    forall|i: int, j: int|
        0 <= i < j < items.len() && items[i] is Ok && items[j] is Ok ==> items[i]->Ok_0.id
            != items[j]->Ok_0.id
}

/// Whether `id` belongs to a due message among the first `scanned` items.
pub open spec fn is_due_among(
    items: Seq<HistoryItem>,
    threshold: TimeDelta,
    asked_at: Timestamp,
    scanned: int,
    id: u64,
) -> bool {
    exists|i: int|
        0 <= i < scanned && i < items.len() && #[trigger] due_id(items[i], threshold, asked_at) == Some(id)
}

proof fn lemma_due_ids(items: Seq<HistoryItem>, threshold: TimeDelta, asked_at: Timestamp)
    ensures
        forall|n: int|
            0 <= n < due_ids(items, threshold, asked_at).len() ==> is_due_among(
                items,
                threshold,
                asked_at,
                items.len() as int,
                #[trigger] due_ids(items, threshold, asked_at)[n],
            ),
        distinct_ids(items) ==> due_ids(items, threshold, asked_at).no_duplicates(),
    decreases items.len(),
{
    let ids = due_ids(items, threshold, asked_at);
    if items.len() > 0 {
        let shorter = items.drop_last();
        let before = due_ids(shorter, threshold, asked_at);
        lemma_due_ids(shorter, threshold, asked_at);
        assert forall|n: int| 0 <= n < ids.len() implies is_due_among(
            items,
            threshold,
            asked_at,
            items.len() as int,
            #[trigger] ids[n],
        ) by {
            if n < before.len() {
                assert(is_due_among(shorter, threshold, asked_at, shorter.len() as int, before[n]));
                let i = choose|i: int|
                    0 <= i < shorter.len() && #[trigger] due_id(shorter[i], threshold, asked_at) == Some(
                        before[n],
                    );
                assert(items[i] == shorter[i]);
            } else {
                assert(due_id(items[items.len() - 1], threshold, asked_at) == Some(ids[n]));
            }
        }
        if distinct_ids(items) {
            assert(distinct_ids(shorter)) by {
                assert forall|i: int, j: int|
                    0 <= i < j < shorter.len() && shorter[i] is Ok
                        && shorter[j] is Ok implies shorter[i]->Ok_0.id != shorter[j]->Ok_0.id by {
                    assert(shorter[i] == items[i] && shorter[j] == items[j]);
                }
            }
            assert forall|a: int, b: int| 0 <= a < b < ids.len() implies ids[a] != ids[b] by {
                if b >= before.len() {
                    assert(is_due_among(shorter, threshold, asked_at, shorter.len() as int, before[a]));
                    let i = choose|i: int|
                        0 <= i < shorter.len() && #[trigger] due_id(shorter[i], threshold, asked_at) == Some(
                            before[a],
                        );
                    assert(items[i] == shorter[i]);
                }
            }
        }
    }
}

/// Every candidate is the id of a message in the scanned part of the history
/// that is at least as old as the threshold and has not reached the hard ceiling.
pub proof fn lemma_candidates_are_due(items: Seq<HistoryItem>, threshold: TimeDelta, asked_at: Timestamp)
    ensures
        forall|n: int|
            0 <= n < scan(items, threshold, asked_at).messages.len() ==> is_due_among(
                items,
                threshold,
                asked_at,
                scan_end(items, asked_at),
                #[trigger] scan(items, threshold, asked_at).messages[n],
            ),
{
    lemma_scan_end(items, asked_at);
    let prefix = items.take(scan_end(items, asked_at));
    let ids = scan(items, threshold, asked_at).messages;
    lemma_due_ids(prefix, threshold, asked_at);
    assert forall|n: int| 0 <= n < ids.len() implies is_due_among(
        items,
        threshold,
        asked_at,
        scan_end(items, asked_at),
        #[trigger] ids[n],
    ) by {
        assert(is_due_among(prefix, threshold, asked_at, prefix.len() as int, ids[n]));
        let i = choose|i: int|
            0 <= i < prefix.len() && #[trigger] due_id(prefix[i], threshold, asked_at) == Some(ids[n]);
        assert(prefix[i] == items[i]);
    }
}

/// A scan of a history in which every message has an id of its own emits no id twice.
pub proof fn lemma_candidates_are_distinct(items: Seq<HistoryItem>, threshold: TimeDelta, asked_at: Timestamp)
    requires
        distinct_ids(items),
    ensures
        scan(items, threshold, asked_at).messages.no_duplicates(),
{
    lemma_scan_end(items, asked_at);
    let prefix = items.take(scan_end(items, asked_at));
    assert(distinct_ids(prefix)) by {
        assert forall|i: int, j: int|
            0 <= i < j < prefix.len() && prefix[i] is Ok && prefix[j] is Ok implies prefix[i]->Ok_0.id
            != prefix[j]->Ok_0.id by {
            assert(prefix[i] == items[i] && prefix[j] == items[j]);
        }
    }
    lemma_due_ids(prefix, threshold, asked_at);
}

} // verus!
