use purge_scheduler::selection::{get_messages_for_deletion, AgeClass, HistoryItem, HistoryMessage};
use purge_scheduler::selection::{HistoryReadError, MessageCandidate, MessageSelector, ScanResult};
use purge_scheduler::selection::MAX_MESSAGE_AGE_DAYS;
use purge_scheduler::time::{TimeDelta, Timestamp};

const HOUR: i64 = 3_600_000_000;
const DAY: i64 = 24 * HOUR;
const NOW: i64 = 1_700_000_000_000_000;

fn asked_at() -> Timestamp {
    Timestamp { micros: NOW }
}

/// A message that is `age` microseconds old at the reference time.
fn aged(id: u64, age: i64) -> HistoryItem {
    Ok(HistoryMessage { id, timestamp: Timestamp { micros: NOW - age } })
}

fn unreadable() -> HistoryItem {
    Err(HistoryReadError {})
}

fn select(history: &Vec<HistoryItem>, hours: u64) -> ScanResult {
    get_messages_for_deletion(history, TimeDelta::hours(hours), asked_at())
}

#[test]
fn the_hard_ceiling_is_fourteen_days() {
    assert_eq!(MAX_MESSAGE_AGE_DAYS, 14);
    let at_ceiling = MessageCandidate { id: 1, age: TimeDelta { micros: 1_209_600_000_000 } };
    let below = MessageCandidate { id: 1, age: TimeDelta { micros: 1_209_599_999_999 } };
    assert_eq!(at_ceiling.class(TimeDelta::hours(1)), AgeClass::PastCeiling);
    assert_eq!(below.class(TimeDelta::hours(1)), AgeClass::Due);
}

#[test]
fn a_candidate_carries_the_age_at_the_reference_time() {
    let message = HistoryMessage { id: 7, timestamp: Timestamp { micros: NOW - 5 * HOUR } };
    let candidate = MessageCandidate::of(&message, asked_at());
    assert_eq!(candidate, MessageCandidate { id: 7, age: TimeDelta { micros: 18_000_000_000 } });
    assert_eq!(candidate.class(TimeDelta::hours(5)), AgeClass::Due);
    assert_eq!(candidate.class(TimeDelta::hours(6)), AgeClass::TooYoung);
}

#[test]
fn a_message_from_the_future_is_too_young() {
    let message = HistoryMessage { id: 7, timestamp: Timestamp { micros: NOW + HOUR } };
    let candidate = MessageCandidate::of(&message, asked_at());
    assert_eq!(candidate.age, TimeDelta { micros: -3_600_000_000 });
    assert_eq!(candidate.class(TimeDelta::hours(0)), AgeClass::TooYoung);
}

#[test]
fn an_empty_history_selects_nothing() {
    let result = select(&vec![], 24);
    assert_eq!(result, ScanResult { messages: vec![], first_message_past_deletion_range: None });
}

#[test]
fn messages_at_or_past_the_threshold_are_selected_in_order() {
    let history = vec![
        aged(50, HOUR),
        aged(40, 24 * HOUR - 1),
        aged(30, 24 * HOUR),
        aged(20, 3 * DAY),
        aged(10, 13 * DAY),
    ];
    let result = select(&history, 24);
    assert_eq!(result.messages, vec![30, 20, 10]);
    assert_eq!(result.first_message_past_deletion_range, None);
}

#[test]
fn the_scan_halts_at_the_first_message_at_the_ceiling() {
    let history = vec![
        aged(60, HOUR),
        aged(50, 2 * DAY),
        aged(40, 14 * DAY),
        aged(30, 3 * DAY),
        aged(20, 15 * DAY),
        aged(10, 20 * DAY),
    ];
    let result = select(&history, 24);
    assert_eq!(result.messages, vec![50]);
    assert_eq!(result.first_message_past_deletion_range, Some(40));
}

#[test]
fn what_follows_the_marker_has_no_part_in_the_result() {
    let head = vec![aged(60, HOUR), aged(50, 2 * DAY), aged(40, 14 * DAY)];
    let mut longer = head.clone();
    longer.push(aged(30, 3 * DAY));
    longer.push(unreadable());
    longer.push(aged(20, 30 * DAY));
    assert_eq!(select(&head, 24), select(&longer, 24));
}

#[test]
fn a_message_just_below_the_ceiling_is_still_deleted() {
    let history = vec![aged(2, 14 * DAY - 1), aged(1, 14 * DAY)];
    let result = select(&history, 1);
    assert_eq!(result.messages, vec![2]);
    assert_eq!(result.first_message_past_deletion_range, Some(1));
}

#[test]
fn the_newest_message_at_the_ceiling_ends_the_scan_at_once() {
    let history = vec![aged(9, 100 * DAY), aged(8, 2 * DAY)];
    let result = select(&history, 1);
    assert_eq!(result, ScanResult { messages: vec![], first_message_past_deletion_range: Some(9) });
}

#[test]
fn unreadable_pages_are_skipped() {
    let history = vec![unreadable(), aged(3, 2 * DAY), unreadable(), aged(2, 3 * DAY), unreadable()];
    let result = select(&history, 24);
    assert_eq!(result.messages, vec![3, 2]);
    assert_eq!(result.first_message_past_deletion_range, None);
}

#[test]
fn a_threshold_of_nothing_selects_every_message_below_the_ceiling() {
    let history = vec![aged(3, 0), aged(2, 1), aged(1, DAY)];
    assert_eq!(select(&history, 0).messages, vec![3, 2, 1]);
}

#[test]
fn a_threshold_past_the_ceiling_selects_nothing() {
    let history = vec![aged(3, DAY), aged(2, 13 * DAY), aged(1, 14 * DAY)];
    let result = select(&history, 15 * 24);
    assert_eq!(result, ScanResult { messages: vec![], first_message_past_deletion_range: Some(1) });
}

#[test]
fn a_threshold_an_hour_short_of_the_ceiling_leaves_an_hour() {
    let history = vec![aged(3, 335 * HOUR - 1), aged(2, 335 * HOUR), aged(1, 336 * HOUR)];
    let result = select(&history, 335);
    assert_eq!(result, ScanResult { messages: vec![2], first_message_past_deletion_range: Some(1) });
}

#[test]
fn distinct_messages_give_distinct_candidates() {
    let mut history: Vec<HistoryItem> = Vec::new();
    for n in 0..500u64 {
        history.push(aged(10_000 - n, (n as i64) * HOUR));
    }
    let result = select(&history, 24);
    assert_eq!(result.messages.len(), 14 * 24 - 24);
    let mut seen = result.messages.clone();
    seen.sort();
    seen.dedup();
    assert_eq!(seen.len(), result.messages.len());
    assert_eq!(result.first_message_past_deletion_range, Some(10_000 - 14 * 24));
    for id in &result.messages {
        let age_hours = 10_000 - id;
        assert!(age_hours >= 24 && age_hours < 14 * 24);
    }
}

#[test]
fn a_history_that_repeats_a_message_repeats_the_candidate() {
    let history = vec![aged(5, 2 * DAY), aged(5, 2 * DAY)];
    assert_eq!(select(&history, 24).messages, vec![5, 5]);
}

#[test]
fn the_selector_says_when_to_stop_reading() {
    let mut selector = MessageSelector::new(TimeDelta::hours(24), asked_at());
    assert!(selector.observe(&aged(5, HOUR)));
    assert!(selector.observe(&unreadable()));
    assert!(selector.observe(&aged(4, 2 * DAY)));
    assert!(!selector.observe(&aged(3, 14 * DAY)));
    assert!(!selector.observe(&aged(2, 2 * DAY)));
    assert!(!selector.observe(&aged(1, 15 * DAY)));
    let result = selector.finish();
    assert_eq!(result, ScanResult { messages: vec![4], first_message_past_deletion_range: Some(3) });
}

#[test]
fn the_selector_and_the_scan_of_the_whole_history_agree() {
    let history = vec![
        aged(9, HOUR),
        aged(8, 30 * HOUR),
        unreadable(),
        aged(7, 5 * DAY),
        aged(6, 14 * DAY + 1),
        aged(5, 6 * DAY),
    ];
    let mut selector = MessageSelector::new(TimeDelta::hours(24), asked_at());
    for item in &history {
        if !selector.observe(item) {
            break;
        }
    }
    assert_eq!(selector.finish(), select(&history, 24));
}
