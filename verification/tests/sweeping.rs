use purge_scheduler::batching::DeleteChunkError;
use purge_scheduler::message_deletion::{delete_messages_according_to_schedule, delete_old_messages_from_channel};
use purge_scheduler::message_deletion::{ChannelSweep, SweepAction, SweepEvent, SweepOrder, SweepReport};
use purge_scheduler::message_deletion::{Tick, TickAction, TickEvent};
use purge_scheduler::notice::Notice;
use purge_scheduler::persistence::{ChannelSchedule, Persistence, PersistenceError};
use purge_scheduler::selection::{HistoryItem, HistoryMessage, HistoryReadError};
use purge_scheduler::time::{TimeDelta, Timestamp};

const HOUR: i64 = 3_600_000_000;
const DAY: i64 = 24 * HOUR;
const NOW: i64 = 1_700_000_000_000_000;

fn aged(id: u64, age: i64) -> HistoryItem {
    Ok(HistoryMessage { id, timestamp: Timestamp { micros: NOW - age } })
}

fn sweep(verbose: bool) -> ChannelSweep {
    ChannelSweep::new(7, 10, TimeDelta::hours(24), Some(Timestamp { micros: NOW }), verbose)
}

/// What a channel does when it is swept: it yields its history and answers the
/// requests, failing those whose numbers are given.
struct Channel {
    history: Vec<HistoryItem>,
    read: usize,
    failing: Vec<usize>,
    requests: Vec<Vec<u64>>,
    posted: Vec<String>,
}

impl Channel {
    fn new(history: Vec<HistoryItem>, failing: Vec<usize>) -> Channel {
        Channel { history, read: 0, failing, requests: Vec::new(), posted: Vec::new() }
    }

    fn run(&mut self, sweep: ChannelSweep) -> SweepReport {
        let mut sweep = sweep;
        let mut action = sweep.pending_action();
        let mut steps = 0;
        loop {
            steps += 1;
            assert!(steps < 10_000);
            let event = match action {
                SweepAction::ReadHistory => {
                    if self.read < self.history.len() {
                        self.read += 1;
                        SweepEvent::History(self.history[self.read - 1])
                    } else {
                        SweepEvent::HistoryExhausted
                    }
                }
                SweepAction::DeleteChunk(ids) => {
                    let number = self.requests.len();
                    self.requests.push(ids);
                    if self.failing.contains(&number) {
                        SweepEvent::ChunkAnswered(Err(DeleteChunkError::MissingPermission))
                    } else {
                        SweepEvent::ChunkAnswered(Ok(()))
                    }
                }
                SweepAction::Announce(notice) => {
                    self.posted.push(notice.text());
                    SweepEvent::Announced
                }
                SweepAction::Finished => break,
            };
            let next = delete_old_messages_from_channel(sweep, event);
            sweep = next.0;
            action = next.1;
        }
        assert!(sweep.is_finished());
        sweep.report()
    }
}

#[test]
fn a_sweep_begins_by_reading() {
    let sweep = sweep(true);
    assert_eq!(sweep.pending_action(), SweepAction::ReadHistory);
    assert!(!sweep.is_finished());
    assert_eq!(sweep.report(), SweepReport { deleted_count: 0, failed_chunks: 0, truncation_marker: None });
}

#[test]
fn a_sweep_of_an_empty_channel_does_nothing() {
    let mut channel = Channel::new(vec![], vec![]);
    let report = channel.run(sweep(true));
    assert_eq!(report, SweepReport { deleted_count: 0, failed_chunks: 0, truncation_marker: None });
    assert!(channel.requests.is_empty());
    assert!(channel.posted.is_empty());
}

#[test]
fn a_verbose_sweep_deletes_and_posts_the_count() {
    let history = vec![aged(5, HOUR), aged(4, 2 * DAY), aged(3, 3 * DAY)];
    let mut channel = Channel::new(history, vec![]);
    let report = channel.run(sweep(true));
    assert_eq!(report, SweepReport { deleted_count: 2, failed_chunks: 0, truncation_marker: None });
    assert_eq!(channel.requests, vec![vec![4, 3]]);
    assert_eq!(channel.posted, vec![String::from("Deleted 2 messages")]);
}

#[test]
fn a_quiet_sweep_deletes_and_posts_nothing() {
    let history = vec![aged(5, HOUR), aged(4, 2 * DAY), aged(3, 3 * DAY)];
    let mut channel = Channel::new(history, vec![]);
    let report = channel.run(sweep(false));
    assert_eq!(report.deleted_count, 2);
    assert!(channel.posted.is_empty());
}

#[test]
fn a_sweep_that_meets_the_ceiling_stops_reading_and_posts_the_pointer() {
    let history = vec![aged(5, 2 * DAY), aged(4, 14 * DAY), aged(3, 3 * DAY), aged(2, 20 * DAY)];
    let mut channel = Channel::new(history, vec![]);
    let report = channel.run(sweep(true));
    assert_eq!(report, SweepReport { deleted_count: 1, failed_chunks: 0, truncation_marker: Some(4) });
    assert_eq!(channel.read, 2);
    assert_eq!(channel.requests, vec![vec![5]]);
    assert_eq!(
        channel.posted,
        vec![
            String::from("Deleted 1 messages"),
            String::from(
                "Found messages that are too old for deletion.\nAnything past this [message](https://discord.com/channels/7/10/4) needs to be deleted manually."
            ),
        ]
    );
}

#[test]
fn a_quiet_sweep_still_posts_the_pointer() {
    let history = vec![aged(5, 2 * DAY), aged(4, 15 * DAY)];
    let mut channel = Channel::new(history, vec![]);
    let report = channel.run(sweep(false));
    assert_eq!(report.truncation_marker, Some(4));
    assert_eq!(channel.posted.len(), 1);
    assert!(channel.posted[0].starts_with("Found messages that are too old for deletion."));
}

#[test]
fn a_verbose_sweep_that_deleted_nothing_posts_no_count() {
    let history = vec![aged(5, HOUR), aged(4, 15 * DAY)];
    let mut channel = Channel::new(history, vec![]);
    let report = channel.run(sweep(true));
    assert_eq!(report, SweepReport { deleted_count: 0, failed_chunks: 0, truncation_marker: Some(4) });
    assert!(channel.requests.is_empty());
    assert_eq!(channel.posted.len(), 1);
}

#[test]
fn a_sweep_goes_on_after_a_failed_chunk() {
    let mut history: Vec<HistoryItem> = Vec::new();
    for n in 0..250u64 {
        history.push(aged(1000 - n, 2 * DAY + n as i64));
    }
    let mut channel = Channel::new(history, vec![0, 2]);
    let report = channel.run(sweep(true));
    assert_eq!(channel.requests.len(), 3);
    assert_eq!(channel.requests[0].len(), 100);
    assert_eq!(channel.requests[2].len(), 50);
    assert_eq!(report, SweepReport { deleted_count: 100, failed_chunks: 2, truncation_marker: None });
    assert_eq!(channel.posted, vec![String::from("Deleted 100 messages")]);
}

#[test]
fn a_sweep_skips_unreadable_pages() {
    let history = vec![Err(HistoryReadError {}), aged(4, 2 * DAY), Err(HistoryReadError {}), aged(3, 3 * DAY)];
    let mut channel = Channel::new(history, vec![]);
    let report = channel.run(sweep(false));
    assert_eq!(report.deleted_count, 2);
    assert_eq!(channel.requests, vec![vec![4, 3]]);
}

#[test]
fn an_event_that_answers_nothing_changes_nothing() {
    let (sweep, action) = delete_old_messages_from_channel(sweep(true), SweepEvent::Announced);
    assert_eq!(action, SweepAction::ReadHistory);
    let (sweep, action) = delete_old_messages_from_channel(sweep, SweepEvent::ChunkAnswered(Ok(())));
    assert_eq!(action, SweepAction::ReadHistory);
    let (sweep, _) = delete_old_messages_from_channel(sweep, SweepEvent::History(aged(4, 2 * DAY)));
    let (sweep, action) = delete_old_messages_from_channel(sweep, SweepEvent::HistoryExhausted);
    assert_eq!(action, SweepAction::DeleteChunk(vec![4]));
    let (sweep, action) = delete_old_messages_from_channel(sweep, SweepEvent::History(aged(3, 2 * DAY)));
    assert_eq!(action, SweepAction::DeleteChunk(vec![4]));
    let (sweep, action) = delete_old_messages_from_channel(sweep, SweepEvent::Announced);
    assert_eq!(action, SweepAction::DeleteChunk(vec![4]));
    assert_eq!(sweep.report().deleted_count, 0);
    let (sweep, action) = delete_old_messages_from_channel(sweep, SweepEvent::ChunkAnswered(Ok(())));
    assert_eq!(action, SweepAction::Announce(Notice::Deleted { count: 1 }));
    let (sweep, action) = delete_old_messages_from_channel(sweep, SweepEvent::HistoryExhausted);
    assert_eq!(action, SweepAction::Announce(Notice::Deleted { count: 1 }));
    let (sweep, action) = delete_old_messages_from_channel(sweep, SweepEvent::Announced);
    assert_eq!(action, SweepAction::Finished);
    let (sweep, action) = delete_old_messages_from_channel(sweep, SweepEvent::Announced);
    assert_eq!(action, SweepAction::Finished);
    assert_eq!(sweep.report(), SweepReport { deleted_count: 1, failed_chunks: 0, truncation_marker: None });
}

#[test]
fn a_sweep_without_a_reference_time_reads_the_clock() {
    let sweep = ChannelSweep::new(7, 10, TimeDelta::hours(1), None, false);
    let old = Ok(HistoryMessage { id: 3, timestamp: Timestamp { micros: 1_600_000_000_000_000 } });
    let (sweep, action) = delete_old_messages_from_channel(sweep, SweepEvent::History(old));
    assert_eq!(action, SweepAction::Announce(Notice::TooOldToDelete { guild_id: 7, channel_id: 10, message_id: 3 }));
    assert_eq!(sweep.report().truncation_marker, Some(3));
}

#[test]
fn a_sweep_is_made_from_its_order() {
    let order = SweepOrder {
        guild_id: 7,
        channel_id: 10,
        max_message_age: TimeDelta::hours(24),
        asked_at: Timestamp { micros: NOW },
        verbose: true,
    };
    let history = vec![aged(5, HOUR), aged(4, 2 * DAY)];
    let mut channel = Channel::new(history, vec![]);
    let report = channel.run(ChannelSweep::from_order(order));
    assert_eq!(report.deleted_count, 1);
    assert_eq!(channel.posted, vec![String::from("Deleted 1 messages")]);
}

fn schedule(channel_id: u64, hours: u64) -> ChannelSchedule {
    ChannelSchedule { guild_id: 7, channel_id, scheduled_by_user_id: 1, max_message_age_hours: hours }
}

fn order(channel_id: u64, hours: u64) -> TickAction {
    TickAction::SweepChannel(SweepOrder {
        guild_id: 7,
        channel_id,
        max_message_age: TimeDelta { micros: hours as i128 * 3_600_000_000 },
        asked_at: Timestamp { micros: NOW },
        verbose: false,
    })
}

#[test]
fn a_tick_sweeps_the_schedules_of_its_snapshot_in_order() {
    let listed = vec![schedule(10, 24), schedule(11, 48), schedule(12, 1)];
    let tick = Tick::new(Some(Timestamp { micros: NOW }), Ok(listed.clone()));
    assert_eq!(tick.schedules, listed);
    assert_eq!(tick.skipped, None);
    assert_eq!(tick.pending_action(), order(10, 24));
    let report = SweepReport { deleted_count: 3, failed_chunks: 0, truncation_marker: None };
    let (tick, action) = delete_messages_according_to_schedule(tick, TickEvent::ChannelSwept(report));
    assert_eq!(action, order(11, 48));
    let (tick, action) = delete_messages_according_to_schedule(tick, TickEvent::ChannelSwept(report));
    assert_eq!(action, order(12, 1));
    let (tick, action) = delete_messages_according_to_schedule(tick, TickEvent::ChannelSwept(report));
    assert_eq!(action, TickAction::Finished);
    assert_eq!(tick.outcomes, vec![Some(report), Some(report), Some(report)]);
    assert_eq!(tick.schedules, listed);
}

#[test]
fn a_failed_channel_does_not_stop_the_tick() {
    let listed = vec![schedule(10, 24), schedule(11, 48)];
    let tick = Tick::new(Some(Timestamp { micros: NOW }), Ok(listed));
    let (tick, action) = delete_messages_according_to_schedule(tick, TickEvent::ChannelFailed);
    assert_eq!(action, order(11, 48));
    let report = SweepReport { deleted_count: 120, failed_chunks: 1, truncation_marker: Some(9) };
    let (tick, action) = delete_messages_according_to_schedule(tick, TickEvent::ChannelSwept(report));
    assert_eq!(action, TickAction::Finished);
    assert_eq!(tick.outcomes, vec![None, Some(report)]);
}

#[test]
fn a_finished_tick_takes_nothing_more_in() {
    let tick = Tick::new(Some(Timestamp { micros: NOW }), Ok(vec![schedule(10, 24)]));
    let (tick, _) = delete_messages_according_to_schedule(tick, TickEvent::ChannelFailed);
    let (tick, action) = delete_messages_according_to_schedule(tick, TickEvent::ChannelFailed);
    assert_eq!(action, TickAction::Finished);
    assert_eq!(tick.outcomes, vec![None]);
}

#[test]
fn a_tick_without_schedules_is_finished_at_once() {
    let tick = Tick::new(Some(Timestamp { micros: NOW }), Ok(vec![]));
    assert_eq!(tick.pending_action(), TickAction::Finished);
}

#[test]
fn a_tick_whose_listing_failed_sweeps_nothing() {
    let tick = Tick::new(Some(Timestamp { micros: NOW }), Err(PersistenceError::Unreachable));
    assert_eq!(tick.pending_action(), TickAction::Finished);
    assert_eq!(tick.skipped, Some(PersistenceError::Unreachable));
    assert!(tick.schedules.is_empty());
    let failed = Tick::new(None, Err(PersistenceError::QueryFailed));
    assert_eq!(failed.skipped, Some(PersistenceError::QueryFailed));
    assert!(failed.asked_at.micros > 1_600_000_000_000_000);
}

#[test]
fn a_schedule_set_during_a_tick_waits_for_the_next() {
    let mut store = Persistence { database_url: String::new(), records: Vec::new() };
    store.set_schedule_for_channel(&schedule(10, 24), Some(Timestamp { micros: 100 }));
    let tick = Tick::new(Some(Timestamp { micros: NOW }), Ok(store.get_active_schedules()));
    store.set_schedule_for_channel(&schedule(11, 48), Some(Timestamp { micros: 200 }));
    assert_eq!(tick.pending_action(), order(10, 24));
    let (tick, action) = delete_messages_according_to_schedule(tick, TickEvent::ChannelFailed);
    assert_eq!(action, TickAction::Finished);
    assert_eq!(tick.schedules, vec![schedule(10, 24)]);
    let next = Tick::new(Some(Timestamp { micros: NOW + 1 }), Ok(store.get_active_schedules()));
    assert_eq!(next.schedules, vec![schedule(10, 24), schedule(11, 48)]);
}
