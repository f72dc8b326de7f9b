//! Sweeping channels: the scan of a channel's history, the deletion of what the
//! scan selected and the notices that follow, step by step.
//!
//! Reading the history, deleting and posting are the caller's work. A sweep says
//! what to do next and is told what came of it; it never waits, and a failure
//! that it is told of does not stop it.

use crate::batching::lemma_every_chunk_is_requested;
use crate::batching::{after_outcomes, all_answered, answered_size, batching_of, chunk_at, chunk_count};
use crate::batching::{failures, recorded};
use crate::batching::{BatchDeleter, Batching, ChunkOutcome, DeleteChunkError, MAX_DELETION_COUNT};
use crate::notice::Notice;
use crate::persistence::{active_schedules, lemma_set_schedule_is_listed, with_schedule};
use crate::persistence::{ChannelSchedule, PersistenceError, ScheduleRecord};
use crate::selection::{advance, lemma_scan_push, scan};
use crate::selection::{HistoryItem, MessageSelector, Scan};
use crate::time::{span_of_hours, TimeDelta, Timestamp};
use vstd::prelude::*;

verus! {

/// Counts the bulk-delete requests that a list of messages takes.
pub fn delete_messages_test(messages_to_be_deleted: Vec<i32>) -> (deletion_calls_count: i32)
    requires
        chunk_count(messages_to_be_deleted@.len()) <= i32::MAX,
    ensures
        deletion_calls_count == chunk_count(messages_to_be_deleted@.len()),
{
    let len: usize = messages_to_be_deleted.len();
    let mut deletion_calls_count: i32 = 0;
    let mut start: usize = 0;
    while start < len
        invariant
            start <= len,
            len == messages_to_be_deleted@.len(),
            chunk_count(len as nat) <= i32::MAX,
            start < len ==> start == deletion_calls_count * MAX_DELETION_COUNT,
            start == len ==> deletion_calls_count == chunk_count(len as nat),
            0 <= deletion_calls_count,
        decreases len - start,
    {
        start = if len - start > MAX_DELETION_COUNT {
            start + MAX_DELETION_COUNT
        } else {
            len
        };
        deletion_calls_count = deletion_calls_count + 1;
    }
    deletion_calls_count
}

/// What a sweep is told: the answer to the action it asked for last.
#[derive(Clone, Copy, Debug, PartialEq, Eq)]
pub enum SweepEvent {
    /// The history source yielded its next item.
    History(HistoryItem),
    /// The history source has nothing more.
    HistoryExhausted,
    /// The bulk-delete request was answered.
    ChunkAnswered(ChunkOutcome),
    /// The notice was posted, or the attempt to post it was given up.
    Announced,
}

/// What a sweep asks its caller to do next.
#[derive(Debug, PartialEq, Eq)]
pub enum SweepAction {
    /// Read the next item of the channel's history and report it.
    ReadHistory,
    /// Make one bulk-delete request for these ids and report the answer.
    DeleteChunk(Vec<u64>),
    /// Post this notice to the channel and report back.
    Announce(Notice),
    /// Nothing: the sweep is over.
    Finished,
}

/// The mathematical content of a [`SweepAction`].
pub enum Request {
    ReadHistory,
    DeleteChunk(Seq<u64>),
    Announce(Notice),
    Finished,
}

impl View for SweepAction {
    type V = Request;

    open spec fn view(&self) -> Request {
        match self {
            SweepAction::ReadHistory => Request::ReadHistory,
            SweepAction::DeleteChunk(ids) => Request::DeleteChunk(ids@),
            SweepAction::Announce(notice) => Request::Announce(*notice),
            SweepAction::Finished => Request::Finished,
        }
    }
}

/// What a sweep came to.
#[derive(Clone, Copy, Debug, PartialEq, Eq)]
pub struct SweepReport {
    /// How many messages the requests that succeeded carried.
    pub deleted_count: usize,
    /// How many requests failed.
    pub failed_chunks: usize,
    /// The message at which the scan met the hard ceiling, if it did.
    pub truncation_marker: Option<u64>,
}

/// The part of its work that a sweep is at.
pub enum Stage {
    /// The history is being read.
    Scanning { scan: Scan },
    /// The selected messages are being deleted.
    Deleting { batching: Batching, marker: Option<u64> },
    /// The deletion is over; what is left is to post the notices that are due.
    Reporting {
        deleted: nat,
        failed: Seq<DeleteChunkError>,
        marker: Option<u64>,
        count_announced: bool,
        marker_announced: bool,
    },
}

/// The mathematical content of a [`ChannelSweep`].
pub struct Sweep {
    pub guild_id: u64,
    pub channel_id: u64,
    pub max_message_age: TimeDelta,
    pub asked_at: Timestamp,
    pub verbose: bool,
    pub stage: Stage,
}

/// What a sweep in the state `sweep` has come to so far.
pub open spec fn report_of(sweep: Sweep) -> SweepReport {
    match sweep.stage {
        Stage::Scanning { .. } => SweepReport { deleted_count: 0, failed_chunks: 0, truncation_marker: None },
        Stage::Deleting { batching, marker } => SweepReport {
            deleted_count: batching.deleted as usize,
            failed_chunks: batching.failed.len() as usize,
            truncation_marker: marker,
        },
        Stage::Reporting { deleted, failed, marker, .. } => SweepReport {
            deleted_count: deleted as usize,
            failed_chunks: failed.len() as usize,
            truncation_marker: marker,
        },
    }
}

/// The stage that follows a scan with the result `scan`. Where nothing was
/// selected no request is made.
pub open spec fn after_scan(scan: Scan) -> Stage {
    after_answer(batching_of(scan.messages), scan.marker)
}

/// The stage that a deletion in the state `batching` is at.
pub open spec fn after_answer(batching: Batching, marker: Option<u64>) -> Stage {
    if all_answered(batching) {
        Stage::Reporting {
            deleted: batching.deleted,
            failed: batching.failed,
            marker,
            count_announced: false,
            marker_announced: false,
        }
    } else {
        Stage::Deleting { batching, marker }
    }
}

/// A sweep that has not begun to read.
pub open spec fn sweep_start(
    guild_id: u64,
    channel_id: u64,
    max_message_age: TimeDelta,
    asked_at: Timestamp,
    verbose: bool,
) -> Sweep {
    Sweep {
        guild_id,
        channel_id,
        max_message_age,
        asked_at,
        verbose,
        stage: Stage::Scanning { scan: Scan { messages: Seq::empty(), marker: None } },
    }
}

/// Whether the count of deleted messages is still to be posted: only a verbose
/// sweep posts it, and only where something was deleted.
pub open spec fn count_is_due(sweep: Sweep) -> bool {
    sweep.stage matches Stage::Reporting { deleted, count_announced, .. } && sweep.verbose && deleted > 0
        && !count_announced
}

/// Whether the pointer to the truncation marker is still to be posted.
pub open spec fn marker_is_due(sweep: Sweep) -> bool {
    sweep.stage matches Stage::Reporting { marker, marker_announced, .. } && marker is Some
        && !marker_announced
}

/// What a sweep in the state `sweep` asks for.
pub open spec fn pending(sweep: Sweep) -> Request {
    match sweep.stage {
        Stage::Scanning { .. } => Request::ReadHistory,
        Stage::Deleting { batching, .. } => Request::DeleteChunk(
            chunk_at(batching.messages, batching.answered),
        ),
        Stage::Reporting { deleted, marker, .. } => {
            if count_is_due(sweep) {
                Request::Announce(Notice::Deleted { count: deleted as usize })
            } else if marker_is_due(sweep) {
                Request::Announce(
                    Notice::TooOldToDelete {
                        guild_id: sweep.guild_id,
                        channel_id: sweep.channel_id,
                        message_id: marker->Some_0,
                    },
                )
            } else {
                Request::Finished
            }
        },
    }
}

/// The stage of `sweep` after it was told `event`. An event that does not answer
/// what the sweep asked for changes nothing.
pub open spec fn next_stage(sweep: Sweep, event: SweepEvent) -> Stage {
    match (sweep.stage, event) {
        (Stage::Scanning { scan }, SweepEvent::History(item)) => {
            let seen = advance(scan, item, sweep.max_message_age, sweep.asked_at);
            if seen.marker is Some {
                after_scan(seen)
            } else {
                Stage::Scanning { scan: seen }
            }
        },
        (Stage::Scanning { scan }, SweepEvent::HistoryExhausted) => after_scan(scan),
        (Stage::Deleting { batching, marker }, SweepEvent::ChunkAnswered(outcome)) => after_answer(
            recorded(batching, outcome),
            marker,
        ),
        (
            Stage::Reporting { deleted, failed, marker, count_announced, marker_announced },
            SweepEvent::Announced,
        ) => {
            if count_is_due(sweep) {
                Stage::Reporting { deleted, failed, marker, count_announced: true, marker_announced }
            } else if marker_is_due(sweep) {
                Stage::Reporting { deleted, failed, marker, count_announced, marker_announced: true }
            } else {
                sweep.stage
            }
        },
        _ => sweep.stage,
    }
}

/// The state of `sweep` after it was told `event`.
pub open spec fn swept(sweep: Sweep, event: SweepEvent) -> Sweep {
    Sweep {
        guild_id: sweep.guild_id,
        channel_id: sweep.channel_id,
        max_message_age: sweep.max_message_age,
        asked_at: sweep.asked_at,
        verbose: sweep.verbose,
        stage: next_stage(sweep, event),
    }
}

/// The part of its work that a sweep is at, with what it works on there.
enum SweepStage {
    Scanning(MessageSelector),
    Deleting(BatchDeleter, Option<u64>),
    Reporting {
        deleted_count: usize,
        failed_chunks: Vec<DeleteChunkError>,
        marker: Option<u64>,
        count_announced: bool,
        marker_announced: bool,
    },
}

impl View for SweepStage {
    type V = Stage;

    closed spec fn view(&self) -> Stage {
        match self {
            SweepStage::Scanning(selector) => Stage::Scanning { scan: selector.result@ },
            SweepStage::Deleting(deleter, marker) => Stage::Deleting { batching: deleter@, marker: *marker },
            SweepStage::Reporting {
                deleted_count,
                failed_chunks,
                marker,
                count_announced,
                marker_announced,
            } => {
                Stage::Reporting {
                    deleted: *deleted_count as nat,
                    failed: failed_chunks@,
                    marker: *marker,
                    count_announced: *count_announced,
                    marker_announced: *marker_announced,
                }
            },
        }
    }
}

/// The sweep of one channel.
pub struct ChannelSweep {
    guild_id: u64,
    channel_id: u64,
    max_message_age: TimeDelta,
    asked_at: Timestamp,
    verbose: bool,
    stage: SweepStage,
}

impl View for ChannelSweep {
    type V = Sweep;

    closed spec fn view(&self) -> Sweep {
        Sweep {
            guild_id: self.guild_id,
            channel_id: self.channel_id,
            max_message_age: self.max_message_age,
            asked_at: self.asked_at,
            verbose: self.verbose,
            stage: self.stage@,
        }
    }
}

/// Moves on from a scan: to the deletion where something was selected, else to the notices.
fn stage_after_scan(selector: MessageSelector) -> (stage: SweepStage)
    ensures
        stage@ == after_scan(selector.result@),
        stage is Deleting ==> !all_answered(stage->Deleting_0@),
        !(stage is Scanning),
{
    let result = selector.finish();
    let marker = result.first_message_past_deletion_range;
    stage_after_answer(BatchDeleter::new(result.messages), marker)
}

/// Moves on from an answer: to the next request where a chunk is left, else to the notices.
fn stage_after_answer(deleter: BatchDeleter, marker: Option<u64>) -> (stage: SweepStage)
    ensures
        stage@ == after_answer(deleter@, marker),
        stage is Deleting ==> !all_answered(stage->Deleting_0@),
        !(stage is Scanning),
{
    if deleter.next_chunk().is_some() {
        SweepStage::Deleting(deleter, marker)
    } else {
        let report = deleter.finish();
        SweepStage::Reporting {
            deleted_count: report.deleted_count,
            failed_chunks: report.failed_chunks,
            marker,
            count_announced: false,
            marker_announced: false,
        }
    }
}

impl ChannelSweep {
    #[verifier::type_invariant]
    spec fn well_formed(self) -> bool {
        match self.stage {
            SweepStage::Scanning(selector) => {
                &&& selector.age_deletion_threshold == self.max_message_age
                &&& selector.asked_at == self.asked_at
            },
            SweepStage::Deleting(deleter, _) => !all_answered(deleter@),
            SweepStage::Reporting { .. } => true,
        }
    }

    /// A sweep of `channel_id` for messages that are at least `max_message_age`
    /// old at the reference time, which is `asked_at` where one is given and the
    /// clock's reading otherwise. A verbose sweep posts how many messages it deleted.
    pub fn new(
        guild_id: u64,
        channel_id: u64,
        max_message_age: TimeDelta,
        asked_at: Option<Timestamp>,
        verbose: bool,
    ) -> (sweep: ChannelSweep)
        ensures
            asked_at matches Some(fixed) ==> sweep@.asked_at == fixed,
            sweep@ == sweep_start(guild_id, channel_id, max_message_age, sweep@.asked_at, verbose),
    {
        let asked_at = Timestamp::or_now(asked_at);
        ChannelSweep {
            guild_id,
            channel_id,
            max_message_age,
            asked_at,
            verbose,
            stage: SweepStage::Scanning(MessageSelector::new(max_message_age, asked_at)),
        }
    }

    /// The sweep that `order` asks for.
    pub fn from_order(order: SweepOrder) -> (sweep: ChannelSweep)
        ensures
            sweep@ == sweep_start(
                order.guild_id,
                order.channel_id,
                order.max_message_age,
                order.asked_at,
                order.verbose,
            ),
    {
        ChannelSweep::new(
            order.guild_id,
            order.channel_id,
            order.max_message_age,
            Some(order.asked_at),
            order.verbose,
        )
    }

    /// The guild of the channel that is swept.
    pub fn guild_id(&self) -> (guild_id: u64)
        ensures
            guild_id == self@.guild_id,
    {
        self.guild_id
    }

    /// The channel that is swept.
    pub fn channel_id(&self) -> (channel_id: u64)
        ensures
            channel_id == self@.channel_id,
    {
        self.channel_id
    }

    /// What the sweep asks its caller to do next.
    pub fn pending_action(&self) -> (action: SweepAction)
        ensures
            action@ == pending(self@),
    {
        proof {
            use_type_invariant(self);
        }
        match &self.stage {
            SweepStage::Scanning(_) => SweepAction::ReadHistory,
            SweepStage::Deleting(deleter, _) => {
                match deleter.next_chunk() {
                    Some(chunk) => SweepAction::DeleteChunk(chunk),
                    None => SweepAction::Finished,
                }
            },
            SweepStage::Reporting { deleted_count, marker, count_announced, marker_announced, .. } => {
                if self.verbose && *deleted_count > 0 && !*count_announced {
                    SweepAction::Announce(Notice::Deleted { count: *deleted_count })
                } else {
                    match marker {
                        Some(message_id) => if !*marker_announced {
                            SweepAction::Announce(
                                Notice::TooOldToDelete {
                                    guild_id: self.guild_id,
                                    channel_id: self.channel_id,
                                    message_id: *message_id,
                                },
                            )
                        } else {
                            SweepAction::Finished
                        },
                        None => SweepAction::Finished,
                    }
                }
            },
        }
    }

    /// What the sweep has come to so far; once it is finished, what it came to.
    pub fn report(&self) -> (report: SweepReport)
        ensures
            report == report_of(self@),
    {
        match &self.stage {
            SweepStage::Scanning(_) => SweepReport {
                deleted_count: 0,
                failed_chunks: 0,
                truncation_marker: None,
            },
            SweepStage::Deleting(deleter, marker) => SweepReport {
                deleted_count: deleter.deleted_count(),
                failed_chunks: deleter.failed_count(),
                truncation_marker: *marker,
            },
            SweepStage::Reporting { deleted_count, failed_chunks, marker, .. } => SweepReport {
                deleted_count: *deleted_count,
                failed_chunks: failed_chunks.len(),
                truncation_marker: *marker,
            },
        }
    }

    /// Whether nothing is left to do.
    pub fn is_finished(&self) -> (finished: bool)
        ensures
            finished == (pending(self@) is Finished),
    {
        proof {
            use_type_invariant(self);
        }
        match &self.stage {
            SweepStage::Scanning(_) => false,
            SweepStage::Deleting(_, _) => false,
            SweepStage::Reporting { deleted_count, marker, count_announced, marker_announced, .. } => {
                !(self.verbose && *deleted_count > 0 && !*count_announced) && !(marker.is_some()
                    && !*marker_announced)
            },
        }
    }
}

/// Takes one step of the sweep of a channel: `sweep` is told `event`, the answer
/// to what it asked for last, and hands back its next state together with what
/// it asks for now.
///
/// A sweep first reads the history until it is exhausted or a message has
/// reached the hard ceiling, then asks for one bulk-delete request per chunk of
/// the selected ids, whatever the answers are, then, if it is verbose and
/// deleted something, posts the count, and at last, if the scan met the hard
/// ceiling, posts a pointer to the message where it did.
pub fn delete_old_messages_from_channel(sweep: ChannelSweep, event: SweepEvent) -> (next: (
    ChannelSweep,
    SweepAction,
))
    ensures
        next.0@ == swept(sweep@, event),
        next.1@ == pending(next.0@),
{
    proof {
        use_type_invariant(&sweep);
    }
    let ChannelSweep { guild_id, channel_id, max_message_age, asked_at, verbose, stage } = sweep;
    let stage = match stage {
        SweepStage::Scanning(selector) => {
            let mut selector = selector;
            match event {
                SweepEvent::History(item) => {
                    if selector.observe(&item) {
                        SweepStage::Scanning(selector)
                    } else {
                        stage_after_scan(selector)
                    }
                },
                SweepEvent::HistoryExhausted => stage_after_scan(selector),
                _ => SweepStage::Scanning(selector),
            }
        },
        SweepStage::Deleting(deleter, marker) => {
            match event {
                SweepEvent::ChunkAnswered(outcome) => stage_after_answer(deleter.record(outcome), marker),
                _ => SweepStage::Deleting(deleter, marker),
            }
        },
        SweepStage::Reporting {
            deleted_count,
            failed_chunks,
            marker,
            count_announced,
            marker_announced,
        } => {
            match event {
                SweepEvent::Announced => {
                    if verbose && deleted_count > 0 && !count_announced {
                        SweepStage::Reporting {
                            deleted_count,
                            failed_chunks,
                            marker,
                            count_announced: true,
                            marker_announced,
                        }
                    } else {
                        SweepStage::Reporting {
                            deleted_count,
                            failed_chunks,
                            marker,
                            count_announced,
                            marker_announced: marker_announced || marker.is_some(),
                        }
                    }
                },
                _ => SweepStage::Reporting {
                    deleted_count,
                    failed_chunks,
                    marker,
                    count_announced,
                    marker_announced,
                },
            }
        },
    };
    let next = ChannelSweep { guild_id, channel_id, max_message_age, asked_at, verbose, stage };
    let action = next.pending_action();
    (next, action)
}

/// The order to sweep one channel.
#[derive(Clone, Copy, Debug, PartialEq, Eq)]
pub struct SweepOrder {
    pub guild_id: u64,
    pub channel_id: u64,
    pub max_message_age: TimeDelta,
    pub asked_at: Timestamp,
    pub verbose: bool,
}

/// What a tick is told: what became of the sweep it ordered last.
#[derive(Clone, Copy, Debug, PartialEq, Eq)]
pub enum TickEvent {
    /// The sweep ran to its end, with this result.
    ChannelSwept(SweepReport),
    /// The sweep could not be run or was given up.
    ChannelFailed,
}

/// What a tick asks its caller to do next.
#[derive(Clone, Copy, Debug, PartialEq, Eq)]
pub enum TickAction {
    /// Sweep this channel and report what became of it.
    SweepChannel(SweepOrder),
    /// Nothing: every schedule of the snapshot has had its turn.
    Finished,
}

/// One run of the scheduler over the schedules that were active when it began.
#[derive(Debug, PartialEq, Eq)]
pub struct Tick {
    /// The reference time of every sweep of the tick.
    pub asked_at: Timestamp,
    /// The snapshot: the schedules that the store listed when the tick began.
    pub schedules: Vec<ChannelSchedule>,
    /// Why there is no snapshot, where the store could not be listed.
    pub skipped: Option<PersistenceError>,
    /// What became of the sweeps so far, in the order of the snapshot; a sweep
    /// that failed has no report.
    pub outcomes: Vec<Option<SweepReport>>,
}

/// The mathematical content of a [`Tick`].
pub struct TickState {
    pub asked_at: Timestamp,
    pub schedules: Seq<ChannelSchedule>,
    pub skipped: Option<PersistenceError>,
    pub outcomes: Seq<Option<SweepReport>>,
}

impl View for Tick {
    type V = TickState;

    open spec fn view(&self) -> TickState {
        TickState {
            asked_at: self.asked_at,
            schedules: self.schedules@,
            skipped: self.skipped,
            outcomes: self.outcomes@,
        }
    }
}

/// A tick at its beginning, with what the store listed.
pub open spec fn tick_start(
    asked_at: Timestamp,
    listed: Result<Seq<ChannelSchedule>, PersistenceError>,
) -> TickState {
    match listed {
        Ok(schedules) => TickState { asked_at, schedules, skipped: None, outcomes: Seq::empty() },
        Err(error) => TickState {
            asked_at,
            schedules: Seq::empty(),
            skipped: Some(error),
            outcomes: Seq::empty(),
        },
    }
}

/// The order that a tick at `asked_at` gives for `schedule`: a quiet sweep for
/// messages that are at least the schedule's number of hours old.
pub open spec fn order_for(schedule: ChannelSchedule, asked_at: Timestamp) -> SweepOrder {
    SweepOrder {
        guild_id: schedule.guild_id,
        channel_id: schedule.channel_id,
        max_message_age: span_of_hours(schedule.max_message_age_hours),
        asked_at,
        verbose: false,
    }
}

/// What a tick in the state `tick` asks for: the sweep of the first schedule of
/// the snapshot that has not had its turn.
pub open spec fn tick_pending(tick: TickState) -> TickAction {
    if tick.outcomes.len() < tick.schedules.len() {
        TickAction::SweepChannel(order_for(tick.schedules[tick.outcomes.len() as int], tick.asked_at))
    } else {
        TickAction::Finished
    }
}

/// The state of `tick` after it was told `event`. Whatever became of the sweep,
/// the next schedule is up; a tick that is finished takes nothing more in.
pub open spec fn ticked(tick: TickState, event: TickEvent) -> TickState {
    if tick.outcomes.len() < tick.schedules.len() {
        TickState {
            asked_at: tick.asked_at,
            schedules: tick.schedules,
            skipped: tick.skipped,
            outcomes: tick.outcomes.push(
                match event {
                    TickEvent::ChannelSwept(report) => Some(report),
                    TickEvent::ChannelFailed => None,
                },
            ),
        }
    } else {
        tick
    }
}

impl Tick {
    /// Begins a tick with what the store listed at this moment. The reference
    /// time is `asked_at` where one is given, else the clock's reading. Where the
    /// store could not be listed the tick has nothing to sweep and keeps the reason.
    pub fn new(
        asked_at: Option<Timestamp>,
        listed: Result<Vec<ChannelSchedule>, PersistenceError>,
    ) -> (tick: Tick)
        ensures
            asked_at matches Some(fixed) ==> tick.asked_at == fixed,
            tick@ == tick_start(
                tick.asked_at,
                match listed {
                    Ok(schedules) => Ok(schedules@),
                    Err(error) => Err(error),
                },
            ),
    {
        let asked_at = Timestamp::or_now(asked_at);
        match listed {
            Ok(schedules) => Tick { asked_at, schedules, skipped: None, outcomes: Vec::new() },
            Err(error) => Tick {
                asked_at,
                schedules: Vec::new(),
                skipped: Some(error),
                outcomes: Vec::new(),
            },
        }
    }

    /// What the tick asks its caller to do next.
    pub fn pending_action(&self) -> (action: TickAction)
        ensures
            action == tick_pending(self@),
    {
        let done: usize = self.outcomes.len();
        if done < self.schedules.len() {
            let schedule = self.schedules[done];
            TickAction::SweepChannel(
                SweepOrder {
                    guild_id: schedule.guild_id,
                    channel_id: schedule.channel_id,
                    max_message_age: TimeDelta::hours(schedule.max_message_age_hours),
                    asked_at: self.asked_at,
                    verbose: false,
                },
            )
        } else {
            TickAction::Finished
        }
    }
}

/// Takes one step of a tick: `tick` is told what became of the sweep it ordered
/// last and hands back its next state together with what it asks for now.
///
/// A tick orders the sweep of each schedule of its snapshot, one after the
/// other in the order of the listing. A sweep that failed is put on record as
/// such and the next schedule has its turn all the same.
pub fn delete_messages_according_to_schedule(tick: Tick, event: TickEvent) -> (next: (Tick, TickAction))
    ensures
        next.0@ == ticked(tick@, event),
        next.1 == tick_pending(next.0@),
{
    let mut tick = tick;
    if tick.outcomes.len() < tick.schedules.len() {
        tick.outcomes.push(
            match event {
                TickEvent::ChannelSwept(report) => Some(report),
                TickEvent::ChannelFailed => None,
            },
        );
    }
    let action = tick.pending_action();
    (tick, action)
}

/// The state of `sweep` after it was told `events`, one after the other.
pub open spec fn swept_all(sweep: Sweep, events: Seq<SweepEvent>) -> Sweep
    decreases events.len(),
{
    if events.len() == 0 {
        sweep
    } else {
        swept(swept_all(sweep, events.drop_last()), events.last())
    }
}

/// The events by which a sweep is shown `items`, one after the other.
pub open spec fn history_events(items: Seq<HistoryItem>) -> Seq<SweepEvent> {
    items.map_values(|item: HistoryItem| SweepEvent::History(item))
}

/// The events by which a sweep is told `outcomes`, one after the other.
pub open spec fn answer_events(outcomes: Seq<ChunkOutcome>) -> Seq<SweepEvent> {
    outcomes.map_values(|outcome: ChunkOutcome| SweepEvent::ChunkAnswered(outcome))
}

/// A sweep that is shown a history selects what a scan of that history selects.
/// While the scan has not met the hard ceiling the sweep reads on; from the item
/// at which it has, and at the latest when the history is exhausted, the sweep
/// is past reading and deletes what the scan selected.
pub proof fn lemma_sweep_scans_history(start: Sweep, items: Seq<HistoryItem>)
    requires
        start == sweep_start(
            start.guild_id,
            start.channel_id,
            start.max_message_age,
            start.asked_at,
            start.verbose,
        ),
    ensures
        ({
            let read = swept_all(start, history_events(items));
            let result = scan(items, start.max_message_age, start.asked_at);
            &&& read == Sweep { stage: read.stage, ..start }
            &&& result.marker is None ==> read.stage == Stage::Scanning { scan: result }
            &&& result.marker is Some ==> read.stage == after_scan(result)
            &&& swept(read, SweepEvent::HistoryExhausted).stage == after_scan(result)
        }),
    decreases items.len(),
{
    if items.len() > 0 {
        let shorter = items.drop_last();
        lemma_sweep_scans_history(start, shorter);
        lemma_scan_push(shorter, items.last(), start.max_message_age, start.asked_at);
        assert(shorter.push(items.last()) == items);
        assert(history_events(items).drop_last() == history_events(shorter));
    }
}

/// A sweep makes one request for each chunk of what was selected, whatever the
/// answers are, and what it has deleted and what has failed when it is through
/// is what the answers say.
pub proof fn lemma_sweep_deletes_chunks(
    sweep: Sweep,
    messages: Seq<u64>,
    marker: Option<u64>,
    outcomes: Seq<ChunkOutcome>,
)
    requires
        sweep.stage == after_scan(Scan { messages, marker }),
        outcomes.len() <= chunk_count(messages.len()),
    ensures
        ({
            let answered = swept_all(sweep, answer_events(outcomes));
            &&& answered == Sweep { stage: answered.stage, ..sweep }
            &&& answered.stage == after_answer(after_outcomes(messages, outcomes), marker)
            &&& outcomes.len() < chunk_count(messages.len()) ==> pending(answered) == Request::DeleteChunk(
                chunk_at(messages, outcomes.len()),
            )
            &&& outcomes.len() == chunk_count(messages.len()) ==> answered.stage is Reporting
        }),
    decreases outcomes.len(),
{
    lemma_every_chunk_is_requested(messages, outcomes);
    if outcomes.len() > 0 {
        let shorter = outcomes.drop_last();
        lemma_sweep_deletes_chunks(sweep, messages, marker, shorter);
        lemma_every_chunk_is_requested(messages, shorter);
        assert(answer_events(outcomes).drop_last() == answer_events(shorter));
    }
}

/// Telling a sweep two runs of events on end is telling it the first run and then the second.
pub proof fn lemma_swept_all_joins(sweep: Sweep, first: Seq<SweepEvent>, second: Seq<SweepEvent>)
    ensures
        swept_all(sweep, first + second) == swept_all(swept_all(sweep, first), second),
    decreases second.len(),
{
    if second.len() == 0 {
        assert(first + second == first);
    } else {
        lemma_swept_all_joins(sweep, first, second.drop_last());
        assert((first + second).drop_last() == first + second.drop_last());
    }
}

/// A sweep that read the history `items` to its end and had its requests
/// answered with `outcomes` has deleted the messages of the chunks that
/// succeeded, out of those that a scan of `items` selects, has the failures of
/// the others on record, and keeps the truncation marker of the scan. What is
/// left to it is to post its notices.
pub proof fn lemma_sweep_comes_to(start: Sweep, items: Seq<HistoryItem>, outcomes: Seq<ChunkOutcome>)
    requires
        start == sweep_start(
            start.guild_id,
            start.channel_id,
            start.max_message_age,
            start.asked_at,
            start.verbose,
        ),
        outcomes.len() == chunk_count(scan(items, start.max_message_age, start.asked_at).messages.len()),
    ensures
        ({
            let selected = scan(items, start.max_message_age, start.asked_at);
            let events = history_events(items).push(SweepEvent::HistoryExhausted) + answer_events(outcomes);
            let end = swept_all(start, events);
            &&& end == Sweep { stage: end.stage, ..start }
            &&& end.stage == Stage::Reporting {
                deleted: answered_size(selected.messages, outcomes, true),
                failed: failures(outcomes),
                marker: selected.marker,
                count_announced: false,
                marker_announced: false,
            }
        }),
{
    let selected = scan(items, start.max_message_age, start.asked_at);
    let reading = history_events(items).push(SweepEvent::HistoryExhausted);
    lemma_sweep_scans_history(start, items);
    assert(reading.drop_last() == history_events(items));
    let read = swept_all(start, reading);
    assert(read.stage == after_scan(selected));
    lemma_sweep_deletes_chunks(read, selected.messages, selected.marker, outcomes);
    lemma_every_chunk_is_requested(selected.messages, outcomes);
    lemma_swept_all_joins(start, reading, answer_events(outcomes));
}

/// When the deletion is over a verbose sweep that deleted something posts the
/// count; after that, or at once where no count is due, a sweep whose scan met
/// the hard ceiling posts the pointer to the message where it did; then the
/// sweep is finished. The notices change nothing in what the sweep reports.
pub proof fn lemma_sweep_posts_notices(sweep: Sweep)
    requires
        sweep.stage matches Stage::Reporting { count_announced, marker_announced, .. } && !count_announced
            && !marker_announced,
    ensures
        ({
            let counted = sweep.verbose && sweep.stage->Reporting_deleted > 0;
            let marker = sweep.stage->Reporting_marker;
            let pointer = Request::Announce(
                Notice::TooOldToDelete {
                    guild_id: sweep.guild_id,
                    channel_id: sweep.channel_id,
                    message_id: marker->Some_0,
                },
            );
            let after_count = if counted {
                swept(sweep, SweepEvent::Announced)
            } else {
                sweep
            };
            let after_pointer = if marker is Some {
                swept(after_count, SweepEvent::Announced)
            } else {
                after_count
            };
            &&& counted ==> pending(sweep) == Request::Announce(
                Notice::Deleted { count: sweep.stage->Reporting_deleted as usize },
            )
            &&& marker is Some ==> pending(after_count) == pointer
            &&& pending(after_pointer) is Finished
            &&& report_of(after_pointer) == report_of(sweep)
        }),
{
}

/// The state of `tick` after it was told `events`, one after the other.
pub open spec fn ticked_all(tick: TickState, events: Seq<TickEvent>) -> TickState
    decreases events.len(),
{
    if events.len() == 0 {
        tick
    } else {
        ticked(ticked_all(tick, events.drop_last()), events.last())
    }
}

/// A tick works through its snapshot and nothing else: the snapshot and the
/// reference time stay what they were when the tick began, each event, a failed
/// sweep as much as a finished one, gives the next schedule its turn, and the
/// tick is finished when every schedule of the snapshot has had one.
pub proof fn lemma_tick_visits_every_schedule(tick: TickState, events: Seq<TickEvent>)
    requires
        tick.outcomes.len() == 0,
    ensures
        ({
            let end = ticked_all(tick, events);
            &&& end.schedules == tick.schedules
            &&& end.asked_at == tick.asked_at
            &&& end.skipped == tick.skipped
            &&& events.len() < tick.schedules.len() ==> end.outcomes.len() == events.len()
                && tick_pending(end) == TickAction::SweepChannel(
                order_for(tick.schedules[events.len() as int], tick.asked_at),
            )
            &&& events.len() >= tick.schedules.len() ==> end.outcomes.len() == tick.schedules.len()
                && tick_pending(end) is Finished
            &&& forall|k: int|
                0 <= k < end.outcomes.len() ==> (#[trigger] end.outcomes[k] matches Some(report)
                    ==> events[k] == TickEvent::ChannelSwept(report)) && (end.outcomes[k] is None
                    ==> events[k] is ChannelFailed)
        }),
    decreases events.len(),
{
    if events.len() > 0 {
        lemma_tick_visits_every_schedule(tick, events.drop_last());
    }
}

/// A tick's snapshot does not change while the tick runs: whatever is done to
/// the store after the listing was taken, the tick sweeps the schedules of that
/// listing. A schedule that is set in the meantime is in the listing with which
/// the next tick begins.
pub proof fn lemma_snapshot_is_fixed(
    records: Seq<ScheduleRecord>,
    asked_at: Timestamp,
    events: Seq<TickEvent>,
    schedule: ChannelSchedule,
    at: Timestamp,
    next_asked_at: Timestamp,
)
    ensures
        ticked_all(tick_start(asked_at, Ok(active_schedules(records))), events).schedules
            == active_schedules(records),
        tick_start(
            next_asked_at,
            Ok(active_schedules(with_schedule(records, schedule, at))),
        ).schedules.contains(schedule),
{
    lemma_tick_visits_every_schedule(tick_start(asked_at, Ok(active_schedules(records))), events);
    lemma_set_schedule_is_listed(records, schedule, at);
}

} // verus!
