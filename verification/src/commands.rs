//! What the three channel commands decide: whether a request is in order, what
//! it does to the store, and what the invoker is told.

use crate::message_deletion::{sweep_start, ChannelSweep};
use crate::persistence::{active_schedule, cleared, with_schedule};
use crate::persistence::{ChannelSchedule, Persistence};
use crate::time::{span_of_hours, TimeDelta, Timestamp};
use vstd::prelude::*;

verus! {

/// The data that every command invocation can reach. There is none.
#[derive(Clone, Copy, Debug, PartialEq, Eq)]
pub struct Data {}

/// Why a command did nothing.
#[derive(Clone, Copy, Debug, PartialEq, Eq)]
pub enum ValidationError {
    /// The request to set a schedule came without the confirmation phrase.
    NotConfirmed,
    /// The channel has no active schedule to go by.
    NoActiveSchedule,
}

/// How a command ended.
#[derive(Clone, Copy, Debug, PartialEq, Eq)]
pub enum CommandOutcome {
    /// The schedule was set.
    ScheduleSet,
    /// The channel's schedule, if it had one, was cleared.
    ScheduleRemoved,
    /// The channel was swept.
    Done,
    /// The request was not in order, and nothing was changed.
    Rejected(ValidationError),
}

/// What the invoker of a command is told.
#[derive(Debug, PartialEq, Eq)]
pub struct Reply {
    pub content: String,
    /// Whether only the invoker sees the reply.
    pub ephemeral: bool,
}

/// The phrase that a request to set a schedule must carry.
pub open spec fn confirmation_phrase() -> Seq<char> {
    "I KNOW WHAT I'M DOING"@
}

/// The text that tells of `outcome`.
pub open spec fn reply_text(outcome: CommandOutcome) -> Seq<char> {
    match outcome {
        CommandOutcome::ScheduleSet => "Deletion schedule set!"@,
        CommandOutcome::ScheduleRemoved => "Deletion schedule removed!"@,
        CommandOutcome::Done => "Done"@,
        CommandOutcome::Rejected(ValidationError::NotConfirmed) =>
            "Do you _actually_ know what you're doing?"@,
        CommandOutcome::Rejected(ValidationError::NoActiveSchedule) =>
            "Channel has no active schedule. Please set a deletion schedule first."@,
    }
}

impl CommandOutcome {
    /// The reply to the invoker. A rejection is shown to the invoker alone.
    pub fn reply(&self) -> (reply: Reply)
        ensures
            reply.content@ == reply_text(*self),
            reply.ephemeral == (*self is Rejected),
    {
        match self {
            CommandOutcome::ScheduleSet => Reply {
                content: String::from_str("Deletion schedule set!"),
                ephemeral: false,
            },
            CommandOutcome::ScheduleRemoved => Reply {
                content: String::from_str("Deletion schedule removed!"),
                ephemeral: false,
            },
            CommandOutcome::Done => Reply { content: String::from_str("Done"), ephemeral: false },
            CommandOutcome::Rejected(ValidationError::NotConfirmed) => Reply {
                content: String::from_str("Do you _actually_ know what you're doing?"),
                ephemeral: true,
            },
            CommandOutcome::Rejected(ValidationError::NoActiveSchedule) => Reply {
                content: String::from_str(
                    "Channel has no active schedule. Please set a deletion schedule first.",
                ),
                ephemeral: true,
            },
        }
    }
}

/// Checks that a request to set a schedule carries the confirmation phrase, to
/// the letter.
pub fn check_confirmation(confirmation: &String) -> (checked: Result<(), ValidationError>)
    ensures
        checked is Ok <==> confirmation@ == confirmation_phrase(),
        checked is Err ==> checked == Err::<(), ValidationError>(ValidationError::NotConfirmed),
{
    if *confirmation == String::from_str("I KNOW WHAT I'M DOING") {
        Ok(())
    } else {
        Err(ValidationError::NotConfirmed)
    }
}

/// Schedules automatic message deletion for a channel: messages older than
/// `number_of_hours` hours are to be deleted. The request counts only with the
/// confirmation phrase; without it nothing is changed.
pub fn schedule_automatic_deletion_here(
    persistence: &mut Persistence,
    guild_id: u64,
    channel_id: u64,
    author_id: u64,
    number_of_hours: u64,
    confirmation: String,
    asked_at: Timestamp,
) -> (outcome: CommandOutcome)
    ensures
        final(persistence).database_url == old(persistence).database_url,
        confirmation@ == confirmation_phrase() ==> outcome == CommandOutcome::ScheduleSet
            && final(persistence).records@ == with_schedule(
            old(persistence).records@,
            ChannelSchedule {
                guild_id,
                channel_id,
                scheduled_by_user_id: author_id,
                max_message_age_hours: number_of_hours,
            },
            asked_at,
        ),
        confirmation@ != confirmation_phrase() ==> outcome == CommandOutcome::Rejected(
            ValidationError::NotConfirmed,
        ) && final(persistence).records@ == old(persistence).records@,
{
    if let Err(error) = check_confirmation(&confirmation) {
        return CommandOutcome::Rejected(error);
    }
    let schedule = ChannelSchedule {
        guild_id,
        channel_id,
        scheduled_by_user_id: author_id,
        max_message_age_hours: number_of_hours,
    };
    persistence.set_schedule_for_channel(&schedule, Some(asked_at));
    CommandOutcome::ScheduleSet
}

/// Takes a channel off the schedule of automatic message deletion. A channel
/// that has no active schedule is left as it is, and the command succeeds all
/// the same.
pub fn disable_automatic_deletion_here(
    persistence: &mut Persistence,
    channel_id: u64,
    author_id: u64,
    asked_at: Timestamp,
) -> (outcome: CommandOutcome)
    ensures
        outcome == CommandOutcome::ScheduleRemoved,
        final(persistence).database_url == old(persistence).database_url,
        final(persistence).records@ == cleared(old(persistence).records@, channel_id, author_id, asked_at),
{
    persistence.clear_schedule_for_channel(channel_id, author_id, Some(asked_at));
    CommandOutcome::ScheduleRemoved
}

/// Triggers message deletion for a channel now. Where the channel has an active
/// schedule the command hands back the sweep to run: a verbose one, for messages
/// that are at least as old as the schedule allows, at the reference time
/// `asked_at` or, where none is given, the clock's reading. Where the channel
/// has none the request is rejected.
pub fn trigger_message_deletion_here(
    persistence: &Persistence,
    guild_id: u64,
    channel_id: u64,
    asked_at: Option<Timestamp>,
) -> (sweep: Result<ChannelSweep, ValidationError>)
    ensures
        match sweep {
            Ok(sweep) => {
                &&& active_schedule(persistence.records@, channel_id) matches Some(schedule)
                &&& asked_at matches Some(fixed) ==> sweep@.asked_at == fixed
                &&& sweep@ == sweep_start(
                    guild_id,
                    channel_id,
                    span_of_hours(schedule.max_message_age_hours),
                    sweep@.asked_at,
                    true,
                )
            },
            Err(error) => error == ValidationError::NoActiveSchedule && active_schedule(
                persistence.records@,
                channel_id,
            ) is None,
        },
{
    match persistence.get_schedule_for_channel(channel_id) {
        Some(schedule) => Ok(
            ChannelSweep::new(
                guild_id,
                channel_id,
                TimeDelta::hours(schedule.max_message_age_hours),
                asked_at,
                true,
            ),
        ),
        None => Err(ValidationError::NoActiveSchedule),
    }
}

} // verus!
