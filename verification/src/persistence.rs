//! The schedule store: an append-only audit trail of retention schedules in which
//! each channel has at most one active record.

use crate::time::Timestamp;
use vstd::prelude::*;

verus! {

/// A retention policy for one channel.
#[derive(Clone, Copy, Debug, PartialEq, Eq)]
pub struct ChannelSchedule {
    pub guild_id: u64,
    pub channel_id: u64,
    pub scheduled_by_user_id: u64,
    pub max_message_age_hours: u64,
}

/// One line of the audit trail: a schedule, when it was created and, once it has
/// been superseded or cleared, when and by whom.
#[derive(Clone, Copy, Debug, PartialEq, Eq)]
pub struct ScheduleRecord {
    pub schedule: ChannelSchedule,
    pub created_at: Timestamp,
    pub deleted_at: Option<Timestamp>,
    pub deleted_by_user_id: Option<u64>,
}

/// A schedule as the database keeps it: in columns of signed 64-bit numbers.
#[derive(Clone, Copy, Debug, PartialEq, Eq)]
pub struct ScheduleRow {
    pub guild_id: i64,
    pub channel_id: i64,
    pub scheduled_by_user_id: i64,
    pub max_message_age_hours: i64,
}

/// Why the database could not serve a request.
#[derive(Clone, Copy, Debug, PartialEq, Eq)]
pub enum PersistenceError {
    /// The database could not be reached.
    Unreachable,
    /// The database refused or failed a statement.
    QueryFailed,
}

/// The store's working copy of the audit trail, oldest insertion first, and the
/// connection string of the database that keeps it.
#[derive(Debug)]
pub struct Persistence {
    pub database_url: String,
    pub records: Vec<ScheduleRecord>,
}

impl ScheduleRecord {
    /// A record is active until it carries a deletion timestamp.
    pub open spec fn is_active(self) -> bool {
        self.deleted_at is None
    }

    /// Whether this record is the active schedule of `channel_id`.
    pub open spec fn governs(self, channel_id: u64) -> bool {
        self.is_active() && self.schedule.channel_id == channel_id
    }

    /// This record after `by` retired it at `at`.
    pub open spec fn retired(self, at: Timestamp, by: u64) -> ScheduleRecord {
        ScheduleRecord {
            schedule: self.schedule,
            created_at: self.created_at,
            deleted_at: Some(at),
            deleted_by_user_id: Some(by),
        }
    }

    /// The active record that `schedule` gets when it is set at `at`.
    pub open spec fn fresh(schedule: ChannelSchedule, at: Timestamp) -> ScheduleRecord {
        ScheduleRecord { schedule, created_at: at, deleted_at: None, deleted_by_user_id: None }
    }
}

/// The signed number that shares its 64 bits with `value`: `value` itself up to
/// the largest signed number, and `value` less 2^64 above it.
pub open spec fn stored_number(value: u64) -> int {
    if value <= i64::MAX {
        value as int
    } else {
        value - 0x1_0000_0000_0000_0000
    }
}

/// The unsigned number that shares its 64 bits with `stored`: `stored` itself
/// where it is not negative, and `stored` plus 2^64 where it is.
pub open spec fn restored_number(stored: i64) -> int {
    if stored >= 0 {
        stored as int
    } else {
        stored + 0x1_0000_0000_0000_0000
    }
}

/// The schedule that the database keeps `row` for.
pub open spec fn restored_schedule(row: ScheduleRow) -> ChannelSchedule {
    ChannelSchedule {
        guild_id: restored_number(row.guild_id) as u64,
        channel_id: restored_number(row.channel_id) as u64,
        scheduled_by_user_id: restored_number(row.scheduled_by_user_id) as u64,
        max_message_age_hours: restored_number(row.max_message_age_hours) as u64,
    }
}

/// The row that the database keeps for `schedule`.
pub open spec fn stored_row(schedule: ChannelSchedule) -> ScheduleRow {
    ScheduleRow {
        guild_id: stored_number(schedule.guild_id) as i64,
        channel_id: stored_number(schedule.channel_id) as i64,
        scheduled_by_user_id: stored_number(schedule.scheduled_by_user_id) as i64,
        max_message_age_hours: stored_number(schedule.max_message_age_hours) as i64,
    }
}

/// Turns an unsigned number into the signed number that a column can hold.
pub fn to_stored_number(value: u64) -> (stored: i64)
    ensures
        stored == stored_number(value),
{
    if value <= 0x7fff_ffff_ffff_ffff {
        value as i64
    } else {
        ((value - 0x8000_0000_0000_0000) as i64) + i64::MIN
    }
}

/// Turns the signed number of a column back into the unsigned number that it stands for.
pub fn from_stored_number(stored: i64) -> (value: u64)
    ensures
        value == restored_number(stored),
{
    if stored >= 0 {
        stored as u64
    } else {
        ((stored - i64::MIN) as u64) + 0x8000_0000_0000_0000
    }
}

/// A number comes back from its column as it went in, and a column's number
/// goes back into the column as it came out.
pub proof fn lemma_stored_number_round_trip(value: u64, stored: i64)
    ensures
        i64::MIN <= stored_number(value) <= i64::MAX,
        0 <= restored_number(stored) <= u64::MAX,
        restored_number(stored_number(value) as i64) == value,
        stored_number(restored_number(stored) as u64) == stored,
{
}

/// A schedule comes back from its row as it went in, and a row goes back into
/// the database as it came out.
pub proof fn lemma_row_round_trip(schedule: ChannelSchedule, row: ScheduleRow)
    ensures
        restored_schedule(stored_row(schedule)) == schedule,
        stored_row(restored_schedule(row)) == row,
{
}

impl ChannelSchedule {
    /// The row that the database keeps for this schedule.
    pub fn to_row(&self) -> (row: ScheduleRow)
        ensures
            row == stored_row(*self),
    {
        ScheduleRow {
            guild_id: to_stored_number(self.guild_id),
            channel_id: to_stored_number(self.channel_id),
            scheduled_by_user_id: to_stored_number(self.scheduled_by_user_id),
            max_message_age_hours: to_stored_number(self.max_message_age_hours),
        }
    }

    /// The schedule that `row` is kept for.
    pub fn from_row(row: &ScheduleRow) -> (schedule: ChannelSchedule)
        ensures
            schedule == restored_schedule(*row),
    {
        ChannelSchedule {
            guild_id: from_stored_number(row.guild_id),
            channel_id: from_stored_number(row.channel_id),
            scheduled_by_user_id: from_stored_number(row.scheduled_by_user_id),
            max_message_age_hours: from_stored_number(row.max_message_age_hours),
        }
    }
}

/// The trail after every active record of `channel_id` was retired by `by` at `at`.
pub open spec fn cleared(records: Seq<ScheduleRecord>, channel_id: u64, by: u64, at: Timestamp) -> Seq<
    ScheduleRecord,
> {
    Seq::new(
        records.len(),
        |i: int|
            if records[i].governs(channel_id) {
                records[i].retired(at, by)
            } else {
                records[i]
            },
    )
}

/// The trail after `schedule` was set at `at`: its channel's active records are
/// retired in the name of the schedule's author, and the new record is appended.
pub open spec fn with_schedule(records: Seq<ScheduleRecord>, schedule: ChannelSchedule, at: Timestamp) -> Seq<
    ScheduleRecord,
> {
    cleared(records, schedule.channel_id, schedule.scheduled_by_user_id, at).push(
        ScheduleRecord::fresh(schedule, at),
    )
}

/// No channel has two active records.
pub open spec fn at_most_one_active(records: Seq<ScheduleRecord>) -> bool {
    forall|i: int, j: int|
        0 <= i < j < records.len() && records[i].is_active() && records[j].is_active()
            ==> records[i].schedule.channel_id != records[j].schedule.channel_id
}

/// The schedule of the first record in the trail that governs `channel_id`, if any
/// does. Where no channel has two active records it is the only one.
pub open spec fn active_schedule(records: Seq<ScheduleRecord>, channel_id: u64) -> Option<ChannelSchedule>
    decreases records.len(),
{
    if records.len() == 0 {
        None
    } else if records[0].governs(channel_id) {
        Some(records[0].schedule)
    } else {
        active_schedule(records.drop_first(), channel_id)
    }
}

/// `sorted` with `record` put in behind every record that was created no later
/// than it.
pub open spec fn placed(sorted: Seq<ScheduleRecord>, record: ScheduleRecord) -> Seq<ScheduleRecord>
    decreases sorted.len(),
{
    if sorted.len() == 0 || sorted.last().created_at.micros <= record.created_at.micros {
        sorted.push(record)
    } else {
        placed(sorted.drop_last(), record).push(sorted.last())
    }
}

/// The active records of the trail by creation time, oldest first. Records that
/// were created at the same instant keep the order they have in the trail.
pub open spec fn active_by_creation(records: Seq<ScheduleRecord>) -> Seq<ScheduleRecord>
    decreases records.len(),
{
    if records.len() == 0 {
        Seq::empty()
    } else {
        let earlier = active_by_creation(records.drop_last());
        if records.last().is_active() {
            placed(earlier, records.last())
        } else {
            earlier
        }
    }
}

/// Whether the records stand by creation time, oldest first.
pub open spec fn ordered_by_creation(records: Seq<ScheduleRecord>) -> bool {
    forall|i: int, j: int|
        0 <= i < j < records.len() ==> records[i].created_at.micros <= records[j].created_at.micros
}

/// What a listing of the store returns: the schedules of the active records,
/// oldest-scheduled first.
pub open spec fn active_schedules(records: Seq<ScheduleRecord>) -> Seq<ChannelSchedule> {
    active_by_creation(records).map_values(|record: ScheduleRecord| record.schedule)
}

/// Putting a record in behind the last one that is no younger is an insertion at
/// that place.
proof fn lemma_placed_is_insertion(sorted: Seq<ScheduleRecord>, record: ScheduleRecord, place: int)
    requires
        0 <= place <= sorted.len(),
        forall|k: int| place <= k < sorted.len() ==> sorted[k].created_at.micros > record.created_at.micros,
        place > 0 ==> sorted[place - 1].created_at.micros <= record.created_at.micros,
    ensures
        placed(sorted, record) == sorted.insert(place, record),
    decreases sorted.len(),
{
    if place == sorted.len() {
        assert(sorted.push(record) =~= sorted.insert(place, record));
    } else {
        lemma_placed_is_insertion(sorted.drop_last(), record, place);
        assert(sorted.drop_last().insert(place, record).push(sorted.last()) =~= sorted.insert(place, record));
    }
}

impl Persistence {
    /// Retires every active record of `channel_id`.
    fn retire_active(&mut self, channel_id: u64, by: u64, at: Timestamp)
        ensures
            final(self).records@ == cleared(old(self).records@, channel_id, by, at),
            final(self).database_url == old(self).database_url,
    {
        let mut i: usize = 0;
        while i < self.records.len()
            invariant
                i <= self.records.len(),
                self.records.len() == old(self).records.len(),
                self.database_url == old(self).database_url,
                forall|k: int|
                    0 <= k < i ==> self.records[k] == cleared(
                        old(self).records@,
                        channel_id,
                        by,
                        at,
                    )[k],
                forall|k: int| i <= k < self.records.len() ==> self.records[k] == old(self).records[k],
            decreases self.records.len() - i,
        {
            let record = self.records[i];
            if record.deleted_at.is_none() && record.schedule.channel_id == channel_id {
                self.records.set(
                    i,
                    ScheduleRecord {
                        schedule: record.schedule,
                        created_at: record.created_at,
                        deleted_at: Some(at),
                        deleted_by_user_id: Some(by),
                    },
                );
            }
            i += 1;
        }
    }

    /// Makes `schedule` the active schedule of its channel. The new record is
    /// appended and every record that was active for the channel is retired, with
    /// the reference time as deletion timestamp and the schedule's author as the
    /// one who retired it. The reference time is `asked_at` where one is given,
    /// else the clock's reading; it is returned.
    pub fn set_schedule_for_channel(
        &mut self,
        schedule: &ChannelSchedule,
        asked_at: Option<Timestamp>,
    ) -> (at: Timestamp)
        ensures
            asked_at matches Some(fixed) ==> at == fixed,
            final(self).records@ == with_schedule(old(self).records@, *schedule, at),
            final(self).database_url == old(self).database_url,
    {
        let at = Timestamp::or_now(asked_at);
        self.retire_active(schedule.channel_id, schedule.scheduled_by_user_id, at);
        self.records.push(
            ScheduleRecord {
                schedule: *schedule,
                created_at: at,
                deleted_at: None,
                deleted_by_user_id: None,
            },
        );
        at
    }

    /// Retires every active record of `channel_id` in the name of `deleter_id`.
    /// Where the channel has no active record nothing changes. The reference time
    /// is `asked_at` where one is given, else the clock's reading; it is returned.
    pub fn clear_schedule_for_channel(
        &mut self,
        channel_id: u64,
        deleter_id: u64,
        asked_at: Option<Timestamp>,
    ) -> (at: Timestamp)
        ensures
            asked_at matches Some(fixed) ==> at == fixed,
            final(self).records@ == cleared(old(self).records@, channel_id, deleter_id, at),
            final(self).database_url == old(self).database_url,
    {
        let at = Timestamp::or_now(asked_at);
        self.retire_active(channel_id, deleter_id, at);
        at
    }

    /// The active schedule of `channel_id`, if it has one.
    pub fn get_schedule_for_channel(&self, channel_id: u64) -> (found: Option<ChannelSchedule>)
        ensures
            found == active_schedule(self.records@, channel_id),
    {
        let mut i: usize = 0;
        assert(self.records@.skip(0) == self.records@);
        while i < self.records.len()
            invariant
                i <= self.records.len(),
                active_schedule(self.records@, channel_id) == active_schedule(
                    self.records@.skip(i as int),
                    channel_id,
                ),
            decreases self.records.len() - i,
        {
            let record = self.records[i];
            if record.deleted_at.is_none() && record.schedule.channel_id == channel_id {
                return Some(record.schedule);
            }
            assert(self.records@.skip(i as int).drop_first() == self.records@.skip(i + 1));
            i += 1;
        }
        None
    }

    /// All active schedules, oldest-scheduled first.
    pub fn get_active_schedules(&self) -> (listed: Vec<ChannelSchedule>)
        ensures
            listed@ == active_schedules(self.records@),
    {
        let mut ordered: Vec<ScheduleRecord> = Vec::new();
        let mut i: usize = 0;
        while i < self.records.len()
            invariant
                i <= self.records.len(),
                ordered@ == active_by_creation(self.records@.take(i as int)),
            decreases self.records.len() - i,
        {
            let record = self.records[i];
            assert(self.records@.take(i + 1).drop_last() == self.records@.take(i as int));
            if record.deleted_at.is_none() {
                let mut place: usize = ordered.len();
                while place > 0 && ordered[place - 1].created_at.micros > record.created_at.micros
                    invariant
                        place <= ordered.len(),
                        forall|k: int|
                            place <= k < ordered.len() ==> ordered[k].created_at.micros
                                > record.created_at.micros,
                    decreases place,
                {
                    place -= 1;
                }
                proof {
                    lemma_placed_is_insertion(ordered@, record, place as int);
                }
                ordered.insert(place, record);
            }
            i += 1;
        }
        assert(self.records@.take(i as int) == self.records@);
        let mut listed: Vec<ChannelSchedule> = Vec::new();
        let mut j: usize = 0;
        while j < ordered.len()
            invariant
                j <= ordered.len(),
                listed@ == ordered@.take(j as int).map_values(|record: ScheduleRecord| record.schedule),
            decreases ordered.len() - j,
        {
            listed.push(ordered[j].schedule);
            assert(ordered@.take(j + 1).map_values(|record: ScheduleRecord| record.schedule)
                =~= ordered@.take(j as int).map_values(|record: ScheduleRecord| record.schedule).push(
                ordered@[j as int].schedule,
            ));
            j += 1;
        }
        assert(ordered@.take(j as int) == ordered@);
        listed
    }
}

/// Whether the record at `place` governs `channel_id` and no earlier record does.
pub open spec fn first_governing(records: Seq<ScheduleRecord>, channel_id: u64, place: int) -> bool {
    &&& 0 <= place < records.len()
    &&& records[place].governs(channel_id)
    &&& forall|j: int| 0 <= j < place ==> !records[j].governs(channel_id)
}

/// A channel's active schedule is the schedule of the first record that governs
/// the channel.
pub proof fn lemma_active_schedule_at(records: Seq<ScheduleRecord>, channel_id: u64, place: int)
    requires
        first_governing(records, channel_id, place),
    ensures
        active_schedule(records, channel_id) == Some(records[place].schedule),
    decreases records.len(),
{
    if place > 0 {
        let rest = records.drop_first();
        assert(!records[0].governs(channel_id));
        assert(first_governing(rest, channel_id, place - 1)) by {
            assert(rest[place - 1] == records[place]);
            assert forall|j: int| 0 <= j < place - 1 implies !rest[j].governs(channel_id) by {
                assert(rest[j] == records[j + 1]);
            }
        }
        lemma_active_schedule_at(rest, channel_id, place - 1);
    }
}

/// A channel has no active schedule exactly when no record governs it.
pub proof fn lemma_no_active_schedule(records: Seq<ScheduleRecord>, channel_id: u64)
    ensures
        active_schedule(records, channel_id) is None <==> forall|i: int|
            0 <= i < records.len() ==> !records[i].governs(channel_id),
    decreases records.len(),
{
    if records.len() > 0 {
        let rest = records.drop_first();
        lemma_no_active_schedule(rest, channel_id);
        if !records[0].governs(channel_id) {
            if active_schedule(rest, channel_id) is None {
                assert forall|i: int| 0 <= i < records.len() implies !records[i].governs(channel_id) by {
                    if i > 0 {
                        assert(rest[i - 1] == records[i]);
                    }
                }
            } else {
                let k = choose|k: int| 0 <= k < rest.len() && rest[k].governs(channel_id);
                assert(records[k + 1] == rest[k]);
            }
        }
    }
}

/// Setting a schedule leaves its channel with exactly one active record, the new
/// one, which closes the trail. Every other record of the channel carries a
/// deletion timestamp. No record is removed, none changes its schedule or its
/// creation time, and records of other channels and records already retired are
/// as they were.
pub proof fn lemma_set_leaves_one_active(
    records: Seq<ScheduleRecord>,
    schedule: ChannelSchedule,
    at: Timestamp,
)
    ensures
        ({
            let after = with_schedule(records, schedule, at);
            &&& after.len() == records.len() + 1
            &&& after.last() == ScheduleRecord::fresh(schedule, at)
            &&& forall|i: int|
                0 <= i < after.len() ==> (#[trigger] after[i].governs(schedule.channel_id) <==> i
                    == records.len())
            &&& forall|i: int|
                0 <= i < records.len() && records[i].schedule.channel_id == schedule.channel_id
                    ==> (#[trigger] after[i]).deleted_at is Some
            &&& forall|i: int|
                0 <= i < records.len() ==> (#[trigger] after[i]).schedule == records[i].schedule
                    && after[i].created_at == records[i].created_at
            &&& forall|i: int|
                0 <= i < records.len() && !records[i].governs(schedule.channel_id) ==> #[trigger] after[i]
                    == records[i]
            &&& active_schedule(after, schedule.channel_id) == Some(schedule)
        }),
{
    let after = with_schedule(records, schedule, at);
    assert(first_governing(after, schedule.channel_id, records.len() as int));
    lemma_active_schedule_at(after, schedule.channel_id, records.len() as int);
}

/// Of two schedules set for one channel, whatever the order in which the callers
/// asked, the one whose change was applied last is active afterwards; the other
/// is retired at the later reference time in the name of the later author.
pub proof fn lemma_last_set_wins(
    records: Seq<ScheduleRecord>,
    first: ChannelSchedule,
    first_at: Timestamp,
    second: ChannelSchedule,
    second_at: Timestamp,
)
    requires
        first.channel_id == second.channel_id,
    ensures
        ({
            let after = with_schedule(with_schedule(records, first, first_at), second, second_at);
            &&& after.len() == records.len() + 2
            &&& active_schedule(after, second.channel_id) == Some(second)
            &&& after[records.len() as int] == ScheduleRecord::fresh(first, first_at).retired(
                second_at,
                second.scheduled_by_user_id,
            )
            &&& forall|i: int|
                0 <= i < after.len() ==> (#[trigger] after[i].governs(second.channel_id) <==> i
                    == records.len() + 1)
        }),
{
    let between = with_schedule(records, first, first_at);
    lemma_set_leaves_one_active(records, first, first_at);
    lemma_set_leaves_one_active(between, second, second_at);
}

/// The trail after the schedules of `changes` were set one after the other, each
/// at the reference time that comes with it.
pub open spec fn with_schedules(
    records: Seq<ScheduleRecord>,
    changes: Seq<(ChannelSchedule, Timestamp)>,
) -> Seq<ScheduleRecord>
    decreases changes.len(),
{
    if changes.len() == 0 {
        records
    } else {
        with_schedule(with_schedules(records, changes.drop_last()), changes.last().0, changes.last().1)
    }
}

/// However many callers set schedules, and in whatever order their changes are
/// applied, the trail grows by one record for each, and the channel of the
/// change that was applied last has exactly one active record afterwards: the
/// record of that change.
pub proof fn lemma_sets_leave_last_active(
    records: Seq<ScheduleRecord>,
    changes: Seq<(ChannelSchedule, Timestamp)>,
)
    requires
        changes.len() > 0,
    ensures
        ({
            let after = with_schedules(records, changes);
            let last = changes.last().0;
            &&& after.len() == records.len() + changes.len()
            &&& after.last() == ScheduleRecord::fresh(last, changes.last().1)
            &&& active_schedule(after, last.channel_id) == Some(last)
            &&& forall|i: int|
                0 <= i < after.len() ==> (#[trigger] after[i].governs(last.channel_id) <==> i
                    == after.len() - 1)
            &&& at_most_one_active(records) ==> at_most_one_active(after)
        }),
    decreases changes.len(),
{
    let before = with_schedules(records, changes.drop_last());
    if changes.len() > 1 {
        lemma_sets_leave_last_active(records, changes.drop_last());
    }
    lemma_set_leaves_one_active(before, changes.last().0, changes.last().1);
    if at_most_one_active(records) {
        lemma_set_keeps_one_active(before, changes.last().0, changes.last().1);
    }
}

/// Setting a schedule keeps the trail free of channels with two active records.
pub proof fn lemma_set_keeps_one_active(
    records: Seq<ScheduleRecord>,
    schedule: ChannelSchedule,
    at: Timestamp,
)
    requires
        at_most_one_active(records),
    ensures
        at_most_one_active(with_schedule(records, schedule, at)),
{
    let after = with_schedule(records, schedule, at);
    assert forall|i: int, j: int|
        0 <= i < j < after.len() && after[i].is_active()
            && after[j].is_active() implies after[i].schedule.channel_id
        != after[j].schedule.channel_id by {
        if j < records.len() {
            assert(records[i].is_active() && records[j].is_active());
        }
    }
}

/// Clearing a channel leaves it without an active schedule. The trail keeps its
/// length, and records that did not govern the channel are as they were.
pub proof fn lemma_clear_leaves_none_active(
    records: Seq<ScheduleRecord>,
    channel_id: u64,
    by: u64,
    at: Timestamp,
)
    ensures
        ({
            let after = cleared(records, channel_id, by, at);
            &&& after.len() == records.len()
            &&& active_schedule(after, channel_id) is None
            &&& forall|i: int|
                0 <= i < records.len() && !records[i].governs(channel_id) ==> #[trigger] after[i]
                    == records[i]
            &&& forall|i: int|
                0 <= i < records.len() && records[i].governs(channel_id) ==> #[trigger] after[i]
                    == records[i].retired(at, by)
            &&& at_most_one_active(records) ==> at_most_one_active(after)
        }),
{
    let after = cleared(records, channel_id, by, at);
    lemma_no_active_schedule(after, channel_id);
    if at_most_one_active(records) {
        assert forall|i: int, j: int|
            0 <= i < j < after.len() && after[i].is_active()
                && after[j].is_active() implies after[i].schedule.channel_id
            != after[j].schedule.channel_id by {
            assert(records[i].is_active() && records[j].is_active());
        }
    }
}

/// Clearing a channel that has no active schedule is a no-op: the trail is what
/// it was, no record is added, and the channel still has no active schedule.
pub proof fn lemma_clear_without_active_is_noop(
    records: Seq<ScheduleRecord>,
    channel_id: u64,
    by: u64,
    at: Timestamp,
)
    requires
        active_schedule(records, channel_id) is None,
    ensures
        cleared(records, channel_id, by, at) == records,
        active_schedule(cleared(records, channel_id, by, at), channel_id) is None,
{
    lemma_no_active_schedule(records, channel_id);
    assert(cleared(records, channel_id, by, at) =~= records);
}

/// A change to one channel does not touch the active schedule of another.
pub proof fn lemma_other_channels_unchanged(
    records: Seq<ScheduleRecord>,
    schedule: ChannelSchedule,
    by: u64,
    at: Timestamp,
    other: u64,
)
    requires
        other != schedule.channel_id,
    ensures
        active_schedule(cleared(records, schedule.channel_id, by, at), other) == active_schedule(
            records,
            other,
        ),
        active_schedule(with_schedule(records, schedule, at), other) == active_schedule(records, other),
{
    lemma_clear_keeps_other(records, schedule.channel_id, by, at, other);
    let retired = cleared(records, schedule.channel_id, schedule.scheduled_by_user_id, at);
    lemma_clear_keeps_other(records, schedule.channel_id, schedule.scheduled_by_user_id, at, other);
    lemma_push_foreign(retired, ScheduleRecord::fresh(schedule, at), other);
}

proof fn lemma_clear_keeps_other(
    records: Seq<ScheduleRecord>,
    channel_id: u64,
    by: u64,
    at: Timestamp,
    other: u64,
)
    requires
        other != channel_id,
    ensures
        active_schedule(cleared(records, channel_id, by, at), other) == active_schedule(records, other),
    decreases records.len(),
{
    let after = cleared(records, channel_id, by, at);
    if records.len() > 0 {
        assert(after.drop_first() =~= cleared(records.drop_first(), channel_id, by, at));
        lemma_clear_keeps_other(records.drop_first(), channel_id, by, at, other);
    }
}

proof fn lemma_push_foreign(records: Seq<ScheduleRecord>, record: ScheduleRecord, other: u64)
    requires
        !record.governs(other),
    ensures
        active_schedule(records.push(record), other) == active_schedule(records, other),
    decreases records.len(),
{
    let longer = records.push(record);
    if records.len() == 0 {
        assert(active_schedule(longer.drop_first(), other) is None);
    } else {
        assert(longer.drop_first() =~= records.drop_first().push(record));
        lemma_push_foreign(records.drop_first(), record, other);
    }
}

/// Putting a record in place keeps what was there and adds the record, once.
proof fn lemma_placed_members(sorted: Seq<ScheduleRecord>, record: ScheduleRecord)
    ensures
        placed(sorted, record).to_multiset() == sorted.to_multiset().insert(record),
        placed(sorted, record).len() == sorted.len() + 1,
    decreases sorted.len(),
{
    broadcast use vstd::seq_lib::group_to_multiset_ensures;

    if sorted.len() == 0 || sorted.last().created_at.micros <= record.created_at.micros {
    } else {
        lemma_placed_members(sorted.drop_last(), record);
        assert(sorted.drop_last().push(sorted.last()) =~= sorted);
        assert(placed(sorted, record).to_multiset() =~= sorted.to_multiset().insert(record));
    }
}

/// Putting a record in place keeps an ordered sequence ordered.
proof fn lemma_placed_ordered(sorted: Seq<ScheduleRecord>, record: ScheduleRecord)
    requires
        ordered_by_creation(sorted),
    ensures
        ordered_by_creation(placed(sorted, record)),
        forall|i: int|
            0 <= i < placed(sorted, record).len() ==> #[trigger] placed(sorted, record)[i] == record
                || sorted.contains(placed(sorted, record)[i]),
    decreases sorted.len(),
{
    let out = placed(sorted, record);
    if sorted.len() == 0 || sorted.last().created_at.micros <= record.created_at.micros {
        assert forall|i: int| 0 <= i < out.len() implies #[trigger] out[i] == record
            || sorted.contains(out[i]) by {
            if i < sorted.len() {
                assert(sorted[i] == out[i]);
            }
        }
    } else {
        let shorter = sorted.drop_last();
        lemma_placed_ordered(shorter, record);
        lemma_placed_members(shorter, record);
        let inner = placed(shorter, record);
        assert forall|i: int| 0 <= i < out.len() implies #[trigger] out[i] == record
            || sorted.contains(out[i]) by {
            if i < inner.len() {
                if inner[i] != record {
                    let k = choose|k: int| 0 <= k < shorter.len() && shorter[k] == inner[i];
                    assert(sorted[k] == out[i]);
                }
            } else {
                assert(sorted[sorted.len() - 1] == out[i]);
            }
        }
        assert forall|i: int, j: int| 0 <= i < j < out.len() implies out[i].created_at.micros
            <= out[j].created_at.micros by {
            if j == out.len() - 1 {
                if inner[i] != record {
                    let k = choose|k: int| 0 <= k < shorter.len() && shorter[k] == inner[i];
                    assert(sorted[k] == shorter[k]);
                }
            }
        }
    }
}

/// A listing holds the active records of the trail, each as often as the trail
/// holds it and no others, oldest-scheduled first.
pub proof fn lemma_listing_is_ordered_and_complete(records: Seq<ScheduleRecord>)
    ensures
        ordered_by_creation(active_by_creation(records)),
        active_by_creation(records).to_multiset() == records.filter(
            |record: ScheduleRecord| record.is_active(),
        ).to_multiset(),
        active_schedules(records).len() == active_by_creation(records).len(),
        forall|i: int|
            0 <= i < active_schedules(records).len() ==> #[trigger] active_schedules(records)[i]
                == active_by_creation(records)[i].schedule,
    decreases records.len(),
{
    broadcast use vstd::seq_lib::group_to_multiset_ensures;

    reveal(Seq::filter);
    if records.len() > 0 {
        let shorter = records.drop_last();
        lemma_listing_is_ordered_and_complete(shorter);
        if records.last().is_active() {
            lemma_placed_ordered(active_by_creation(shorter), records.last());
            lemma_placed_members(active_by_creation(shorter), records.last());
        }
    }
}

/// A schedule that was set appears in every listing taken afterwards, until it
/// is superseded or cleared.
pub proof fn lemma_set_schedule_is_listed(
    records: Seq<ScheduleRecord>,
    schedule: ChannelSchedule,
    at: Timestamp,
)
    ensures
        active_schedules(with_schedule(records, schedule, at)).contains(schedule),
{
    broadcast use vstd::seq_lib::group_to_multiset_ensures;

    let after = with_schedule(records, schedule, at);
    let fresh = ScheduleRecord::fresh(schedule, at);
    let earlier = active_by_creation(after.drop_last());
    lemma_placed_members(earlier, fresh);
    let listed = active_by_creation(after);
    assert(listed.to_multiset().count(fresh) > 0);
    assert(listed.contains(fresh));
    let k = choose|k: int| 0 <= k < listed.len() && listed[k] == fresh;
    assert(active_schedules(after)[k] == schedule);
}

} // verus!
