use purge_scheduler::notice::Notice;
use purge_scheduler::time::{TimeDelta, Timestamp};

#[test]
fn the_count_is_written_in_decimal() {
    assert_eq!(Notice::Deleted { count: 0 }.text(), "Deleted 0 messages");
    assert_eq!(Notice::Deleted { count: 1 }.text(), "Deleted 1 messages");
    assert_eq!(Notice::Deleted { count: 9 }.text(), "Deleted 9 messages");
    assert_eq!(Notice::Deleted { count: 10 }.text(), "Deleted 10 messages");
    assert_eq!(Notice::Deleted { count: 100 }.text(), "Deleted 100 messages");
    assert_eq!(Notice::Deleted { count: 1234567890 }.text(), "Deleted 1234567890 messages");
    assert_eq!(Notice::Deleted { count: usize::MAX }.text(), format!("Deleted {} messages", usize::MAX));
}

#[test]
fn the_pointer_names_guild_channel_and_message() {
    let notice = Notice::TooOldToDelete {
        guild_id: 1100000000000000001,
        channel_id: 2,
        message_id: 18446744073709551615,
    };
    assert_eq!(
        notice.text(),
        "Found messages that are too old for deletion.\nAnything past this [message](https://discord.com/channels/1100000000000000001/2/18446744073709551615) needs to be deleted manually."
    );
    let zero = Notice::TooOldToDelete { guild_id: 0, channel_id: 0, message_id: 0 };
    assert_eq!(
        zero.text(),
        format!(
            "Found messages that are too old for deletion.\nAnything past this [message](https://discord.com/channels/{}/{}/{}) needs to be deleted manually.",
            0, 0, 0
        )
    );
}

#[test]
fn spans_are_counted_in_microseconds() {
    assert_eq!(TimeDelta::seconds(1), TimeDelta { micros: 1_000_000 });
    assert_eq!(TimeDelta::hours(1), TimeDelta { micros: 3_600_000_000 });
    assert_eq!(TimeDelta::days(14), TimeDelta { micros: 1_209_600_000_000 });
    assert_eq!(TimeDelta::hours(0), TimeDelta { micros: 0 });
    assert_eq!(TimeDelta::hours(u64::MAX), TimeDelta { micros: 66_408_278_665_354_385_814_000_000_000 });
    assert!(TimeDelta::hours(24).is_at_least(TimeDelta::days(1)));
    assert!(TimeDelta::days(1).is_at_least(TimeDelta::hours(24)));
    assert!(!TimeDelta::hours(23).is_at_least(TimeDelta::days(1)));
    assert!(TimeDelta { micros: 0 }.is_at_least(TimeDelta { micros: -1 }));
}

#[test]
fn the_time_between_two_instants_is_their_difference() {
    let later = Timestamp { micros: 5_000 };
    let earlier = Timestamp { micros: 2_000 };
    assert_eq!(later.since(earlier), TimeDelta { micros: 3_000 });
    assert_eq!(earlier.since(later), TimeDelta { micros: -3_000 });
    let far = Timestamp { micros: i64::MAX }.since(Timestamp { micros: i64::MIN });
    assert_eq!(far, TimeDelta { micros: 18_446_744_073_709_551_615 });
}

#[test]
fn a_fixed_reference_time_is_kept() {
    assert_eq!(Timestamp::or_now(Some(Timestamp { micros: 42 })), Timestamp { micros: 42 });
    assert_eq!(Timestamp::or_now(Some(Timestamp { micros: -42 })), Timestamp { micros: -42 });
}

#[test]
fn the_clock_reads_a_present_time() {
    let first = Timestamp::or_now(None);
    let second = Timestamp::or_now(None);
    assert!(first.micros > 1_600_000_000_000_000);
    assert!(first.micros < 4_102_444_800_000_000);
    assert!(second.micros >= first.micros);
}
