//! The messages that a sweep posts to the channel it has swept.

use vstd::prelude::*;

verus! {

/// Something to tell the people in a channel after it was swept.
#[derive(Clone, Copy, Debug, PartialEq, Eq)]
pub enum Notice {
    /// So many messages were deleted.
    Deleted { count: usize },
    /// Messages from `message_id` on backwards are too old for bulk deletion.
    TooOldToDelete { guild_id: u64, channel_id: u64, message_id: u64 },
}

/// The decimal digit of `value`, which is below ten.
pub open spec fn digit_char(value: nat) -> char {
    if value == 0 {
        '0'
    } else if value == 1 {
        '1'
    } else if value == 2 {
        '2'
    } else if value == 3 {
        '3'
    } else if value == 4 {
        '4'
    } else if value == 5 {
        '5'
    } else if value == 6 {
        '6'
    } else if value == 7 {
        '7'
    } else if value == 8 {
        '8'
    } else {
        '9'
    }
}

/// `value` in decimal, without sign or leading zeros.
pub open spec fn decimal_digits(value: nat) -> Seq<char>
    decreases value,
{
    if value < 10 {
        seq![digit_char(value)]
    } else {
        decimal_digits(value / 10).push(digit_char(value % 10))
    }
}

/// The text of a notice.
pub open spec fn notice_text(notice: Notice) -> Seq<char> {
    match notice {
        Notice::Deleted { count } => "Deleted "@ + decimal_digits(count as nat) + " messages"@,
        Notice::TooOldToDelete { guild_id, channel_id, message_id } => {
            "Found messages that are too old for deletion.\nAnything past this [message](https://discord.com/channels/"@
                + decimal_digits(guild_id as nat) + "/"@ + decimal_digits(channel_id as nat) + "/"@
                + decimal_digits(message_id as nat) + ") needs to be deleted manually."@
        },
    }
}

/// The one-character text of a decimal digit.
fn digit_text(value: u64) -> (text: &'static str)
    requires
        value < 10,
    ensures
        text@ == seq![digit_char(value as nat)],
{
    proof {
        reveal_strlit("0");
        reveal_strlit("1");
        reveal_strlit("2");
        reveal_strlit("3");
        reveal_strlit("4");
        reveal_strlit("5");
        reveal_strlit("6");
        reveal_strlit("7");
        reveal_strlit("8");
        reveal_strlit("9");
    }
    let text = if value == 0 {
        "0"
    } else if value == 1 {
        "1"
    } else if value == 2 {
        "2"
    } else if value == 3 {
        "3"
    } else if value == 4 {
        "4"
    } else if value == 5 {
        "5"
    } else if value == 6 {
        "6"
    } else if value == 7 {
        "7"
    } else if value == 8 {
        "8"
    } else {
        "9"
    };
    assert(text@ =~= seq![digit_char(value as nat)]);
    text
}

/// Appends `value` in decimal to `text`.
fn push_decimal(text: &mut String, value: u64)
    ensures
        final(text)@ == old(text)@ + decimal_digits(value as nat),
    decreases value,
{
    if value >= 10 {
        push_decimal(text, value / 10);
    }
    text.append(digit_text(value % 10));
}

impl Notice {
    /// The text to post.
    pub fn text(&self) -> (text: String)
        ensures
            text@ == notice_text(*self),
    {
        match *self {
            Notice::Deleted { count } => {
                let mut text = String::from_str("Deleted ");
                push_decimal(&mut text, count as u64);
                text.append(" messages");
                text
            },
            Notice::TooOldToDelete { guild_id, channel_id, message_id } => {
                let mut text = String::from_str(
                    "Found messages that are too old for deletion.\nAnything past this [message](https://discord.com/channels/",
                );
                push_decimal(&mut text, guild_id);
                text.append("/");
                push_decimal(&mut text, channel_id);
                text.append("/");
                push_decimal(&mut text, message_id);
                text.append(") needs to be deleted manually.");
                text
            },
        }
    }
}

} // verus!
