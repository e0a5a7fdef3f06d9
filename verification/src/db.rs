//! What the timer keeps between sessions, as text under named keys, and how
//! that text is read back.

use crate::home::INITIAL_DELAY;
use crate::home::INITIAL_DURATION;
use crate::text::characters;
use crate::text::contains;
use crate::text::decimal_text;
use crate::text::lemma_digits_hold_no_other_pattern;
use crate::text::lemma_number_text_round_trip;
use crate::text::number_text;
use crate::text::two_digit_number_text;
use crate::text::two_digit_text;
use crate::text::contains_chars;
use crate::text::matches_at;
use crate::text::number_of;
use crate::text::occurs;
use crate::text::occurs_at;
use crate::text::parse_number;
use crate::text::same_text;
use crate::volume::VolumeLevel;
use vstd::prelude::*;
use vstd::string::StrSliceExecFns;
use vstd::string::StringExecFns;

verus! {

/// The kinds of value that an earlier storage format marked by a prefix.
pub enum LegacyStorageValues {
    NumberValue,
    ObjectValue,
    StringValue,
}

impl LegacyStorageValues {
    /// The prefix as a sequence of characters.
    pub open spec fn prefix_text(&self) -> Seq<char> {
        match self {
            LegacyStorageValues::NumberValue => "__q_numb|"@,
            LegacyStorageValues::StringValue => "__q_strn|"@,
            LegacyStorageValues::ObjectValue => "__q_objt|"@,
        }
    }

    /// The prefix that marks a stored value of this kind.
    pub fn prefix(&self) -> (prefix: &str)
        ensures
            prefix@ == self.prefix_text(),
    {
        match self {
            LegacyStorageValues::NumberValue => "__q_numb|",
            LegacyStorageValues::StringValue => "__q_strn|",
            LegacyStorageValues::ObjectValue => "__q_objt|",
        }
    }
}

/// What is left of a stored value without the prefix of an earlier format:
/// the value itself where the prefix stands nowhere in it, what follows the
/// prefix where it stands at the start, and nothing where it stands only
/// further on.
pub open spec fn without_prefix(value: Seq<char>, prefix: Seq<char>) -> Option<Seq<char>> {
    if !occurs(value, prefix) {
        Some(value)
    } else if occurs_at(value, prefix, 0) {
        Some(value.skip(prefix.len() as int))
    } else {
        None
    }
}

/// Takes the prefix of an earlier format from a stored value of the given
/// kind.
pub fn strip_legacy_prefix<'a>(value: &'a str, kind: &LegacyStorageValues) -> (stripped: Option<
    &'a str,
>)
    ensures
        match without_prefix(value@, kind.prefix_text()) {
            Some(rest) => stripped is Some && stripped->0@ == rest,
            None => stripped is None,
        },
{
    let text = characters(value);
    let prefix = characters(kind.prefix());
    if contains_chars(&text, &prefix) {
        if prefix.len() <= text.len() && matches_at(&text, &prefix, 0) {
            let rest = value.substring_char(prefix.len(), text.len());
            proof {
                assert(rest@ =~= value@.skip(prefix@.len() as int));
            }
            Some(rest)
        } else {
            None
        }
    } else {
        Some(value)
    }
}

/// The number of seconds that a stored length or delay stands for. With the
/// prefix of the earlier format the value counts seconds; without it, it
/// counts minutes. There is none where the value writes no number, where the
/// prefix is misplaced, or where the seconds do not fit the machine's word.
pub open spec fn seconds_of(value: Seq<char>) -> Option<usize> {
    let prefix = LegacyStorageValues::NumberValue.prefix_text();
    if occurs(value, prefix) {
        match without_prefix(value, prefix) {
            Some(rest) => number_of(rest),
            None => None,
        }
    } else {
        match number_of(value) {
            Some(minutes) => if minutes * 60 <= usize::MAX {
                Some((minutes * 60) as usize)
            } else {
                None
            },
            None => None,
        }
    }
}

/// Reads a stored length or delay, in seconds.
pub fn stored_seconds(value: &str) -> (seconds: Option<usize>)
    ensures
        seconds == seconds_of(value@),
{
    let kind = LegacyStorageValues::NumberValue;
    if contains(value, kind.prefix()) {
        // Durations were stored in seconds
        match strip_legacy_prefix(value, &kind) {
            Some(rest) => parse_number(rest),
            None => None,
        }
    } else {
        match parse_number(value) {
            Some(minutes) => minutes.checked_mul(60),
            None => None,
        }
    }
}

/// The length of a session, in seconds, from what is stored: the initial
/// length where nothing is stored.
pub fn session_duration_from(stored: Option<&str>) -> (duration: Option<usize>)
    ensures
        duration == match stored {
            Some(value) => seconds_of(value@),
            None => Some(INITIAL_DURATION),
        },
{
    match stored {
        Some(value) => stored_seconds(value),
        None => Some(INITIAL_DURATION),
    }
}

/// The delay before the bells, in seconds, from what is stored: the initial
/// delay where nothing is stored.
pub fn active_session_delay_from(stored: Option<&str>) -> (delay: Option<usize>)
    ensures
        delay == match stored {
            Some(value) => seconds_of(value@),
            None => Some(INITIAL_DELAY),
        },
{
    match stored {
        Some(value) => stored_seconds(value),
        None => Some(INITIAL_DELAY),
    }
}

/// The number of minutes under which a length or a delay of `seconds` is
/// stored.
pub fn minutes_to_store(seconds: usize) -> (minutes: usize)
    ensures
        minutes == seconds / 60,
{
    // Use minutes
    seconds / 60
}

/// The volume that a stored value stands for. With the prefix of the earlier
/// format the value is one of its five levels, 1 to 5; without it, it is the
/// number of a level, 0 to 2. There is none where the value writes no such
/// number or the prefix is misplaced.
pub open spec fn volume_of(value: Seq<char>) -> Option<VolumeLevel> {
    let prefix = LegacyStorageValues::NumberValue.prefix_text();
    if occurs(value, prefix) {
        match without_prefix(value, prefix) {
            Some(rest) => match number_of(rest) {
                Some(level) => if 1 <= level <= 5 {
                    Some(VolumeLevel::of_stored(VolumeLevel::legacy_as_stored(level as int)))
                } else {
                    None
                },
                None => None,
            },
            None => None,
        }
    } else {
        match number_of(value) {
            Some(level) => if level <= 2 {
                Some(VolumeLevel::of_stored(level as int))
            } else {
                None
            },
            None => None,
        }
    }
}

/// The volume of the bells from what is stored: the loudest where nothing is
/// stored.
pub fn sound_volume_from(stored: Option<&str>) -> (volume: Option<VolumeLevel>)
    ensures
        volume == match stored {
            Some(value) => volume_of(value@),
            None => Some(VolumeLevel::Max),
        },
{
    let value = match stored {
        Some(value) => value,
        None => {
            return Some(VolumeLevel::default());
        },
    };
    let kind = LegacyStorageValues::NumberValue;
    if contains(value, kind.prefix()) {
        let rest = match strip_legacy_prefix(value, &kind) {
            Some(rest) => rest,
            None => {
                return None;
            },
        };
        match parse_number(rest) {
            Some(level) => if 1 <= level && level <= 5 {
                Some(VolumeLevel::from_legacy_value(level))
            } else {
                None
            },
            None => None,
        }
    } else {
        match parse_number(value) {
            Some(level) => if level <= 2 {
                Some(VolumeLevel::from_config_value(level))
            } else {
                None
            },
            None => None,
        }
    }
}

/// Whether the last session, whose date is stored as `stored`, took place on
/// `date`; it did not where nothing is stored. There is no answer where the
/// prefix of the earlier format is misplaced in what is stored.
pub fn is_last_session_today(stored: Option<&str>, date: &str) -> (today: Option<bool>)
    ensures
        today == match stored {
            Some(last_date) => match without_prefix(
                last_date@,
                LegacyStorageValues::StringValue.prefix_text(),
            ) {
                Some(rest) => Some(rest == date@),
                None => None,
            },
            None => Some(false),
        },
{
    match stored {
        Some(last_date) => match strip_legacy_prefix(last_date, &LegacyStorageValues::StringValue) {
            Some(rest) => Some(same_text(rest, date)),
            None => None,
        },
        None => Some(false),
    }
}

/// The number of today's sessions once another has ended, when `count` is
/// what was stored as their number: one more than was stored if the last
/// session took place today, and one if it did not. There is none where the
/// prefix of the earlier format is misplaced in what is stored, or where the
/// last session took place today and what is stored writes no number that can
/// be raised by one.
pub open spec fn sessions_today_of(count: Seq<char>, last_session_today: bool) -> Option<usize> {
    match without_prefix(count, LegacyStorageValues::NumberValue.prefix_text()) {
        Some(rest) => if last_session_today {
            match number_of(rest) {
                Some(sessions) => if sessions + 1 <= usize::MAX {
                    Some((sessions + 1) as usize)
                } else {
                    None
                },
                None => None,
            }
        } else {
            Some(1usize)
        },
        None => None,
    }
}

/// The number of today's sessions once another has ended, from what is
/// stored as their number: where nothing is stored, none was counted.
pub fn sessions_today_from(stored: Option<&str>, last_session_today: bool) -> (sessions: Option<
    usize,
>)
    ensures
        sessions == sessions_today_of(
            match stored {
                Some(value) => value@,
                None => "0"@,
            },
            last_session_today,
        ),
{
    let value = match stored {
        Some(value) => value,
        None => "0",
    };
    let rest = match strip_legacy_prefix(value, &LegacyStorageValues::NumberValue) {
        Some(rest) => rest,
        None => {
            return None;
        },
    };
    // If the last session was today, add to the number. Otherwise set to 1
    if last_session_today {
        match parse_number(rest) {
            Some(sessions) => sessions.checked_add(1),
            None => None,
        }
    } else {
        Some(1)
    }
}

/// The date of a session as it is stored: the year, the month and the day
/// with hyphens between them, month and day in two places at least.
pub open spec fn date_text(year: nat, month: nat, day: nat) -> Seq<char> {
    decimal_text(year) + seq!['-'] + two_digit_text(month) + seq!['-'] + two_digit_text(day)
}

/// Writes the date of a session as it is stored. `month` counts from 1.
pub fn session_date(year: u32, month: u32, day: u32) -> (date: String)
    ensures
        date@ == date_text(year as nat, month as nat, day as nat),
{
    proof {
        reveal_strlit("-");
        assert("-"@ =~= seq!['-']);
    }
    let mut date = number_text(year as usize);
    date.append("-");
    date.append(two_digit_number_text(month as usize).as_str());
    date.append("-");
    date.append(two_digit_number_text(day as usize).as_str());
    date
}

/// No number, written in digits, holds the prefix of the earlier format.
proof fn lemma_number_holds_no_prefix(number: nat, kind: LegacyStorageValues)
    ensures
        !occurs(decimal_text(number), kind.prefix_text()),
        without_prefix(decimal_text(number), kind.prefix_text()) == Some(decimal_text(number)),
{
    reveal_strlit("__q_numb|");
    reveal_strlit("__q_strn|");
    reveal_strlit("__q_objt|");
    lemma_number_text_round_trip(number);
    lemma_digits_hold_no_other_pattern(decimal_text(number), kind.prefix_text());
}

/// A length or a delay is read back as it was stored, in full minutes: the
/// number of minutes that `minutes_to_store` gives, written in digits,
/// stands for those minutes in seconds.
pub proof fn lemma_stored_minutes_read_back(seconds: usize)
    ensures
        seconds_of(decimal_text((seconds / 60) as nat)) == Some((seconds / 60 * 60) as usize),
{
    let minutes = (seconds / 60) as nat;
    lemma_number_holds_no_prefix(minutes, LegacyStorageValues::NumberValue);
    lemma_number_text_round_trip(minutes);
}

/// A volume is read back as it was stored: the number of a level, written in
/// digits, stands for that level.
pub proof fn lemma_stored_volume_read_back(level: VolumeLevel)
    ensures
        volume_of(decimal_text(level.stored_as() as nat)) == Some(level),
{
    let number = level.stored_as() as nat;
    lemma_number_holds_no_prefix(number, LegacyStorageValues::NumberValue);
    lemma_number_text_round_trip(number);
}

/// Today's sessions are counted on from what was stored: a number of
/// sessions, written in digits, is raised by one when the last session took
/// place today.
pub proof fn lemma_stored_sessions_count_on(sessions: usize)
    requires
        sessions < usize::MAX,
    ensures
        sessions_today_of(decimal_text(sessions as nat), true) == Some((sessions + 1) as usize),
        sessions_today_of(decimal_text(sessions as nat), false) == Some(1usize),
{
    lemma_number_holds_no_prefix(sessions as nat, LegacyStorageValues::NumberValue);
    lemma_number_text_round_trip(sessions as nat);
}

} // verus!
