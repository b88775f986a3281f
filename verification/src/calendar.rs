//! Timestamps as calendar text, by the `chrono` crate.

use crate::block::{Block, BlockView};
use crate::render::{decimal, push_decimal};
use vstd::prelude::*;
use vstd::string::*;

verus! {

/// The date and time of day, in UTC, of the second `secs` after the Unix
/// epoch, as `chrono` writes it; `None` where `chrono` has no date for it.
///
/// This is a name for what `chrono::DateTime::from_timestamp` and the
/// `Display` of `chrono::NaiveDateTime` give together. The calendar is not
/// written out here; all that is used of it is that the text depends on
/// `secs` alone.
pub uninterp spec fn datetime_text(secs: i64) -> Option<Seq<char>>;

/// Calls `chrono::DateTime::from_timestamp` with `secs` and no nanoseconds,
/// and renders the date and time it returns, without zone, through
/// `NaiveDateTime`'s `Display`.
///
/// Taken on trust: the result is `None` exactly where `chrono` returns no
/// date, and otherwise the text that `chrono` writes.
#[verifier::external_body]
fn datetime_string(secs: i64) -> (text: Option<String>)
    ensures
        datetime_text(secs) == (match text {
            Some(t) => Some(t@),
            None => None,
        }),
{
    match chrono::DateTime::from_timestamp(secs, 0) {
        Some(moment) => Some(moment.naive_utc().to_string()),
        None => None,
    }
}

/// Writes `timestamp`, seconds since the Unix epoch, as a date and a time of
/// day. The number is read as a signed one of the same sixty-four bits, so
/// the upper half of the range stands for moments before the epoch.
pub fn format_timestamp(timestamp: u64) -> (text: Option<String>)
    ensures
        datetime_text(timestamp as i64) == (match text {
            Some(t) => Some(t@),
            None => None,
        }),
{
    datetime_string(#[verifier::truncate] (timestamp as i64))
}

/// The line that describes a block made at the moment written as `moment`.
pub open spec fn description(block: BlockView, moment: Seq<char>) -> Seq<char> {
    "Block "@ + decimal(block.index as nat) + ": "@ + block.data + " at "@ + moment
}

impl Block {
    /// Describes the block in one line: its index, its data, and `moment`
    /// as the time it was made.
    pub fn describe_at(&self, moment: &str) -> (line: String)
        ensures
            line@ == description(self@, moment@),
    {
        let mut line = String::from_str("Block ");
        push_decimal(&mut line, self.index as u64);
        line.append(": ");
        line.append(self.data.as_str());
        line.append(" at ");
        line.append(moment);
        line
    }

    /// Describes the block in one line: its index, its data and the date
    /// and time of its timestamp. `None` where the timestamp has no calendar
    /// date.
    pub fn describe(&self) -> (line: Option<String>)
        ensures
            (match datetime_text(self.timestamp as i64) {
                Some(moment) => line matches Some(l) && l@ == description(self@, moment),
                None => line is None,
            }),
    {
        match format_timestamp(self.timestamp) {
            Some(moment) => Some(self.describe_at(moment.as_str())),
            None => None,
        }
    }
}

} // verus!
