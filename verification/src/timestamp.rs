//! Instants as the store assigns them, and their rendering for display.

use vstd::prelude::*;
use vstd::pervasive::unreached;
use crate::text::{push_decimal, push_signed_decimal, decimal, signed_decimal};

verus! {

/// The calendar reading, in UTC, that the `time` crate gives for the instant
/// `unix_nanos` nanoseconds after the Unix epoch: year, month (1 is January),
/// day of the month, hour, minute and second. `None` where the crate has no
/// date for that instant.
pub uninterp spec fn civil_time_of(unix_nanos: int) -> Option<(int, int, int, int, int, int)>;

/// The month of a calendar date.
#[derive(Clone, Copy, Debug, PartialEq, Eq, Structural)]
pub enum Month {
    January,
    February,
    March,
    April,
    May,
    June,
    July,
    August,
    September,
    October,
    November,
    December,
}

/// A calendar reading of an instant, in UTC.
#[derive(Clone, Copy, Debug, PartialEq, Eq, Structural)]
pub struct CivilTime {
    pub year: i32,
    pub month: Month,
    pub day: u8,
    pub hour: u8,
    pub minute: u8,
    pub second: u8,
}

/// An instant for which a calendar reading exists, held as nanoseconds since
/// the Unix epoch.
#[derive(Clone, Copy, Debug)]
pub struct Timestamp {
    unix_nanos: i128,
}

impl Month {
    /// The month with the given number, where 1 is January.
    pub open spec fn of_number(number: int) -> Option<Month> {
        if number == 1 {
            Some(Month::January)
        } else if number == 2 {
            Some(Month::February)
        } else if number == 3 {
            Some(Month::March)
        } else if number == 4 {
            Some(Month::April)
        } else if number == 5 {
            Some(Month::May)
        } else if number == 6 {
            Some(Month::June)
        } else if number == 7 {
            Some(Month::July)
        } else if number == 8 {
            Some(Month::August)
        } else if number == 9 {
            Some(Month::September)
        } else if number == 10 {
            Some(Month::October)
        } else if number == 11 {
            Some(Month::November)
        } else if number == 12 {
            Some(Month::December)
        } else {
            None
        }
    }

    /// The English name of the month.
    pub open spec fn name(self) -> Seq<char> {
        match self {
            Month::January => "January"@,
            Month::February => "February"@,
            Month::March => "March"@,
            Month::April => "April"@,
            Month::May => "May"@,
            Month::June => "June"@,
            Month::July => "July"@,
            Month::August => "August"@,
            Month::September => "September"@,
            Month::October => "October"@,
            Month::November => "November"@,
            Month::December => "December"@,
        }
    }

    /// The month with the given number, where 1 is January.
    pub fn from_number(number: u8) -> (month: Option<Month>)
        ensures
            month == Month::of_number(number as int),
    {
        if number == 1 {
            Some(Month::January)
        } else if number == 2 {
            Some(Month::February)
        } else if number == 3 {
            Some(Month::March)
        } else if number == 4 {
            Some(Month::April)
        } else if number == 5 {
            Some(Month::May)
        } else if number == 6 {
            Some(Month::June)
        } else if number == 7 {
            Some(Month::July)
        } else if number == 8 {
            Some(Month::August)
        } else if number == 9 {
            Some(Month::September)
        } else if number == 10 {
            Some(Month::October)
        } else if number == 11 {
            Some(Month::November)
        } else if number == 12 {
            Some(Month::December)
        } else {
            None
        }
    }

    /// The English name of the month.
    pub fn as_str(&self) -> (name: &'static str)
        ensures
            name@ == self.name(),
    {
        match self {
            Month::January => "January",
            Month::February => "February",
            Month::March => "March",
            Month::April => "April",
            Month::May => "May",
            Month::June => "June",
            Month::July => "July",
            Month::August => "August",
            Month::September => "September",
            Month::October => "October",
            Month::November => "November",
            Month::December => "December",
        }
    }
}

impl CivilTime {
    /// The calendar reading that a tuple of fields stands for, if its month
    /// number names a month.
    pub open spec fn of_fields(fields: (int, int, int, int, int, int)) -> Option<CivilTime> {
        match Month::of_number(fields.1) {
            Some(month) => Some(
                (CivilTime {
                    year: fields.0 as i32,
                    month,
                    day: fields.2 as u8,
                    hour: fields.3 as u8,
                    minute: fields.4 as u8,
                    second: fields.5 as u8,
                }),
            ),
            None => None,
        }
    }

    /// The text shown for a calendar reading: year, month name and day,
    /// then hour, minute and second, none of them padded.
    pub open spec fn text(self) -> Seq<char> {
        signed_decimal(self.year as int) + seq!['-'] + self.month.name() + seq!['-'] + decimal(
            self.day as nat,
        ) + " at "@ + decimal(self.hour as nat) + seq![':'] + decimal(self.minute as nat) + seq![
            ':',
        ] + decimal(self.second as nat)
    }

    /// Renders the reading as `text` describes.
    pub fn to_display_string(&self) -> (shown: String)
        ensures
            shown@ == self.text(),
    {
        proof {
            reveal_strlit("-");
            reveal_strlit(":");
        }
        let mut shown = String::new();
        push_signed_decimal(&mut shown, self.year as i64);
        shown.append("-");
        shown.append(self.month.as_str());
        shown.append("-");
        push_decimal(&mut shown, self.day as u64);
        shown.append(" at ");
        push_decimal(&mut shown, self.hour as u64);
        shown.append(":");
        push_decimal(&mut shown, self.minute as u64);
        shown.append(":");
        push_decimal(&mut shown, self.second as u64);
        assert(shown@ =~= self.text());
        shown
    }
}

/// Calls `time::OffsetDateTime::from_unix_timestamp_nanos` and reads the
/// year, month number, day, hour, minute and second of what it returns.
/// Trusted: the fields are those that `civil_time_of` names, and they lie in
/// the ranges that the crate documents for its accessors.
#[verifier::external_body]
fn civil_fields_from_unix_nanos(unix_nanos: i128) -> (fields: Option<(i32, u8, u8, u8, u8, u8)>)
    ensures
        match fields {
            Some(f) => civil_time_of(unix_nanos as int) == Some(
                (f.0 as int, f.1 as int, f.2 as int, f.3 as int, f.4 as int, f.5 as int),
            ),
            None => civil_time_of(unix_nanos as int) is None,
        },
        fields matches Some(f) ==> 1 <= f.1 <= 12 && 1 <= f.2 <= 31 && f.3 < 24 && f.4 < 60 && f.5
            < 60,
{
    match time::OffsetDateTime::from_unix_timestamp_nanos(unix_nanos) {
        Ok(t) => Some((t.year(), u8::from(t.month()), t.day(), t.hour(), t.minute(), t.second())),
        Err(_) => None,
    }
}

impl View for Timestamp {
    type V = int;

    closed spec fn view(&self) -> int {
        self.unix_nanos as int
    }
}

impl Timestamp {
    #[verifier::type_invariant]
    spec fn has_calendar_reading(self) -> bool {
        match civil_time_of(self.unix_nanos as int) {
            Some(fields) => Month::of_number(fields.1) is Some && i32::MIN <= fields.0 <= i32::MAX
                && 0 <= fields.2 <= u8::MAX && 0 <= fields.3 <= u8::MAX && 0 <= fields.4
                <= u8::MAX && 0 <= fields.5 <= u8::MAX,
            None => false,
        }
    }

    /// Whether an instant has a calendar reading.
    pub open spec fn representable(unix_nanos: int) -> bool {
        civil_time_of(unix_nanos) is Some
    }

    /// The calendar reading of an instant that has one.
    pub open spec fn civil_at(unix_nanos: int) -> CivilTime
        recommends
            Timestamp::representable(unix_nanos),
    {
        CivilTime::of_fields(civil_time_of(unix_nanos)->0)->0
    }

    /// The instant `unix_nanos` nanoseconds after the Unix epoch, where it
    /// has a calendar reading.
    pub fn from_unix_nanos(unix_nanos: i128) -> (made: Option<Timestamp>)
        ensures
            made is Some <==> Timestamp::representable(unix_nanos as int),
            made matches Some(t) ==> t@ == unix_nanos,
    {
        match civil_fields_from_unix_nanos(unix_nanos) {
            Some(_) => Some(Timestamp { unix_nanos }),
            None => None,
        }
    }

    /// Nanoseconds since the Unix epoch.
    pub fn unix_nanos(&self) -> (nanos: i128)
        ensures
            nanos == self@,
    {
        self.unix_nanos
    }

    /// The calendar reading of this instant.
    pub fn civil(&self) -> (reading: CivilTime)
        ensures
            Timestamp::representable(self@),
            reading == Timestamp::civil_at(self@),
    {
        proof {
            use_type_invariant(self);
        }
        match civil_fields_from_unix_nanos(self.unix_nanos) {
            Some(f) => match Month::from_number(f.1) {
                Some(month) => CivilTime {
                    year: f.0,
                    month,
                    day: f.2,
                    hour: f.3,
                    minute: f.4,
                    second: f.5,
                },
                None => unreached(),
            },
            None => unreached(),
        }
    }

    /// The text shown for this instant.
    pub fn to_display_string(&self) -> (shown: String)
        ensures
            shown@ == Timestamp::civil_at(self@).text(),
    {
        self.civil().to_display_string()
    }

    /// Whether this instant lies strictly before `other`.
    pub fn is_before(&self, other: &Timestamp) -> (before: bool)
        ensures
            before == (self@ < other@),
    {
        self.unix_nanos < other.unix_nanos
    }

    /// Whether this instant lies more than `seconds` seconds before `now`.
    pub fn is_older_than(&self, now: &Timestamp, seconds: u32) -> (older: bool)
        ensures
            older == (self@ < now@ - seconds as int * 1_000_000_000),
    {
        let span: i128 = seconds as i128 * 1_000_000_000i128;
        match now.unix_nanos.checked_sub(span) {
            Some(limit) => self.unix_nanos < limit,
            None => false,
        }
    }
}

} // verus!
