//! Decoding of the format's packed 16-bit date and time fields.
//!
//! A packed date holds `year - 2000` in its top 7 bits, the month (1 =
//! January) in the next 4 and the day in the low 5. A packed time holds the
//! hour in its top 5 bits, the minute in the next 6 and the second, divided
//! by two, in the low 5.

use vstd::prelude::*;

verus! {

/// Offset added to the 7-bit year field of a packed date.
pub const FATX_EPOCH: u16 = 2000;

/// Year stored in the packed date `encoded`.
pub open spec fn spec_date_year(encoded: u16) -> u16 {
    (((encoded >> 9) & 0x7f) + FATX_EPOCH) as u16
}

/// Month stored in the packed date `encoded` (1 = January).
pub open spec fn spec_date_month(encoded: u16) -> u8 {
    ((encoded >> 5) & 0xf) as u8
}

/// Day stored in the packed date `encoded`.
pub open spec fn spec_date_day(encoded: u16) -> u8 {
    (encoded & 0x1f) as u8
}

/// Hour stored in the packed time `encoded`.
pub open spec fn spec_time_hour(encoded: u16) -> u8 {
    ((encoded >> 11) & 0x1f) as u8
}

/// Minute stored in the packed time `encoded`.
pub open spec fn spec_time_minute(encoded: u16) -> u8 {
    ((encoded >> 5) & 0x3f) as u8
}

/// Second stored in the packed time `encoded`; the field counts two-second
/// steps, so the result is always even.
pub open spec fn spec_time_second(encoded: u16) -> u8 {
    (((encoded & 0x1f) as u8) * 2) as u8
}

/// The packed form of a calendar date; inverse of the three date fields for
/// years 2000 to 2127, months and days that fit their fields.
pub open spec fn spec_encode_date(year: u16, month: u8, day: u8) -> u16 {
    ((((year - FATX_EPOCH) as u16) << 9) | ((month as u16) << 5) | (day as u16)) as u16
}

/// The packed form of a wall-clock time; seconds are rounded down to even.
pub open spec fn spec_encode_time(hour: u8, minute: u8, second: u8) -> u16 {
    (((hour as u16) << 11) | ((minute as u16) << 5) | ((second / 2) as u16)) as u16
}

/// A calendar date decoded from a packed 16-bit field.
pub struct Date {
    pub year: u16,
    /// 1 = January
    pub month: u8,
    pub day: u8,
}

impl Date {
    /// Decodes a packed date field.
    pub fn from_fatx_encoding(encoded: u16) -> (r: Self)
        ensures
            r.year == spec_date_year(encoded),
            r.month == spec_date_month(encoded),
            r.day == spec_date_day(encoded),
    {
        proof {
            assert(((encoded >> 9) & 0x7f) < 128) by (bit_vector);
        }
        Self {
            year: ((encoded >> 9) & 0x7f) + FATX_EPOCH,
            month: ((encoded >> 5) & 0xf) as u8,
            day: (encoded & 0x1f) as u8,
        }
    }

    pub fn year(&self) -> (r: u16)
        ensures
            r == self.year,
    {
        self.year
    }

    /// Returns the month, where 1 = January.
    pub fn month(&self) -> (r: u8)
        ensures
            r == self.month,
    {
        self.month
    }

    pub fn day(&self) -> (r: u8)
        ensures
            r == self.day,
    {
        self.day
    }
}

/// A wall-clock time decoded from a packed 16-bit field.
pub struct Time {
    pub hour: u8,
    pub minute: u8,
    pub second: u8,
}

impl Time {
    /// Decodes a packed time field.
    pub fn from_fatx_encoding(encoded: u16) -> (r: Self)
        ensures
            r.hour == spec_time_hour(encoded),
            r.minute == spec_time_minute(encoded),
            r.second == spec_time_second(encoded),
    {
        proof {
            assert((encoded & 0x1f) < 32) by (bit_vector);
        }
        Self {
            hour: ((encoded >> 11) & 0x1f) as u8,
            minute: ((encoded >> 5) & 0x3f) as u8,
            second: ((encoded & 0x1f) * 2) as u8,
        }
    }

    pub fn hour(&self) -> (r: u8)
        ensures
            r == self.hour,
    {
        self.hour
    }

    pub fn minute(&self) -> (r: u8)
        ensures
            r == self.minute,
    {
        self.minute
    }

    pub fn second(&self) -> (r: u8)
        ensures
            r == self.second,
    {
        self.second
    }
}

/// A calendar date and wall-clock time decoded from a pair of packed fields.
pub struct DateTime {
    pub date: Date,
    pub time: Time,
}

impl DateTime {
    /// Decodes a packed date field and a packed time field.
    pub fn from_fatx_encoding(date_encoded: u16, time_encoded: u16) -> (r: Self)
        ensures
            r.date.year == spec_date_year(date_encoded),
            r.date.month == spec_date_month(date_encoded),
            r.date.day == spec_date_day(date_encoded),
            r.time.hour == spec_time_hour(time_encoded),
            r.time.minute == spec_time_minute(time_encoded),
            r.time.second == spec_time_second(time_encoded),
    {
        Self {
            date: Date::from_fatx_encoding(date_encoded),
            time: Time::from_fatx_encoding(time_encoded),
        }
    }

    pub fn year(&self) -> (r: u16)
        ensures
            r == self.date.year,
    {
        self.date.year
    }

    /// Returns the month, where 1 = January.
    pub fn month(&self) -> (r: u8)
        ensures
            r == self.date.month,
    {
        self.date.month
    }

    pub fn day(&self) -> (r: u8)
        ensures
            r == self.date.day,
    {
        self.date.day
    }

    pub fn hour(&self) -> (r: u8)
        ensures
            r == self.time.hour,
    {
        self.time.hour
    }

    pub fn minute(&self) -> (r: u8)
        ensures
            r == self.time.minute,
    {
        self.time.minute
    }

    pub fn second(&self) -> (r: u8)
        ensures
            r == self.time.second,
    {
        self.time.second
    }
}

/// Law: packing a calendar date for years 2000 through 2127, months 1
/// through 12 and days 1 through 31, then decoding it, recovers the same
/// year, month and day.
pub proof fn lemma_date_roundtrip(year: u16, month: u8, day: u8)
    requires
        2000 <= year <= 2127,
        1 <= month <= 12,
        1 <= day <= 31,
    ensures
        spec_date_year(spec_encode_date(year, month, day)) == year,
        spec_date_month(spec_encode_date(year, month, day)) == month,
        spec_date_day(spec_encode_date(year, month, day)) == day,
{
    let e = spec_encode_date(year, month, day);
    assert(2000 <= year <= 2127 && 1 <= month <= 12 && 1 <= day <= 31 ==> {
        let p = ((((year - 2000) as u16) << 9) | ((month as u16) << 5) | (day as u16)) as u16;
        &&& ((p >> 9) & 0x7f) + 2000 == year
        &&& ((p >> 5) & 0xf) as u8 == month
        &&& (p & 0x1f) as u8 == day
    }) by (bit_vector);
}

/// Law: packing a wall-clock time with hours 0 through 23, minutes 0
/// through 59 and seconds 0 through 59, then decoding it, recovers the same
/// hour and minute, and the second rounded down to an even value.
pub proof fn lemma_time_roundtrip(hour: u8, minute: u8, second: u8)
    requires
        hour <= 23,
        minute <= 59,
        second <= 59,
    ensures
        spec_time_hour(spec_encode_time(hour, minute, second)) == hour,
        spec_time_minute(spec_encode_time(hour, minute, second)) == minute,
        spec_time_second(spec_encode_time(hour, minute, second)) == (second / 2) * 2,
{
    assert(hour <= 23 && minute <= 59 && second <= 59 ==> {
        let p = (((hour as u16) << 11) | ((minute as u16) << 5) | ((second / 2) as u16)) as u16;
        &&& ((p >> 11) & 0x1f) as u8 == hour
        &&& ((p >> 5) & 0x3f) as u8 == minute
        &&& (((p & 0x1f) as u8) * 2) as u8 == (second / 2) * 2
    }) by (bit_vector);
}

} // verus!
