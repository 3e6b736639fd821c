//! Wall-clock date and time, decoded from the host's 8-byte record.
use vstd::prelude::*;

verus! {

/// Wall-clock date/time as reported by the host's real-time clock.
#[derive(Debug, Clone, Copy, PartialEq, Eq, Structural)]
pub struct DateTime {
    pub year: u16,
    pub month: u8,
    pub day: u8,
    pub hour: u8,
    pub minute: u8,
    pub second: u8,
}

impl Default for DateTime {
    /// All fields zero.
    fn default() -> (d: DateTime)
        ensures
            d == (DateTime { year: 0, month: 0, day: 0, hour: 0, minute: 0, second: 0 }),
    {
        DateTime { year: 0, month: 0, day: 0, hour: 0, minute: 0, second: 0 }
    }
}

/// The date/time in the host's record: the year as a little-endian `u16`
/// in bytes 0 and 1, then month, day, hour, minute and second; byte 7 is
/// padding. `None` when the host wrote fewer than 8 bytes.
pub open spec fn spec_decode_time(record: Seq<u8>, written: i32) -> Option<DateTime> {
    if written < 8 {
        None
    } else {
        Some(
            DateTime {
                year: (record[0] + 256 * record[1]) as u16,
                month: record[2],
                day: record[3],
                hour: record[4],
                minute: record[5],
                second: record[6],
            },
        )
    }
}

impl DateTime {
    /// Decodes the host's record, of which it reports to have written
    /// `written` bytes.
    pub fn from_record(record: &[u8; 8], written: i32) -> (t: Option<DateTime>)
        ensures
            t == spec_decode_time(record@, written),
    {
        if written < 8 {
            return None;
        }
        let lo = record[0] as u16;
        let hi = record[1] as u16;
        Some(
            DateTime {
                year: lo + 256 * hi,
                month: record[2],
                day: record[3],
                hour: record[4],
                minute: record[5],
                second: record[6],
            },
        )
    }
}

/// A full record decodes field by field: the year is bytes 0 and 1, little
/// endian, and month, day, hour, minute and second are bytes 2 to 6 as
/// they stand; a short record decodes to nothing.
pub proof fn time_record_fields(record: Seq<u8>, written: i32)
    requires
        record.len() == 8,
    ensures
        written >= 8 ==> {
            let t = spec_decode_time(record, written);
            &&& t is Some
            &&& t.unwrap().year as int == record[0] + 256 * record[1]
            &&& t.unwrap().month == record[2]
            &&& t.unwrap().day == record[3]
            &&& t.unwrap().hour == record[4]
            &&& t.unwrap().minute == record[5]
            &&& t.unwrap().second == record[6]
        },
        written < 8 ==> spec_decode_time(record, written) is None,
{
}

} // verus!
