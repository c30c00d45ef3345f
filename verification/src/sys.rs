//! The local time, and the date as it is written into the names of sync
//! snapshots.

use crate::text::{padded, push_padded, push_str, to_string};
use chrono::{Datelike, Local, Timelike};
use vstd::prelude::*;

verus! {

/// A moment of local time, with the offset of the local time zone from UTC in
/// seconds (positive to the east).
#[derive(Debug, Clone, Copy, PartialEq, Eq, Structural)]
pub struct LocalTime {
    pub year: i32,
    pub month: u32,
    pub day: u32,
    pub hour: u32,
    pub minute: u32,
    pub second: u32,
    pub offset: i32,
}

impl LocalTime {
    /// The ranges of a calendar date, a time of day, and an offset of less
    /// than a day.
    pub open spec fn valid(&self) -> bool {
        &&& 1 <= self.month <= 12
        &&& 1 <= self.day <= 31
        &&& self.hour <= 23
        &&& self.minute <= 59
        &&& self.second <= 59
        &&& -86400 < self.offset < 86400
    }
}

/// The present moment by `chrono::Local::now`, taken apart with the accessors
/// of `chrono::Datelike` (`year`, `month`, `day`) and `chrono::Timelike`
/// (`hour`, `minute`, `second`) and with `FixedOffset::local_minus_utc`.
/// Claimed: the ranges that chrono documents for these accessors. Which
/// moment it is depends on the clock; chrono gives up on a clock that stands
/// before 1970.
#[verifier::external_body]
pub(crate) fn local_now() -> (t: LocalTime)
    ensures
        t.valid(),
{
    let local = Local::now();
    LocalTime {
        year: local.year(),
        month: local.month(),
        day: local.day(),
        hour: local.hour(),
        minute: local.minute(),
        second: local.second(),
        offset: local.offset().local_minus_utc(),
    }
}

/// A number written in decimal with zeros in front up to the width; the sign
/// of a negative number stands first and counts for the width.
pub open spec fn padded_signed(v: int, width: nat) -> Seq<char> {
    if v < 0 {
        seq!['-'] + padded((-v) as nat, if width > 0 {
            (width - 1) as nat
        } else {
            0
        })
    } else {
        padded(v as nat, width)
    }
}

/// The calendar date and the time of day, as `YYYY-MM-DD:HH:MM:SS`.
pub open spec fn date_and_time(t: LocalTime) -> Seq<char> {
    padded_signed(t.year as int, 4) + seq!['-'] + padded(t.month as nat, 2) + seq!['-'] + padded(
        t.day as nat,
        2,
    ) + seq![':'] + padded(t.hour as nat, 2) + seq![':'] + padded(t.minute as nat, 2) + seq![':']
        + padded(t.second as nat, 2)
}

/// The size of the offset in seconds.
pub open spec fn offset_size(t: LocalTime) -> nat {
    if t.offset < 0 {
        (-t.offset) as nat
    } else {
        t.offset as nat
    }
}

/// The date of a sync snapshot: `YYYY-MM-DD:HH:MM:SS-GMT` and the offset from
/// UTC as `HH:MM`, with a `-` in front when it is to the west. There is never
/// a `+`, which a snapshot name cannot hold.
pub open spec fn syncoid_date(t: LocalTime) -> Seq<char> {
    date_and_time(t) + "-GMT"@ + (if t.offset < 0 {
        seq!['-']
    } else {
        Seq::empty()
    }) + padded(offset_size(t) / 3600, 2) + seq![':'] + padded((offset_size(t) / 60) % 60, 2)
}

/// Appends a number in decimal with zeros up to the width, the sign first.
pub fn push_padded_signed(out: &mut Vec<char>, v: i32, width: usize)
    ensures
        final(out)@ == old(out)@ + padded_signed(v as int, width as nat),
{
    if v < 0 {
        out.push('-');
        let size: u64 = (-(v as i64)) as u64;
        let w: usize = if width > 0 {
            width - 1
        } else {
            0
        };
        push_padded(out, size, w);
        assert(out@ =~= old(out)@ + padded_signed(v as int, width as nat));
    } else {
        push_padded(out, v as u64, width);
    }
}

fn push_date_and_time(out: &mut Vec<char>, t: &LocalTime)
    ensures
        final(out)@ == old(out)@ + date_and_time(*t),
{
    push_padded_signed(out, t.year, 4);
    out.push('-');
    push_padded(out, t.month as u64, 2);
    out.push('-');
    push_padded(out, t.day as u64, 2);
    out.push(':');
    push_padded(out, t.hour as u64, 2);
    out.push(':');
    push_padded(out, t.minute as u64, 2);
    out.push(':');
    push_padded(out, t.second as u64, 2);
    assert(out@ =~= old(out)@ + date_and_time(*t));
}

/// The date of a sync snapshot for the given moment.
pub fn format_syncoid_date(t: &LocalTime) -> (r: String)
    ensures
        r@ == syncoid_date(*t),
{
    let mut out: Vec<char> = Vec::new();
    push_date_and_time(&mut out, t);
    push_str(&mut out, "-GMT");
    let size: u64 = if t.offset < 0 {
        out.push('-');
        (-(t.offset as i64)) as u64
    } else {
        t.offset as u64
    };
    assert(size == offset_size(*t));
    let hours: u64 = size / 3600;
    let minutes: u64 = (size / 60) - (hours * 60);
    assert(minutes == (size / 60) % 60) by (nonlinear_arith)
        requires
            hours == size / 3600,
            minutes == (size / 60) - (hours * 60),
    ;
    push_padded(&mut out, hours, 2);
    out.push(':');
    push_padded(&mut out, minutes, 2);
    assert(out@ =~= syncoid_date(*t));
    to_string(&out)
}

/// The date of a sync snapshot for the present moment.
pub fn get_syncoid_date() -> (r: String)
    ensures
        exists|t: LocalTime| t.valid() && r@ == syncoid_date(t),
{
    let now = local_now();
    format_syncoid_date(&now)
}

/// The calendar date and time of day without separators, as
/// `YYYYMMDDHHMMSS`.
pub open spec fn timestamp(t: LocalTime) -> Seq<char> {
    padded_signed(t.year as int, 4) + padded(t.month as nat, 2) + padded(t.day as nat, 2) + padded(
        t.hour as nat,
        2,
    ) + padded(t.minute as nat, 2) + padded(t.second as nat, 2)
}

/// Appends the moment as `YYYYMMDDHHMMSS`.
pub fn push_timestamp(out: &mut Vec<char>, t: &LocalTime)
    ensures
        final(out)@ == old(out)@ + timestamp(*t),
{
    push_padded_signed(out, t.year, 4);
    push_padded(out, t.month as u64, 2);
    push_padded(out, t.day as u64, 2);
    push_padded(out, t.hour as u64, 2);
    push_padded(out, t.minute as u64, 2);
    push_padded(out, t.second as u64, 2);
    assert(out@ =~= old(out)@ + timestamp(*t));
}

} // verus!
