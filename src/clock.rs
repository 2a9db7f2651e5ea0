//! Wall-clock time as it appears in the names of backup files.

use crate::text::{padded_decimal, push_char, push_padded};
use chrono::{Datelike, Timelike};
use vstd::prelude::*;

verus! {

/// A local date and time of day, to the second.
#[derive(Debug, Clone, Copy, PartialEq, Eq)]
pub struct ClockTime {
    pub year: i32,
    pub month: u32,
    pub day: u32,
    pub hour: u32,
    pub minute: u32,
    pub second: u32,
}

impl ClockTime {
    /// Each field lies in its calendar or clock range.
    pub open spec fn wf(&self) -> bool {
        &&& 1 <= self.month <= 12
        &&& 1 <= self.day <= 31
        &&& self.hour < 24
        &&& self.minute < 60
        &&& self.second < 60
    }
}

/// The year in four digits; a year outside 0..=9999 carries its sign.
pub open spec fn year_text(y: int) -> Seq<char> {
    if 0 <= y <= 9999 {
        padded_decimal(y as nat, 4)
    } else if y < 0 {
        seq!['-'] + padded_decimal((-y) as nat, 4)
    } else {
        seq!['+'] + padded_decimal(y as nat, 4)
    }
}

/// `YYYYMMDD_HHMMSS`.
pub open spec fn stamp_text(t: ClockTime) -> Seq<char> {
    year_text(t.year as int) + padded_decimal(t.month as nat, 2) + padded_decimal(t.day as nat, 2)
        + seq!['_'] + padded_decimal(t.hour as nat, 2) + padded_decimal(t.minute as nat, 2)
        + padded_decimal(t.second as nat, 2)
}

/// Relies on chrono's `Local::now` and the `Datelike` / `Timelike`
/// accessors of its result, whose documentation gives the month as 1 to 12,
/// the day as 1 to 31, the hour as 0 to 23 and minute and second as 0 to 59.
/// `Local::now` takes no argument; it fails only on the machine's state (a
/// system clock set before 1970, a time zone that cannot be read), which no
/// `requires` can rule out.
#[verifier::external_body]
fn local_now() -> (r: ClockTime)
    ensures
        r.wf(),
{
    let now = chrono::Local::now();
    ClockTime {
        year: now.year(),
        month: now.month(),
        day: now.day(),
        hour: now.hour(),
        minute: now.minute(),
        second: now.second(),
    }
}

/// `t` as it appears in file names: `YYYYMMDD_HHMMSS`.
pub fn time_for_filename(t: &ClockTime) -> (r: String)
    ensures
        r@ == stamp_text(*t),
{
    let mut r = String::new();
    let y = t.year as i64;
    if 0 <= y && y <= 9999 {
        push_padded(&mut r, y as u64, 4);
    } else if y < 0 {
        push_char(&mut r, '-');
        push_padded(&mut r, (-y) as u64, 4);
    } else {
        push_char(&mut r, '+');
        push_padded(&mut r, y as u64, 4);
    }
    push_padded(&mut r, t.month as u64, 2);
    push_padded(&mut r, t.day as u64, 2);
    push_char(&mut r, '_');
    push_padded(&mut r, t.hour as u64, 2);
    push_padded(&mut r, t.minute as u64, 2);
    push_padded(&mut r, t.second as u64, 2);
    proof {
        assert(r@ =~= stamp_text(*t));
    }
    r
}

/// The local time now.
pub fn current_time() -> (r: ClockTime)
    ensures
        r.wf(),
{
    local_now()
}

/// The local time now, as it appears in file names.
pub fn get_current_time_for_filename() -> (r: String)
    ensures
        exists|t: ClockTime| t.wf() && r@ == stamp_text(t),
{
    let t = local_now();
    time_for_filename(&t)
}

} // verus!
