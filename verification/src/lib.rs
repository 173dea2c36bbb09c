//! Pedalboard bookkeeping: pedalboard sets, parameter paths, EQ presets,
//! tuner notes and the byte-level plugin host helpers.

use vstd::prelude::*;

pub mod text;
pub mod pedalboard_set;
pub mod pedalboard;
pub mod eq_presets;
pub mod yin;
pub mod pedals;
pub mod parameters;
pub mod parameter_updates;
pub mod buffers;
pub mod settings;
pub mod processor_settings;
pub mod server_settings;
pub mod vst3;

use crate::text::push_char;
use chrono::Timelike;

verus! {

/// The directory, under the user's home directory, in which settings are saved.
pub const SAVE_DIR: &'static str = "rs_pedalboard";

/// The path separator a path is written with once it has been normalised.
pub open spec fn forward_slash_char(c: char) -> char {
    if c == '\\' { '/' } else { c }
}

/// `path` with every backslash replaced by a forward slash.
pub open spec fn spec_forward_slash_path(path: Seq<char>) -> Seq<char> {
    path.map_values(|c: char| forward_slash_char(c))
}

/// Writes a path with forward slashes only, so that it reads the same on every platform.
pub fn forward_slash_path(path: &str) -> (res: String)
    ensures
        res@ == spec_forward_slash_path(path@),
{
    let mut res = String::new();
    for c in it: path.chars()
        invariant
            res@ == spec_forward_slash_path(it.seq().take(it.index() as int)),
            it.seq() == path@,
    {
        let d = if c == '\\' { '/' } else { c };
        push_char(&mut res, d);
        assert(it.seq().take(it.index() + 1) =~= it.seq().take(it.index() as int).push(c));
    }
    assert(path@.take(path@.len() as int) =~= path@);
    res
}

/// The system clock's reading (`std::time::SystemTime`).
#[verifier::external_type_specification]
#[verifier::external_body]
pub struct ExSystemTime(std::time::SystemTime);

/// Reads the system clock (`SystemTime::now`). Nothing is promised of the reading.
#[verifier::external_body]
fn system_time_now() -> (now: std::time::SystemTime) {
    std::time::SystemTime::now()
}

/// How long after the Unix epoch a clock reading is (`SystemTime::duration_since(UNIX_EPOCH)`),
/// `None` for a reading from before the epoch. Nothing more is promised of the duration.
#[verifier::external_body]
fn duration_since_epoch(time: &std::time::SystemTime) -> (since: Option<std::time::Duration>) {
    time.duration_since(std::time::UNIX_EPOCH).ok()
}

/// The fractional part of a duration in nanoseconds (`Duration::subsec_nanos`), which its
/// documentation bounds below one second.
#[verifier::external_body]
fn subsec_nanos(duration: &std::time::Duration) -> (nanos: u32)
    ensures
        nanos < 1_000_000_000,
{
    duration.subsec_nanos()
}

/// An identifier taken from the clock: the nanoseconds into the current second.
///
/// Two calls can give the same identifier; it is only meant to tell apart things created at
/// different moments. A clock that reads before the Unix epoch gives 0.
pub fn unique_time_id() -> (id: u32)
    ensures
        id < 1_000_000_000,
{
    let now = system_time_now();
    match duration_since_epoch(&now) {
        Some(since) => subsec_nanos(&since),
        None => 0,
    }
}

/// Two decimal digits, zero padded, of a number below one hundred.
pub open spec fn two_digits(n: nat) -> Seq<char> {
    seq![text::digit_char(n / 10), text::digit_char(n % 10)]
}

/// A time of day written as `HH:MM:SS`.
pub open spec fn clock_text(hour: nat, minute: nat, second: nat) -> Seq<char> {
    two_digits(hour) + seq![':'] + two_digits(minute) + seq![':'] + two_digits(second)
}

/// Whether a text is some valid time of day written as `HH:MM:SS`.
pub open spec fn is_clock_text(t: Seq<char>) -> bool {
    exists|hour: nat, minute: nat, second: nat|
        hour < 24 && minute < 60 && second < 60 && t == clock_text(hour, minute, second)
}

/// The whole seconds of a duration (`Duration::as_secs`). Nothing more is promised of them here.
#[verifier::external_body]
fn duration_secs(duration: &std::time::Duration) -> (secs: u64) {
    duration.as_secs()
}

/// The local time of day, as hour, minute and second, of the moment `secs` seconds and `nanos`
/// nanoseconds after the Unix epoch (`chrono::DateTime::from_timestamp`, then
/// `with_timezone(&Local)`, read through `Timelike::hour`, `minute` and `second`). `None` where
/// chrono cannot represent the moment. Which hour it is depends on the machine's time zone, so
/// only the ranges that `Timelike` documents are promised. The time zone is read from the
/// system's time zone database; chrono panics where that database has no rule for the moment,
/// which depends on the system and not on the arguments, so no `requires` can leave it out.
#[verifier::external_body]
fn local_time_of_day(secs: u64, nanos: u32) -> (time: Option<(u32, u32, u32)>)
    requires
        secs <= i64::MAX,
    ensures
        time matches Some(t) ==> t.0 < 24 && t.1 < 60 && t.2 < 60,
{
    match chrono::DateTime::from_timestamp(secs as i64, nanos) {
        Some(utc) => {
            let local = utc.with_timezone(&chrono::Local);
            Some((local.hour(), local.minute(), local.second()))
        },
        None => None,
    }
}

/// A time of day formatted by chrono as `%H:%M:%S` (`NaiveTime::from_hms_opt`, `format`):
/// each field zero padded to two digits and separated by colons, as chrono documents for these
/// specifiers.
#[verifier::external_body]
fn format_time_of_day(hour: u32, minute: u32, second: u32) -> (text: String)
    requires
        hour < 24,
        minute < 60,
        second < 60,
    ensures
        text@ == clock_text(hour as nat, minute as nat, second as nat),
{
    chrono::NaiveTime::from_hms_opt(hour, minute, second).unwrap().format("%H:%M:%S").to_string()
}

/// A time of day read from the clock, written as `HH:MM:SS`; no reading gives no text.
pub fn clock_reading_text(time: Option<(u32, u32, u32)>) -> (text: Option<String>)
    requires
        time matches Some(t) ==> t.0 < 24 && t.1 < 60 && t.2 < 60,
    ensures
        match time {
            Some(t) => text matches Some(s) && s@ == clock_text(t.0 as nat, t.1 as nat, t.2 as nat),
            None => text is None,
        },
{
    match time {
        Some((hour, minute, second)) => Some(format_time_of_day(hour, minute, second)),
        None => None,
    }
}

/// Writes log timestamps as the local time of day only, without the date.
pub struct TimeOnlyFormat;

impl TimeOnlyFormat {
    /// The current local time of day, written as `HH:MM:SS`. There is none when the clock reads
    /// before the Unix epoch, or further from it than chrono can represent.
    pub fn format_time(&self) -> (text: Option<String>)
        ensures
            text matches Some(t) ==> is_clock_text(t@),
    {
        let now = system_time_now();
        let since = match duration_since_epoch(&now) {
            Some(since) => since,
            None => return None,
        };
        let secs = duration_secs(&since);
        if secs > 9_223_372_036_854_775_807u64 {
            return None;
        }
        let nanos = subsec_nanos(&since);
        let time = local_time_of_day(secs, nanos);
        let text = clock_reading_text(time);
        proof {
            if let Some(t) = time {
                assert(is_clock_text(text->0@)) by {
                    assert(text->0@ == clock_text(t.0 as nat, t.1 as nat, t.2 as nat));
                }
            }
        }
        text
    }
}

} // verus!
