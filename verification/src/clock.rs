//! Durations and timestamps as they are shown to the user.
use vstd::prelude::*;

use crate::text::{decimal, push_char, push_decimal};

verus! {

/// `n` followed by a unit letter.
pub open spec fn with_unit(n: nat, unit: char) -> Seq<char> {
    decimal(n).push(unit)
}

/// An elapsed time of `total` seconds: hours, minutes and seconds
/// (`"1h 2m 3s"`), minutes and seconds when under an hour (`"2m 3s"`), or
/// seconds alone when under a minute (`"3s"`).
pub open spec fn elapsed_text(total: nat) -> Seq<char> {
    let hours = total / 3600;
    let minutes = (total % 3600) / 60;
    let seconds = total % 60;
    if hours > 0 {
        with_unit(hours, 'h') + seq![' '] + with_unit(minutes, 'm') + seq![' '] + with_unit(
            seconds,
            's',
        )
    } else if minutes > 0 {
        with_unit(minutes, 'm') + seq![' '] + with_unit(seconds, 's')
    } else {
        with_unit(seconds, 's')
    }
}

fn push_with_unit(out: &mut String, n: u64, unit: char)
    ensures
        final(out)@ == old(out)@ + with_unit(n as nat, unit),
{
    push_decimal(out, n);
    push_char(out, unit);
    assert(out@ =~= old(out)@ + with_unit(n as nat, unit));
}

/// An elapsed time given in whole seconds, written as `elapsed_text`.
pub fn format_elapsed_seconds(total_seconds: u64) -> (r: String)
    ensures
        r@ == elapsed_text(total_seconds as nat),
{
    let hours = total_seconds / 3600;
    let minutes = (total_seconds % 3600) / 60;
    let seconds = total_seconds % 60;
    let mut out = String::new();
    if hours > 0 {
        push_with_unit(&mut out, hours, 'h');
        push_char(&mut out, ' ');
        push_with_unit(&mut out, minutes, 'm');
        push_char(&mut out, ' ');
        push_with_unit(&mut out, seconds, 's');
    } else if minutes > 0 {
        push_with_unit(&mut out, minutes, 'm');
        push_char(&mut out, ' ');
        push_with_unit(&mut out, seconds, 's');
    } else {
        push_with_unit(&mut out, seconds, 's');
    }
    assert(out@ =~= elapsed_text(total_seconds as nat));
    out
}

/// The whole seconds of a duration, as std's `Duration::as_secs` counts
/// them: a function of the duration alone.
pub uninterp spec fn whole_seconds(duration: core::time::Duration) -> u64;

/// std `Duration::as_secs`; its answer is named `whole_seconds`.
#[verifier::external_body]
fn duration_whole_seconds(duration: core::time::Duration) -> (r: u64)
    ensures
        r == whole_seconds(duration),
{
    duration.as_secs()
}

/// An elapsed time, written as `elapsed_text` of its whole seconds.
pub fn format_elapsed(duration: core::time::Duration) -> (r: String)
    ensures
        r@ == elapsed_text(whole_seconds(duration) as nat),
{
    let total = duration_whole_seconds(duration);
    format_elapsed_seconds(total)
}

/// The decimal digits of a 128-bit count.
fn decimal_chars_wide(n: u128) -> (v: Vec<char>)
    ensures
        v@ == decimal(n as nat),
    decreases n,
{
    if n < 10 {
        let mut v = Vec::new();
        v.push(digit_of_wide(n));
        assert(v@ =~= seq![crate::text::digit_char(n as nat)]);
        v
    } else {
        let mut v = decimal_chars_wide(n / 10);
        v.push(digit_of_wide(n % 10));
        v
    }
}

fn digit_of_wide(d: u128) -> (c: char)
    requires
        d < 10,
    ensures
        c == crate::text::digit_char(d as nat),
{
    if d == 0 {
        '0'
    } else if d == 1 {
        '1'
    } else if d == 2 {
        '2'
    } else if d == 3 {
        '3'
    } else if d == 4 {
        '4'
    } else if d == 5 {
        '5'
    } else if d == 6 {
        '6'
    } else if d == 7 {
        '7'
    } else if d == 8 {
        '8'
    } else {
        '9'
    }
}

/// The text of a timestamp in milliseconds since the Unix epoch: its decimal
/// digits, or `"0"` where the clock stood before the epoch.
pub open spec fn timestamp_text_spec(millis: Option<u128>) -> Seq<char> {
    match millis {
        Some(ms) => decimal(ms as nat),
        None => seq!['0'],
    }
}

/// Writes a timestamp given in milliseconds since the Unix epoch.
pub fn timestamp_text(millis: Option<u128>) -> (r: String)
    ensures
        r@ == timestamp_text_spec(millis),
{
    match millis {
        Some(ms) => crate::text::string_of(&decimal_chars_wide(ms)),
        None => {
            let mut out = String::new();
            push_char(&mut out, '0');
            assert(out@ =~= seq!['0']);
            out
        },
    }
}

/// How long after the Unix epoch a time lies (std
/// `SystemTime::duration_since(UNIX_EPOCH)`), or `None` for a time before
/// it. The time is opaque here, so nothing is stated of the answer.
#[verifier::external_body]
fn since_unix_epoch(time: std::time::SystemTime) -> Option<core::time::Duration> {
    match time.duration_since(std::time::UNIX_EPOCH) {
        Ok(duration) => Some(duration),
        Err(_) => None,
    }
}

/// The whole milliseconds of a duration (std `Duration::as_millis`). The
/// duration is opaque here, so nothing is stated of the count.
#[verifier::external_body]
fn duration_whole_millis(duration: core::time::Duration) -> u128 {
    duration.as_millis()
}

/// The current time as a decimal count of milliseconds since the Unix epoch
/// (`"0"` before the epoch).
pub fn chrono_like_timestamp() -> (r: String)
    ensures
        exists|millis: Option<u128>| r@ == timestamp_text_spec(millis),
{
    let millis = match since_unix_epoch(crate::cache::system_time_now()) {
        Some(duration) => Some(duration_whole_millis(duration)),
        None => None,
    };
    timestamp_text(millis)
}

} // verus!
