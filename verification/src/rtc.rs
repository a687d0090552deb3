//! The wake alarm of the real-time clock.

use crate::decimal::{decimal_digits, parse_u64, parse_unsigned, push_decimal};
use crate::text::{trim_end, trim_end_str};
use std::num::ParseIntError;
use vstd::prelude::*;

verus! {

/// The argument of `rtcwake` that sets the alarm `secs` seconds after the
/// Unix epoch.
pub open spec fn rtc_wake_arg_spec(secs: u64) -> Seq<char> {
    "-t "@ + decimal_digits(secs as nat)
}

/// The argument of `rtcwake` that sets the alarm `secs` seconds after the
/// Unix epoch: `-t ` and the number, in one argument.
pub fn rtc_wake_arg(secs: u64) -> (arg: String)
    ensures
        arg@ == rtc_wake_arg_spec(secs),
{
    let mut arg = "-t ".to_owned();
    push_decimal(&mut arg, secs);
    arg
}

/// The wake time, in seconds after the Unix epoch, that the clock's
/// `runtime_suspended_time` file reports: the number in the file, trailing
/// whitespace aside, and a wake time only where that number is zero.
pub fn rtc_wake_time(content: &str) -> (r: Result<Option<u64>, ParseIntError>)
    ensures
        match r {
            Ok(t) => match parse_unsigned(trim_end(content@), u64::MAX as nat) {
                Some(n) => t == if n == 0 {
                    Some(0u64)
                } else {
                    None::<u64>
                },
                None => false,
            },
            Err(_) => parse_unsigned(trim_end(content@), u64::MAX as nat) is None,
        },
{
    match parse_u64(trim_end_str(content)) {
        Ok(number) => Ok(
            if number == 0 {
                Some(number)
            } else {
                None
            },
        ),
        Err(e) => Err(e),
    }
}

} // verus!
