//! Whether the charger is plugged in.

use crate::decimal::{parse_u8, parse_unsigned};
use crate::text::{trim_end, trim_end_str};
use std::num::ParseIntError;
use vstd::prelude::*;

verus! {

/// Whether the content of the power supply's `online` file says that the
/// charger is plugged in: the file holds a `u8`, trailing whitespace aside,
/// and `1` means plugged in.
pub fn plugged_in_from(content: &str) -> (r: Result<bool, ParseIntError>)
    ensures
        match r {
            Ok(b) => match parse_unsigned(trim_end(content@), u8::MAX as nat) {
                Some(v) => b == (v == 1),
                None => false,
            },
            Err(_) => parse_unsigned(trim_end(content@), u8::MAX as nat) is None,
        },
{
    match parse_u8(trim_end_str(content)) {
        Ok(v) => Ok(v == 1),
        Err(e) => Err(e),
    }
}

} // verus!
