//! The charge control mode of the embedded controller: reading what
//! `ectool chargecontrol` prints, and the arguments that set it.

use crate::decimal::{
    decimal_digits, lemma_decimal_roundtrip, parse_u32, parse_unsigned, u32_to_decimal,
};
use crate::text::{
    split_lines, split_once, split_once_char, str_eq, string_from_utf8, strip_first_last,
    strip_first_last_str, text_lines, trim, trim_end, trim_end_str, trim_start, trim_start_str,
    trim_str,
};
use std::num::ParseIntError;
use std::string::FromUtf8Error;
use vstd::prelude::*;
use vstd::utf8::*;

verus! {

#[derive(Debug, Clone, Copy, PartialEq, Eq, Structural)]
pub struct Sustainer {
    /// %
    pub min: u32,
    /// %
    pub max: u32,
}

#[derive(Debug, Clone, Copy, PartialEq, Eq, Structural)]
pub enum ChargeControl {
    Normal(Option<Sustainer>),
    Idle,
}

/// Why the charge control mode could not be read.
#[derive(Debug)]
pub enum Error {
    Io(std::io::Error),
    FromUtf8(FromUtf8Error),
    Format,
    ParseInt(ParseIntError),
}

/// How reading the `ectool chargecontrol` text goes.
pub enum ChargeControlOutcome {
    /// It names this mode.
    Parsed(ChargeControl),
    /// It is not laid out as expected.
    Format,
    /// A percentage is not a `u32`.
    BadNumber,
    /// A line or a slice that the reading takes is not there (it panics).
    OutOfBounds,
}

/// A sustainer percentage: the text between its first and last character
/// (the brackets around the number).
pub open spec fn percent_outcome(p: Seq<char>) -> Option<Option<nat>> {
    match strip_first_last(p) {
        None => None,
        Some(inner) => Some(parse_unsigned(inner, u32::MAX as nat)),
    }
}

/// The sustainer that follows `on`: the text before the `'~'` holds the
/// lower bound, and (as the command's reading is written) the upper bound
/// is read from that same text, trimmed on both sides.
pub open spec fn sustainer_outcome(rest: Seq<char>) -> ChargeControlOutcome {
    match split_once(rest, '~') {
        None => ChargeControlOutcome::Format,
        Some((p0, _)) => match percent_outcome(trim_end(p0)) {
            None => ChargeControlOutcome::OutOfBounds,
            Some(None) => ChargeControlOutcome::BadNumber,
            Some(Some(min)) => match percent_outcome(trim(p0)) {
                None => ChargeControlOutcome::OutOfBounds,
                Some(None) => ChargeControlOutcome::BadNumber,
                Some(Some(max)) => ChargeControlOutcome::Parsed(
                    ChargeControl::Normal(Some(Sustainer { min: min as u32, max: max as u32 })),
                ),
            },
        },
    }
}

/// The second line, read in normal mode: `... = on <min> ~ <max>` or
/// `... = off ...`.
pub open spec fn normal_outcome(lines: Seq<Seq<char>>) -> ChargeControlOutcome {
    if lines.len() < 2 {
        ChargeControlOutcome::OutOfBounds
    } else {
        match split_once(lines[1], '=') {
            None => ChargeControlOutcome::Format,
            Some((_, right)) => match split_once(trim_start(right), ' ') {
                None => ChargeControlOutcome::Format,
                Some((is_on, rest)) => if is_on == "on"@ {
                    sustainer_outcome(rest)
                } else if is_on == "off"@ {
                    ChargeControlOutcome::Parsed(ChargeControl::Normal(None))
                } else {
                    ChargeControlOutcome::Format
                },
            },
        }
    }
}

/// How reading the text that `ectool chargecontrol` printed goes: the first
/// line `... = <MODE> ...` names the mode; in mode `NORMAL` the second line
/// says whether a sustainer is on.
pub open spec fn charge_control_outcome(output: Seq<char>) -> ChargeControlOutcome {
    let lines = text_lines(output);
    if lines.len() == 0 {
        ChargeControlOutcome::OutOfBounds
    } else {
        match split_once(lines[0], '=') {
            None => ChargeControlOutcome::Format,
            Some((_, right)) => match split_once(trim(right), ' ') {
                None => ChargeControlOutcome::Format,
                Some((mode, _)) => if mode == "NORMAL"@ {
                    normal_outcome(lines)
                } else if mode == "IDLE"@ {
                    ChargeControlOutcome::Parsed(ChargeControl::Idle)
                } else {
                    ChargeControlOutcome::Format
                },
            },
        }
    }
}

/// Does the reading of `output` stay within its lines and slices?
pub open spec fn charge_control_in_bounds_spec(output: Seq<char>) -> bool {
    !(charge_control_outcome(output) is OutOfBounds)
}

/// What reading `output` returns, given the outcome.
pub open spec fn charge_control_result(output: Seq<char>, r: Result<ChargeControl, Error>) -> bool {
    match charge_control_outcome(output) {
        ChargeControlOutcome::Parsed(c) => r == Ok::<ChargeControl, Error>(c),
        ChargeControlOutcome::Format => r matches Err(Error::Format),
        ChargeControlOutcome::BadNumber => r matches Err(Error::ParseInt(_)),
        ChargeControlOutcome::OutOfBounds => false,
    }
}

/// Reads a bracketed percentage; `None` where slicing it would panic.
fn read_percent(p: &str) -> (r: Option<Result<u32, ParseIntError>>)
    ensures
        match (r, percent_outcome(p@)) {
            (None, None) => true,
            (Some(Ok(v)), Some(Some(n))) => v == n,
            (Some(Err(_)), Some(None)) => true,
            _ => false,
        },
{
    match strip_first_last_str(p) {
        None => None,
        Some(inner) => Some(parse_u32(inner)),
    }
}

/// Reads the sustainer that follows `on`; `None` where the reading panics.
fn read_sustainer(rest: &str) -> (r: Option<Result<ChargeControl, Error>>)
    ensures
        match r {
            None => sustainer_outcome(rest@) is OutOfBounds,
            Some(res) => match sustainer_outcome(rest@) {
                ChargeControlOutcome::Parsed(c) => res == Ok::<ChargeControl, Error>(c),
                ChargeControlOutcome::Format => res matches Err(Error::Format),
                ChargeControlOutcome::BadNumber => res matches Err(Error::ParseInt(_)),
                ChargeControlOutcome::OutOfBounds => false,
            },
        },
{
    match split_once_char(rest, '~') {
        None => Some(Err(Error::Format)),
        Some((p0, _)) => {
            let min = match read_percent(trim_end_str(p0)) {
                None => {
                    return None;
                },
                Some(Err(e)) => {
                    return Some(Err(Error::ParseInt(e)));
                },
                Some(Ok(v)) => v,
            };
            let max = match read_percent(trim_str(p0)) {
                None => {
                    return None;
                },
                Some(Err(e)) => {
                    return Some(Err(Error::ParseInt(e)));
                },
                Some(Ok(v)) => v,
            };
            Some(Ok(ChargeControl::Normal(Some(Sustainer { min, max }))))
        },
    }
}

/// Reads the text; `None` exactly where the reading panics.
fn read_charge_control(output: &str) -> (r: Option<Result<ChargeControl, Error>>)
    ensures
        match r {
            None => charge_control_outcome(output@) is OutOfBounds,
            Some(res) => charge_control_result(output@, res),
        },
{
    let lines = split_lines(output);
    let ghost lv = text_lines(output@);
    if lines.len() == 0 {
        return None;
    }
    let right_side = match split_once_char(lines[0], '=') {
        Some((_, right)) => trim_str(right),
        None => {
            return Some(Err(Error::Format));
        },
    };
    let mode = match split_once_char(right_side, ' ') {
        Some((mode, _)) => mode,
        None => {
            return Some(Err(Error::Format));
        },
    };
    if str_eq(mode, "NORMAL") {
        if lines.len() < 2 {
            return None;
        }
        let right_side = match split_once_char(lines[1], '=') {
            Some((_, right)) => trim_start_str(right),
            None => {
                return Some(Err(Error::Format));
            },
        };
        let (is_on, rest) = match split_once_char(right_side, ' ') {
            Some(parts) => parts,
            None => {
                return Some(Err(Error::Format));
            },
        };
        if str_eq(is_on, "on") {
            read_sustainer(rest)
        } else if str_eq(is_on, "off") {
            Some(Ok(ChargeControl::Normal(None)))
        } else {
            Some(Err(Error::Format))
        }
    } else if str_eq(mode, "IDLE") {
        Some(Ok(ChargeControl::Idle))
    } else {
        Some(Err(Error::Format))
    }
}

/// Do the lines and slices that reading `output` takes exist? Reading it
/// panics exactly where this is false.
pub fn charge_control_in_bounds(output: &str) -> (b: bool)
    ensures
        b == charge_control_in_bounds_spec(output@),
{
    read_charge_control(output).is_some()
}

/// Reads the charge control mode from the text that `ectool chargecontrol`
/// printed.
pub fn parse_charge_control(output: &str) -> (r: Result<ChargeControl, Error>)
    requires
        charge_control_in_bounds_spec(output@),
    ensures
        charge_control_result(output@, r),
{
    match read_charge_control(output) {
        Some(r) => r,
        None => Err(Error::Format),
    }
}

/// Reads the charge control mode from the bytes that `ectool chargecontrol`
/// wrote: an error where they are not UTF-8, else what
/// `parse_charge_control` gives.
pub fn charge_control_from_stdout(stdout: Vec<u8>) -> (r: Result<ChargeControl, Error>)
    requires
        valid_utf8(stdout@) ==> charge_control_in_bounds_spec(decode_utf8(stdout@)),
    ensures
        valid_utf8(stdout@) ==> charge_control_result(decode_utf8(stdout@), r),
        !valid_utf8(stdout@) ==> r matches Err(Error::FromUtf8(_)),
{
    match string_from_utf8(stdout) {
        Ok(output) => parse_charge_control(output.as_str()),
        Err(e) => Err(Error::FromUtf8(e)),
    }
}

/// The arguments of `ectool` that set the charge control mode `c`.
pub open spec fn charge_control_args_spec(c: ChargeControl) -> Seq<Seq<char>> {
    match c {
        ChargeControl::Normal(Some(s)) => seq![
            "chargecontrol"@,
            "normal"@,
            decimal_digits(s.min as nat),
            decimal_digits(s.max as nat),
        ],
        ChargeControl::Normal(None) => seq!["chargecontrol"@, "normal"@],
        ChargeControl::Idle => seq!["chargecontrol"@, "idle"@],
    }
}

/// The arguments of `ectool` that set the charge control mode
/// `charge_control`.
pub fn charge_control_args(charge_control: &ChargeControl) -> (args: Vec<String>)
    ensures
        args@.len() == charge_control_args_spec(*charge_control).len(),
        forall|i: int|
            0 <= i < args@.len() ==> #[trigger] args@[i]@ == charge_control_args_spec(
                *charge_control,
            )[i],
{
    let mut args: Vec<String> = Vec::new();
    args.push("chargecontrol".to_owned());
    match charge_control {
        ChargeControl::Normal(sustainer) => {
            args.push("normal".to_owned());
            match sustainer {
                Some(sustainer) => {
                    args.push(u32_to_decimal(sustainer.min));
                    args.push(u32_to_decimal(sustainer.max));
                },
                None => {},
            }
        },
        ChargeControl::Idle => {
            args.push("idle".to_owned());
        },
    }
    args
}

/// The percentages that `charge_control_args` hands to `ectool` for a
/// sustainer read back, as `u32`, as the sustainer's bounds.
pub proof fn lemma_sustainer_args_read_back(s: Sustainer)
    ensures
        parse_unsigned(charge_control_args_spec(ChargeControl::Normal(Some(s)))[2], u32::MAX as nat)
            == Some(s.min as nat),
        parse_unsigned(charge_control_args_spec(ChargeControl::Normal(Some(s)))[3], u32::MAX as nat)
            == Some(s.max as nat),
{
    lemma_decimal_roundtrip(s.min as nat);
    lemma_decimal_roundtrip(s.max as nat);
}

} // verus!
