//! The report of `ectool battery`.

use crate::decimal::{parse_u32, parse_unsigned};
use crate::text::{
    char_index_at_byte, contains, contains_str, text_lines, skip_bytes, skip_bytes_str, split_lines,
    split_once, split_once_char, string_from_utf8,
};
use std::num::ParseIntError;
use std::string::FromUtf8Error;
use vstd::prelude::*;
use vstd::utf8::*;

verus! {

/// Why the battery report could not be had.
#[derive(Debug)]
pub enum Error {
    Utf8(FromUtf8Error),
    Io(std::io::Error),
    ParseInt(ParseIntError),
    Format,
}

#[derive(Debug, Clone, Copy, PartialEq, Eq)]
pub struct BatteryOutputFlags {
    pub ac_present: bool,
    pub batt_present: bool,
    pub charging: bool,
}

#[derive(Debug)]
pub struct BatteryOutput {
    pub oem_name: String,
    pub model_number: String,
    pub chemistry: String,
    pub serial_number: String,
    /// (mAh)
    pub design_capacity: u32,
    /// (mAh)
    pub last_full_charge: u32,
    /// (mV)
    pub design_output_voltage: u32,
    pub cycle_count: u32,
    /// (mV)
    pub present_voltage: u32,
    /// (mA)
    pub present_current: u32,
    /// (mAh)
    pub remaining_capacity: u32,
    /// (mV)
    pub desired_voltage: u32,
    /// (mA)
    pub desired_current: u32,
    pub flags: BatteryOutputFlags,
}

/// A battery report with its texts as character sequences.
pub struct BatteryOutputView {
    pub oem_name: Seq<char>,
    pub model_number: Seq<char>,
    pub chemistry: Seq<char>,
    pub serial_number: Seq<char>,
    pub design_capacity: u32,
    pub last_full_charge: u32,
    pub design_output_voltage: u32,
    pub cycle_count: u32,
    pub present_voltage: u32,
    pub present_current: u32,
    pub remaining_capacity: u32,
    pub desired_voltage: u32,
    pub desired_current: u32,
    pub flags: BatteryOutputFlags,
}

impl View for BatteryOutput {
    type V = BatteryOutputView;

    open spec fn view(&self) -> BatteryOutputView {
        BatteryOutputView {
            oem_name: self.oem_name@,
            model_number: self.model_number@,
            chemistry: self.chemistry@,
            serial_number: self.serial_number@,
            design_capacity: self.design_capacity,
            last_full_charge: self.last_full_charge,
            design_output_voltage: self.design_output_voltage,
            cycle_count: self.cycle_count,
            present_voltage: self.present_voltage,
            present_current: self.present_current,
            remaining_capacity: self.remaining_capacity,
            desired_voltage: self.desired_voltage,
            desired_current: self.desired_current,
            flags: self.flags,
        }
    }
}

/// The width in bytes of the label column, `"  OEM name:               "`.
pub const FIRST_COLUMN_SIZE: usize = 26;

/// The line of the report that holds the first text field (the OEM name).
pub const FIRST_TEXT_LINE: usize = 1;

/// The line that holds the first number (the design capacity).
pub const FIRST_NUMBER_LINE: usize = 5;

/// The line that holds the flags.
pub const FLAGS_LINE: usize = 14;

/// How reading one line of the report went.
#[derive(PartialEq, Eq, Structural, Debug, Clone, Copy)]
pub enum FieldStatus {
    /// The line is there and says what it should.
    Read,
    /// The report ends before this line.
    MissingLine,
    /// The line is too short to hold the label column (slicing it panics).
    ShortLine,
    /// The line should hold a number and does not.
    BadNumber,
}

/// The value column of a report line: the line from byte `FIRST_COLUMN_SIZE`
/// on; `None` where that slice would panic.
pub open spec fn value_column(line: Seq<char>) -> Option<Seq<char>> {
    skip_bytes(line, FIRST_COLUMN_SIZE as int)
}

/// The number in a value column: the text up to the first space.
pub open spec fn number_text(value: Seq<char>) -> Seq<char> {
    match split_once(value, ' ') {
        Some((n, _)) => n,
        None => value,
    }
}

/// The `u32` that a value column holds, if any.
pub open spec fn number_of(value: Seq<char>) -> Option<nat> {
    parse_unsigned(number_text(value), u32::MAX as nat)
}

/// How reading line `i` of the report goes.
pub open spec fn field_status(lines: Seq<Seq<char>>, i: int) -> FieldStatus {
    if i >= lines.len() {
        FieldStatus::MissingLine
    } else if i == 0 {
        FieldStatus::Read
    } else {
        match value_column(lines[i]) {
            None => FieldStatus::ShortLine,
            Some(v) => if FIRST_NUMBER_LINE <= i < FLAGS_LINE && number_of(v) is None {
                FieldStatus::BadNumber
            } else {
                FieldStatus::Read
            },
        }
    }
}

/// How reading the report from line `i` on goes: the status of the first
/// line that is not read.
pub open spec fn first_failure(lines: Seq<Seq<char>>, i: int) -> FieldStatus
    decreases FLAGS_LINE + 1 - i,
{
    if i > FLAGS_LINE {
        FieldStatus::Read
    } else if field_status(lines, i) != FieldStatus::Read {
        field_status(lines, i)
    } else {
        first_failure(lines, i + 1)
    }
}

/// How reading the whole report goes.
pub open spec fn battery_status(output: Seq<char>) -> FieldStatus {
    first_failure(text_lines(output), 0)
}

/// The text field on line `i`.
pub open spec fn text_field(lines: Seq<Seq<char>>, i: int) -> Seq<char> {
    value_column(lines[i]).unwrap()
}

/// The number on line `i`.
pub open spec fn number_field(lines: Seq<Seq<char>>, i: int) -> u32 {
    number_of(text_field(lines, i)).unwrap() as u32
}

/// The flags on the flags line: each is set where the line names it.
pub open spec fn flags_of(value: Seq<char>) -> BatteryOutputFlags {
    BatteryOutputFlags {
        ac_present: contains(value, "AC_PRESENT"@),
        batt_present: contains(value, "BATT_PRESENT"@),
        charging: contains(value, "CHARGING"@),
    }
}

/// The report that the lines hold, where each of them reads.
pub open spec fn battery_view(lines: Seq<Seq<char>>) -> BatteryOutputView {
    BatteryOutputView {
        oem_name: text_field(lines, 1),
        model_number: text_field(lines, 2),
        chemistry: text_field(lines, 3),
        serial_number: text_field(lines, 4),
        design_capacity: number_field(lines, 5),
        last_full_charge: number_field(lines, 6),
        design_output_voltage: number_field(lines, 7),
        cycle_count: number_field(lines, 8),
        present_voltage: number_field(lines, 9),
        present_current: number_field(lines, 10),
        remaining_capacity: number_field(lines, 11),
        desired_voltage: number_field(lines, 12),
        desired_current: number_field(lines, 13),
        flags: flags_of(text_field(lines, 14)),
    }
}

/// What reading the report `output` returns: the report where every line
/// reads, else the error of the first line that does not.
pub open spec fn battery_result(output: Seq<char>, r: Result<BatteryOutput, Error>) -> bool {
    match battery_status(output) {
        FieldStatus::Read => r matches Ok(b) && b@ == battery_view(text_lines(output)),
        FieldStatus::MissingLine => r matches Err(Error::Format),
        FieldStatus::BadNumber => r matches Err(Error::ParseInt(_)),
        FieldStatus::ShortLine => false,
    }
}

fn value_column_str<'a>(line: &'a str) -> (r: Option<&'a str>)
    ensures
        match (r, value_column(line@)) {
            (Some(a), Some(b)) => a@ == b,
            (None, None) => true,
            _ => false,
        },
{
    skip_bytes_str(line, FIRST_COLUMN_SIZE)
}

/// Reads the number in a value column.
fn parse_number(value: &str) -> (r: Result<u32, ParseIntError>)
    ensures
        match r {
            Ok(n) => number_of(value@) == Some(n as nat),
            Err(_) => number_of(value@) is None,
        },
{
    let number = match split_once_char(value, ' ') {
        Some((n, _)) => n,
        None => value,
    };
    parse_u32(number)
}

/// How reading line `i` goes.
fn field_status_of(lines: &Vec<&str>, i: usize) -> (s: FieldStatus)
    ensures
        s == field_status(lines@.map_values(|l: &str| l@), i as int),
{
    let ghost lv = lines@.map_values(|l: &str| l@);
    if i >= lines.len() {
        return FieldStatus::MissingLine;
    }
    if i == 0 {
        return FieldStatus::Read;
    }
    match value_column_str(lines[i]) {
        None => FieldStatus::ShortLine,
        Some(v) => {
            if FIRST_NUMBER_LINE <= i && i < FLAGS_LINE {
                match parse_number(v) {
                    Ok(_) => FieldStatus::Read,
                    Err(_) => FieldStatus::BadNumber,
                }
            } else {
                FieldStatus::Read
            }
        },
    }
}

/// Does every line that reading the report `output` slices have the label
/// column? Reading the report panics exactly where this is false.
pub fn battery_output_in_bounds(output: &str) -> (b: bool)
    ensures
        b == (battery_status(output@) != FieldStatus::ShortLine),
{
    let lines = split_lines(output);
    let ghost lv = lines@.map_values(|l: &str| l@);
    assert(lv =~= text_lines(output@));
    let mut i: usize = 0;
    while i <= FLAGS_LINE
        invariant
            i <= FLAGS_LINE + 1,
            lv == lines@.map_values(|l: &str| l@),
            lv == text_lines(output@),
            first_failure(lv, i as int) == battery_status(output@),
        decreases FLAGS_LINE + 1 - i,
    {
        let s = field_status_of(&lines, i);
        if s != FieldStatus::Read {
            return s != FieldStatus::ShortLine;
        }
        i = i + 1;
    }
    true
}

/// Reads the report that `ectool battery` prints.
pub fn parse_battery_output(output: &str) -> (r: Result<BatteryOutput, Error>)
    requires
        battery_status(output@) != FieldStatus::ShortLine,
    ensures
        battery_result(output@, r),
        r matches Ok(b) ==> {
            let lines = text_lines(output@);
            &&& lines.len() > FLAGS_LINE
            &&& value_column(lines[1]) == Some(b.oem_name@)
            &&& value_column(lines[2]) == Some(b.model_number@)
            &&& value_column(lines[3]) == Some(b.chemistry@)
            &&& value_column(lines[4]) == Some(b.serial_number@)
            &&& number_of(text_field(lines, 5)) == Some(b.design_capacity as nat)
            &&& number_of(text_field(lines, 6)) == Some(b.last_full_charge as nat)
            &&& number_of(text_field(lines, 7)) == Some(b.design_output_voltage as nat)
            &&& number_of(text_field(lines, 8)) == Some(b.cycle_count as nat)
            &&& number_of(text_field(lines, 9)) == Some(b.present_voltage as nat)
            &&& number_of(text_field(lines, 10)) == Some(b.present_current as nat)
            &&& number_of(text_field(lines, 11)) == Some(b.remaining_capacity as nat)
            &&& number_of(text_field(lines, 12)) == Some(b.desired_voltage as nat)
            &&& number_of(text_field(lines, 13)) == Some(b.desired_current as nat)
            &&& value_column(lines[14]) is Some
            &&& b.flags.ac_present == contains(text_field(lines, 14), "AC_PRESENT"@)
            &&& b.flags.batt_present == contains(text_field(lines, 14), "BATT_PRESENT"@)
            &&& b.flags.charging == contains(text_field(lines, 14), "CHARGING"@)
        },
{
    let lines = split_lines(output);
    let ghost lv = lines@.map_values(|l: &str| l@);
    assert(lv =~= text_lines(output@));
    if lines.len() == 0 {
        return Err(Error::Format);
    }
    let mut texts: Vec<String> = Vec::new();
    let mut i: usize = FIRST_TEXT_LINE;
    while i < FIRST_NUMBER_LINE
        invariant
            FIRST_TEXT_LINE <= i <= FIRST_NUMBER_LINE,
            lv == lines@.map_values(|l: &str| l@),
            lv == text_lines(output@),
            first_failure(lv, i as int) == battery_status(output@),
            battery_status(output@) != FieldStatus::ShortLine,
            texts@.len() == i - FIRST_TEXT_LINE,
            forall|j: int|
                0 <= j < texts@.len() ==> value_column(lv[j + FIRST_TEXT_LINE]) == Some(
                    #[trigger] texts@[j]@,
                ),
        decreases FIRST_NUMBER_LINE - i,
    {
        if i >= lines.len() {
            return Err(Error::Format);
        }
        match value_column_str(lines[i]) {
            None => {
                return Err(Error::Format);
            },
            Some(v) => {
                texts.push(v.to_owned());
            },
        }
        i = i + 1;
    }
    let mut numbers: Vec<u32> = Vec::new();
    while i < FLAGS_LINE
        invariant
            FIRST_NUMBER_LINE <= i <= FLAGS_LINE,
            lv == lines@.map_values(|l: &str| l@),
            lv == text_lines(output@),
            first_failure(lv, i as int) == battery_status(output@),
            battery_status(output@) != FieldStatus::ShortLine,
            texts@.len() == FIRST_NUMBER_LINE - FIRST_TEXT_LINE,
            forall|j: int|
                0 <= j < texts@.len() ==> value_column(lv[j + FIRST_TEXT_LINE]) == Some(
                    #[trigger] texts@[j]@,
                ),
            numbers@.len() == i - FIRST_NUMBER_LINE,
            forall|j: int|
                0 <= j < numbers@.len() ==> field_status(lv, j + FIRST_NUMBER_LINE)
                    == FieldStatus::Read && number_field(lv, j + FIRST_NUMBER_LINE)
                    == #[trigger] numbers@[j],
        decreases FLAGS_LINE - i,
    {
        if i >= lines.len() {
            return Err(Error::Format);
        }
        match value_column_str(lines[i]) {
            None => {
                return Err(Error::Format);
            },
            Some(v) => {
                match parse_number(v) {
                    Ok(n) => {
                        assert(lv[i as int] == lines@[i as int]@);
                        assert(field_status(lv, i as int) == FieldStatus::Read);
                        assert(number_field(lv, i as int) == n);
                        let ghost before = numbers@;
                        numbers.push(n);
                        assert forall|j: int| 0 <= j < numbers@.len() implies field_status(
                            lv,
                            j + FIRST_NUMBER_LINE,
                        ) == FieldStatus::Read && number_field(lv, j + FIRST_NUMBER_LINE)
                            == #[trigger] numbers@[j] by {
                            if j < before.len() {
                                assert(numbers@[j] == before[j]);
                            }
                        }
                    },
                    Err(e) => {
                        return Err(Error::ParseInt(e));
                    },
                }
            },
        }
        i = i + 1;
    }
    if i >= lines.len() {
        return Err(Error::Format);
    }
    let flags = match value_column_str(lines[i]) {
        None => {
            return Err(Error::Format);
        },
        Some(v) => BatteryOutputFlags {
            ac_present: contains_str(v, "AC_PRESENT"),
            batt_present: contains_str(v, "BATT_PRESENT"),
            charging: contains_str(v, "CHARGING"),
        },
    };
    assert(first_failure(lv, FLAGS_LINE + 1) == FieldStatus::Read);
    let b = BatteryOutput {
        oem_name: texts[0].clone(),
        model_number: texts[1].clone(),
        chemistry: texts[2].clone(),
        serial_number: texts[3].clone(),
        design_capacity: numbers[0],
        last_full_charge: numbers[1],
        design_output_voltage: numbers[2],
        cycle_count: numbers[3],
        present_voltage: numbers[4],
        present_current: numbers[5],
        remaining_capacity: numbers[6],
        desired_voltage: numbers[7],
        desired_current: numbers[8],
        flags,
    };
    proof {
        assert(texts@[0]@ == text_field(lv, 1));
        assert(texts@[1]@ == text_field(lv, 2));
        assert(texts@[2]@ == text_field(lv, 3));
        assert(texts@[3]@ == text_field(lv, 4));
        assert(numbers@[0] == number_field(lv, 5));
        assert(numbers@[1] == number_field(lv, 6));
        assert(numbers@[2] == number_field(lv, 7));
        assert(numbers@[3] == number_field(lv, 8));
        assert(numbers@[4] == number_field(lv, 9));
        assert(numbers@[5] == number_field(lv, 10));
        assert(numbers@[6] == number_field(lv, 11));
        assert(numbers@[7] == number_field(lv, 12));
        assert(numbers@[8] == number_field(lv, 13));
        assert(b@ == battery_view(lv));
        assert forall|j: int| 5 <= j < 14 implies number_of(#[trigger] text_field(lv, j)) == Some(
            number_field(lv, j) as nat,
        ) by {
            assert(field_status(lv, (j - 5) + FIRST_NUMBER_LINE) == FieldStatus::Read);
        }
        assert(number_of(text_field(lv, 11)) == Some(b.remaining_capacity as nat));
    }
    Ok(b)
}

/// Reads the report from the bytes that `ectool battery` wrote: an error
/// where they are not UTF-8, else what `parse_battery_output` gives.
pub fn battery_from_stdout(stdout: Vec<u8>) -> (r: Result<BatteryOutput, Error>)
    requires
        valid_utf8(stdout@) ==> battery_status(decode_utf8(stdout@)) != FieldStatus::ShortLine,
    ensures
        valid_utf8(stdout@) ==> battery_result(decode_utf8(stdout@), r),
        !valid_utf8(stdout@) ==> r matches Err(Error::Utf8(_)),
        r matches Ok(b) ==> {
            let lines = text_lines(decode_utf8(stdout@));
            &&& valid_utf8(stdout@)
            &&& lines.len() > FLAGS_LINE
            &&& value_column(lines[1]) == Some(b.oem_name@)
            &&& value_column(lines[2]) == Some(b.model_number@)
            &&& value_column(lines[3]) == Some(b.chemistry@)
            &&& value_column(lines[4]) == Some(b.serial_number@)
            &&& number_of(text_field(lines, 5)) == Some(b.design_capacity as nat)
            &&& number_of(text_field(lines, 6)) == Some(b.last_full_charge as nat)
            &&& number_of(text_field(lines, 7)) == Some(b.design_output_voltage as nat)
            &&& number_of(text_field(lines, 8)) == Some(b.cycle_count as nat)
            &&& number_of(text_field(lines, 9)) == Some(b.present_voltage as nat)
            &&& number_of(text_field(lines, 10)) == Some(b.present_current as nat)
            &&& number_of(text_field(lines, 11)) == Some(b.remaining_capacity as nat)
            &&& number_of(text_field(lines, 12)) == Some(b.desired_voltage as nat)
            &&& number_of(text_field(lines, 13)) == Some(b.desired_current as nat)
            &&& value_column(lines[14]) is Some
            &&& b.flags.ac_present == contains(text_field(lines, 14), "AC_PRESENT"@)
            &&& b.flags.batt_present == contains(text_field(lines, 14), "BATT_PRESENT"@)
            &&& b.flags.charging == contains(text_field(lines, 14), "CHARGING"@)
        },
{
    match string_from_utf8(stdout) {
        Ok(output) => parse_battery_output(output.as_str()),
        Err(e) => Err(Error::Utf8(e)),
    }
}

/// Where every line of a report reads, each line from the one after the
/// heading on holds its field in its value column: the four texts on lines
/// 1 to 4, the nine numbers on lines 5 to 13, each number the one written on
/// its line, and the flags on line 14.
pub proof fn lemma_report_fields_by_line(output: Seq<char>)
    requires
        battery_status(output) == FieldStatus::Read,
    ensures
        ({
            let lines = text_lines(output);
            let b = battery_view(lines);
            &&& lines.len() > FLAGS_LINE
            &&& value_column(lines[1]) == Some(b.oem_name)
            &&& value_column(lines[2]) == Some(b.model_number)
            &&& value_column(lines[3]) == Some(b.chemistry)
            &&& value_column(lines[4]) == Some(b.serial_number)
            &&& number_of(text_field(lines, 5)) == Some(b.design_capacity as nat)
            &&& number_of(text_field(lines, 6)) == Some(b.last_full_charge as nat)
            &&& number_of(text_field(lines, 7)) == Some(b.design_output_voltage as nat)
            &&& number_of(text_field(lines, 8)) == Some(b.cycle_count as nat)
            &&& number_of(text_field(lines, 9)) == Some(b.present_voltage as nat)
            &&& number_of(text_field(lines, 10)) == Some(b.present_current as nat)
            &&& number_of(text_field(lines, 11)) == Some(b.remaining_capacity as nat)
            &&& number_of(text_field(lines, 12)) == Some(b.desired_voltage as nat)
            &&& number_of(text_field(lines, 13)) == Some(b.desired_current as nat)
            &&& value_column(lines[14]) is Some
            &&& b.flags.ac_present == contains(text_field(lines, 14), "AC_PRESENT"@)
            &&& b.flags.batt_present == contains(text_field(lines, 14), "BATT_PRESENT"@)
            &&& b.flags.charging == contains(text_field(lines, 14), "CHARGING"@)
        }),
{
    let lines = text_lines(output);
    assert forall|j: int| 0 <= j <= FLAGS_LINE implies #[trigger] field_status(lines, j)
        == FieldStatus::Read by {
        lemma_first_failure_reads(lines, 0, j);
    }
    assert(field_status(lines, 1) == FieldStatus::Read);
    assert(field_status(lines, 2) == FieldStatus::Read);
    assert(field_status(lines, 3) == FieldStatus::Read);
    assert(field_status(lines, 4) == FieldStatus::Read);
    assert(field_status(lines, 14) == FieldStatus::Read);
    assert forall|j: int| 5 <= j < 14 implies number_of(#[trigger] text_field(lines, j)) == Some(
        number_field(lines, j) as nat,
    ) by {
        assert(field_status(lines, j) == FieldStatus::Read);
    }
}

/// Where reading from line `i` on goes through, line `j` reads, for each
/// `j` from `i` to the flags line.
proof fn lemma_first_failure_reads(lines: Seq<Seq<char>>, i: int, j: int)
    requires
        first_failure(lines, i) == FieldStatus::Read,
        i <= j <= FLAGS_LINE,
    ensures
        field_status(lines, j) == FieldStatus::Read,
    decreases j - i,
{
    if i < j {
        lemma_first_failure_reads(lines, i + 1, j);
    }
}

} // verus!
