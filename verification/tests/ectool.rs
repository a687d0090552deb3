use chromebook_charge::ectool::battery::{
    battery_from_stdout, battery_output_in_bounds, parse_battery_output, BatteryOutputFlags, Error,
};
use chromebook_charge::ectool::charge_control::{
    charge_control_args, charge_control_from_stdout, charge_control_in_bounds,
    parse_charge_control, ChargeControl, Error as ControlError, Sustainer,
};
use chromebook_charge::ectool::charge_current_limit::charge_current_limit_args;
use chromebook_charge::ectool::hello::{hello_from_stdout, Error as HelloError};

fn row(label: &str, value: &str) -> String {
    format!("{:<26}{}\n", label, value)
}

fn battery_text(present_current: &str, flags: &str) -> String {
    let mut s = String::from("Battery info:\n");
    s += &row("  OEM name:", "SMP");
    s += &row("  Model number:", "L19M3PF6");
    s += &row("  Chemistry   :", "LiP");
    s += &row("  Serial number:", "00A1");
    s += &row("  Design capacity:", "4500 mAh");
    s += &row("  Last full charge:", "4400 mAh");
    s += &row("  Design output voltage", "11550 mV");
    s += &row("  Cycle count", "25");
    s += &row("  Present voltage", "12200 mV");
    s += &row("  Present current", present_current);
    s += &row("  Remaining capacity", "3000 mAh");
    s += &row("  Desired voltage", "13200 mV");
    s += &row("  Desired current", "3000 mA");
    s += &row("  Flags", flags);
    s
}

#[test]
fn battery_report_is_read() {
    let text = battery_text("1500 mA", "0x0b AC_PRESENT BATT_PRESENT CHARGING");
    assert!(battery_output_in_bounds(&text));
    let b = parse_battery_output(&text).unwrap();
    assert_eq!(b.oem_name, "SMP");
    assert_eq!(b.model_number, "L19M3PF6");
    assert_eq!(b.chemistry, "LiP");
    assert_eq!(b.serial_number, "00A1");
    assert_eq!(b.design_capacity, 4500);
    assert_eq!(b.last_full_charge, 4400);
    assert_eq!(b.design_output_voltage, 11550);
    assert_eq!(b.cycle_count, 25);
    assert_eq!(b.present_voltage, 12200);
    assert_eq!(b.present_current, 1500);
    assert_eq!(b.remaining_capacity, 3000);
    assert_eq!(b.desired_voltage, 13200);
    assert_eq!(b.desired_current, 3000);
    assert_eq!(
        b.flags,
        BatteryOutputFlags { ac_present: true, batt_present: true, charging: true }
    );
}

#[test]
fn battery_report_with_crlf_line_endings() {
    let text = battery_text("7 mA", "0x02 BATT_PRESENT").replace('\n', "\r\n");
    let b = parse_battery_output(&text).unwrap();
    assert_eq!(b.present_current, 7);
    assert_eq!(
        b.flags,
        BatteryOutputFlags { ac_present: false, batt_present: true, charging: false }
    );
}

#[test]
fn battery_flag_charging_is_found_inside_discharging() {
    let text = battery_text("0 mA", "0x06 BATT_PRESENT DISCHARGING");
    let b = parse_battery_output(&text).unwrap();
    assert!(b.flags.charging);
    assert!(!b.flags.ac_present);
}

#[test]
fn battery_report_missing_line_is_a_format_error() {
    let text = battery_text("1500 mA", "0x0b");
    let cut: String = text.lines().take(10).map(|l| format!("{}\n", l)).collect();
    assert!(battery_output_in_bounds(&cut));
    assert!(matches!(parse_battery_output(&cut), Err(Error::Format)));
    assert!(matches!(parse_battery_output(""), Err(Error::Format)));
}

#[test]
fn battery_report_bad_number_is_a_parse_error() {
    let text = battery_text("-5 mA", "0x0b");
    assert!(matches!(parse_battery_output(&text), Err(Error::ParseInt(_))));
    let text = battery_text("99999999999 mA", "0x0b");
    assert!(matches!(parse_battery_output(&text), Err(Error::ParseInt(_))));
}

#[test]
fn battery_report_with_short_line_is_out_of_bounds() {
    let text = battery_text("1500 mA", "0x0b").replace("  Chemistry   :           LiP", "short");
    assert!(!battery_output_in_bounds(&text));
    // A bad number on an earlier line ends the reading first.
    let text = battery_text("1500 mA", "0x0b")
        .replace("  Desired voltage         13200 mV", "short")
        .replace("4400 mAh", "many mAh");
    assert!(battery_output_in_bounds(&text));
    assert!(matches!(parse_battery_output(&text), Err(Error::ParseInt(_))));
}

#[test]
fn battery_from_stdout_decodes_utf8() {
    let text = battery_text("1500 mA", "0x0b AC_PRESENT");
    let b = battery_from_stdout(text.into_bytes()).unwrap();
    assert!(b.flags.ac_present);
    assert!(matches!(battery_from_stdout(vec![0xff, 0xfe, b'\n']), Err(Error::Utf8(_))));
}

#[test]
fn hello_reads_utf8() {
    assert_eq!(hello_from_stdout(b"EC says hello!\n".to_vec()).unwrap(), "EC says hello!\n");
    assert!(matches!(hello_from_stdout(vec![0xc3]), Err(HelloError::Utf8(_))));
}

#[test]
fn charge_control_normal_with_sustainer() {
    let text = "Charge mode = NORMAL (0)\nBattery sustainer = on (80% ~ 90%)\n";
    assert!(charge_control_in_bounds(text));
    // The upper bound is read from the same text as the lower bound.
    assert_eq!(
        parse_charge_control(text).unwrap(),
        ChargeControl::Normal(Some(Sustainer { min: 80, max: 80 }))
    );
}

#[test]
fn charge_control_normal_without_sustainer() {
    let text = "Charge mode = NORMAL (0)\nBattery sustainer = off (-1% ~ -1%)\n";
    assert_eq!(parse_charge_control(text).unwrap(), ChargeControl::Normal(None));
}

#[test]
fn charge_control_idle() {
    let text = "Charge mode = IDLE (1)\n";
    assert_eq!(parse_charge_control(text).unwrap(), ChargeControl::Idle);
    assert_eq!(charge_control_from_stdout(text.as_bytes().to_vec()).unwrap(), ChargeControl::Idle);
}

#[test]
fn charge_control_format_errors() {
    assert!(matches!(parse_charge_control("Charge mode NORMAL\n"), Err(ControlError::Format)));
    assert!(matches!(parse_charge_control("Charge mode = NORMAL\n"), Err(ControlError::Format)));
    assert!(matches!(parse_charge_control("Charge mode = DISCHARGE (2)\n"), Err(ControlError::Format)));
    assert!(matches!(
        parse_charge_control("Charge mode = NORMAL (0)\nBattery sustainer = maybe (1)\n"),
        Err(ControlError::Format)
    ));
    assert!(matches!(
        parse_charge_control("Charge mode = NORMAL (0)\nBattery sustainer = on (80% 90%)\n"),
        Err(ControlError::Format)
    ));
}

#[test]
fn charge_control_bad_percent_is_a_parse_error() {
    let text = "Charge mode = NORMAL (0)\nBattery sustainer = on (8x% ~ 90%)\n";
    assert!(matches!(parse_charge_control(text), Err(ControlError::ParseInt(_))));
}

#[test]
fn charge_control_out_of_bounds() {
    assert!(!charge_control_in_bounds(""));
    assert!(!charge_control_in_bounds("Charge mode = NORMAL (0)\n"));
    assert!(!charge_control_in_bounds("Charge mode = NORMAL (0)\nBattery sustainer = on (~ 1)\n"));
    assert!(charge_control_in_bounds("Charge mode = IDLE (1)\n"));
}

#[test]
fn charge_control_from_stdout_rejects_bad_utf8() {
    assert!(matches!(charge_control_from_stdout(vec![0x80]), Err(ControlError::FromUtf8(_))));
}

#[test]
fn charge_control_arguments() {
    assert_eq!(
        charge_control_args(&ChargeControl::Normal(Some(Sustainer { min: 75, max: 4294967295 }))),
        vec!["chargecontrol", "normal", "75", "4294967295"]
    );
    assert_eq!(charge_control_args(&ChargeControl::Normal(None)), vec!["chargecontrol", "normal"]);
    assert_eq!(charge_control_args(&ChargeControl::Idle), vec!["chargecontrol", "idle"]);
}

#[test]
fn sustainer_arguments_read_back() {
    let s = Sustainer { min: 0, max: 100 };
    let args = charge_control_args(&ChargeControl::Normal(Some(s)));
    assert_eq!(args[2].parse::<u32>().unwrap(), s.min);
    assert_eq!(args[3].parse::<u32>().unwrap(), s.max);
}

#[test]
fn charge_current_limit_arguments() {
    assert_eq!(charge_current_limit_args(250), vec!["chargecurrentlimit", "250"]);
    assert_eq!(charge_current_limit_args(0), vec!["chargecurrentlimit", "0"]);
}
