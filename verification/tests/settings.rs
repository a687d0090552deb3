use chromebook_charge::config::{parse_config, time_until_target, Config};
use chromebook_charge::decimal::{u32_to_decimal, u64_to_decimal};
use chromebook_charge::is_plugged_in::plugged_in_from;
use chromebook_charge::rtc::{rtc_wake_arg, rtc_wake_time};
use chromebook_charge::text::{contains_str, split_lines, split_once_char, trim_str};

#[test]
fn settings_are_read_from_toml() {
    let c = parse_config("target_energy = 80\ntarget_time = 1700000000000\n").unwrap();
    assert_eq!(c, Config { target_energy: 80, target_time: 1700000000000 });
}

#[test]
fn settings_need_both_integers() {
    assert_eq!(parse_config("target_energy = 80\n"), None);
    assert_eq!(parse_config("target_energy = \"80\"\ntarget_time = 5\n"), None);
    assert_eq!(parse_config("target_energy = = 80"), None);
}

#[test]
fn time_until_target_is_the_difference() {
    assert_eq!(time_until_target(1_000, 400), 600);
    assert_eq!(time_until_target(5, 5), 0);
}

#[test]
fn plugged_in_reads_the_online_flag() {
    assert_eq!(plugged_in_from("1\n").unwrap(), true);
    assert_eq!(plugged_in_from("0\n").unwrap(), false);
    assert_eq!(plugged_in_from("+1").unwrap(), true);
    assert!(plugged_in_from("256\n").is_err());
    assert!(plugged_in_from(" 1\n").is_err());
    assert!(plugged_in_from("").is_err());
}

#[test]
fn rtc_wake_argument() {
    assert_eq!(rtc_wake_arg(1700000000), "-t 1700000000");
    assert_eq!(rtc_wake_arg(0), "-t 0");
}

#[test]
fn rtc_wake_time_only_for_zero() {
    assert_eq!(rtc_wake_time("0\n").unwrap(), Some(0));
    assert_eq!(rtc_wake_time("15\n").unwrap(), None);
    assert!(rtc_wake_time("-1\n").is_err());
}

#[test]
fn decimal_formatting() {
    assert_eq!(u32_to_decimal(0), "0");
    assert_eq!(u32_to_decimal(4294967295), "4294967295");
    assert_eq!(u64_to_decimal(18446744073709551615), "18446744073709551615");
    assert_eq!(u64_to_decimal(1000), "1000");
}

#[test]
fn text_operations_behave_as_std() {
    for s in ["", "a", "a\n", "a\r\nb", "a\n\nb\r", "\n", "x\r", "é\nü\r\n"] {
        let mine: Vec<&str> = split_lines(s);
        let std_lines: Vec<&str> = s.lines().collect();
        assert_eq!(mine, std_lines);
    }
    for s in ["", "  a b \t", "\u{3000}x\u{85}", "ab"] {
        assert_eq!(trim_str(s), s.trim());
    }
    assert_eq!(split_once_char("k = v = w", '='), "k = v = w".split_once('='));
    assert_eq!(split_once_char("kv", '='), None);
    assert!(contains_str("0x0b AC_PRESENT", "AC_PRESENT"));
    assert!(!contains_str("AC_PRES", "AC_PRESENT"));
    assert!(contains_str("abc", ""));
}
