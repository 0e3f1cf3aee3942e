use siko::interpreter::show::parse_bool;
use siko::interpreter::show::parse_int;
use siko::interpreter::show::show_bool;
use siko::interpreter::show::show_int;

#[test]
fn show_int_gives_decimal_text() {
    assert_eq!(show_int(0), "0");
    assert_eq!(show_int(7), "7");
    assert_eq!(show_int(42), "42");
    assert_eq!(show_int(-1), "-1");
    assert_eq!(show_int(1234567890), "1234567890");
    assert_eq!(show_int(i64::MAX), "9223372036854775807");
    assert_eq!(show_int(i64::MIN), "-9223372036854775808");
}

#[test]
fn parse_int_reads_decimal_text() {
    assert_eq!(parse_int("0"), Some(0));
    assert_eq!(parse_int("120"), Some(120));
    assert_eq!(parse_int("-15"), Some(-15));
    assert_eq!(parse_int("9223372036854775807"), Some(i64::MAX));
    assert_eq!(parse_int("-9223372036854775808"), Some(i64::MIN));
}

#[test]
fn parse_int_rejects_what_is_no_integer() {
    assert_eq!(parse_int(""), None);
    assert_eq!(parse_int("-"), None);
    assert_eq!(parse_int("12a"), None);
    assert_eq!(parse_int("+5"), None);
    assert_eq!(parse_int("9223372036854775808"), None);
    assert_eq!(parse_int("-9223372036854775809"), None);
    assert_eq!(parse_int("99999999999999999999999"), None);
}

#[test]
fn show_then_parse_int_round_trips() {
    let samples: Vec<i64> = vec![0, 1, -1, 9, 10, 11, 99, 100, -100, 4096, i64::MAX, i64::MIN];
    for v in samples {
        assert_eq!(parse_int(&show_int(v)), Some(v));
    }
}

#[test]
fn show_then_parse_bool_round_trips() {
    assert_eq!(show_bool(true), "True");
    assert_eq!(show_bool(false), "False");
    assert_eq!(parse_bool(&show_bool(true)), Some(true));
    assert_eq!(parse_bool(&show_bool(false)), Some(false));
    assert_eq!(parse_bool("true"), None);
}
