use promirc::extract::{extract_count, extract_uptime};
use promirc::number::scan_number;
use promirc::reply::{parse_line, Command, Line};

fn line(command: Command, payload: &[u8]) -> Option<Line> {
    Some(Line { command, payload: payload.to_vec() })
}

#[test]
fn numeric_reply_with_trailing_text() {
    assert_eq!(
        parse_line(b":irc.example.org 001 promirc_7 :Welcome to the network\r\n"),
        line(Command::Numeric(1), b"Welcome to the network")
    );
}

#[test]
fn numeric_reply_without_prefix() {
    assert_eq!(parse_line(b"219 nick u :End of /STATS report"), line(Command::Numeric(219), b"End of /STATS report"));
}

#[test]
fn payload_is_the_last_parameter_without_colon() {
    assert_eq!(parse_line(b":srv 265 nick 5 10\r\n"), line(Command::Numeric(265), b"10"));
    assert_eq!(parse_line(b":srv 265 nick 5 10   \n"), line(Command::Numeric(265), b"10"));
}

#[test]
fn payload_is_empty_without_parameters() {
    assert_eq!(parse_line(b"PING\r\n"), line(Command::Ping, b""));
    assert_eq!(parse_line(b"PING   "), line(Command::Ping, b""));
}

#[test]
fn colon_inside_a_parameter_does_not_open_the_payload() {
    assert_eq!(parse_line(b":srv 242 a:b c"), line(Command::Numeric(242), b"c"));
    assert_eq!(parse_line(b":srv 242 nick :Server Up 0 days, 0:00:05"), line(Command::Numeric(242), b"Server Up 0 days, 0:00:05"));
}

#[test]
fn ping_and_error_are_told_apart() {
    assert_eq!(parse_line(b"PING :token42\r\n"), line(Command::Ping, b"token42"));
    assert_eq!(parse_line(b"ERROR :Closing link\r\n"), line(Command::Error, b"Closing link"));
    assert_eq!(parse_line(b":nick!u@h NOTICE you :hi"), line(Command::Other, b"hi"));
    assert_eq!(parse_line(b"ping :x"), line(Command::Other, b"x"));
}

#[test]
fn a_code_has_exactly_three_digits() {
    assert_eq!(parse_line(b"0001 x"), line(Command::Other, b"x"));
    assert_eq!(parse_line(b"01 x"), line(Command::Other, b"x"));
    assert_eq!(parse_line(b"999 x"), line(Command::Numeric(999), b"x"));
    assert_eq!(parse_line(b"000 x"), line(Command::Numeric(0), b"x"));
    assert_eq!(parse_line(b"2a2 x"), line(Command::Other, b"x"));
}

#[test]
fn a_line_without_command_is_no_line() {
    assert_eq!(parse_line(b""), None);
    assert_eq!(parse_line(b"\r\n"), None);
    assert_eq!(parse_line(b"   \r\n"), None);
    assert_eq!(parse_line(b":prefix.only\r\n"), None);
    assert_eq!(parse_line(b":prefix.only   \r\n"), None);
}

#[test]
fn all_line_terminators_at_the_end_are_dropped() {
    assert_eq!(parse_line(b"PING :a\r\n\r\n\n"), line(Command::Ping, b"a"));
    assert_eq!(parse_line(b"PING :a\rb\r\n"), line(Command::Ping, b"a\rb"));
}

#[test]
fn scan_finds_the_next_number() {
    assert_eq!(scan_number(b"abc 12, 7", 0), Some((Some(12), 6)));
    assert_eq!(scan_number(b"abc 12, 7", 6), Some((Some(7), 9)));
    assert_eq!(scan_number(b"abc 12, 7", 5), Some((Some(2), 6)));
    assert_eq!(scan_number(b"abc 12, 7", 9), None);
    assert_eq!(scan_number(b"", 0), None);
    assert_eq!(scan_number(b"no digits", 0), None);
    assert_eq!(scan_number(b"007", 0), Some((Some(7), 3)));
}

#[test]
fn scan_reports_a_number_too_large() {
    assert_eq!(scan_number(b"9223372036854775807", 0), Some((Some(i64::MAX), 19)));
    assert_eq!(scan_number(b"9223372036854775808", 0), Some((None, 19)));
    assert_eq!(scan_number(b"x99999999999999999999999999 1", 0), Some((None, 27)));
}

#[test]
fn count_is_the_first_number() {
    assert_eq!(extract_count(b"Current local users 5, max 10"), Some(5));
    assert_eq!(extract_count(b"Current global users: 1234  Max: 5000"), Some(1234));
    assert_eq!(extract_count(b"10"), Some(10));
    assert_eq!(extract_count(b"0"), Some(0));
}

#[test]
fn count_is_absent_without_a_number() {
    assert_eq!(extract_count(b""), None);
    assert_eq!(extract_count(b"no users here"), None);
    assert_eq!(extract_count(b"users 99999999999999999999"), None);
}

#[test]
fn uptime_is_days_hours_minutes_seconds() {
    assert_eq!(extract_uptime(b"Server Up 14 days, 2:34:56"), Some(1218896));
    assert_eq!(extract_uptime(b"Server Up 0 days, 0:00:05"), Some(5));
    assert_eq!(extract_uptime(b"Server Up 1 days, 23:59:59"), Some(172799));
    assert_eq!(extract_uptime(b"1 0 0 1"), Some(86401));
}

#[test]
fn uptime_is_absent_when_malformed() {
    assert_eq!(extract_uptime(b""), None);
    assert_eq!(extract_uptime(b"Server Up"), None);
    assert_eq!(extract_uptime(b"Server Up 14 days"), None);
    assert_eq!(extract_uptime(b"Server Up 14 days, 2:34"), None);
    assert_eq!(extract_uptime(b"Server Up 14 days, 2:34:56 (7 restarts)"), None);
    assert_eq!(extract_uptime(b"Server Up 14 days, 24:00:00"), None);
    assert_eq!(extract_uptime(b"Server Up 14 days, 2:60:00"), None);
    assert_eq!(extract_uptime(b"Server Up 14 days, 2:34:60"), None);
}

#[test]
fn uptime_is_absent_when_too_large() {
    assert_eq!(extract_uptime(b"Server Up 106751991167300 days, 15:30:07"), Some(i64::MAX));
    assert_eq!(extract_uptime(b"Server Up 106751991167300 days, 15:30:08"), None);
    assert_eq!(extract_uptime(b"Server Up 106751991167301 days, 0:00:00"), None);
    assert_eq!(extract_uptime(b"Server Up 9223372036854775808 days, 0:00:00"), None);
}
