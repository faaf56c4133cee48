use ruping::text::{format_time, json_escape, target_lines};
use ruping::transport::IcmpError;

#[test]
fn target_file_lines() {
    let content = "8.8.8.8\n\n  # comment\n  example.com  \r\n#x\n\t1.1.1.1\nlast";
    assert_eq!(target_lines(content), vec!["8.8.8.8", "example.com", "1.1.1.1", "last"]);
    assert!(target_lines("").is_empty());
    assert!(target_lines("\n\n   \n# only comments\n").is_empty());
    assert_eq!(target_lines("a#b\n"), vec!["a#b"]);
    assert_eq!(target_lines("\u{3000}wide\u{a0}\n"), vec!["wide"]);
}

#[test]
fn json_escape_special_characters() {
    assert_eq!(json_escape("plain"), "plain");
    assert_eq!(json_escape("a\"b\\c"), "a\\\"b\\\\c");
    assert_eq!(json_escape("x\ny\rz\tw"), "x\\ny\\rz\\tw");
    assert_eq!(json_escape(""), "");
    assert_eq!(json_escape("héllo"), "héllo");
}

#[test]
fn test_time_formatting() {
    assert_eq!(format_time(500), "<1ms");
    assert_eq!(format_time(1_000), "1ms");
    assert_eq!(format_time(15_700), "16ms");
    assert_eq!(format_time(100_000), "100ms");
}

#[test]
fn time_formatting_rounds_ties_to_even() {
    assert_eq!(format_time(0), "<1ms");
    assert_eq!(format_time(999), "<1ms");
    assert_eq!(format_time(1_499), "1ms");
    assert_eq!(format_time(1_500), "2ms");
    assert_eq!(format_time(2_500), "2ms");
    assert_eq!(format_time(2_501), "3ms");
    assert_eq!(format_time(u64::MAX), "18446744073709552ms");
}

#[test]
fn icmp_error_messages() {
    assert_eq!(IcmpError::DestinationUnreachable.message(), "Destination host unreachable");
    assert_eq!(IcmpError::TimeExceeded.message(), "Request timed out");
    assert_eq!(IcmpError::ParameterProblem.message(), "Parameter problem");
    assert_eq!(IcmpError::SourceQuench.message(), "Source quench");
    assert_eq!(IcmpError::Redirect.message(), "Redirect");
    assert_eq!(IcmpError::Unknown(0).message(), "Unknown ICMP error: 0");
    assert_eq!(IcmpError::Unknown(255).message(), "Unknown ICMP error: 255");
}
