use file_server::LogMode;
use file_server::logfmt::format_log_line;
use file_server::logfmt::format_request_info;
use file_server::ports::bind_octets;
use file_server::ports::probe_port;

#[test]
fn parses_log_modes() {
    assert_eq!(LogMode::parse("none"), Some(LogMode::Off));
    assert_eq!(LogMode::parse("console"), Some(LogMode::Console));
    assert_eq!(LogMode::parse("file"), Some(LogMode::File));
    assert_eq!(LogMode::parse("both"), Some(LogMode::Both));
}

#[test]
fn parses_log_modes_case_insensitively() {
    assert_eq!(LogMode::parse("FILE"), Some(LogMode::File));
    assert_eq!(LogMode::parse("Both"), Some(LogMode::Both));
    assert_eq!(LogMode::parse("NONE"), Some(LogMode::Off));
}

#[test]
fn rejects_unknown_log_modes() {
    assert_eq!(LogMode::parse(""), None);
    assert_eq!(LogMode::parse("filee"), None);
    assert_eq!(LogMode::parse("log"), None);
}

#[test]
fn log_mode_gates() {
    assert!(!LogMode::Off.writes_console() && !LogMode::Off.writes_file());
    assert!(LogMode::Console.writes_console() && !LogMode::Console.writes_file());
    assert!(!LogMode::File.writes_console() && LogMode::File.writes_file());
    assert!(LogMode::Both.writes_console() && LogMode::Both.writes_file());
}

#[test]
fn formats_request_info() {
    assert_eq!(format_request_info("GET", "/a/b"), "GET /a/b");
}

#[test]
fn formats_one_well_formed_log_line() {
    let line = format_log_line("2024-05-01 10:20:30", "GET /a/b");
    assert_eq!(line, "[2024-05-01 10:20:30] GET /a/b\n");
    // exactly one newline, at the end
    assert_eq!(line.matches('\n').count(), 1);
    assert!(line.ends_with('\n'));
}

#[test]
fn probes_successive_ports() {
    assert_eq!(probe_port(8080, 20, 0), Some(8080));
    assert_eq!(probe_port(8080, 20, 19), Some(8099));
    assert_eq!(probe_port(8080, 20, 20), None);
}

#[test]
fn probe_stops_at_largest_port() {
    assert_eq!(probe_port(65535, 5, 0), Some(65535));
    assert_eq!(probe_port(65535, 5, 1), None);
    assert_eq!(probe_port(65530, 20, 10), None);
}

#[test]
fn bind_address_follows_public_flag() {
    assert_eq!(bind_octets(true), (0, 0, 0, 0));
    assert_eq!(bind_octets(false), (127, 0, 0, 1));
}
