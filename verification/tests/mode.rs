use robigo_luculenta::mode::{parse_mode, parse_port, str_eq, AppMode, ModeError};

fn args(list: &[&str]) -> Vec<String> {
    list.iter().map(|s| s.to_string()).collect()
}

#[test]
fn no_arguments_means_single() {
    assert!(matches!(parse_mode(&args(&["tracer"])), Ok(AppMode::Single)));
    assert!(matches!(parse_mode(&args(&[])), Ok(AppMode::Single)));
}

#[test]
fn master_with_port() {
    match parse_mode(&args(&["tracer", "--master", "8080"])) {
        Ok(AppMode::Master(port)) => assert_eq!(port, 8080),
        other => panic!("expected master mode, got {:?}", other),
    }
}

#[test]
fn master_with_bad_port() {
    assert_eq!(
        parse_mode(&args(&["tracer", "--master", "65536"])).unwrap_err(),
        ModeError::InvalidPort
    );
    assert_eq!(
        parse_mode(&args(&["tracer", "--master", "80a0"])).unwrap_err(),
        ModeError::InvalidPort
    );
    assert_eq!(
        parse_mode(&args(&["tracer", "--master", ""])).unwrap_err(),
        ModeError::InvalidPort
    );
}

#[test]
fn master_without_port() {
    assert_eq!(
        parse_mode(&args(&["tracer", "--master"])).unwrap_err(),
        ModeError::NoPortSpecified
    );
}

#[test]
fn slave_with_address() {
    match parse_mode(&args(&["tracer", "--slave", "198.51.100.7:1234"])) {
        Ok(AppMode::Slave(addr)) => assert_eq!(addr, "198.51.100.7:1234"),
        other => panic!("expected slave mode, got {:?}", other),
    }
}

#[test]
fn slave_without_address() {
    assert_eq!(
        parse_mode(&args(&["tracer", "--slave"])).unwrap_err(),
        ModeError::NoMasterAddressSpecified
    );
}

#[test]
fn unknown_flag_is_rejected() {
    assert_eq!(
        parse_mode(&args(&["tracer", "--fast"])).unwrap_err(),
        ModeError::UnrecognisedParameter
    );
}

#[test]
fn port_parsing_edges() {
    assert_eq!(parse_port("0"), Some(0));
    assert_eq!(parse_port("65535"), Some(65535));
    assert_eq!(parse_port("65536"), None);
    assert_eq!(parse_port("007"), Some(7));
    assert_eq!(parse_port(""), None);
    assert_eq!(parse_port("12 3"), None);
    assert_eq!(parse_port("-1"), None);
    assert_eq!(parse_port("99999999999999999999"), None);
}

#[test]
fn string_comparison() {
    assert!(str_eq("--master", "--master"));
    assert!(!str_eq("--master", "--slave"));
    assert!(!str_eq("", "a"));
    assert!(str_eq("", ""));
}
