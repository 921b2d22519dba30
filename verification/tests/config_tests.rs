use file_agent::config::{parse_port, SftpConfig};

#[test]
fn ports_parse_exactly() {
    assert_eq!(parse_port("22"), Some(22));
    assert_eq!(parse_port("0"), Some(0));
    assert_eq!(parse_port("65535"), Some(65535));
    assert_eq!(parse_port("+8080"), Some(8080));
    assert_eq!(parse_port("0022"), Some(22));
}

#[test]
fn bad_ports_are_rejected() {
    assert_eq!(parse_port(""), None);
    assert_eq!(parse_port("+"), None);
    assert_eq!(parse_port("65536"), None);
    assert_eq!(parse_port("99999999999999999999"), None);
    assert_eq!(parse_port("-1"), None);
    assert_eq!(parse_port("2 2"), None);
    assert_eq!(parse_port("22a"), None);
    assert_eq!(parse_port("port"), None);
}

#[test]
fn config_carries_its_fields() {
    let c = SftpConfig {
        username: "user".to_string(),
        password: "SECRET-REDACTED".to_string(),
        host: "files.example.net".to_string(),
        port: parse_port("2222").unwrap(),
    };
    assert_eq!(c.port, 2222);
    assert_eq!(c.host, "files.example.net");
}
