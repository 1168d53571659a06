use promirc::target::{
    resolve, resolve_optional, target_from_parts, Target, UriParts, ValidationError,
    DEFAULT_PLAIN_PORT, DEFAULT_SECURE_PORT, REFUSAL_STATUS,
};

#[test]
fn plaintext_with_explicit_port() {
    let t = resolve("irc://host:1").unwrap();
    assert_eq!(t, Target { host: "host".to_string(), port: 1, secure: false });
}

#[test]
fn secured_without_port_takes_default() {
    let t = resolve("ircs://host").unwrap();
    assert_eq!(t, Target { host: "host".to_string(), port: 6697, secure: true });
    assert_eq!(DEFAULT_SECURE_PORT, 6697);
}

#[test]
fn plaintext_without_port_takes_default() {
    let t = resolve("irc://irc.example.org").unwrap();
    assert_eq!(t, Target { host: "irc.example.org".to_string(), port: 6667, secure: false });
    assert_eq!(DEFAULT_PLAIN_PORT, 6667);
}

#[test]
fn secured_with_explicit_port() {
    let t = resolve("ircs://irc.example.org:7000").unwrap();
    assert_eq!(t, Target { host: "irc.example.org".to_string(), port: 7000, secure: true });
}

#[test]
fn path_and_user_info_are_ignored() {
    let t = resolve("irc://someone@irc.example.org:6668/channel").unwrap();
    assert_eq!(t, Target { host: "irc.example.org".to_string(), port: 6668, secure: false });
}

#[test]
fn highest_port_is_accepted() {
    let t = resolve("irc://host:65535").unwrap();
    assert_eq!(t.port, 65535);
}

#[test]
fn empty_string_is_missing() {
    assert_eq!(resolve(""), Err(ValidationError::MissingParameter));
}

#[test]
fn absent_parameter_is_missing() {
    assert_eq!(resolve_optional(None), Err(ValidationError::MissingParameter));
    assert_eq!(resolve_optional(Some("")), Err(ValidationError::MissingParameter));
}

#[test]
fn present_parameter_is_resolved() {
    assert_eq!(
        resolve_optional(Some("ircs://host")),
        Ok(Target { host: "host".to_string(), port: 6697, secure: true })
    );
}

#[test]
fn other_scheme_is_unsupported() {
    assert_eq!(resolve("http://host"), Err(ValidationError::UnsupportedScheme));
    assert_eq!(resolve("mailto:someone@example.org"), Err(ValidationError::UnsupportedScheme));
}

#[test]
fn scheme_is_matched_without_regard_to_case() {
    let t = resolve("IRCS://host").unwrap();
    assert!(t.secure);
}

#[test]
fn not_a_uri_is_malformed() {
    assert_eq!(resolve("not a uri"), Err(ValidationError::MalformedURI));
    assert_eq!(resolve("://host"), Err(ValidationError::MalformedURI));
}

#[test]
fn port_out_of_range_is_malformed() {
    assert_eq!(resolve("irc://host:65536"), Err(ValidationError::MalformedURI));
    assert_eq!(resolve("irc://host:0"), Err(ValidationError::MalformedURI));
}

#[test]
fn missing_host_is_malformed() {
    assert_eq!(resolve("irc:channel"), Err(ValidationError::MalformedURI));
    assert_eq!(resolve("irc://"), Err(ValidationError::MalformedURI));
}

#[test]
fn parts_decide_the_target() {
    let parts = UriParts { scheme: "ircs".to_string(), host: Some("h".to_string()), port: Some(9) };
    assert_eq!(
        target_from_parts(Some(parts)),
        Ok(Target { host: "h".to_string(), port: 9, secure: true })
    );
    assert_eq!(target_from_parts(None), Err(ValidationError::MalformedURI));
    let no_host = UriParts { scheme: "irc".to_string(), host: None, port: None };
    assert_eq!(target_from_parts(Some(no_host)), Err(ValidationError::MalformedURI));
    let empty_host = UriParts { scheme: "irc".to_string(), host: Some(String::new()), port: None };
    assert_eq!(target_from_parts(Some(empty_host)), Err(ValidationError::MalformedURI));
    let zero = UriParts { scheme: "irc".to_string(), host: Some("h".to_string()), port: Some(0) };
    assert_eq!(target_from_parts(Some(zero)), Err(ValidationError::MalformedURI));
    let other = UriParts { scheme: "gopher".to_string(), host: None, port: Some(0) };
    assert_eq!(target_from_parts(Some(other)), Err(ValidationError::UnsupportedScheme));
}

#[test]
fn every_refusal_has_a_reason_and_the_same_status() {
    assert_eq!(ValidationError::MissingParameter.reason(), "no target");
    assert_eq!(ValidationError::MalformedURI.reason(), "target must be a valid irc uri");
    assert_eq!(ValidationError::UnsupportedScheme.reason(), "target scheme must be irc or ircs");
    assert_ne!(ValidationError::UnsupportedScheme.reason(), ValidationError::MalformedURI.reason());
    assert_ne!(ValidationError::MissingParameter.reason(), ValidationError::MalformedURI.reason());
    assert_eq!(ValidationError::MissingParameter.status(), 400);
    assert_eq!(ValidationError::MalformedURI.status(), REFUSAL_STATUS);
    assert_eq!(ValidationError::UnsupportedScheme.status(), 400);
}

#[test]
fn resolve_answers_every_string() {
    let inputs = [
        "", " ", ":", "//", "irc", "irc:", "irc:/", "irc://", "irc://:", "irc://:1", "irc://h:",
        "ircs://[::1]:6697", "irc://h:99999999999999999999", "irc://%zz", "\u{0}", "irc://h h",
        "IRC://HOST", "ircs://xn--nxasmq6b", "irc://host?x=1#frag",
    ];
    for raw in inputs {
        match resolve(raw) {
            Ok(t) => {
                assert!(!t.host.is_empty());
                assert!(t.port >= 1);
            }
            Err(ValidationError::MissingParameter) => assert!(raw.is_empty()),
            Err(ValidationError::MalformedURI) => {}
            Err(ValidationError::UnsupportedScheme) => {}
        }
    }
}
