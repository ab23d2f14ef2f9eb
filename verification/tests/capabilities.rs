use managesieve::capabilities::{
    str_equal, verify_capabilities, Capabilities, CapabilitiesError, Capability, Version,
};
use managesieve::parser::lines::response_capability;
use managesieve::parser::ParseResult;

fn minimal() -> Vec<Capability> {
    vec![
        Capability::Implementation("Example".into()),
        Capability::Sieve(vec!["fileinto".into()]),
        Capability::Version(Version { major: 1, minor: 0 }),
    ]
}

#[test]
fn minimal_announcement() {
    let record = verify_capabilities(minimal()).unwrap();
    assert_eq!(
        record,
        Capabilities {
            implementation: "Example".into(),
            sasl: vec![],
            sieve: vec!["fileinto".into()],
            start_tls: false,
            max_redirects: None,
            notify: None,
            language: None,
            owner: None,
            version: Version { major: 1, minor: 0 },
            others: vec![],
        }
    );
}

#[test]
fn full_announcement() {
    let mut caps = minimal();
    caps.push(Capability::Sasl(vec!["PLAIN".into()]));
    caps.push(Capability::StartTls);
    caps.push(Capability::MaxRedirects(5));
    caps.push(Capability::Notify(vec!["mailto".into()]));
    caps.push(Capability::Language("en".into()));
    caps.push(Capability::Owner("me".into()));
    caps.push(Capability::Unknown("X-A".into(), None));
    caps.push(Capability::Unknown("X-B".into(), Some("b".into())));
    let record = verify_capabilities(caps).unwrap();
    assert_eq!(record.sasl, vec!["PLAIN".to_string()]);
    assert!(record.start_tls);
    assert_eq!(record.max_redirects, Some(5));
    assert_eq!(record.notify, Some(vec!["mailto".to_string()]));
    assert_eq!(record.language, Some("en".to_string()));
    assert_eq!(record.owner, Some("me".to_string()));
    assert_eq!(
        record.others,
        vec![("X-A".to_string(), None), ("X-B".to_string(), Some("b".to_string()))]
    );
}

#[test]
fn missing_required_capabilities() {
    let mut caps = minimal();
    caps.remove(0);
    assert_eq!(verify_capabilities(caps), Err(CapabilitiesError::MissingImplementation));
    let mut caps = minimal();
    caps.remove(1);
    assert_eq!(verify_capabilities(caps), Err(CapabilitiesError::MissingSieve));
    let mut caps = minimal();
    caps.remove(2);
    assert_eq!(verify_capabilities(caps), Err(CapabilitiesError::MissingVersion));
    assert_eq!(verify_capabilities(vec![]), Err(CapabilitiesError::MissingImplementation));
    assert_eq!(
        verify_capabilities(vec![Capability::Version(Version { major: 1, minor: 0 })]),
        Err(CapabilitiesError::MissingImplementation)
    );
}

#[test]
fn duplicate_capabilities() {
    let mut caps = minimal();
    caps.push(Capability::Sieve(vec![]));
    assert_eq!(
        verify_capabilities(caps),
        Err(CapabilitiesError::DuplicateCapability { capability: "SIEVE".into() })
    );
    let mut caps = minimal();
    caps.push(Capability::Unknown("X-A".into(), None));
    caps.push(Capability::Unknown("X-A".into(), Some("again".into())));
    assert_eq!(
        verify_capabilities(caps),
        Err(CapabilitiesError::DuplicateCapability { capability: "X-A".into() })
    );
    let caps = vec![Capability::StartTls, Capability::StartTls];
    assert_eq!(
        verify_capabilities(caps),
        Err(CapabilitiesError::DuplicateCapability { capability: "STARTTLS".into() })
    );
    let caps = vec![
        Capability::MaxRedirects(1),
        Capability::Owner("a".into()),
        Capability::Owner("b".into()),
        Capability::MaxRedirects(2),
    ];
    assert_eq!(
        verify_capabilities(caps),
        Err(CapabilitiesError::DuplicateCapability { capability: "OWNER".into() })
    );
}

#[test]
fn error_texts() {
    assert_eq!(
        CapabilitiesError::MissingSieve.to_text(),
        "capabilities response is missing required capability `SIEVE`"
    );
    assert_eq!(
        CapabilitiesError::DuplicateCapability { capability: "X".into() }.to_text(),
        "received duplicate capability `X`"
    );
}

#[test]
fn minimal_announcement_from_the_wire() {
    let bytes = b"\"IMPLEMENTATION\" \"Example\"\r\n\"SIEVE\" \"fileinto\"\r\n\"VERSION\" \"1.0\"\r\nOK\r\n";
    let ParseResult::Success((capabilities, _), end) = response_capability(bytes, 0) else {
        panic!("not an announcement");
    };
    assert_eq!(end, bytes.len());
    let record = verify_capabilities(capabilities).unwrap();
    assert!(record.sasl.is_empty());
    assert!(!record.start_tls);
    assert_eq!(record.implementation, "Example");
    assert_eq!(record.sieve, vec!["fileinto".to_string()]);
    assert_eq!(record.version, Version { major: 1, minor: 0 });
}

#[test]
fn unknown_capabilities_are_looked_up_by_name() {
    let mut caps = minimal();
    caps.push(Capability::Unknown("X-A".into(), None));
    caps.push(Capability::Unknown("X-B".into(), Some("b".into())));
    let record = verify_capabilities(caps).unwrap();
    assert_eq!(record.extension("X-A"), Some(&None));
    assert_eq!(record.extension("X-B"), Some(&Some("b".to_string())));
    assert_eq!(record.extension("X-C"), None);
    assert_eq!(record.extension("x-a"), None);
    assert_eq!(record.extension("SIEVE"), None);
}

#[test]
fn strings_are_compared_as_texts() {
    assert!(str_equal("", ""));
    assert!(str_equal("abc", "abc"));
    assert!(!str_equal("abc", "abd"));
    assert!(!str_equal("abc", "ab"));
    assert!(!str_equal("\u{e9}", "e"));
}
