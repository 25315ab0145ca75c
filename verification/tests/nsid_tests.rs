use abnf_engine::nsid::{nsid_pattern_matches, Error, Nsid};

#[test]
fn test_empty() {
    let expected = Error::invalid().message();
    let actual = Nsid::new("").expect_err("empty strings are invalid").message();
    assert_eq!(expected, actual);
}

#[test]
fn test_authority() {
    let nsid = Nsid::new("com.atproto.test").unwrap();
    assert_eq!(nsid.authority(), "atproto.com");
}

#[test]
fn test_struct_name() {
    let nsid = Nsid::new("com.atproto.test").unwrap();
    assert_eq!(nsid.as_struct_name(), "Test");
}

#[test]
fn test_crate_name() {
    let nsid = Nsid::new("com.atproto.test").unwrap();
    assert_eq!(nsid.as_crate_name(), "atproto-com");
}

#[test]
fn test_from_str() {
    let nsid = Nsid::new("com.atproto.test").unwrap();
    assert_eq!(nsid.authority(), "atproto.com");
    assert_eq!(nsid.as_struct_name(), "Test");
}

#[test]
fn test_regex() {
    assert!(nsid_pattern_matches("com.atproto.test"));
    assert!(nsid_pattern_matches("dashes.are.a-ok"));
    assert!(nsid_pattern_matches("com.atproto.testCamelCase"));
    assert!(nsid_pattern_matches("com.atproto.test.long.name.with.many.segments"));
    assert!(nsid_pattern_matches("99.numbers.are.ok.2"));
    assert!(!nsid_pattern_matches("symbols.are.not.ok.$#{!^["));
    assert!(!nsid_pattern_matches("spaces are not ok.at.all"));
    assert!(!nsid_pattern_matches("underscorse_are_not_ok.at.all"));
    assert!(!nsid_pattern_matches("multiple.dots.in.a.row...are.not.ok"));
}

#[test]
fn test_longer_authority() {
    let nsid = Nsid::new("net.users.bob.ping").unwrap();
    assert_eq!(nsid.authority(), "bob.users.net");
    assert_eq!(nsid.as_crate_name(), "bob-users-net");
    assert_eq!(nsid.as_struct_name(), "Ping");
    assert_eq!(nsid.as_str(), "net.users.bob.ping");
}

#[test]
fn test_invalid_identifiers_are_rejected() {
    assert!(Nsid::new("single").is_err());
    assert!(Nsid::new("two.segments").is_err());
    assert!(Nsid::new("com.atproto.test").is_ok());
}
