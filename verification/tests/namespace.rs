use concerto::namespace::{parse_namespace, serialize_namespace, Namespace};
use concerto::semver::SemVer;

fn parse(input: &str) -> Namespace {
    parse_namespace(input).unwrap().1
}

#[test]
fn test_namespace_unversioned() {
    assert_eq!(
        parse("namespace com.foo.bar"),
        Namespace {
            name: String::from("com.foo.bar"),
            version: None
        }
    )
}

#[test]
fn test_namespace_versioned() {
    assert_eq!(
        parse("namespace com.example.foo@1.0.42"),
        Namespace {
            name: String::from("com.example.foo"),
            version: Some(SemVer {
                major: 1,
                minor: 0,
                patch: 42,
                prerelease: String::new(),
                build: String::new()
            })
        }
    )
}

#[test]
fn test_namespace_consumes_prefix_only() {
    let (rem, ns) = parse_namespace("namespace com.foo.bar rest").unwrap();
    assert_eq!(ns.name, "com.foo.bar");
    assert_eq!(rem, " rest");
}

#[test]
fn test_namespace_bad_version_suffix_left_unconsumed() {
    let (rem, ns) = parse_namespace("namespace com.foo@oops").unwrap();
    assert_eq!(ns.name, "com.foo");
    assert_eq!(ns.version, None);
    assert_eq!(rem, "@oops");
}

#[test]
fn test_namespace_missing_keyword_fails() {
    assert!(parse_namespace("names com.foo.bar").is_err());
    assert!(parse_namespace("namespace").is_err());
    assert!(parse_namespace("namespace ").is_err());
}

#[test]
fn test_namespace_round_trip_versioned() {
    let first = parse("namespace com.example.foo@1.2.3-rc1+b7");
    let text = serialize_namespace(&first);
    assert_eq!(text, "namespace com.example.foo@1.2.3-rc1+b7");
    let again = parse(&text);
    assert_eq!(first, again);
}

#[test]
fn test_namespace_round_trip_short_version_is_padded() {
    let first = parse("namespace com.foo@2");
    let text = serialize_namespace(&first);
    assert_eq!(text, "namespace com.foo@2.0.0");
    let again = parse(&text);
    assert_eq!(first, again);
}

#[test]
fn test_namespace_round_trip_unversioned() {
    let first = parse("namespace com.foo.bar");
    let text = serialize_namespace(&first);
    assert_eq!(text, "namespace com.foo.bar");
    assert_eq!(parse(&text), first);
}
