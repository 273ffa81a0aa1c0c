use concerto::{parse, ConcertoParser, Model};
use concerto::namespace::Namespace;
use concerto::semver::SemVer;

#[test]
fn test_parse_model() {
    let model = parse("namespace com.foo.bar").unwrap();
    assert_eq!(
        model,
        Model {
            namespace: Namespace {
                name: String::from("com.foo.bar"),
                version: None
            }
        }
    );
}

#[test]
fn test_parse_model_versioned_with_surrounding_whitespace() {
    let model = parse("\nnamespace com.example.foo@1.0.42\n").unwrap();
    assert_eq!(
        model.namespace,
        Namespace {
            name: String::from("com.example.foo"),
            version: Some(SemVer {
                major: 1,
                minor: 0,
                patch: 42,
                prerelease: String::new(),
                build: String::new()
            })
        }
    );
}

#[test]
fn test_parse_model_is_all_or_nothing() {
    // leftover text after the declarations fails the whole parse
    assert!(parse("namespace com.foo.bar garbage").is_err());
    assert!(parse("").is_err());
    assert!(parse("o Integer foo").is_err());
}

#[test]
fn test_concerto_parser_entry_point() {
    let model = ConcertoParser::parse("namespace org.acme@4.5.6").unwrap();
    assert_eq!(model.namespace.name, "org.acme");
    let v = model.namespace.version.unwrap();
    assert_eq!((v.major, v.minor, v.patch), (4, 5, 6));
    assert!(ConcertoParser::parse("not a model").is_err());
}
