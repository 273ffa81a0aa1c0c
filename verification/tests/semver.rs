use concerto::semver::{parse_semver, serialize_semver, SemVer};

fn parse(input: &str) -> SemVer {
    parse_semver(input).unwrap().1
}

#[test]
fn test_full_semver() {
    assert_eq!(
        parse("12.13.14-pre123+a"),
        SemVer {
            major: 12,
            minor: 13,
            patch: 14,
            prerelease: String::from("pre123"),
            build: String::from("a")
        }
    );
    assert_eq!(
        parse("1.0.0-alpha+001"),
        SemVer {
            major: 1,
            minor: 0,
            patch: 0,
            prerelease: String::from("alpha"),
            build: String::from("001")
        }
    );
    assert_eq!(
        parse("1.0.0+21AF26D3----117B344092BD"),
        SemVer {
            major: 1,
            minor: 0,
            patch: 0,
            prerelease: String::from(""),
            build: String::from("21AF26D3----117B344092BD")
        }
    );
}

#[test]
fn test_major_minor() {
    assert_eq!(
        parse("12.13-pre123+a"),
        SemVer {
            major: 12,
            minor: 13,
            patch: 0,
            prerelease: String::from("pre123"),
            build: String::from("a")
        }
    );
    assert_eq!(
        parse("12.13+a"),
        SemVer {
            major: 12,
            minor: 13,
            patch: 0,
            prerelease: String::from(""),
            build: String::from("a")
        }
    );
    assert_eq!(
        parse("12.13"),
        SemVer {
            major: 12,
            minor: 13,
            patch: 0,
            prerelease: String::from(""),
            build: String::from("")
        }
    );
}

#[test]
fn test_major() {
    assert_eq!(
        parse("12-pre123+a"),
        SemVer {
            major: 12,
            minor: 0,
            patch: 0,
            prerelease: String::from("pre123"),
            build: String::from("a")
        }
    );
    assert_eq!(
        parse("12+a"),
        SemVer {
            major: 12,
            minor: 0,
            patch: 0,
            prerelease: String::from(""),
            build: String::from("a")
        }
    );
    assert_eq!(
        parse("12"),
        SemVer {
            major: 12,
            minor: 0,
            patch: 0,
            prerelease: String::from(""),
            build: String::from("")
        }
    );
}

#[test]
fn test_semver_needs_a_leading_digit() {
    assert!(parse_semver("abc").is_err());
    assert!(parse_semver("-1").is_err());
    assert!(parse_semver("").is_err());
}

#[test]
fn test_semver_component_too_large_falls_back_to_zero() {
    // a component that does not fit 32 bits is taken as 0, not an error
    assert_eq!(parse("99999999999").major, 0);
    assert_eq!(parse("1.99999999999.2"), SemVer {
        major: 1,
        minor: 0,
        patch: 2,
        prerelease: String::new(),
        build: String::new()
    });
    assert_eq!(parse("4294967295").major, u32::MAX);
}

#[test]
fn test_semver_serialize() {
    let v = SemVer {
        major: 12,
        minor: 13,
        patch: 14,
        prerelease: String::from("pre123"),
        build: String::from("a"),
    };
    assert_eq!(serialize_semver(&v), "12.13.14-pre123+a");
    let short = SemVer {
        major: 7,
        minor: 0,
        patch: 0,
        prerelease: String::new(),
        build: String::new(),
    };
    assert_eq!(serialize_semver(&short), "7.0.0");
}
