use concerto::long_property::{
    long_default_value, long_domain_validator, long_property, LongDomainValidator, LongProperty,
};

#[test]
fn test_long_property() {
    assert_eq!(
        long_property("o Long foo"),
        Ok((
            "",
            LongProperty {
                class: String::from("LongProperty"),
                name: String::from("foo"),
                default_value: None,
                domain_validator: None,
                is_optional: false,
                is_array: false,
            }
        )),
        "Should parse long with no meta properties"
    );

    assert_eq!(
        long_property("o Long baz default=42"),
        Ok((
            "",
            LongProperty {
                class: String::from("LongProperty"),
                name: String::from("baz"),
                default_value: Some(42),
                domain_validator: None,
                is_optional: false,
                is_array: false,
            }
        )),
        "Should parse long with default value only"
    );

    assert_eq!(
        long_property("o Long baz optional default=42"),
        Ok((
            "",
            LongProperty {
                class: String::from("LongProperty"),
                name: String::from("baz"),
                default_value: Some(42),
                domain_validator: None,
                is_optional: true,
                is_array: false,
            }
        )),
        "Should parse long with optional flag"
    );

    assert_eq!(
        long_property("o Long baz default='Hello'"),
        Ok((
            " default='Hello'",
            LongProperty {
                class: String::from("LongProperty"),
                name: String::from("baz"),
                default_value: None,
                domain_validator: None,
                is_optional: false,
                is_array: false,
            }
        )),
        "Should not parse long with wrong default value"
    );

    assert_eq!(
        long_property("o Long baz    range   = [ 0 , 10  ]"),
        Ok((
            "",
            LongProperty {
                class: String::from("LongProperty"),
                name: String::from("baz"),
                default_value: None,
                domain_validator: Some(LongDomainValidator {
                    lower: Some(0),
                    upper: Some(10)
                }),
                is_optional: false,
                is_array: false,
            }
        )),
        "Should parse long with range only"
    );

    assert_eq!(
        long_property("o Long[] baz    range   = [ 0 , 10  ]"),
        Ok((
            "",
            LongProperty {
                class: String::from("LongProperty"),
                name: String::from("baz"),
                default_value: None,
                domain_validator: Some(LongDomainValidator {
                    lower: Some(0),
                    upper: Some(10)
                }),
                is_optional: false,
                is_array: true,
            }
        )),
        "Should parse long with array flag"
    );

    assert_eq!(
        long_property("o Long baz \tdefault  =   -42    range=[,100]"),
        Ok((
            "",
            LongProperty {
                class: String::from("LongProperty"),
                name: String::from("baz"),
                default_value: Some(-42),
                domain_validator: Some(LongDomainValidator {
                    lower: None,
                    upper: Some(100)
                }),
                is_optional: false,
                is_array: false,
            }
        )),
        "Should parse long with both default and range"
    );

    assert_eq!(
        long_property("o Long baz \tdefault  =  'Hello'    range=[,100]"),
        Ok((
            " \tdefault  =  'Hello'    range=[,100]",
            LongProperty {
                class: String::from("LongProperty"),
                name: String::from("baz"),
                default_value: None,
                domain_validator: None,
                is_optional: false,
                is_array: false,
            }
        )),
        "Should not parse long with wrong default value even though other meta is correct"
    );

    assert_eq!(
        long_property("o Long baz \trange=[,  100 ] \tdefault  =   42"),
        Ok((
            "",
            LongProperty {
                class: String::from("LongProperty"),
                name: String::from("baz"),
                default_value: Some(42),
                domain_validator: Some(LongDomainValidator {
                    lower: None,
                    upper: Some(100)
                }),
                is_optional: false,
                is_array: false,
            }
        )),
        "Should parse long with both default and range in a different order"
    );
}

#[test]
fn test_long_default_value_width() {
    // a value over 32 bits fits a long even though an integer rejects it
    assert_eq!(long_default_value("default=3000000000"), Ok(("", 3000000000)));
    assert_eq!(
        long_default_value("default=9223372036854775807"),
        Ok(("", i64::MAX))
    );
    assert_eq!(
        long_default_value("default=-9223372036854775808"),
        Ok(("", i64::MIN))
    );
    assert!(long_default_value("default=9223372036854775808").is_err());
}

#[test]
fn test_long_domain_validator_clause() {
    assert_eq!(
        long_domain_validator("range=[-5000000000,5000000000]"),
        Ok((
            "",
            LongDomainValidator {
                lower: Some(-5000000000),
                upper: Some(5000000000)
            }
        ))
    );
    assert!(long_domain_validator("range=[]").is_err());
}

#[test]
fn test_long_range_formatting() {
    let both = LongDomainValidator {
        lower: Some(-5000000000),
        upper: Some(9223372036854775807),
    };
    assert_eq!(both.to_text(), "[-5000000000, 9223372036854775807]");
    let neither = LongDomainValidator {
        lower: None,
        upper: None,
    };
    assert_eq!(neither.to_text(), "");
}
