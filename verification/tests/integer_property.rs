use concerto::integer_property::{
    integer_default_value, integer_domain_validator, integer_property, IntegerDomainValidator,
    IntegerProperty,
};

#[test]
fn test_integer_property() {
    assert_eq!(
        integer_property("o Integer foo"),
        Ok((
            "",
            IntegerProperty {
                class: String::from("IntegerProperty"),
                name: String::from("foo"),
                default_value: None,
                domain_validator: None,
                is_optional: false,
                is_array: false,
            }
        )),
        "Should parse integer with no meta properties"
    );

    assert_eq!(
        integer_property("o Integer[\t] foo"),
        Ok((
            "",
            IntegerProperty {
                class: String::from("IntegerProperty"),
                name: String::from("foo"),
                default_value: None,
                domain_validator: None,
                is_optional: false,
                is_array: true,
            }
        )),
        "Should parse array flag"
    );

    assert_eq!(
        integer_property("o Integer baz default=42"),
        Ok((
            "",
            IntegerProperty {
                class: String::from("IntegerProperty"),
                name: String::from("baz"),
                default_value: Some(42),
                domain_validator: None,
                is_optional: false,
                is_array: false,
            }
        )),
        "Should parse integer with default value only"
    );

    assert_eq!(
        integer_property("o Integer baz    range   = [ 0 , 10  ]"),
        Ok((
            "",
            IntegerProperty {
                class: String::from("IntegerProperty"),
                name: String::from("baz"),
                default_value: None,
                domain_validator: Some(IntegerDomainValidator {
                    lower: Some(0),
                    upper: Some(10)
                }),
                is_optional: false,
                is_array: false,
            }
        )),
        "Should parse integer with range only"
    );

    assert_eq!(
        integer_property("o Integer baz    range   = [ 0 , 10  ] optional"),
        Ok((
            "",
            IntegerProperty {
                class: String::from("IntegerProperty"),
                name: String::from("baz"),
                default_value: None,
                domain_validator: Some(IntegerDomainValidator {
                    lower: Some(0),
                    upper: Some(10)
                }),
                is_optional: true,
                is_array: false,
            }
        )),
        "Should parse integer with optional flag"
    );

    assert_eq!(
        integer_property("o Integer baz \tdefault  =   -42    range=[,100]"),
        Ok((
            "",
            IntegerProperty {
                class: String::from("IntegerProperty"),
                name: String::from("baz"),
                default_value: Some(-42),
                domain_validator: Some(IntegerDomainValidator {
                    lower: None,
                    upper: Some(100)
                }),
                is_optional: false,
                is_array: false,
            }
        )),
        "Should parse integer with both default and range"
    );

    assert_eq!(
        integer_property("o Integer baz \trange=[,  100 ] \tdefault  =   42"),
        Ok((
            "",
            IntegerProperty {
                class: String::from("IntegerProperty"),
                name: String::from("baz"),
                default_value: Some(42),
                domain_validator: Some(IntegerDomainValidator {
                    lower: None,
                    upper: Some(100)
                }),
                is_optional: false,
                is_array: false,
            }
        )),
        "Should parse integer with both default and range in a different order"
    );
}

#[test]
fn test_integer_meta_clauses_stop_after_three() {
    // four syntactically valid meta-clauses: only the first three are
    // consumed, the fourth stays in the remainder
    let (rem, prop) = integer_property("o Integer baz optional optional optional optional").unwrap();
    assert_eq!(rem, " optional");
    assert!(prop.is_optional);

    let (rem, prop) =
        integer_property("o Integer baz default=1 range=[0,9] optional default=7").unwrap();
    assert_eq!(rem, " default=7");
    assert_eq!(prop.default_value, Some(1));
    assert!(prop.is_optional);
}

#[test]
fn test_integer_duplicate_clause_last_wins() {
    let (rem, prop) = integer_property("o Integer baz default=1 default=2 default=3").unwrap();
    assert_eq!(rem, "");
    assert_eq!(prop.default_value, Some(3));
}

#[test]
fn test_integer_default_value_clause() {
    assert_eq!(integer_default_value("default=42"), Ok(("", 42)));
    assert_eq!(integer_default_value("default  =   -7 rest"), Ok((" rest", -7)));
    assert!(integer_default_value("default=").is_err());
    assert!(integer_default_value("default='Hello'").is_err());
    // a literal that does not fit 32 bits is rejected, not truncated
    assert!(integer_default_value("default=3000000000").is_err());
    assert_eq!(integer_default_value("default=2147483647"), Ok(("", i32::MAX)));
    assert_eq!(integer_default_value("default=-2147483648"), Ok(("", i32::MIN)));
}

#[test]
fn test_integer_domain_validator_clause() {
    assert_eq!(
        integer_domain_validator("range=[0,10]"),
        Ok((
            "",
            IntegerDomainValidator {
                lower: Some(0),
                upper: Some(10)
            }
        ))
    );
    assert_eq!(
        integer_domain_validator("range = [ , 100 ]"),
        Ok((
            "",
            IntegerDomainValidator {
                lower: None,
                upper: Some(100)
            }
        ))
    );
    assert_eq!(
        integer_domain_validator("range=[5,]"),
        Ok((
            "",
            IntegerDomainValidator {
                lower: Some(5),
                upper: None
            }
        ))
    );
    assert!(integer_domain_validator("range=[0 10]").is_err());
    assert!(integer_domain_validator("range=[0,10").is_err());
    assert!(integer_domain_validator("range 0,10]").is_err());
}

#[test]
fn test_integer_range_formatting() {
    let both = IntegerDomainValidator {
        lower: Some(0),
        upper: Some(10),
    };
    assert_eq!(both.to_text(), "[0, 10]");
    let upper_only = IntegerDomainValidator {
        lower: None,
        upper: Some(100),
    };
    assert_eq!(upper_only.to_text(), "[, 100]");
    let lower_only = IntegerDomainValidator {
        lower: Some(5),
        upper: None,
    };
    assert_eq!(lower_only.to_text(), "[5,]");
    let neither = IntegerDomainValidator {
        lower: None,
        upper: None,
    };
    assert_eq!(neither.to_text(), "");
    let negative = IntegerDomainValidator {
        lower: Some(-42),
        upper: Some(i32::MAX),
    };
    assert_eq!(negative.to_text(), "[-42, 2147483647]");
}

#[test]
fn test_integer_property_header_failures() {
    assert!(integer_property("x Integer foo").is_err());
    assert!(integer_property("o Long foo").is_err());
    assert!(integer_property("oInteger foo").is_err());
    assert!(integer_property("o Integer").is_err());
    assert!(integer_property("o Integer ").is_err());
}
