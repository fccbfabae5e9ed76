use rpsl_parser::Attribute;
use rpsl_parser::Name;
use rpsl_parser::Value;
use rpsl_parser::error::InvalidNameError;
use rpsl_parser::error::InvalidValueError;

#[test]
fn name_display() {
    let name_display = Name::from_str("address").unwrap().as_str().to_string();
    assert_eq!(name_display, "address");
}

#[test]
fn name_from_str_valid() {
    assert_eq!(Name::from_str("role").unwrap().as_str(), "role");
    assert_eq!(Name::from_str("person").unwrap().as_str(), "person");
    assert_eq!(Name::from_str("aut-num").unwrap().as_str(), "aut-num");
    assert_eq!(Name::from_str("route6").unwrap().as_str(), "route6");
}

#[test]
fn name_from_str_empty_is_error() {
    assert_eq!(Name::from_str("").unwrap_err(), InvalidNameError::Empty);
    assert_eq!(Name::from_str("   ").unwrap_err(), InvalidNameError::Empty);
    assert_eq!(Name::from_str("\t\n").unwrap_err(), InvalidNameError::Empty);
}

#[test]
fn name_from_str_non_ascii_is_error() {
    assert_eq!(Name::from_str("rôle").unwrap_err(), InvalidNameError::NonAscii);
    assert_eq!(Name::from_str("ü").unwrap_err(), InvalidNameError::NonAscii);
}

#[test]
fn name_from_str_non_letter_first_char_is_error() {
    assert_eq!(
        Name::from_str("1role").unwrap_err(),
        InvalidNameError::NonAsciiAlphabeticFirstChar
    );
    assert_eq!(
        Name::from_str("-role").unwrap_err(),
        InvalidNameError::NonAsciiAlphabeticFirstChar
    );
    assert_eq!(
        Name::from_str("_role").unwrap_err(),
        InvalidNameError::NonAsciiAlphabeticFirstChar
    );
}

#[test]
fn name_from_str_non_letter_or_digit_last_char_is_error() {
    assert_eq!(
        Name::from_str("role-").unwrap_err(),
        InvalidNameError::NonAsciiAlphanumericLastChar
    );
    assert_eq!(
        Name::from_str("role_").unwrap_err(),
        InvalidNameError::NonAsciiAlphanumericLastChar
    );
}

#[test]
fn name_from_str_single_letter_is_accepted() {
    // The semantic validator is looser than the grammar: a single letter is
    // simultaneously a valid first and last character.
    assert_eq!(Name::from_str("a").unwrap().as_str(), "a");
}

#[test]
fn value_from_str_keeps_content() {
    let value = Value::from_str("This is a valid attribute value").unwrap();
    assert_eq!(
        value,
        Value::SingleLine(Some("This is a valid attribute value".to_string()))
    );
}

#[test]
fn value_from_str_untrimmed_content_is_kept() {
    let value = Value::from_str("  padded value ").unwrap();
    assert_eq!(value, Value::SingleLine(Some("  padded value ".to_string())));
}

#[test]
fn value_from_empty_str_is_none() {
    assert_eq!(Value::from_str("").unwrap(), Value::SingleLine(None));
    assert_eq!(Value::from_str("   ").unwrap(), Value::SingleLine(None));
}

#[test]
fn value_from_str_non_ascii_is_err() {
    assert_eq!(
        Value::from_str("Ünïcode notice").unwrap_err(),
        InvalidValueError::NonAscii
    );
}

#[test]
fn value_from_str_ascii_control_is_err() {
    assert_eq!(
        Value::from_str("tab\there").unwrap_err(),
        InvalidValueError::ContainsControlChar
    );
}

#[test]
fn value_from_str_non_ascii_reported_before_control() {
    assert_eq!(
        Value::from_str("ü\t").unwrap_err(),
        InvalidValueError::NonAscii
    );
}

#[test]
fn value_from_vec_w_1_value_is_single_line() {
    assert_eq!(
        Value::try_from_lines(vec!["Packet Street 6"]).unwrap(),
        Value::SingleLine(Some("Packet Street 6".to_string()))
    );
}

#[test]
fn value_from_vec_of_str() {
    assert_eq!(
        Value::try_from_lines(vec!["Packet Street 6", "128 Series of Tubes", "Internet"]).unwrap(),
        Value::MultiLine(vec![
            Some("Packet Street 6".to_string()),
            Some("128 Series of Tubes".to_string()),
            Some("Internet".to_string())
        ])
    );
    assert_eq!(
        Value::try_from_lines(vec!["", "128 Series of Tubes", "Internet"]).unwrap(),
        Value::MultiLine(vec![
            None,
            Some("128 Series of Tubes".to_string()),
            Some("Internet".to_string())
        ])
    );
    assert_eq!(
        Value::try_from_lines(vec!["", " ", "   "]).unwrap(),
        Value::MultiLine(vec![None, None, None])
    );
}

#[test]
fn value_from_vec_reports_first_invalid_element() {
    assert_eq!(
        Value::try_from_lines(vec!["fine", "ünïcode", "tab\there"]).unwrap_err(),
        InvalidValueError::NonAscii
    );
    assert_eq!(
        Value::try_from_lines(vec!["fine", "tab\there", "ünïcode"]).unwrap_err(),
        InvalidValueError::ContainsControlChar
    );
}

#[test]
fn value_from_empty_vec_is_empty_multi_line() {
    let value = Value::try_from_lines(Vec::new()).unwrap();
    assert_eq!(value, Value::MultiLine(Vec::new()));
    assert_eq!(value.len(), 0);
}

#[test]
fn value_len() {
    assert_eq!(Value::from_str("single value").unwrap().len(), 1);
    assert_eq!(
        Value::try_from_lines(vec!["multi", "value", "attribute"]).unwrap().len(),
        3
    );
}

#[test]
fn value_with_content() {
    assert_eq!(Value::SingleLine(None).with_content(), Vec::<&str>::new());
    assert_eq!(
        Value::SingleLine(Some("single value".to_string())).with_content(),
        vec!["single value"]
    );
    assert_eq!(
        Value::MultiLine(vec![
            None,
            Some("128 Series of Tubes".to_string()),
            Some("Internet".to_string())
        ])
        .with_content(),
        vec!["128 Series of Tubes", "Internet"]
    );
    assert_eq!(
        Value::MultiLine(vec![
            Some("Packet Street 6".to_string()),
            Some("128 Series of Tubes".to_string()),
            Some("Internet".to_string())
        ])
        .with_content(),
        vec!["Packet Street 6", "128 Series of Tubes", "Internet"]
    );
}

#[test]
fn value_eq_str_matching_content_is_eq() {
    let value = Value::SingleLine(Some("a value".to_string()));
    assert!(value.eq_str("a value"));
    let absent = Value::SingleLine(None);
    assert!(absent.eq_str(""));
    assert!(absent.eq_str("   "));
}

#[test]
fn value_eq_str_differing_content_is_ne() {
    let value = Value::SingleLine(Some("a value".to_string()));
    assert!(!value.eq_str("a different value"));
    assert!(!value.eq_str("a valuX"));
    assert!(!value.eq_str(""));
    let multi = Value::MultiLine(vec![
        Some("multi".to_string()),
        Some("value".to_string()),
    ]);
    assert!(!multi.eq_str("single value"));
}

#[test]
fn value_eq_lines_matching_content_is_eq() {
    let value = Value::MultiLine(vec![
        Some("multi".to_string()),
        Some("value".to_string()),
        Some("attribute".to_string()),
    ]);
    assert!(value.eq_lines(&vec!["multi", "value", "attribute"]));
    let with_blank = Value::MultiLine(vec![Some("multi".to_string()), None]);
    assert!(with_blank.eq_lines(&vec!["multi", "   "]));
}

#[test]
fn value_eq_lines_differing_content_is_ne() {
    let single = Value::SingleLine(Some("single value".to_string()));
    assert!(!single.eq_lines(&vec!["multi", "value"]));
    let value = Value::MultiLine(vec![
        Some("multi".to_string()),
        Some("value".to_string()),
        Some("attribute".to_string()),
    ]);
    assert!(!value.eq_lines(&vec!["different", "multi", "value", "attribute"]));
}

#[test]
fn value_eq_opt_lines_matching_content_is_eq() {
    let value = Value::MultiLine(vec![
        Some("multi".to_string()),
        None,
        Some("attribute".to_string()),
    ]);
    assert!(value.eq_opt_lines(&vec![Some("multi"), None, Some("attribute")]));
}

#[test]
fn value_eq_opt_lines_differing_content_is_ne() {
    let value = Value::MultiLine(vec![
        Some("multi".to_string()),
        None,
        Some("attribute".to_string()),
    ]);
    // No coercion: an absent line does not equal a present blank line.
    assert!(!value.eq_opt_lines(&vec![Some("multi"), Some("   "), Some("attribute")]));
    let single = Value::SingleLine(Some("single value".to_string()));
    assert!(!single.eq_opt_lines(&vec![Some("multi"), Some("value")]));
}

#[test]
fn attribute_new_pairs_name_and_value() {
    let attribute = Attribute::new(
        Name::from_str("role").unwrap(),
        Value::from_str("ACME Company").unwrap(),
    );
    assert_eq!(attribute.name.as_str(), "role");
    assert!(attribute.value.eq_str("ACME Company"));
}

#[test]
fn attribute_display_single_line() {
    let cases = vec![
        ("ASNumber", "32934", "ASNumber:       32934\n"),
        ("ASName", "FACEBOOK", "ASName:         FACEBOOK\n"),
        ("RegDate", "2004-08-24", "RegDate:        2004-08-24\n"),
        (
            "Ref",
            "https://rdap.arin.net/registry/autnum/32934",
            "Ref:            https://rdap.arin.net/registry/autnum/32934\n",
        ),
    ];
    for (name, value, expected) in cases {
        let attribute = Attribute::new(
            Name::from_str(name).unwrap(),
            Value::from_str(value).unwrap(),
        );
        assert_eq!(attribute.to_text(), expected);
    }
}

#[test]
fn attribute_display_multi_line() {
    let attribute = Attribute::new(
        Name::from_str("remarks").unwrap(),
        Value::try_from_lines(vec![
            "AS1299 is matching RPKI validation state and reject",
            "invalid prefixes from peers and customers.",
        ])
        .unwrap(),
    );
    assert_eq!(
        attribute.to_text(),
        "remarks:        AS1299 is matching RPKI validation state and reject\n                invalid prefixes from peers and customers.\n"
    );
}

#[test]
fn attribute_display_absent_lines_render_empty() {
    let attribute = Attribute::new(
        Name::from_str("remarks").unwrap(),
        Value::try_from_lines(vec!["first", "   ", "third"]).unwrap(),
    );
    assert_eq!(
        attribute.to_text(),
        "remarks:        first\n                \n                third\n"
    );
}

#[test]
fn attribute_display_long_name_is_not_truncated() {
    let attribute = Attribute::new(
        Name::from_str("a-very-long-attribute-name").unwrap(),
        Value::from_str("x").unwrap(),
    );
    assert_eq!(attribute.to_text(), "a-very-long-attribute-name:x\n");
}

#[test]
fn coerce_empty_value_blank_is_none() {
    assert_eq!(rpsl_parser::attribute::coerce_empty_value("".to_string()), None);
    assert_eq!(rpsl_parser::attribute::coerce_empty_value("   ".to_string()), None);
    assert_eq!(
        rpsl_parser::attribute::coerce_empty_value("kept  ".to_string()),
        Some("kept  ".to_string())
    );
}

#[test]
fn validate_rejects_invalid_content() {
    assert!(Value::validate("any ASCII text!").is_ok());
    assert_eq!(
        Value::validate("Ünïcode").unwrap_err(),
        InvalidValueError::NonAscii
    );
    assert_eq!(
        Value::validate("bell\u{7}").unwrap_err(),
        InvalidValueError::ContainsControlChar
    );
}
