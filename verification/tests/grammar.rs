use rpsl_parser::Value;
use rpsl_parser::error::ParseError;
use rpsl_parser::parser::attribute;
use rpsl_parser::parser::attribute_name;
use rpsl_parser::parser::server_message;

#[test]
fn attribute_name_single_letter_is_error() {
    assert!(attribute_name("a").is_err());
}

#[test]
fn attribute_name_valid() {
    assert_eq!(attribute_name("remarks:").unwrap(), ("remarks", ":"));
    assert_eq!(attribute_name("aut-num:").unwrap(), ("aut-num", ":"));
    assert_eq!(attribute_name("ASNumber:").unwrap(), ("ASNumber", ":"));
    assert_eq!(attribute_name("route6:").unwrap(), ("route6", ":"));
}

#[test]
fn attribute_name_non_letter_first_char_is_error() {
    assert!(attribute_name("1remarks:").is_err());
    assert!(attribute_name("-remarks:").is_err());
    assert!(attribute_name("_remarks:").is_err());
}

#[test]
fn attribute_name_non_letter_or_digit_last_char_is_error() {
    assert!(attribute_name("remarks-:").is_err());
    assert!(attribute_name("remarks_:").is_err());
}

#[test]
fn attribute_valid_single_value() {
    let (parsed, remaining) = attribute("import:         from AS12 accept AS12\n").unwrap();
    assert_eq!(parsed.name.as_str(), "import");
    assert_eq!(
        parsed.value,
        Value::SingleLine(Some("from AS12 accept AS12".to_string()))
    );
    assert_eq!(remaining, "");
}

#[test]
fn attribute_valid_multi_value() {
    let input = "remarks:        Locations\n                LA1 - CoreSite One Wilshire\n                NY1 - Equinix New York, Newark\nremarks:        Peering Policy\n";
    let (parsed, remaining) = attribute(input).unwrap();
    assert_eq!(parsed.name.as_str(), "remarks");
    assert_eq!(
        parsed.value,
        Value::MultiLine(vec![
            Some("Locations".to_string()),
            Some("LA1 - CoreSite One Wilshire".to_string()),
            Some("NY1 - Equinix New York, Newark".to_string()),
        ])
    );
    assert_eq!(remaining, "remarks:        Peering Policy\n");
}

#[test]
fn attribute_empty_value_is_absent() {
    let (parsed, remaining) = attribute("import:\n").unwrap();
    assert_eq!(parsed.name.as_str(), "import");
    assert_eq!(parsed.value, Value::SingleLine(None));
    assert_eq!(remaining, "");
}

#[test]
fn attribute_blank_continuation_line_is_absent() {
    let input = "remarks:        I have lots\n                \n                to say.\n";
    let (parsed, remaining) = attribute(input).unwrap();
    assert_eq!(
        parsed.value,
        Value::MultiLine(vec![
            Some("I have lots".to_string()),
            None,
            Some("to say.".to_string()),
        ])
    );
    assert_eq!(parsed.value.with_content(), vec!["I have lots", "to say."]);
    assert_eq!(remaining, "");
}

#[test]
fn attribute_continuation_markers() {
    for marker in ["+", " ", "\t"] {
        let input = format!("phone:  +49 176 07071964\n{marker}   +49 176 07071965\n");
        let (parsed, remaining) = attribute(&input).unwrap();
        assert_eq!(
            parsed.value,
            Value::MultiLine(vec![
                Some("+49 176 07071964".to_string()),
                Some("+49 176 07071965".to_string()),
            ])
        );
        assert_eq!(remaining, "");
    }
}

#[test]
fn attribute_single_letter_name_is_error() {
    assert_eq!(attribute("a:value\n").unwrap_err(), ParseError::ExpectedName);
}

#[test]
fn attribute_name_errors() {
    assert_eq!(attribute("1abc:value\n").unwrap_err(), ParseError::ExpectedName);
    assert_eq!(attribute("ab-:value\n").unwrap_err(), ParseError::ExpectedName);
    assert_eq!(attribute("").unwrap_err(), ParseError::ExpectedName);
}

#[test]
fn attribute_missing_colon_is_error() {
    assert_eq!(attribute("import value\n").unwrap_err(), ParseError::ExpectedColon);
    assert_eq!(attribute("import").unwrap_err(), ParseError::ExpectedColon);
}

#[test]
fn attribute_missing_newline_is_error() {
    assert_eq!(attribute("import: value").unwrap_err(), ParseError::ExpectedNewline);
}

#[test]
fn attribute_unterminated_first_continuation_is_error() {
    // The first continuation line must parse once a marker is seen.
    assert_eq!(
        attribute("import: value\n    dangling").unwrap_err(),
        ParseError::ExpectedNewline
    );
}

#[test]
fn attribute_unterminated_later_continuation_stops_repetition() {
    // A later continuation line that fails merely stops the greedy
    // repetition, leaving that line unconsumed.
    let (parsed, remaining) = attribute("import: a\n  b\n  dangling").unwrap();
    assert_eq!(
        parsed.value,
        Value::MultiLine(vec![Some("a".to_string()), Some("b".to_string())])
    );
    assert_eq!(remaining, "  dangling");
}

#[test]
fn attribute_non_ascii_value_is_error() {
    // A non-ASCII character cannot occur in an attribute value: the value
    // token stops in front of it and no line terminator is found there.
    assert_eq!(attribute("remarks: Ünïcode\n").unwrap_err(), ParseError::ExpectedNewline);
}

#[test]
fn attribute_stops_at_fresh_line() {
    let input = "import: a\nexport: b\n";
    let (parsed, remaining) = attribute(input).unwrap();
    assert_eq!(parsed.name.as_str(), "import");
    assert_eq!(parsed.value, Value::SingleLine(Some("a".to_string())));
    assert_eq!(remaining, "export: b\n");
}

#[test]
fn server_message_valid() {
    let (parsed, remaining) = server_message("% Note: this output has been filtered.\n").unwrap();
    assert_eq!(parsed, "Note: this output has been filtered.");
    assert_eq!(remaining, "");

    let (parsed, remaining) = server_message(
        "%       To receive output for a database update, use the \"-B\" flag.\n",
    )
    .unwrap();
    assert_eq!(parsed, "To receive output for a database update, use the \"-B\" flag.");
    assert_eq!(remaining, "");
}

#[test]
fn server_message_non_ascii_is_allowed() {
    let (parsed, remaining) = server_message("% Ünïcode notice\n").unwrap();
    assert_eq!(parsed, "Ünïcode notice");
    assert_eq!(remaining, "");
    // The same text is rejected as an attribute value.
    assert!(Value::from_str("Ünïcode notice").is_err());
}

#[test]
fn server_message_missing_mark_is_error() {
    assert_eq!(
        server_message("no comment\n").unwrap_err(),
        ParseError::ExpectedCommentMark
    );
    assert_eq!(server_message("").unwrap_err(), ParseError::ExpectedCommentMark);
}

#[test]
fn server_message_missing_newline_is_error() {
    assert_eq!(server_message("% dangling").unwrap_err(), ParseError::ExpectedNewline);
}

#[test]
fn parsed_values_keep_leading_value_spaces_only_after_marker_space() {
    // Horizontal space after the marker is discarded; space inside the
    // value is kept.
    let (parsed, _) = attribute("addr:   Packet Street 6\n").unwrap();
    assert_eq!(parsed.value, Value::SingleLine(Some("Packet Street 6".to_string())));
}
