use rpsl_parser::rpsl::Attribute;
use rpsl_parser::rpsl::AttributeValue;
use rpsl_parser::rpsl::Object;
use rpsl_parser::rpsl::ObjectCollection;

#[test]
fn plain_attribute_new() {
    assert_eq!(
        Attribute::from_pair("role", "ACME Company"),
        Attribute::new(
            "role".to_string(),
            AttributeValue::SingleLine(Some("ACME Company".to_string()))
        )
    );
}

#[test]
fn plain_attribute_from_multi() {
    assert_eq!(
        Attribute::from_multi(
            "address",
            vec!["Packet Street 6", "128 Series of Tubes", "Internet"],
        ),
        Attribute::new(
            "address".to_string(),
            AttributeValue::MultiLine(vec![
                Some("Packet Street 6".to_string()),
                Some("128 Series of Tubes".to_string()),
                Some("Internet".to_string())
            ])
        )
    );
}

#[test]
fn plain_value_from_line_coerces_blank() {
    assert_eq!(
        AttributeValue::from_line("ACME Company"),
        AttributeValue::SingleLine(Some("ACME Company".to_string()))
    );
    assert_eq!(AttributeValue::from_line(""), AttributeValue::SingleLine(None));
    assert_eq!(AttributeValue::from_line("   "), AttributeValue::SingleLine(None));
}

#[test]
fn plain_value_from_lines_collapses_one_element() {
    assert_eq!(
        AttributeValue::from_lines(vec!["Packet Street 6"]),
        AttributeValue::SingleLine(Some("Packet Street 6".to_string()))
    );
}

#[test]
fn plain_value_from_lines_keeps_order_and_absence() {
    assert_eq!(
        AttributeValue::from_lines(vec!["Packet Street 6", " ", "Internet"]),
        AttributeValue::MultiLine(vec![
            Some("Packet Street 6".to_string()),
            None,
            Some("Internet".to_string())
        ])
    );
}

#[test]
fn object_from_pairs_matches_new() {
    let object = Object::from_pairs(vec![
        ("role", "ACME Company"),
        ("address", "Packet Street 6"),
        ("address", "128 Series of Tubes"),
        ("address", "Internet"),
    ]);
    let expected = Object::new(vec![
        Attribute::from_pair("role", "ACME Company"),
        Attribute::from_pair("address", "Packet Street 6"),
        Attribute::from_pair("address", "128 Series of Tubes"),
        Attribute::from_pair("address", "Internet"),
    ]);
    assert_eq!(object, expected);
}

#[test]
fn object_indexing() {
    let object = Object::new(vec![
        Attribute::from_pair("role", "ACME Company"),
        Attribute::from_pair("email", "rpsl-parser@github.com"),
    ]);
    assert_eq!(object.len(), 2);
    assert_eq!(object.get(1).name, "email");
    let attributes = object.into_attributes();
    assert_eq!(attributes[0].name, "role");
}

#[test]
fn object_collection_from_slices() {
    let collection = ObjectCollection::from_slices(vec![
        vec![Attribute::from_pair("role", "ACME Company")],
        vec![Attribute::from_pair("role", "Umbrella Corporation")],
    ]);
    assert_eq!(collection.len(), 2);
    assert_eq!(
        *collection.get(0),
        Object::new(vec![Attribute::from_pair("role", "ACME Company")])
    );
    let objects = collection.into_objects();
    assert_eq!(
        objects[1],
        Object::new(vec![Attribute::from_pair("role", "Umbrella Corporation")])
    );
}

#[test]
fn object_collection_new() {
    let collection = ObjectCollection::new(vec![Object::new(vec![Attribute::from_pair(
        "role",
        "ACME Company",
    )])]);
    assert_eq!(collection.len(), 1);
}
