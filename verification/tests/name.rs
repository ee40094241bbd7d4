use x509_parser::name::{attribute_value_to_string, format_attribute, join, x509name_to_string};
use x509_parser::{
    AttributeTypeAndValue, BitString, DerValue, Oid, RelativeDistinguishedName, X509Error, X509Name,
};

const C: &[u8] = &[0x55, 0x04, 0x06];
const ST: &[u8] = &[0x55, 0x04, 0x08];
const O: &[u8] = &[0x55, 0x04, 0x0a];
const CN: &[u8] = &[0x55, 0x04, 0x03];

fn attribute<'a>(oid: &'a [u8], value: &'a str) -> AttributeTypeAndValue<'a> {
    AttributeTypeAndValue {
        attr_type: Oid::new(oid),
        attr_value: DerValue::PrintableString(value),
    }
}

fn rdn<'a>(set: Vec<AttributeTypeAndValue<'a>>) -> RelativeDistinguishedName<'a> {
    RelativeDistinguishedName { set }
}

#[test]
fn test_x509_name() {
    let name = X509Name {
        rdn_seq: vec![
            RelativeDistinguishedName {
                set: vec![AttributeTypeAndValue {
                    attr_type: Oid::new(&[0x55, 0x04, 0x06]), // countryName
                    attr_value: DerValue::PrintableString("FR"),
                }],
            },
            RelativeDistinguishedName {
                set: vec![AttributeTypeAndValue {
                    attr_type: Oid::new(&[0x55, 0x04, 0x08]), // stateOrProvinceName
                    attr_value: DerValue::PrintableString("Some-State"),
                }],
            },
            RelativeDistinguishedName {
                set: vec![AttributeTypeAndValue {
                    attr_type: Oid::new(&[0x55, 0x04, 10]), // organizationName
                    attr_value: DerValue::PrintableString("Internet Widgits Pty Ltd"),
                }],
            },
            RelativeDistinguishedName {
                set: vec![
                    AttributeTypeAndValue {
                        attr_type: Oid::new(&[0x55, 0x04, 0x03]), // CN
                        attr_value: DerValue::PrintableString("Test1"),
                    },
                    AttributeTypeAndValue {
                        attr_type: Oid::new(&[0x55, 0x04, 0x03]), // CN
                        attr_value: DerValue::PrintableString("Test2"),
                    },
                ],
            },
        ],
        raw: &[], // incorrect, but enough for testing
    };
    assert_eq!(
        name.to_string(),
        "C=FR, ST=Some-State, O=Internet Widgits Pty Ltd, CN=Test1 + CN=Test2"
    );
}

#[test]
fn name_keeps_stored_order() {
    let rdns = vec![
        rdn(vec![attribute(O, "zeta")]),
        rdn(vec![attribute(CN, "beta"), attribute(C, "alpha")]),
        rdn(vec![attribute(ST, "gamma")]),
    ];
    assert_eq!(
        x509name_to_string(&rdns),
        Ok("O=zeta, CN=beta + C=alpha, ST=gamma".to_string())
    );
}

#[test]
fn empty_name_is_empty_text() {
    assert_eq!(x509name_to_string(&[]), Ok(String::new()));
    let name = X509Name { rdn_seq: vec![], raw: &[0x30, 0x00] };
    assert_eq!(name.to_string(), "");
}

#[test]
fn single_rdn_has_no_separator() {
    let rdns = vec![rdn(vec![attribute(CN, "only")])];
    assert_eq!(x509name_to_string(&rdns), Ok("CN=only".to_string()));
}

#[test]
fn empty_rdn_gives_empty_segment() {
    let first = vec![rdn(vec![]), rdn(vec![attribute(C, "FR")])];
    assert_eq!(x509name_to_string(&first), Ok(", C=FR".to_string()));
    let middle = vec![
        rdn(vec![attribute(C, "FR")]),
        rdn(vec![]),
        rdn(vec![attribute(O, "x")]),
    ];
    assert_eq!(x509name_to_string(&middle), Ok("C=FR, , O=x".to_string()));
    let last = vec![rdn(vec![attribute(C, "FR")]), rdn(vec![])];
    assert_eq!(x509name_to_string(&last), Ok("C=FR, ".to_string()));
    let both = vec![rdn(vec![]), rdn(vec![])];
    assert_eq!(x509name_to_string(&both), Ok(", ".to_string()));
    let alone = vec![rdn(vec![])];
    assert_eq!(x509name_to_string(&alone), Ok(String::new()));
    assert_eq!(rdn(vec![]).to_string(), Ok(String::new()));
    let name = X509Name { rdn_seq: first, raw: &[] };
    assert_eq!(name.to_string(), ", C=FR");
}

#[test]
fn string_kinds_are_taken_verbatim() {
    assert_eq!(
        attribute_value_to_string(&DerValue::NumericString("0123 456")),
        Ok("0123 456".to_string())
    );
    assert_eq!(
        attribute_value_to_string(&DerValue::PrintableString("Some-State")),
        Ok("Some-State".to_string())
    );
    assert_eq!(
        attribute_value_to_string(&DerValue::Utf8String("Zürich, 東京")),
        Ok("Zürich, 東京".to_string())
    );
    assert_eq!(
        attribute_value_to_string(&DerValue::Ia5String("user@example.org")),
        Ok("user@example.org".to_string())
    );
    assert_eq!(attribute_value_to_string(&DerValue::PrintableString("")), Ok(String::new()));
}

#[test]
fn other_kinds_are_shown_in_upper_case_hex() {
    let octets = DerValue::Other { tag: 4, raw: Some(&[0xde, 0xad, 0xbe, 0xef]) };
    assert_eq!(attribute_value_to_string(&octets), Ok("DEADBEEF".to_string()));
    let low = DerValue::Other { tag: 2, raw: Some(&[0x00, 0x0a, 0x9f]) };
    assert_eq!(attribute_value_to_string(&low), Ok("000A9F".to_string()));
    let bits = DerValue::BitString(BitString { unused_bits: 3, data: &[0x01, 0xf8] });
    assert_eq!(attribute_value_to_string(&bits), Ok("01F8".to_string()));
    let empty = DerValue::Other { tag: 4, raw: Some(&[]) };
    assert_eq!(attribute_value_to_string(&empty), Ok(String::new()));
}

#[test]
fn hex_of_a_long_value_is_whole() {
    let mut bytes = Vec::new();
    for i in 0..150_000usize {
        bytes.push((i % 251) as u8);
    }
    let text = attribute_value_to_string(&DerValue::Other { tag: 4, raw: Some(&bytes) }).unwrap();
    assert_eq!(text.len(), 300_000);
    let mut expected = String::new();
    for b in &bytes {
        expected.push_str(&format!("{:02X}", b));
    }
    assert_eq!(text, expected);
}

#[test]
fn value_without_bytes_is_an_invalid_name() {
    let null = DerValue::Other { tag: 5, raw: None };
    assert_eq!(attribute_value_to_string(&null), Err(X509Error::InvalidX509Name));
    let bad = AttributeTypeAndValue { attr_type: Oid::new(CN), attr_value: null };
    assert_eq!(bad.to_string(), Err(X509Error::InvalidX509Name));
    let rdns = vec![
        rdn(vec![attribute(C, "FR")]),
        rdn(vec![attribute(CN, "a"), bad]),
        rdn(vec![attribute(O, "x")]),
    ];
    assert_eq!(rdns[1].to_string(), Err(X509Error::InvalidX509Name));
    assert_eq!(x509name_to_string(&rdns), Err(X509Error::InvalidX509Name));
    let name = X509Name { rdn_seq: rdns, raw: &[] };
    assert_eq!(name.to_string(), "<X509Error: Invalid X.509 name>");
}

#[test]
fn hex_value_in_a_name() {
    let rdns = vec![rdn(vec![
        attribute(CN, "a"),
        AttributeTypeAndValue {
            attr_type: Oid::new(O),
            attr_value: DerValue::Other { tag: 4, raw: Some(&[0xca, 0xfe]) },
        },
    ])];
    assert_eq!(x509name_to_string(&rdns), Ok("CN=a + O=CAFE".to_string()));
}

#[test]
fn unknown_type_is_labelled_by_its_identifier() {
    // 1.2.3.4
    let unknown = Oid::new(&[0x2a, 0x03, 0x04]);
    assert_eq!(unknown.short_name(), None);
    assert_eq!(unknown.label(), "OID(1.2.3.4)");
    let attr = AttributeTypeAndValue {
        attr_type: unknown,
        attr_value: DerValue::Utf8String("value"),
    };
    assert_eq!(attr.to_string(), Ok("OID(1.2.3.4)=value".to_string()));
    // 1.2.840.113549.1.1.5, which is no attribute type
    let algorithm = Oid::new(&[0x2a, 0x86, 0x48, 0x86, 0xf7, 0x0d, 0x01, 0x01, 0x05]);
    assert_eq!(algorithm.label(), "OID(1.2.840.113549.1.1.5)");
    let relative = Oid::new_relative(&[0x86, 0x48, 0x01]);
    assert_eq!(relative.label(), "OID(rel. 840.1)");
}

#[test]
fn short_names_of_attribute_types() {
    let table: Vec<(&[u8], &str)> = vec![
        (&[0x55, 0x04, 3], "CN"),
        (&[0x55, 0x04, 4], "SN"),
        (&[0x55, 0x04, 5], "serialNumber"),
        (&[0x55, 0x04, 6], "C"),
        (&[0x55, 0x04, 7], "L"),
        (&[0x55, 0x04, 8], "ST"),
        (&[0x55, 0x04, 9], "street"),
        (&[0x55, 0x04, 10], "O"),
        (&[0x55, 0x04, 11], "OU"),
        (&[0x55, 0x04, 12], "title"),
        (&[0x55, 0x04, 13], "description"),
        (&[0x55, 0x04, 41], "name"),
        (&[0x55, 0x04, 42], "GN"),
        (&[0x55, 0x04, 43], "initials"),
        (&[0x55, 0x04, 44], "generationQualifier"),
        (&[0x55, 0x04, 46], "dnQualifier"),
        (&[0x55, 0x04, 65], "pseudonym"),
        (&[0x2a, 0x86, 0x48, 0x86, 0xf7, 0x0d, 0x01, 0x09, 0x01], "emailAddress"),
        (&[0x09, 0x92, 0x26, 0x89, 0x93, 0xf2, 0x2c, 0x64, 0x01, 0x01], "UID"),
        (&[0x09, 0x92, 0x26, 0x89, 0x93, 0xf2, 0x2c, 0x64, 0x01, 0x19], "DC"),
    ];
    for (bytes, name) in table {
        assert_eq!(Oid::new(bytes).short_name(), Some(name));
        assert_eq!(Oid::new(bytes).label(), name);
        assert_eq!(Oid::new_relative(bytes).short_name(), None);
    }
    assert_eq!(Oid::new(&[0x55, 0x04, 99]).short_name(), None);
    assert_eq!(Oid::new(&[0x55, 0x04]).short_name(), None);
    assert_eq!(Oid::new(&[0x55, 0x04, 3, 0]).short_name(), None);
    assert_eq!(Oid::new(&[]).short_name(), None);
}

#[test]
fn oid_equality_is_by_bytes_and_kind() {
    assert_eq!(Oid::new(CN), Oid::new(&[0x55, 0x04, 0x03]));
    assert_ne!(Oid::new(CN), Oid::new(C));
    assert_ne!(Oid::new(CN), Oid::new(&[0x55, 0x04]));
    assert_ne!(Oid::new(CN), Oid::new_relative(CN));
    assert_eq!(Oid::new(CN).bytes(), CN);
    assert!(!Oid::new(CN).is_relative());
    assert!(Oid::new_relative(CN).is_relative());
}

#[test]
fn attribute_is_label_equals_value() {
    assert_eq!(format_attribute("C", "FR"), "C=FR");
    assert_eq!(format_attribute("", ""), "=");
    assert_eq!(format_attribute("OID(1.2)", "a=b"), "OID(1.2)=a=b");
}

#[test]
fn parts_are_joined_with_the_separator_between_them() {
    let strings = |parts: &[&str]| -> Vec<String> { parts.iter().map(|p| p.to_string()).collect() };
    assert_eq!(join(&[], ", "), "");
    assert_eq!(join(&strings(&["x"]), ", "), "x");
    assert_eq!(join(&strings(&["x", "y"]), ", "), "x, y");
    assert_eq!(join(&strings(&["b", "a", "c"]), " + "), "b + a + c");
    assert_eq!(join(&strings(&["", "x"]), ", "), ", x");
    assert_eq!(join(&strings(&["x", ""]), ", "), "x, ");
    assert_eq!(join(&strings(&["", "", ""]), ", "), ", , ");
    assert_eq!(join(&strings(&["x", "y"]), ""), "xy");
}

#[test]
fn name_hands_back_its_raw_bytes() {
    let raw = [0x30, 0x0d, 0x31, 0x0b];
    let name = X509Name { rdn_seq: vec![], raw: &raw };
    assert_eq!(name.as_raw(), &raw);
}

#[test]
fn value_gives_text_and_bytes() {
    assert_eq!(DerValue::Utf8String("é").as_str(), Some("é"));
    assert_eq!(DerValue::Utf8String("é").as_slice(), Some(&[0xc3, 0xa9][..]));
    assert_eq!(DerValue::Other { tag: 4, raw: Some(&[1, 2]) }.as_str(), None);
    assert_eq!(DerValue::Other { tag: 4, raw: Some(&[1, 2]) }.as_slice(), Some(&[1, 2][..]));
    assert_eq!(DerValue::Other { tag: 1, raw: None }.as_slice(), None);
    let bits = BitString { unused_bits: 0, data: &[0xff] };
    assert_eq!(DerValue::BitString(bits).as_str(), None);
    assert_eq!(DerValue::BitString(bits).as_slice(), Some(&[0xff][..]));
}
