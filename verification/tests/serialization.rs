use d2typ::parsedata::ParsedData;
use d2typ::ser::to_string;
use d2typ::ser::PDSerializer;
use d2typ::value::TypstValue;

#[test]
fn test_serialize_simple_values() {
    let mut serializer = PDSerializer { buffer: String::new() };
    assert!(serializer.serialize_i32(42).is_ok());
    assert_eq!(serializer.buffer, "42");
}

#[test]
fn test_serialize_simple_str() {
    let mut serializer = PDSerializer { buffer: String::new() };
    assert!(serializer.serialize_str("Hello").is_ok());
    assert_eq!(serializer.buffer, "Hello");
}

#[test]
fn test_unit_variant() {
    let mut serializer = PDSerializer { buffer: String::new() };
    assert!(serializer.serialize_unit_variant("Test", 0, "Variant").is_ok());
    assert_eq!(serializer.buffer, "Test::Variant");
}

#[test]
fn test_parsed_data_table_serialization() {
    let data = ParsedData::Table((
        Some(vec!["col1".to_string(), "col2".to_string(), "col3".to_string()]),
        vec![
            vec![
                TypstValue::Str("v1".to_string()),
                TypstValue::Str("v2".to_string()),
                TypstValue::Str("v3".to_string()),
            ],
            vec![
                TypstValue::Str("v4".to_string()),
                TypstValue::Str("v5".to_string()),
                TypstValue::Str("v6".to_string()),
            ],
        ],
    ));

    let serialized = to_string(&data);
    let expected = r#"[{ col1: v1, col2: v2, col3: v3 }, { col1: v4, col2: v5, col3: v6 }]"#;
    assert_eq!(serialized, expected);
    println!("Serialized ParsedData: {}", serialized);
}

#[test]
fn test_parsed_data_map_serialization() {
    let data = ParsedData::Dict(vec![
        ("key1".to_string(), TypstValue::Str("value1".to_string())),
        ("key2".to_string(), TypstValue::Str("value2".to_string())),
    ]);
    let serialized = to_string(&data);
    let expected = r#"{ key1: value1, key2: value2 }"#;
    assert_eq!(serialized, expected);
    println!("Serialized ParsedData: {}", serialized);
}

#[test]
fn test_parsed_data_list_serialization() {
    let data = ParsedData::List(vec![
        TypstValue::Str("item1".to_string()),
        TypstValue::Str("item2".to_string()),
    ]);
    let serialized = to_string(&data);
    let expected = r#"[item1, item2]"#;
    assert_eq!(serialized, expected);
    println!("Serialized ParsedData: {}", serialized);
}

#[test]
fn test_parsed_data_tuple_serialization() {
    let data = ParsedData::Tuple(vec![
        TypstValue::Str("item1".to_string()),
        TypstValue::Str("item2".to_string()),
    ]);
    let serialized = to_string(&data);
    let expected = r#"(item1, item2)"#;
    assert_eq!(serialized, expected);
    println!("Serialized ParsedData: {}", serialized);
}

#[test]
fn serializer_seq_flow_matches_value_rendering() {
    let ser = PDSerializer::new();
    let mut seq = ser.serialize_seq();
    assert!(seq.serialize_element(&TypstValue::Int(1)).is_ok());
    assert!(seq.serialize_element(&TypstValue::Int(2)).is_ok());
    let done = seq.end();
    assert_eq!(done.buffer, "[1, 2]");
}

#[test]
fn serializer_tuple_flow_matches_value_rendering() {
    let ser = PDSerializer::new();
    let mut tup = ser.serialize_tuple();
    assert!(tup.serialize_element(&TypstValue::Bool(true)).is_ok());
    assert!(tup.serialize_element(&TypstValue::Null).is_ok());
    let done = tup.end();
    assert_eq!(done.buffer, "(true, none)");
}

#[test]
fn serializer_map_flow_matches_dict_rendering() {
    let ser = PDSerializer::new();
    let mut map = ser.serialize_map();
    assert!(map.serialize_entry("a", &TypstValue::Int(1)).is_ok());
    assert!(map.serialize_entry("b", &TypstValue::Str("x".to_string())).is_ok());
    let done = map.end();
    assert_eq!(done.buffer, "{ a: 1, b: x }");
}

#[test]
fn serializer_scalars() {
    let mut ser = PDSerializer::new();
    assert!(ser.serialize_bool(false).is_ok());
    assert!(ser.serialize_char('#').is_ok());
    assert!(ser.serialize_i64(-7).is_ok());
    assert!(ser.serialize_u64(18446744073709551615).is_ok());
    assert_eq!(ser.buffer, "false#-718446744073709551615");
}

#[test]
fn negative_and_boundary_integers_render_in_decimal() {
    let v = ParsedData::List(vec![
        TypstValue::Int(i64::MIN),
        TypstValue::Int(-1),
        TypstValue::Int(0),
        TypstValue::Int(i64::MAX),
    ]);
    assert_eq!(
        to_string(&v),
        "[-9223372036854775808, -1, 0, 9223372036854775807]"
    );
}

#[test]
fn nested_values_render_with_consistent_punctuation() {
    let v = ParsedData::Dict(vec![
        (
            "inner".to_string(),
            TypstValue::Dict(vec![("k".to_string(), TypstValue::Null)]),
        ),
        (
            "mixed".to_string(),
            TypstValue::Array(vec![
                TypstValue::Tuple(vec![TypstValue::Int(1)]),
                TypstValue::Float("2.5".to_string()),
            ]),
        ),
    ]);
    assert_eq!(to_string(&v), "{ inner: { k: none }, mixed: [(1), 2.5] }");
}

#[test]
fn bare_value_literal_matches_embedded_rendering() {
    let v = TypstValue::Array(vec![
        TypstValue::Bool(true),
        TypstValue::Float("3.11".to_string()),
    ]);
    assert_eq!(v.to_literal(), "[true, 3.11]");
    let doc = ParsedData::List(vec![
        TypstValue::Bool(true),
        TypstValue::Float("3.11".to_string()),
    ]);
    assert_eq!(to_string(&doc), v.to_literal());
}
