use d2typ::error::TypstError;
use d2typ::parsedata::ParsedData;
use d2typ::parser::parse_input;
use d2typ::parser::CliArgs;
use d2typ::parser::InputFormat;
use d2typ::render::render_to_typst;
use d2typ::ser::to_string;
use d2typ::tree::RawNode;
use d2typ::value::TypstValue;

#[test]
fn serializing_twice_is_byte_identical() {
    let doc = parse_input(
        r#"{"b":1,"a":[null,2.5,"x"]}"#,
        InputFormat::Json,
        &CliArgs::default(),
    )
    .unwrap();
    let first = to_string(&doc);
    let second = to_string(&doc);
    assert_eq!(first.as_bytes(), second.as_bytes());
}

#[test]
fn string_inference_follows_the_declared_order() {
    assert_eq!(TypstValue::from_cell("3"), TypstValue::Int(3));
    assert_eq!(
        TypstValue::from_cell("3.0"),
        TypstValue::Float("3.0".to_string())
    );
    assert_eq!(TypstValue::from_cell("true"), TypstValue::Bool(true));
    assert_eq!(TypstValue::from_cell("false"), TypstValue::Bool(false));
    assert_eq!(TypstValue::from_cell(""), TypstValue::Null);
    assert_eq!(
        TypstValue::from_cell("abc"),
        TypstValue::Str("abc".to_string())
    );
    // Case-sensitive boolean literals: anything else falls through.
    assert_eq!(
        TypstValue::from_cell("True"),
        TypstValue::Str("True".to_string())
    );
    // A sign and leading zeros still parse as an integer.
    assert_eq!(TypstValue::from_cell("+007"), TypstValue::Int(7));
    assert_eq!(TypstValue::from_cell("-12"), TypstValue::Int(-12));
}

#[test]
fn floats_always_show_a_decimal_point() {
    // The number parser accepts these, and the marker rule guarantees a
    // decimal point even where the rendered number has none of its own.
    assert_eq!(
        TypstValue::from_cell("1e3"),
        TypstValue::Float("1000.0".to_string())
    );
    assert_eq!(
        TypstValue::from_cell("9223372036854775808"),
        TypstValue::Float("9223372036854775808.0".to_string())
    );
    assert_eq!(
        TypstValue::from_cell("-2.5e-1"),
        TypstValue::Float("-0.25".to_string())
    );
}

#[test]
fn short_row_zips_to_the_header_prefix() {
    let doc = ParsedData::Table((
        Some(vec!["a".to_string(), "b".to_string(), "c".to_string()]),
        vec![vec![
            TypstValue::Str("1".to_string()),
            TypstValue::Str("2".to_string()),
        ]],
    ));
    assert_eq!(to_string(&doc), "[{ a: 1, b: 2 }]");
}

#[test]
fn long_row_drops_cells_beyond_the_header() {
    let doc = ParsedData::Table((
        Some(vec!["a".to_string()]),
        vec![vec![TypstValue::Int(1), TypstValue::Int(2)]],
    ));
    assert_eq!(to_string(&doc), "[{ a: 1 }]");
}

#[test]
fn empty_table_serializes_to_an_empty_array() {
    let doc = ParsedData::Table((None, vec![]));
    assert_eq!(to_string(&doc), "[]");
    let assigned = render_to_typst(&doc, "empty_var").unwrap();
    assert_eq!(assigned, "let empty_var = []");
}

#[test]
fn empty_name_is_invalid_and_yields_no_output() {
    let doc = ParsedData::List(vec![TypstValue::Int(1)]);
    let result = render_to_typst(&doc, "");
    assert_eq!(result.unwrap_err(), TypstError::InvalidName);
}

#[test]
fn handles_invalid_name_gracefully() {
    let val = ParsedData::List(vec![TypstValue::Int(1), TypstValue::Int(2)]);
    let result = render_to_typst(&val, "");
    assert!(result.is_err());
}

#[test]
fn csv_round_trip_scenario() {
    let doc = parse_input(
        "name,age\nAlice,30\nBob,25",
        InputFormat::Csv,
        &CliArgs::default(),
    )
    .unwrap();
    assert_eq!(
        doc,
        ParsedData::Table((
            Some(vec!["name".to_string(), "age".to_string()]),
            vec![
                vec![TypstValue::Str("Alice".to_string()), TypstValue::Int(30)],
                vec![TypstValue::Str("Bob".to_string()), TypstValue::Int(25)],
            ]
        ))
    );
    assert_eq!(
        to_string(&doc),
        "[{ name: Alice, age: 30 }, { name: Bob, age: 25 }]"
    );
    assert_eq!(
        render_to_typst(&doc, "data").unwrap(),
        "let data = [{ name: Alice, age: 30 }, { name: Bob, age: 25 }]"
    );
}

#[test]
fn oversized_numbers_fail_explicitly() {
    assert_eq!(
        TypstValue::from_tree(&RawNode::BigNum).unwrap_err(),
        TypstError::UnsupportedNumber
    );
}

#[test]
fn from_tree_applies_policies_recursively() {
    let tree = RawNode::Obj(vec![
        (RawNode::Text("n".to_string()), RawNode::Int(5)),
        (
            RawNode::Text("xs".to_string()),
            RawNode::Arr(vec![RawNode::Float("2".to_string()), RawNode::Null]),
        ),
    ]);
    let v = TypstValue::from_tree(&tree).unwrap();
    assert_eq!(
        v,
        TypstValue::Dict(vec![
            ("n".to_string(), TypstValue::Int(5)),
            (
                "xs".to_string(),
                TypstValue::Array(vec![
                    TypstValue::Float("2.0".to_string()),
                    TypstValue::Null
                ])
            ),
        ])
    );
    let bad = RawNode::Obj(vec![(RawNode::Int(1), RawNode::Null)]);
    assert_eq!(
        TypstValue::from_tree(&bad).unwrap_err(),
        TypstError::NonStringKey
    );
    let unrepresentable = RawNode::Arr(vec![RawNode::Other]);
    assert_eq!(
        TypstValue::from_tree(&unrepresentable).unwrap_err(),
        TypstError::UnsupportedValueType
    );
}

#[test]
fn to_table_labels_each_shape() {
    let map_doc = ParsedData::Dict(vec![(
        "key1".to_string(),
        TypstValue::Str("value1".to_string()),
    )]);
    assert_eq!(map_doc.to_table(), "Map: key1: value1\n");

    let list_doc = ParsedData::List(vec![
        TypstValue::Str("item1".to_string()),
        TypstValue::Str("item2".to_string()),
    ]);
    assert_eq!(list_doc.to_table(), "List: [item1, item2]\n");

    let tuple_doc = ParsedData::Tuple(vec![TypstValue::Int(1), TypstValue::Int(2)]);
    assert_eq!(tuple_doc.to_table(), "Tuple: (1, 2)\n");

    let table_doc = ParsedData::Table((
        Some(vec!["col1".to_string()]),
        vec![vec![TypstValue::Int(9)]],
    ));
    let drawn = table_doc.to_table();
    assert!(drawn.starts_with("Table:\n"));
    assert!(drawn.contains("col1"));
    assert!(drawn.contains('9'));
}

#[test]
fn dict_literal_of_mixed_values() {
    let value = TypstValue::Dict(vec![
        ("key1".to_string(), TypstValue::Int(42)),
        ("key2".to_string(), TypstValue::Str("value".to_string())),
        (
            "key3".to_string(),
            TypstValue::Array(vec![
                TypstValue::Bool(true),
                TypstValue::Float("3.11".to_string()),
            ]),
        ),
    ]);
    assert_eq!(
        value.to_literal(),
        "{ key1: 42, key2: value, key3: [true, 3.11] }"
    );
}

#[test]
fn headerless_table_display_draws_every_row() {
    let doc = ParsedData::Table((
        None,
        vec![
            vec![TypstValue::Int(1), TypstValue::Int(2)],
            vec![TypstValue::Int(3), TypstValue::Int(4)],
        ],
    ));
    let drawn = doc.to_table();
    assert!(drawn.starts_with("Table:\n"));
    assert!(drawn.contains('1') && drawn.contains('4'));
}

#[test]
fn error_messages_are_one_line_diagnostics() {
    assert_eq!(
        TypstError::InvalidName.message(),
        "variable name cannot be empty"
    );
    assert_eq!(
        TypstError::SheetNotFound.message(),
        "failed to read the requested sheet"
    );
    assert_eq!(TypstError::IoError.message(), "input/output error");
}
