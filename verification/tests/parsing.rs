use d2typ::error::TypstError;
use d2typ::parsedata::ParsedData;
use d2typ::parser::detect_format;
use d2typ::parser::parse_input;
use d2typ::parser::CliArgs;
use d2typ::parser::InputFormat;
use d2typ::render::OutputMode;
use d2typ::ser::to_string;
use d2typ::value::TypstValue;

#[test]
fn parser_test_detect_format() {
    assert_eq!(
        detect_format(&Some("data.csv".to_string())).unwrap(),
        InputFormat::Csv
    );
    assert_eq!(
        detect_format(&Some("data.json".to_string())).unwrap(),
        InputFormat::Json
    );
    assert_eq!(
        detect_format(&Some("data.yaml".to_string())).unwrap(),
        InputFormat::Yaml
    );
    assert_eq!(
        detect_format(&Some("data.toml".to_string())).unwrap(),
        InputFormat::Toml
    );
    assert_eq!(
        detect_format(&Some("data.xlsx".to_string())).unwrap(),
        InputFormat::Xlsx
    );
    assert!(detect_format(&Some("data.txt".to_string())).is_err());
}

#[test]
fn mod_test_detect_format() {
    assert_eq!(
        detect_format(&Some("data.csv".to_string())).unwrap(),
        InputFormat::Csv
    );
    assert_eq!(
        detect_format(&Some("data.json".to_string())).unwrap(),
        InputFormat::Json
    );
    assert_eq!(
        detect_format(&Some("data.yaml".to_string())).unwrap(),
        InputFormat::Yaml
    );
    assert_eq!(
        detect_format(&Some("data.toml".to_string())).unwrap(),
        InputFormat::Toml
    );
    assert_eq!(
        detect_format(&Some("data.xlsx".to_string())).unwrap(),
        InputFormat::Xlsx
    );
    assert!(detect_format(&Some("data.txt".to_string())).is_err());
}

#[test]
fn parser_test_parse_csv() {
    let data = "name,age\nAlice,30\nBob,25";
    let result = parse_input(data, InputFormat::Csv, &CliArgs::default()).unwrap();
    println!("{}", to_string(&result));
}

#[test]
fn mod_test_parse_csv() {
    let data = "name,age\nAlice,30\nBob,25";
    let result = parse_input(data, InputFormat::Csv, &CliArgs::default()).unwrap();
    println!("{}", to_string(&result));
}

#[test]
fn test_typst_value_from_str() {
    assert_eq!(TypstValue::from_cell("true"), TypstValue::Bool(true));
    assert_eq!(TypstValue::from_cell("123"), TypstValue::Int(123));
    assert_eq!(
        TypstValue::from_cell("45.67"),
        TypstValue::Float("45.67".to_string())
    );
    assert_eq!(
        TypstValue::from_cell("hello"),
        TypstValue::Str("hello".to_string())
    );
    assert_eq!(TypstValue::from_cell(""), TypstValue::Null);
}

#[test]
fn detect_format_is_case_insensitive_and_wants_an_extension() {
    assert_eq!(
        detect_format(&Some("DATA.CSV".to_string())).unwrap(),
        InputFormat::Csv
    );
    assert_eq!(
        detect_format(&Some("book.XLS".to_string())).unwrap(),
        InputFormat::Xlsx
    );
    assert_eq!(
        detect_format(&Some("x.Yml".to_string())).unwrap(),
        InputFormat::Yaml
    );
    assert_eq!(
        detect_format(&None).unwrap_err(),
        TypstError::FormatDetectionFailed
    );
    assert_eq!(
        detect_format(&Some("noextension".to_string())).unwrap_err(),
        TypstError::FormatDetectionFailed
    );
    assert_eq!(
        detect_format(&Some("dir.d/noextension".to_string())).unwrap_err(),
        TypstError::FormatDetectionFailed
    );
    assert_eq!(
        detect_format(&Some("/home/u/.bashrc".to_string())).unwrap_err(),
        TypstError::FormatDetectionFailed
    );
}

#[test]
fn parse_json_object_keeps_shape() {
    let doc = parse_input(
        r#"{"x":1,"y":[true,null]}"#,
        InputFormat::Json,
        &CliArgs::default(),
    )
    .unwrap();
    assert_eq!(
        doc,
        ParsedData::Dict(vec![
            ("x".to_string(), TypstValue::Int(1)),
            (
                "y".to_string(),
                TypstValue::Array(vec![TypstValue::Bool(true), TypstValue::Null])
            ),
        ])
    );
    assert_eq!(to_string(&doc), "{ x: 1, y: [true, none] }");
}

#[test]
fn parse_json_array_follows_mode() {
    let tuple_doc = parse_input("[1, 2]", InputFormat::Json, &CliArgs::default()).unwrap();
    assert_eq!(
        tuple_doc,
        ParsedData::Tuple(vec![TypstValue::Int(1), TypstValue::Int(2)])
    );
    let args = CliArgs {
        mode: OutputMode::Dict,
        ..CliArgs::default()
    };
    let list_doc = parse_input("[1, 2]", InputFormat::Json, &args).unwrap();
    assert_eq!(
        list_doc,
        ParsedData::List(vec![TypstValue::Int(1), TypstValue::Int(2)])
    );
    let args = CliArgs {
        mode: OutputMode::Mapping,
        ..CliArgs::default()
    };
    let paren_doc = parse_input("[1, 2]", InputFormat::Json, &args).unwrap();
    assert_eq!(
        paren_doc,
        ParsedData::Tuple(vec![TypstValue::Int(1), TypstValue::Int(2)])
    );
}

#[test]
fn parse_json_scalar_becomes_single_element_list() {
    let doc = parse_input("7", InputFormat::Json, &CliArgs::default()).unwrap();
    assert_eq!(doc, ParsedData::List(vec![TypstValue::Int(7)]));
    assert_eq!(to_string(&doc), "[7]");
}

#[test]
fn parse_yaml_mapping_and_sequence() {
    let doc = parse_input("a: 1\nb: two\n", InputFormat::Yaml, &CliArgs::default()).unwrap();
    assert_eq!(
        doc,
        ParsedData::Dict(vec![
            ("a".to_string(), TypstValue::Int(1)),
            ("b".to_string(), TypstValue::Str("two".to_string())),
        ])
    );
    let seq = parse_input("- 1\n- 2\n", InputFormat::Yaml, &CliArgs::default()).unwrap();
    assert_eq!(to_string(&seq), "(1, 2)");
}

#[test]
fn parse_toml_table() {
    let doc = parse_input(
        "a = 1\nb = \"x\"\nc = 2.5\n",
        InputFormat::Toml,
        &CliArgs::default(),
    )
    .unwrap();
    assert_eq!(
        doc,
        ParsedData::Dict(vec![
            ("a".to_string(), TypstValue::Int(1)),
            ("b".to_string(), TypstValue::Str("x".to_string())),
            ("c".to_string(), TypstValue::Float("2.5".to_string())),
        ])
    );
}

#[test]
fn malformed_input_is_a_decode_error() {
    assert_eq!(
        parse_input("{bad", InputFormat::Json, &CliArgs::default()).unwrap_err(),
        TypstError::DecodeError
    );
    assert_eq!(
        parse_input("a,b\n1\ntoo,many,cells", InputFormat::Csv, &CliArgs::default()).unwrap_err(),
        TypstError::DecodeError
    );
    assert_eq!(
        parse_input("= nonsense =", InputFormat::Toml, &CliArgs::default()).unwrap_err(),
        TypstError::DecodeError
    );
}

#[test]
fn xlsx_needs_a_file() {
    assert_eq!(
        parse_input("", InputFormat::Xlsx, &CliArgs::default()).unwrap_err(),
        TypstError::MissingInputForXlsx
    );
}

#[test]
fn non_string_yaml_key_is_rejected() {
    assert_eq!(
        parse_input("1: one\n", InputFormat::Yaml, &CliArgs::default()).unwrap_err(),
        TypstError::NonStringKey
    );
}

#[test]
fn toml_datetime_is_unsupported() {
    assert_eq!(
        parse_input(
            "d = 1979-05-27T07:32:00Z\n",
            InputFormat::Toml,
            &CliArgs::default()
        )
        .unwrap_err(),
        TypstError::UnsupportedValueType
    );
}

#[test]
fn csv_without_header_keeps_every_record_as_a_row() {
    let args = CliArgs {
        no_header: true,
        ..CliArgs::default()
    };
    let doc = parse_input("1,2\n3,4", InputFormat::Csv, &args).unwrap();
    assert_eq!(
        doc,
        ParsedData::Table((
            None,
            vec![
                vec![TypstValue::Int(1), TypstValue::Int(2)],
                vec![TypstValue::Int(3), TypstValue::Int(4)],
            ]
        ))
    );
    assert_eq!(to_string(&doc), "[[1, 2], [3, 4]]");
}
