//! The format decoders, as trusted items. Each textual format is parsed by
//! its outside crate and the parsed tree is rebuilt, variant for variant,
//! as a tree of plain nodes (`RawNode`). What each decoder returns for a
//! given text is a function of the text alone; it is given a name here, and
//! everything after the decode is verified against that name.

use vstd::prelude::*;

use crate::parsedata::spec_records_view;
use crate::tree::RawNode;
use crate::tree::SpecNode;

verus! {

#[verifier::external_type_specification]
#[verifier::external_body]
pub struct ExJsonValue(serde_json::Value);

#[verifier::external_type_specification]
#[verifier::external_body]
pub struct ExYamlValue(serde_yaml::Value);

#[verifier::external_type_specification]
#[verifier::external_body]
pub struct ExTomlValue(toml::Value);

/// What the CSV reader yields for a text: all its records (no header
/// handling), or nothing when the text is not well-formed CSV.
pub uninterp spec fn csv_rows_of(text: Seq<char>) -> Option<Seq<Seq<Seq<char>>>>;

/// What the JSON parser yields for a text, rebuilt as a plain tree, or
/// nothing when the text is not well-formed JSON.
pub uninterp spec fn json_tree_of(text: Seq<char>) -> Option<SpecNode>;

/// What the YAML parser yields for a text, rebuilt as a plain tree, or
/// nothing when the text is not well-formed YAML.
pub uninterp spec fn yaml_tree_of(text: Seq<char>) -> Option<SpecNode>;

/// What the TOML parser yields for a text, rebuilt as a plain tree, or
/// nothing when the text is not well-formed TOML.
pub uninterp spec fn toml_tree_of(text: Seq<char>) -> Option<SpecNode>;

/// Relies on csv's `ReaderBuilder` and `Reader::records`: parsing a CSV
/// text into its records depends on the text alone. Every record is
/// returned (header handling is the caller's); a malformed input, such as
/// records of unequal lengths, gives `None`.
#[verifier::external_body]
pub fn decode_csv(text: &str) -> (r: Option<Vec<Vec<String>>>)
    ensures
        r matches Some(recs) ==> csv_rows_of(text@) == Some(spec_records_view(recs@)),
        r is None ==> csv_rows_of(text@) is None,
{
    let mut rdr = csv::ReaderBuilder::new().has_headers(false).from_reader(text.as_bytes());
    let mut out: Vec<Vec<String>> = Vec::new();
    for rec in rdr.records() {
        match rec {
            Ok(row) => out.push(row.iter().map(|f| f.to_string()).collect()),
            Err(_) => return None,
        }
    }
    Some(out)
}

/// Rebuilds a parsed JSON tree as plain nodes, variant for variant. A
/// number that fits a 64-bit integer stays an integer; any other number is
/// carried as its rendered decimal text.
#[verifier::external_body]
fn json_to_raw(v: serde_json::Value) -> RawNode {
    match v {
        serde_json::Value::Null => RawNode::Null,
        serde_json::Value::Bool(b) => RawNode::Bool(b),
        serde_json::Value::Number(n) => match n.as_i64() {
            Some(i) => RawNode::Int(i),
            None => RawNode::Float(n.to_string()),
        },
        serde_json::Value::String(s) => RawNode::Text(s),
        serde_json::Value::Array(a) => RawNode::Arr(a.into_iter().map(json_to_raw).collect()),
        serde_json::Value::Object(m) => RawNode::Obj(
            m.into_iter().map(|(k, x)| (RawNode::Text(k), json_to_raw(x))).collect(),
        ),
    }
}

/// Relies on serde_json's `from_str`: parsing a JSON text depends on the
/// text alone. The parsed tree is rebuilt as plain nodes by `json_to_raw`.
#[verifier::external_body]
pub fn decode_json(text: &str) -> (r: Option<RawNode>)
    ensures
        r matches Some(n) ==> json_tree_of(text@) == Some(n@),
        r is None ==> json_tree_of(text@) is None,
{
    match serde_json::from_str::<serde_json::Value>(text) {
        Ok(v) => Some(json_to_raw(v)),
        Err(_) => None,
    }
}

/// Rebuilds a parsed YAML tree as plain nodes, variant for variant.
/// Mapping keys stay nodes, so a non-string key is visible to the caller;
/// a tagged node has no representation and becomes `Other`.
#[verifier::external_body]
fn yaml_to_raw(v: serde_yaml::Value) -> RawNode {
    match v {
        serde_yaml::Value::Null => RawNode::Null,
        serde_yaml::Value::Bool(b) => RawNode::Bool(b),
        serde_yaml::Value::Number(n) => match n.as_i64() {
            Some(i) => RawNode::Int(i),
            None => RawNode::Float(n.to_string()),
        },
        serde_yaml::Value::String(s) => RawNode::Text(s),
        serde_yaml::Value::Sequence(a) => RawNode::Arr(a.into_iter().map(yaml_to_raw).collect()),
        serde_yaml::Value::Mapping(m) => RawNode::Obj(
            m.into_iter().map(|(k, x)| (yaml_to_raw(k), yaml_to_raw(x))).collect(),
        ),
        serde_yaml::Value::Tagged(_) => RawNode::Other,
    }
}

/// Relies on serde_yaml's `from_str`: parsing a YAML text depends on the
/// text alone. The parsed tree is rebuilt as plain nodes by `yaml_to_raw`.
#[verifier::external_body]
pub fn decode_yaml(text: &str) -> (r: Option<RawNode>)
    ensures
        r matches Some(n) ==> yaml_tree_of(text@) == Some(n@),
        r is None ==> yaml_tree_of(text@) is None,
{
    match serde_yaml::from_str::<serde_yaml::Value>(text) {
        Ok(v) => Some(yaml_to_raw(v)),
        Err(_) => None,
    }
}

/// Rebuilds a parsed TOML tree as plain nodes, variant for variant. Table
/// keys are strings in TOML; a datetime has no representation in the value
/// model and becomes `Other`.
#[verifier::external_body]
fn toml_to_raw(v: toml::Value) -> RawNode {
    match v {
        toml::Value::String(s) => RawNode::Text(s),
        toml::Value::Integer(i) => RawNode::Int(i),
        toml::Value::Float(f) => RawNode::Float(f.to_string()),
        toml::Value::Boolean(b) => RawNode::Bool(b),
        toml::Value::Datetime(_) => RawNode::Other,
        toml::Value::Array(a) => RawNode::Arr(a.into_iter().map(toml_to_raw).collect()),
        toml::Value::Table(t) => RawNode::Obj(
            t.into_iter().map(|(k, x)| (RawNode::Text(k), toml_to_raw(x))).collect(),
        ),
    }
}

/// Relies on toml's `from_str`: parsing a TOML text depends on the text
/// alone. The parsed tree is rebuilt as plain nodes by `toml_to_raw`.
#[verifier::external_body]
pub fn decode_toml(text: &str) -> (r: Option<RawNode>)
    ensures
        r matches Some(n) ==> toml_tree_of(text@) == Some(n@),
        r is None ==> toml_tree_of(text@) is None,
{
    match toml::from_str::<toml::Value>(text) {
        Ok(v) => Some(toml_to_raw(v)),
        Err(_) => None,
    }
}

} // verus!
