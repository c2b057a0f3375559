//! Converts decoded tabular and structured data (CSV, JSON, YAML, TOML, XLSX
//! cell grids) into a textual literal expression: tuples, dictionaries,
//! arrays and scalars, prefixed by an assignment to a named variable.
//!
//! The pipeline is `decode -> value tree -> shape classification -> serialize`.
//! The decoders themselves are outside collaborators; they hand the core a
//! generic tree of primitive values (`tree::RawNode`), which the core converts
//! into the typed value model (`value::TypstValue`), classifies into a shaped
//! document (`parsedata::ParsedData`), and renders (`ser`, `render`).

pub mod error;
pub mod num;
pub mod value;
pub mod tree;
pub mod parsedata;
pub mod render;
pub mod parser;
pub mod decode;
pub mod ser;
