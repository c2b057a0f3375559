//! Input handling: the recognized formats, the caller-supplied options,
//! format detection from a path's extension, and the parse entry that turns
//! decoded text into a shaped document.

use vstd::prelude::*;
use vstd::string::StrSliceExecFns;

use crate::decode::csv_rows_of;
use crate::decode::decode_csv;
use crate::decode::decode_json;
use crate::decode::decode_toml;
use crate::decode::decode_yaml;
use crate::decode::json_tree_of;
use crate::decode::toml_tree_of;
use crate::decode::yaml_tree_of;
use crate::error::TypstError;
use crate::parsedata::ParsedData;
use crate::parsedata::document_from_tree;
use crate::parsedata::res_doc_view;
use crate::parsedata::spec_document_of;
use crate::parsedata::spec_table_of_records;
use crate::parsedata::table_from_records;
use crate::render::OutputMode;

verus! {

/// The supported input formats.
#[derive(Clone, Copy, Debug, PartialEq, Eq, Structural)]
pub enum InputFormat {
    Csv,
    Json,
    Yaml,
    Toml,
    Xlsx,
}

/// The format choice as the caller gives it: a fixed format, or `Auto` to
/// detect one from the input path's extension.
#[derive(Clone, Copy, Debug, PartialEq, Eq, Structural)]
pub enum FormatOpt {
    Auto,
    Csv,
    Json,
    Yaml,
    Toml,
    Xlsx,
}

impl Default for FormatOpt {
    /// The default format choice is `Auto`.
    fn default() -> (r: Self)
        ensures
            r == FormatOpt::Auto,
    {
        FormatOpt::Auto
    }
}

/// The caller-supplied options of one conversion run.
#[derive(Debug)]
pub struct CliArgs {
    /// Input path; standard input when absent.
    pub input: Option<String>,
    /// Output path; standard output when absent.
    pub output: Option<String>,
    /// Forced input format, or `Auto`.
    pub format: FormatOpt,
    /// The rendering mode of the top-level shape.
    pub mode: OutputMode,
    /// For tabular input: do not treat the first record as a header.
    pub no_header: bool,
    /// For spreadsheet input: the sheet to read.
    pub sheet: Option<String>,
}

impl Default for CliArgs {
    /// No paths, automatic format detection, tuple rendering, header
    /// detection on, no sheet selection.
    fn default() -> (r: Self)
        ensures
            r.input is None,
            r.output is None,
            r.format == FormatOpt::Auto,
            r.mode == OutputMode::Tuple,
            r.no_header == false,
            r.sheet is None,
    {
        CliArgs {
            input: None,
            output: None,
            format: FormatOpt::Auto,
            mode: OutputMode::Tuple,
            no_header: false,
            sheet: None,
        }
    }
}

/// ASCII lowercasing of one character.
pub open spec fn spec_lower_char(c: char) -> char {
    if 65 <= c as u32 && c as u32 <= 90 {
        ((c as u32 + 32) as u8) as char
    } else {
        c
    }
}

/// ASCII lowercasing of a character sequence.
pub open spec fn spec_lower(s: Seq<char>) -> Seq<char> {
    Seq::new(s.len(), |i: int| spec_lower_char(s[i]))
}

/// Whether position `i` starts the extension of path `p`: a '.' in the
/// last path component, not the component's first character, with nothing
/// but extension characters after it.
pub open spec fn is_ext_dot(p: Seq<char>, i: int) -> bool {
    &&& 0 <= i < p.len()
    &&& p[i] == '.'
    &&& forall|j: int| i < j < p.len() ==> p[j] != '.' && p[j] != '/'
    &&& i > 0
    &&& p[i - 1] != '/'
}

/// The extension of a path: the text after the last '.' of the last
/// component, if that dot neither starts the component nor is missing.
pub open spec fn spec_extension(p: Seq<char>) -> Option<Seq<char>> {
    if exists|i: int| is_ext_dot(p, i) {
        let i = choose|i: int| is_ext_dot(p, i);
        Some(p.subrange(i + 1, p.len() as int))
    } else {
        None
    }
}

/// The format recognized for a lowercased extension.
pub open spec fn spec_format_of_ext(e: Seq<char>) -> Option<InputFormat> {
    if e == "csv"@ {
        Some(InputFormat::Csv)
    } else if e == "json"@ {
        Some(InputFormat::Json)
    } else if e == "yaml"@ || e == "yml"@ {
        Some(InputFormat::Yaml)
    } else if e == "toml"@ {
        Some(InputFormat::Toml)
    } else if e == "xls"@ || e == "xlsx"@ {
        Some(InputFormat::Xlsx)
    } else {
        None
    }
}

/// What format detection answers for a path: the format of the path's
/// lowercased extension, or `FormatDetectionFailed` when there is no path,
/// no extension, or no recognized one.
pub open spec fn spec_detect_format(path: Option<Seq<char>>) -> Result<InputFormat, TypstError> {
    match path {
        Some(p) => match spec_extension(p) {
            Some(e) => match spec_format_of_ext(spec_lower(e)) {
                Some(f) => Ok(f),
                None => Err(TypstError::FormatDetectionFailed),
            },
            None => Err(TypstError::FormatDetectionFailed),
        },
        None => Err(TypstError::FormatDetectionFailed),
    }
}

/// The view of an optional path.
pub open spec fn spec_path_view(path: Option<String>) -> Option<Seq<char>> {
    match path {
        Some(p) => Some(p@),
        None => None,
    }
}

/// Compares the ASCII-lowercased `a` against `b`.
fn eq_lower(a: &str, b: &str) -> (r: bool)
    ensures
        r == (spec_lower(a@) == b@),
{
    let n = a.unicode_len();
    let m = b.unicode_len();
    if n != m {
        assert(spec_lower(a@).len() != b@.len());
        return false;
    }
    let mut i: usize = 0;
    while i < n
        invariant
            i <= n,
            n == a@.len(),
            n == b@.len(),
            forall|j: int| 0 <= j < i ==> spec_lower(a@)[j] == b@[j],
        decreases n - i,
    {
        let c = a.get_char(i);
        let u = c as u32;
        let lc: char = if 65 <= u && u <= 90 {
            ((u + 32) as u8) as char
        } else {
            c
        };
        assert(lc == spec_lower_char(a@[i as int]));
        if lc != b.get_char(i) {
            assert(spec_lower(a@)[i as int] != b@[i as int]);
            return false;
        }
        i = i + 1;
    }
    proof {
        assert(spec_lower(a@) =~= b@);
    }
    true
}

/// Detects the input format from the path's extension, per
/// `spec_detect_format`: case-insensitive over `csv`, `json`, `yaml`,
/// `yml`, `toml`, `xls`, `xlsx`.
#[verifier::loop_isolation(false)]
pub fn detect_format(path: &Option<String>) -> (r: Result<InputFormat, TypstError>)
    ensures
        r == spec_detect_format(spec_path_view(*path)),
{
    let p = match path {
        Some(p) => p,
        None => {
            return Err(TypstError::FormatDetectionFailed);
        },
    };
    let s = p.as_str();
    let n = s.unicode_len();
    let mut i: usize = n;
    while i > 0
        invariant
            i <= n,
            forall|j: int| i <= j < n ==> s@[j] != '.' && s@[j] != '/',
        decreases i,
    {
        let c = s.get_char(i - 1);
        if c == '.' {
            if i >= 2 && s.get_char(i - 2) != '/' {
                assert(is_ext_dot(s@, i - 1));
                let ext = s.substring_char(i, n);
                proof {
                    let w = choose|k: int| is_ext_dot(s@, k);
                    assert(is_ext_dot(s@, w));
                    if w < i - 1 {
                        assert(s@[i - 1] == '.');
                        assert(false);
                    }
                    if w > i - 1 {
                        assert(s@[w] == '.');
                        assert(false);
                    }
                    assert(spec_extension(s@) == Some(ext@));
                }
                let f = if eq_lower(ext, "csv") {
                    Ok(InputFormat::Csv)
                } else if eq_lower(ext, "json") {
                    Ok(InputFormat::Json)
                } else if eq_lower(ext, "yaml") {
                    Ok(InputFormat::Yaml)
                } else if eq_lower(ext, "yml") {
                    Ok(InputFormat::Yaml)
                } else if eq_lower(ext, "toml") {
                    Ok(InputFormat::Toml)
                } else if eq_lower(ext, "xls") {
                    Ok(InputFormat::Xlsx)
                } else if eq_lower(ext, "xlsx") {
                    Ok(InputFormat::Xlsx)
                } else {
                    Err(TypstError::FormatDetectionFailed)
                };
                return f;
            } else {
                proof {
                    assert forall|k: int| !is_ext_dot(s@, k) by {
                        if is_ext_dot(s@, k) {
                            if k < i - 1 {
                                assert(s@[i - 1] == '.');
                            }
                            if k > i - 1 {
                                assert(s@[k] == '.');
                            }
                        }
                    }
                }
                return Err(TypstError::FormatDetectionFailed);
            }
        }
        if c == '/' {
            proof {
                assert forall|k: int| !is_ext_dot(s@, k) by {
                    if is_ext_dot(s@, k) {
                        if k < i - 1 {
                            assert(s@[i - 1] != '.' && s@[i - 1] != '/');
                        }
                        if k >= i {
                            assert(s@[k] == '.');
                        }
                    }
                }
            }
            return Err(TypstError::FormatDetectionFailed);
        }
        i = i - 1;
    }
    proof {
        assert forall|k: int| !is_ext_dot(s@, k) by {
            if is_ext_dot(s@, k) {
                assert(s@[k] == '.');
            }
        }
    }
    Err(TypstError::FormatDetectionFailed)
}

/// Parses decoded input text in the given format into a shaped document,
/// per the named decoders: CSV becomes a table under the header flag; JSON,
/// YAML and TOML are classified by their root under the rendering mode; a
/// text the decoder rejects is a `DecodeError`. Spreadsheet input cannot
/// come as text: it always needs a file, so it answers
/// `MissingInputForXlsx` here.
pub fn parse_input(text: &str, format: InputFormat, args: &CliArgs) -> (r: Result<
    ParsedData,
    TypstError,
>)
    ensures
        format is Csv ==> (match csv_rows_of(text@) {
            Some(recs) => (match r {
                Ok(d) => d@ == spec_table_of_records(recs, !args.no_header),
                Err(_) => false,
            }),
            None => r == Err::<ParsedData, TypstError>(TypstError::DecodeError),
        }),
        format is Json ==> (match json_tree_of(text@) {
            Some(n) => res_doc_view(r) == spec_document_of(n, args.mode),
            None => r == Err::<ParsedData, TypstError>(TypstError::DecodeError),
        }),
        format is Yaml ==> (match yaml_tree_of(text@) {
            Some(n) => res_doc_view(r) == spec_document_of(n, args.mode),
            None => r == Err::<ParsedData, TypstError>(TypstError::DecodeError),
        }),
        format is Toml ==> (match toml_tree_of(text@) {
            Some(n) => res_doc_view(r) == spec_document_of(n, args.mode),
            None => r == Err::<ParsedData, TypstError>(TypstError::DecodeError),
        }),
        format is Xlsx ==> r == Err::<ParsedData, TypstError>(TypstError::MissingInputForXlsx),
{
    match format {
        InputFormat::Csv => match decode_csv(text) {
            Some(recs) => Ok(table_from_records(recs, !args.no_header)),
            None => Err(TypstError::DecodeError),
        },
        InputFormat::Json => match decode_json(text) {
            Some(n) => document_from_tree(&n, args.mode),
            None => Err(TypstError::DecodeError),
        },
        InputFormat::Yaml => match decode_yaml(text) {
            Some(n) => document_from_tree(&n, args.mode),
            None => Err(TypstError::DecodeError),
        },
        InputFormat::Toml => match decode_toml(text) {
            Some(n) => document_from_tree(&n, args.mode),
            None => Err(TypstError::DecodeError),
        },
        InputFormat::Xlsx => Err(TypstError::MissingInputForXlsx),
    }
}

} // verus!
