//! The top-level rendering entry: one line assigning the rendered literal
//! to a named variable.

use vstd::prelude::*;
use vstd::string::StringExecFns;
use vstd::string::StrSliceExecFns;

use crate::error::TypstError;
use crate::parsedata::ParsedData;
use crate::parsedata::SpecDoc;
use crate::ser::spec_render_doc;
use crate::ser::write_document;

verus! {

/// The caller-supplied rendering mode. `Tuple` (and the parenthesized
/// `Mapping` mode) render a root sequence as a tuple; `Dict` renders it as
/// a bracketed list. The mode is consumed when the document is classified;
/// the serializer itself goes by the document's shape alone.
#[derive(Clone, Copy, Debug, PartialEq, Eq, Structural)]
pub enum OutputMode {
    Tuple,
    Dict,
    Mapping,
}

impl Default for OutputMode {
    /// The default rendering mode is `Tuple`.
    fn default() -> (r: Self)
        ensures
            r == OutputMode::Tuple,
    {
        OutputMode::Tuple
    }
}

/// The whole output text: an assignment of the rendered literal to `name`.
pub open spec fn spec_render_assignment(name: Seq<char>, d: SpecDoc) -> Seq<char> {
    "let "@ + name + " = "@ + spec_render_doc(d)
}

/// Renders `data` as one literal expression assigned to the variable
/// `name`: `let <name> = <literal>`. An empty name is rejected with
/// `InvalidName` and no output text is produced.
pub fn render_to_typst(data: &ParsedData, name: &str) -> (r: Result<String, TypstError>)
    ensures
        r is Err <==> name@.len() == 0,
        r matches Err(e) ==> e == TypstError::InvalidName,
        r matches Ok(s) ==> s@ == spec_render_assignment(name@, data@),
{
    if name.unicode_len() == 0 {
        return Err(TypstError::InvalidName);
    }
    let mut out = String::new();
    out.append("let ");
    out.append(name);
    out.append(" = ");
    write_document(&mut out, data);
    Ok(out)
}

} // verus!
