use vstd::prelude::*;

verus! {

/// The error kinds of a conversion. Every error aborts the whole conversion;
/// there is no partial output and no retry.
#[derive(Clone, Copy, Debug, PartialEq, Eq, Structural)]
pub enum TypstError {
    /// No input path was given and no explicit format, or the extension is
    /// not recognized.
    FormatDetectionFailed,
    /// The underlying format decoder rejected the input.
    DecodeError,
    /// A source numeric value fits neither a 64-bit integer nor a double.
    UnsupportedNumber,
    /// A mapping key is not a string.
    NonStringKey,
    /// A source construct has no representation in the value model.
    UnsupportedValueType,
    /// The requested spreadsheet sheet does not exist or cannot be read.
    SheetNotFound,
    /// Spreadsheet format selected without a file path.
    MissingInputForXlsx,
    /// The output identifier is empty.
    InvalidName,
    /// An underlying read or write failed.
    IoError,
}

impl TypstError {
    /// A one-line diagnostic for this error kind.
    pub fn message(&self) -> (r: &'static str)
        ensures
            r@ == self.spec_message(),
    {
        match self {
            TypstError::FormatDetectionFailed => "cannot detect format from input",
            TypstError::DecodeError => "input could not be decoded",
            TypstError::UnsupportedNumber => "unsupported number type",
            TypstError::NonStringKey => "mapping key is not a string",
            TypstError::UnsupportedValueType => "unsupported value type",
            TypstError::SheetNotFound => "failed to read the requested sheet",
            TypstError::MissingInputForXlsx => "spreadsheet format requires an input file",
            TypstError::InvalidName => "variable name cannot be empty",
            TypstError::IoError => "input/output error",
        }
    }

    pub open spec fn spec_message(self) -> Seq<char> {
        match self {
            TypstError::FormatDetectionFailed => "cannot detect format from input"@,
            TypstError::DecodeError => "input could not be decoded"@,
            TypstError::UnsupportedNumber => "unsupported number type"@,
            TypstError::NonStringKey => "mapping key is not a string"@,
            TypstError::UnsupportedValueType => "unsupported value type"@,
            TypstError::SheetNotFound => "failed to read the requested sheet"@,
            TypstError::MissingInputForXlsx => "spreadsheet format requires an input file"@,
            TypstError::InvalidName => "variable name cannot be empty"@,
            TypstError::IoError => "input/output error"@,
        }
    }
}

} // verus!
