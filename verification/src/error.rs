//! Errors of the conversion and the codes of its diagnostics.
use vstd::prelude::*;

use crate::text::push_str;

verus! {

/// An error that stops the conversion.
#[derive(Debug)]
pub enum Fatal {
    /// Output file write error, with its message.
    Output(String),
    /// An unrecoverable internal error (ICE).
    InternalCompilerError,
}

impl Fatal {
    /// The description of the error.
    pub fn to_string(&self) -> (r: String)
        ensures
            r@ == match *self {
                Fatal::Output(m) => "output file write error: "@ + m@,
                Fatal::InternalCompilerError => "can not continue due to internal error"@,
            },
    {
        let mut r = String::new();
        match self {
            Fatal::Output(m) => {
                push_str(&mut r, "output file write error: ");
                push_str(&mut r, m.as_str());
            },
            Fatal::InternalCompilerError => push_str(&mut r, "can not continue due to internal error"),
        }
        r
    }
}

/// An error while handling an event.
#[derive(Debug)]
pub enum Error {
    /// Fatal unrecoverable error, but somewhat expected.
    Fatal(Fatal),
    /// Diagnostic was printed, event wasn't handled, skip over the event.
    Diagnostic,
}

impl Error {
    /// The description of the error.
    pub fn to_string(&self) -> (r: String)
        ensures
            r@ == match *self {
                Error::Fatal(Fatal::Output(m)) => "fatal error: "@ + ("output file write error: "@ + m@),
                Error::Fatal(Fatal::InternalCompilerError) => "fatal error: "@
                    + "can not continue due to internal error"@,
                Error::Diagnostic => "error during event handling, diagnostic written"@,
            },
    {
        let mut r = String::new();
        match self {
            Error::Fatal(f) => {
                push_str(&mut r, "fatal error: ");
                let t = f.to_string();
                push_str(&mut r, t.as_str());
            },
            Error::Diagnostic => push_str(&mut r, "error during event handling, diagnostic written"),
        }
        r
    }
}

/// The code of a diagnostic.
#[derive(Debug, Clone)]
pub enum DiagnosticCode {
    FoundTwoLabels,
    InvalidFigureValue,
    MultipleFigureKeys,
    InvalidCskvp,
    InvalidCskv,
    NotYetImplemented,
    UnapplicableElementConfig,
    MultipleLabels,
    InvalidReference,
    CodeHasMultipleConfigs,
    UnknownAttributesInElementConfig,
    InvalidDoubleQuotedString,
    ErrorReadingIncludedMarkdownFile,
    ErrorReadingGraphvizFile,
    ErrorResolvingFile,
    UnsupportedDomain,
    ErrorCanonicalizingPath,
    PermissionDenied,
    InvalidUrl,
    InvalidCommand,
    ErrorWritingToCache,
    ErrorDownloadingContent,
    UnknownFileFormat,
    MissingFileExtension,
    GraphvizError,
    TempFileError,
    InvalidConfigPath(String),
    InvalidHeaderLevel,
    Unsupported,
    SvgConversionError,
    EspeakCreationError,
    InternalCompilerError,
}

/// The number of a diagnostic code.
pub open spec fn code_text(c: DiagnosticCode) -> Seq<char> {
    match c {
        DiagnosticCode::FoundTwoLabels => "0001"@,
        DiagnosticCode::InvalidFigureValue => "0002"@,
        DiagnosticCode::MultipleFigureKeys => "0003"@,
        DiagnosticCode::InvalidCskvp => "0004"@,
        DiagnosticCode::InvalidCskv => "0005"@,
        DiagnosticCode::NotYetImplemented => "0006"@,
        DiagnosticCode::UnapplicableElementConfig => "0007"@,
        DiagnosticCode::MultipleLabels => "0008"@,
        DiagnosticCode::InvalidReference => "0009"@,
        DiagnosticCode::CodeHasMultipleConfigs => "0010"@,
        DiagnosticCode::UnknownAttributesInElementConfig => "0011"@,
        DiagnosticCode::InvalidDoubleQuotedString => "0012"@,
        DiagnosticCode::ErrorReadingIncludedMarkdownFile => "0013"@,
        DiagnosticCode::ErrorReadingGraphvizFile => "0014"@,
        DiagnosticCode::ErrorResolvingFile => "0015"@,
        DiagnosticCode::UnsupportedDomain => "0016"@,
        DiagnosticCode::ErrorCanonicalizingPath => "0017"@,
        DiagnosticCode::PermissionDenied => "0018"@,
        DiagnosticCode::InvalidUrl => "0019"@,
        DiagnosticCode::InvalidCommand => "0020"@,
        DiagnosticCode::ErrorWritingToCache => "0021"@,
        DiagnosticCode::ErrorDownloadingContent => "0022"@,
        DiagnosticCode::UnknownFileFormat => "0023"@,
        DiagnosticCode::MissingFileExtension => "0024"@,
        DiagnosticCode::GraphvizError => "1000"@,
        DiagnosticCode::TempFileError => "1001"@,
        DiagnosticCode::InvalidConfigPath(_) => "1002"@,
        DiagnosticCode::InvalidHeaderLevel => "1003"@,
        DiagnosticCode::Unsupported => "1004"@,
        DiagnosticCode::SvgConversionError => "1005"@,
        DiagnosticCode::EspeakCreationError => "1006"@,
        DiagnosticCode::InternalCompilerError => "9999"@,
    }
}

/// The message of a diagnostic code.
pub open spec fn message_text(c: DiagnosticCode) -> Seq<char> {
    match c {
        DiagnosticCode::FoundTwoLabels => "found two labels"@,
        DiagnosticCode::InvalidFigureValue => "invalid figure attribute value"@,
        DiagnosticCode::MultipleFigureKeys => "found multiple figure keys"@,
        DiagnosticCode::InvalidCskvp => "invalid comma seperated key-value-pair"@,
        DiagnosticCode::InvalidCskv => "invalid comma seperated value"@,
        DiagnosticCode::NotYetImplemented => "not yet implemented"@,
        DiagnosticCode::UnapplicableElementConfig => "found element config, but there wasn't an element to apply it to"@,
        DiagnosticCode::MultipleLabels => "multiple labels for the same element"@,
        DiagnosticCode::InvalidReference => "found biber reference, but no bibliography file found"@,
        DiagnosticCode::CodeHasMultipleConfigs => "code has both prefix and inline style config"@,
        DiagnosticCode::UnknownAttributesInElementConfig => "unknown attributes in element config"@,
        DiagnosticCode::InvalidDoubleQuotedString => "invalid double-quoted string"@,
        DiagnosticCode::ErrorReadingIncludedMarkdownFile => "error reading markdown include file"@,
        DiagnosticCode::ErrorReadingGraphvizFile => "error reading graphviz file"@,
        DiagnosticCode::ErrorResolvingFile => "error resolving file"@,
        DiagnosticCode::UnsupportedDomain => "unsupported domain"@,
        DiagnosticCode::ErrorCanonicalizingPath => "error canonicalizing path"@,
        DiagnosticCode::PermissionDenied => "permission denied"@,
        DiagnosticCode::InvalidUrl => "invalid URL"@,
        DiagnosticCode::InvalidCommand => "invalid command"@,
        DiagnosticCode::ErrorWritingToCache => "error writing to cache"@,
        DiagnosticCode::ErrorDownloadingContent => "error downloading content"@,
        DiagnosticCode::UnknownFileFormat => "unknown file format"@,
        DiagnosticCode::MissingFileExtension => "missing file extension"@,
        DiagnosticCode::GraphvizError => "graphviz rendering failed"@,
        DiagnosticCode::TempFileError => "error creating temporary file"@,
        DiagnosticCode::InvalidConfigPath(name) => "invalid path to `"@ + name@ + "` in the config"@,
        DiagnosticCode::InvalidHeaderLevel => "invalid header level"@,
        DiagnosticCode::Unsupported => "unsupported"@,
        DiagnosticCode::SvgConversionError => "error converting svg"@,
        DiagnosticCode::EspeakCreationError => "error creating espeak file"@,
        DiagnosticCode::InternalCompilerError => "internal compiler error"@,
    }
}

impl DiagnosticCode {
    /// The number of the code.
    pub fn code(&self) -> (r: String)
        ensures
            r@ == code_text(*self),
    {
        let mut r = String::new();
        match self {
            DiagnosticCode::FoundTwoLabels => push_str(&mut r, "0001"),
            DiagnosticCode::InvalidFigureValue => push_str(&mut r, "0002"),
            DiagnosticCode::MultipleFigureKeys => push_str(&mut r, "0003"),
            DiagnosticCode::InvalidCskvp => push_str(&mut r, "0004"),
            DiagnosticCode::InvalidCskv => push_str(&mut r, "0005"),
            DiagnosticCode::NotYetImplemented => push_str(&mut r, "0006"),
            DiagnosticCode::UnapplicableElementConfig => push_str(&mut r, "0007"),
            DiagnosticCode::MultipleLabels => push_str(&mut r, "0008"),
            DiagnosticCode::InvalidReference => push_str(&mut r, "0009"),
            DiagnosticCode::CodeHasMultipleConfigs => push_str(&mut r, "0010"),
            DiagnosticCode::UnknownAttributesInElementConfig => push_str(&mut r, "0011"),
            DiagnosticCode::InvalidDoubleQuotedString => push_str(&mut r, "0012"),
            DiagnosticCode::ErrorReadingIncludedMarkdownFile => push_str(&mut r, "0013"),
            DiagnosticCode::ErrorReadingGraphvizFile => push_str(&mut r, "0014"),
            DiagnosticCode::ErrorResolvingFile => push_str(&mut r, "0015"),
            DiagnosticCode::UnsupportedDomain => push_str(&mut r, "0016"),
            DiagnosticCode::ErrorCanonicalizingPath => push_str(&mut r, "0017"),
            DiagnosticCode::PermissionDenied => push_str(&mut r, "0018"),
            DiagnosticCode::InvalidUrl => push_str(&mut r, "0019"),
            DiagnosticCode::InvalidCommand => push_str(&mut r, "0020"),
            DiagnosticCode::ErrorWritingToCache => push_str(&mut r, "0021"),
            DiagnosticCode::ErrorDownloadingContent => push_str(&mut r, "0022"),
            DiagnosticCode::UnknownFileFormat => push_str(&mut r, "0023"),
            DiagnosticCode::MissingFileExtension => push_str(&mut r, "0024"),
            DiagnosticCode::GraphvizError => push_str(&mut r, "1000"),
            DiagnosticCode::TempFileError => push_str(&mut r, "1001"),
            DiagnosticCode::InvalidConfigPath(_) => push_str(&mut r, "1002"),
            DiagnosticCode::InvalidHeaderLevel => push_str(&mut r, "1003"),
            DiagnosticCode::Unsupported => push_str(&mut r, "1004"),
            DiagnosticCode::SvgConversionError => push_str(&mut r, "1005"),
            DiagnosticCode::EspeakCreationError => push_str(&mut r, "1006"),
            DiagnosticCode::InternalCompilerError => push_str(&mut r, "9999"),
        }
        r
    }

    /// The message of the code.
    pub fn message(&self) -> (r: String)
        ensures
            r@ == message_text(*self),
    {
        let mut r = String::new();
        match self {
            DiagnosticCode::FoundTwoLabels => push_str(&mut r, "found two labels"),
            DiagnosticCode::InvalidFigureValue => push_str(&mut r, "invalid figure attribute value"),
            DiagnosticCode::MultipleFigureKeys => push_str(&mut r, "found multiple figure keys"),
            DiagnosticCode::InvalidCskvp => push_str(&mut r, "invalid comma seperated key-value-pair"),
            DiagnosticCode::InvalidCskv => push_str(&mut r, "invalid comma seperated value"),
            DiagnosticCode::NotYetImplemented => push_str(&mut r, "not yet implemented"),
            DiagnosticCode::UnapplicableElementConfig => push_str(&mut r, "found element config, but there wasn't an element to apply it to"),
            DiagnosticCode::MultipleLabels => push_str(&mut r, "multiple labels for the same element"),
            DiagnosticCode::InvalidReference => push_str(&mut r, "found biber reference, but no bibliography file found"),
            DiagnosticCode::CodeHasMultipleConfigs => push_str(&mut r, "code has both prefix and inline style config"),
            DiagnosticCode::UnknownAttributesInElementConfig => push_str(&mut r, "unknown attributes in element config"),
            DiagnosticCode::InvalidDoubleQuotedString => push_str(&mut r, "invalid double-quoted string"),
            DiagnosticCode::ErrorReadingIncludedMarkdownFile => push_str(&mut r, "error reading markdown include file"),
            DiagnosticCode::ErrorReadingGraphvizFile => push_str(&mut r, "error reading graphviz file"),
            DiagnosticCode::ErrorResolvingFile => push_str(&mut r, "error resolving file"),
            DiagnosticCode::UnsupportedDomain => push_str(&mut r, "unsupported domain"),
            DiagnosticCode::ErrorCanonicalizingPath => push_str(&mut r, "error canonicalizing path"),
            DiagnosticCode::PermissionDenied => push_str(&mut r, "permission denied"),
            DiagnosticCode::InvalidUrl => push_str(&mut r, "invalid URL"),
            DiagnosticCode::InvalidCommand => push_str(&mut r, "invalid command"),
            DiagnosticCode::ErrorWritingToCache => push_str(&mut r, "error writing to cache"),
            DiagnosticCode::ErrorDownloadingContent => push_str(&mut r, "error downloading content"),
            DiagnosticCode::UnknownFileFormat => push_str(&mut r, "unknown file format"),
            DiagnosticCode::MissingFileExtension => push_str(&mut r, "missing file extension"),
            DiagnosticCode::GraphvizError => push_str(&mut r, "graphviz rendering failed"),
            DiagnosticCode::TempFileError => push_str(&mut r, "error creating temporary file"),
            DiagnosticCode::InvalidConfigPath(name) => {
                push_str(&mut r, "invalid path to `");
                push_str(&mut r, name.as_str());
                push_str(&mut r, "` in the config");
            },
            DiagnosticCode::InvalidHeaderLevel => push_str(&mut r, "invalid header level"),
            DiagnosticCode::Unsupported => push_str(&mut r, "unsupported"),
            DiagnosticCode::SvgConversionError => push_str(&mut r, "error converting svg"),
            DiagnosticCode::EspeakCreationError => push_str(&mut r, "error creating espeak file"),
            DiagnosticCode::InternalCompilerError => push_str(&mut r, "internal compiler error"),
        }
        r
    }
}

} // verus!
