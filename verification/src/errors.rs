//! Error values returned by the parser, with their mathematical model.

use vstd::prelude::*;

verus! {

/// Model of [`Error`]: each variant with its payload as a sequence.
#[verifier::ext_equal]
pub ghost enum ErrModel {
    /// Malformed XML; carries the diagnostic text.
    Xml(Seq<char>),
    /// A non-empty numeric attribute that is no floating-point literal.
    Float(Seq<char>),
    /// A non-empty numeric attribute that is no unsigned integer literal.
    Int(Seq<char>),
    /// Bytes that are not valid UTF-8.
    Utf8(Seq<u8>),
    /// A `property` element without a `name` attribute.
    MissingName,
    /// End of input inside the named element.
    Eof(Seq<char>),
}

/// Errors returned while parsing a JUnit XML document. Every error aborts
/// the whole parse; no partial tree is returned.
#[derive(Debug)]
pub enum Error {
    /// The underlying XML tokenizer reported malformed XML, or an entity
    /// reference could not be resolved; carries a diagnostic message.
    XMLError(String),
    /// A numeric attribute's non-empty value is not a floating-point
    /// literal; carries the offending text.
    ParseFloatError(String),
    /// A numeric attribute's non-empty value is not an unsigned integer;
    /// carries the offending text.
    ParseIntError(String),
    /// An attribute value or CDATA section holds bytes that are not valid
    /// UTF-8; carries the offending bytes.
    ParseUt8Error(Vec<u8>),
    /// A `property` element has no `name` attribute.
    MissingPropertyName,
    /// The document ended while the named element was still open.
    UnexpectedEndOfFile(String),
}

impl View for Error {
    type V = ErrModel;

    open spec fn view(&self) -> ErrModel {
        match self {
            Error::XMLError(m) => ErrModel::Xml(m@),
            Error::ParseFloatError(t) => ErrModel::Float(t@),
            Error::ParseIntError(t) => ErrModel::Int(t@),
            Error::ParseUt8Error(b) => ErrModel::Utf8(b@),
            Error::MissingPropertyName => ErrModel::MissingName,
            Error::UnexpectedEndOfFile(n) => ErrModel::Eof(n@),
        }
    }
}

impl Error {
    /// A one-line description of the error, for diagnostics.
    pub fn describe(&self) -> String {
        match self {
            Error::XMLError(m) => {
                let mut s = "error while parsing XML: ".to_owned();
                s.append(m.as_str());
                s
            },
            Error::ParseFloatError(t) => {
                let mut s = "invalid floating-point attribute value: ".to_owned();
                s.append(t.as_str());
                s
            },
            Error::ParseIntError(t) => {
                let mut s = "invalid integer attribute value: ".to_owned();
                s.append(t.as_str());
                s
            },
            Error::ParseUt8Error(_) => "attribute or CDATA bytes are not valid UTF-8".to_owned(),
            Error::MissingPropertyName => "missing `name` attribute in property".to_owned(),
            Error::UnexpectedEndOfFile(n) => {
                let mut s = "unexpected end of XML while parsing a ".to_owned();
                s.append(n.as_str());
                s.append(" element");
                s
            },
        }
    }
}

} // verus!
