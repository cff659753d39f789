//! The error type shared by segmentation, plan building and rendering.

use vstd::prelude::*;
use vstd::string::*;

verus! {

/// What can go wrong while a template is defined or rendered. Each variant
/// carries a message for the reader.
#[derive(Debug, Clone)]
pub enum Error {
    /// Malformed delimiters in the template source.
    ParseError(String),
    /// A fallible rendering path signalled failure.
    RenderError(String),
    /// A file-backed template does not exist.
    TemplateNotFound(String),
    /// A file-backed template could not be read.
    TemplateReadError(String),
    /// A code fragment or a template attribute is not well formed.
    InvalidSyntax(String),
}

impl Error {
    /// The message that the error carries.
    pub open spec fn message(&self) -> Seq<char> {
        match self {
            Error::ParseError(m) => m@,
            Error::RenderError(m) => m@,
            Error::TemplateNotFound(m) => m@,
            Error::TemplateReadError(m) => m@,
            Error::InvalidSyntax(m) => m@,
        }
    }

    /// The words that introduce the message of each kind of error.
    pub open spec fn label(&self) -> Seq<char> {
        match self {
            Error::ParseError(_) => "Parse error: "@,
            Error::RenderError(_) => "Render error: "@,
            Error::TemplateNotFound(_) => "Template not found: "@,
            Error::TemplateReadError(_) => "Template read error: "@,
            Error::InvalidSyntax(_) => "Invalid syntax: "@,
        }
    }

    /// The error as shown to a reader: its label followed by its message.
    pub open spec fn display(&self) -> Seq<char> {
        self.label() + self.message()
    }

    /// Renders the error for a reader.
    pub fn to_string(&self) -> (s: String)
        ensures
            s@ == self.display(),
    {
        match self {
            Error::ParseError(m) => String::from_str("Parse error: ").concat(m.as_str()),
            Error::RenderError(m) => String::from_str("Render error: ").concat(m.as_str()),
            Error::TemplateNotFound(m) => String::from_str("Template not found: ").concat(
                m.as_str(),
            ),
            Error::TemplateReadError(m) => String::from_str("Template read error: ").concat(
                m.as_str(),
            ),
            Error::InvalidSyntax(m) => String::from_str("Invalid syntax: ").concat(m.as_str()),
        }
    }
}

} // verus!
