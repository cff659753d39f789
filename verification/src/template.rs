//! Tokens: the pieces into which a template source is cut.

use vstd::prelude::*;

verus! {

/// The mathematical value of a token.
pub enum Segment {
    /// Literal text, copied to the output as it stands.
    Text(Seq<char>),
    /// A code fragment, written as a block: an opening brace, what stood
    /// between the delimiters, and a closing brace.
    Code(Seq<char>),
}

impl Segment {
    /// The characters that the token holds.
    pub open spec fn text(self) -> Seq<char> {
        match self {
            Segment::Text(t) => t,
            Segment::Code(t) => t,
        }
    }

    /// The stretch of source that the token was cut from: literal text as it
    /// stands, a code fragment with both of its two-character delimiters.
    pub open spec fn raw(self) -> Seq<char> {
        match self {
            Segment::Text(t) => t,
            Segment::Code(t) => seq!['{'] + t + seq!['}'],
        }
    }
}

/// One token of a template.
#[derive(Debug, Clone, PartialEq, Eq)]
pub enum TemplateData {
    /// Pure string data, inserted directly into the output.
    String(String),
    /// A code block, to be compiled and executed.
    Code(String),
}

impl View for TemplateData {
    type V = Segment;

    open spec fn view(&self) -> Segment {
        match self {
            TemplateData::String(s) => Segment::Text(s@),
            TemplateData::Code(s) => Segment::Code(s@),
        }
    }
}

impl TemplateData {
    /// The text of the token, whichever kind it is.
    pub fn as_str(&self) -> (s: &str)
        ensures
            s@ == self@.text(),
    {
        match self {
            TemplateData::String(t) => t.as_str(),
            TemplateData::Code(t) => t.as_str(),
        }
    }
}

/// The views of a vector of tokens, in order.
pub open spec fn segments_of(tokens: Seq<TemplateData>) -> Seq<Segment> {
    tokens.map_values(|t: TemplateData| t@)
}

} // verus!
