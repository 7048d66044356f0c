//! Errors of the region parser.

use vstd::prelude::*;
use crate::text::{decimal, push_decimal};

verus! {

/// What can go wrong while reading region markers.
#[derive(Debug, Clone, PartialEq, Eq)]
pub enum ParserError {
    /// An indent prefix mixes tabs and spaces.
    MixedIndentation { line: usize },
    /// A region marker names a grammar that does not exist.
    UnknownRegionGrammar { line: usize, content: String },
    /// A `:::` marker names no grammar.
    EmptyRegionMarker { line: usize },
    /// Something follows the grammar of a region marker.
    TrailingRegionMarkerContent { line: usize, content: String },
}

/// The text that describes a parser error.
pub open spec fn parser_error_text(e: ParserError) -> Seq<char> {
    match e {
        ParserError::MixedIndentation { line } => "line "@ + decimal(line as nat)
            + ": mixed tabs and spaces in indent prefix"@,
        ParserError::UnknownRegionGrammar { line, content } => "line "@ + decimal(line as nat)
            + ": unknown grammar id `"@ + content@ + "`"@,
        ParserError::EmptyRegionMarker { line } => "line "@ + decimal(line as nat)
            + ": `:::` marker with no grammar"@,
        ParserError::TrailingRegionMarkerContent { line, content } => "line "@ + decimal(line as nat)
            + ": unexpected content after grammar: `"@ + content@ + "`"@,
    }
}

impl ParserError {
    /// The text that describes this error.
    pub fn message(&self) -> (r: String)
        ensures
            r@ == parser_error_text(*self),
    {
        let mut m: String = String::from_str("line ");
        match self {
            ParserError::MixedIndentation { line } => {
                push_decimal(&mut m, *line);
                m.append(": mixed tabs and spaces in indent prefix");
            },
            ParserError::UnknownRegionGrammar { line, content } => {
                push_decimal(&mut m, *line);
                m.append(": unknown grammar id `");
                m.append(content.as_str());
                m.append("`");
            },
            ParserError::EmptyRegionMarker { line } => {
                push_decimal(&mut m, *line);
                m.append(": `:::` marker with no grammar");
            },
            ParserError::TrailingRegionMarkerContent { line, content } => {
                push_decimal(&mut m, *line);
                m.append(": unexpected content after grammar: `");
                m.append(content.as_str());
                m.append("`");
            },
        }
        m
    }
}

} // verus!
