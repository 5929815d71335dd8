//! The errors of the parser.

use vstd::prelude::*;

use crate::expr::push_str;
use crate::lexer::token::{kind_lexeme, Token};

verus! {

#[derive(Debug)]
pub enum ParseError {
    UnexpectedToken(Token),
    UnterminatedList,
    MalformedAnnotation(String),
}

/// The message of a parse error.
pub open spec fn parse_error_text(e: ParseError) -> Seq<char> {
    "parse error: "@ + match e {
        ParseError::UnexpectedToken(t) => "unexpected `"@ + kind_lexeme(t.kind) + "`"@,
        ParseError::UnterminatedList => "unterminated list"@,
        ParseError::MalformedAnnotation(a) => "malformed annotation `"@ + a@ + "`"@,
    }
}

impl ParseError {
    /// The message of the error, as it is shown to the user.
    pub fn to_text(&self) -> (r: String)
        ensures
            r@ == parse_error_text(*self),
    {
        let mut out = String::new();
        push_str(&mut out, "parse error: ");
        match self {
            ParseError::UnexpectedToken(token) => {
                push_str(&mut out, "unexpected `");
                let l = token.lexeme();
                push_str(&mut out, l.as_str());
                push_str(&mut out, "`");
            },
            ParseError::UnterminatedList => {
                push_str(&mut out, "unterminated list");
            },
            ParseError::MalformedAnnotation(ann) => {
                push_str(&mut out, "malformed annotation `");
                push_str(&mut out, ann.as_str());
                push_str(&mut out, "`");
            },
        }
        out
    }
}

} // verus!
