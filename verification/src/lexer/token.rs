//! Tokens: the lexemes of the source text, with their kind and range.

use vstd::prelude::*;

use crate::expr::CommentKind;
use crate::expr::push_str;
use crate::range::Range;

verus! {

/// The kind of a token, with its lexeme where the kind does not fix it. An
/// annotation also holds the tokens of its text, where that text lexes.
#[derive(Debug)]
pub enum TokenKind {
    Comment(String, CommentKind),
    MultiLineWhitespace,
    String(String),
    Symbol(String),
    Number(String),
    Annotation(String, Option<Vec<Token>>),
    Quote,
    LeftParen,
    RightParen,
    LeftBracket,
    RightBracket,
    LeftBrace,
    RightBrace,
}

/// A lexical token.
#[derive(Debug)]
pub struct Token {
    pub kind: TokenKind,
    pub range: Range,
}

/// The text of a token of the given kind.
pub open spec fn kind_lexeme(k: TokenKind) -> Seq<char> {
    match k {
        TokenKind::Comment(s, _) => s@,
        TokenKind::MultiLineWhitespace => "\n\n"@,
        TokenKind::String(s) => s@,
        TokenKind::Symbol(s) => s@,
        TokenKind::Number(s) => s@,
        TokenKind::Annotation(s, _) => s@,
        TokenKind::Quote => "'"@,
        TokenKind::LeftParen => "("@,
        TokenKind::RightParen => ")"@,
        TokenKind::LeftBracket => "["@,
        TokenKind::RightBracket => "]"@,
        TokenKind::LeftBrace => "{"@,
        TokenKind::RightBrace => "}"@,
    }
}

/// The size of a token: one, plus the size of the tokens of an annotation.
pub open spec fn token_size(t: Token) -> nat
    decreases t, 0nat,
{
    1 + match t.kind {
        TokenKind::Annotation(_, Some(v)) => tokens_size(v@),
        _ => 0,
    }
}

/// The total size of the tokens.
pub open spec fn tokens_size(s: Seq<Token>) -> nat
    decreases s, 1nat,
{
    if s.len() == 0 {
        0
    } else {
        tokens_size(s.drop_last()) + token_size(s.last())
    }
}

/// A token is no larger than the tokens it is one of.
pub proof fn lemma_token_size_bounded(s: Seq<Token>, i: int)
    requires
        0 <= i < s.len(),
    ensures
        token_size(s[i]) <= tokens_size(s),
    decreases s.len(),
{
    if i < s.len() - 1 {
        lemma_token_size_bounded(s.drop_last(), i);
        assert(s.drop_last()[i] == s[i]);
    }
}

impl Token {
    /// A token of the given kind over the given range.
    pub fn new(kind: TokenKind, range: Range) -> (t: Token)
        ensures
            t.kind == kind,
            t.range == range,
    {
        Token { kind, range }
    }

    /// The kind of the token.
    pub fn kind(&self) -> (r: &TokenKind)
        ensures
            *r == self.kind,
    {
        &self.kind
    }

    /// The range of source text the token covers.
    pub fn range(&self) -> (r: Range)
        ensures
            r == self.range,
    {
        Range { start: self.range.start, end: self.range.end }
    }

    /// The text of the token.
    pub fn lexeme(&self) -> (r: String)
        ensures
            r@ == kind_lexeme(self.kind),
    {
        let mut out = String::new();
        match &self.kind {
            TokenKind::Comment(s, _) => {
                out = s.clone();
            },
            TokenKind::MultiLineWhitespace => {
                push_str(&mut out, "\n\n");
            },
            TokenKind::String(s) => {
                out = s.clone();
            },
            TokenKind::Symbol(s) => {
                out = s.clone();
            },
            TokenKind::Number(s) => {
                out = s.clone();
            },
            TokenKind::Annotation(s, _) => {
                out = s.clone();
            },
            TokenKind::Quote => {
                push_str(&mut out, "'");
            },
            TokenKind::LeftParen => {
                push_str(&mut out, "(");
            },
            TokenKind::RightParen => {
                push_str(&mut out, ")");
            },
            TokenKind::LeftBracket => {
                push_str(&mut out, "[");
            },
            TokenKind::RightBracket => {
                push_str(&mut out, "]");
            },
            TokenKind::LeftBrace => {
                push_str(&mut out, "{");
            },
            TokenKind::RightBrace => {
                push_str(&mut out, "}");
            },
        }
        proof {
            reveal_strlit("");
        }
        out
    }
}

} // verus!
