//! Syntactic analysis: the parser reduces the token stream into expressions,
//! with the annotations that precede them attached.

pub mod error;
pub mod util;

use vstd::prelude::*;

use crate::error::{error_models, error_with_note, Error, ErrorKind, ErrorModel};
use crate::expr::{annotate, annotated_value, models, unpacked, Decimal, Expr, Float64, FloatValue, Value};
use crate::lexer::token::{kind_lexeme, token_size, tokens_size, Token, TokenKind};
use crate::library::char::{is_uppercase, unicode_uppercase};
use crate::library::dec::{decimal_error_text, decimal_parse};
use crate::expr::push_str;
use crate::library::dec::parse_decimal;
use crate::parser::util::{
    chars_to_string, int_range_spec, split_from, range_literal_holds, range_texts, split_range, split_spec,
    split_text, RangeLiteral,
};
use crate::range::{Position, Range};
use crate::util::{find_from, lemma_find_from_bounds, occurs_at};
use crate::util::{contains_char, find_chars, find_spec, int_parse_error_text, parse_i64_radix, parse_i64_spec, str_eq, to_chars};

verus! {

/// The state of the parser: the index of the next token, the indices of the
/// annotation tokens that wait for the next expression, the position
/// reached in the source, and the errors found.
pub struct ParserState {
    pub index: int,
    pub buffered: Option<Seq<int>>,
    pub position: Position,
    pub errors: Seq<ErrorModel>,
}

/// What parsing one expression gives.
pub enum Parsed {
    /// No expression can be parsed: the tokens ran out.
    Break,
    /// The tokens were consumed without giving an expression.
    Skipped,
    /// An expression.
    Expr(Value),
    /// The parser panics.
    Panic,
}

/// What parsing the terms of a list gives.
pub enum ParsedMany {
    Break,
    Terms(Seq<Value>),
    Panic,
}

/// What parsing all the tokens gives.
pub enum ParsedAll {
    Exprs(Seq<Value>),
    Errors(Seq<ErrorModel>),
    Panic,
}

/// The table of float readings: each text that the parser reads as a
/// floating-point number, with the number read or the message of the error.
pub open spec fn float_reading(fl: Seq<(String, Result<Float64, String>)>, t: Seq<char>) -> Result<FloatValue, Seq<char>>
    decreases fl.len(),
{
    if fl.len() == 0 {
        Err(Seq::empty())
    } else if fl[0].0@ == t {
        match fl[0].1 {
            Ok(f) => Ok(f.model()),
            Err(m) => Err(m@),
        }
    } else {
        float_reading(fl.drop_first(), t)
    }
}

/// The texts of the pieces, one after the other.
pub open spec fn concat_pieces(pieces: Seq<Seq<char>>) -> Seq<char>
    decreases pieces.len(),
{
    if pieces.len() == 0 {
        Seq::empty()
    } else {
        concat_pieces(pieces.drop_last()) + pieces.last()
    }
}

/// The text with every occurrence of `pat` removed, as `str::replace` with
/// an empty replacement gives it.
pub open spec fn remove_all(s: Seq<char>, pat: Seq<char>) -> Seq<char> {
    concat_pieces(split_spec(s, pat))
}

/// `s` starts with `pat`.
pub open spec fn starts_with(s: Seq<char>, pat: Seq<char>) -> bool {
    pat.len() <= s.len() && s.take(pat.len() as int) == pat
}

/// The value of a number literal, or the error it raises.
pub open spec fn number_value(
    lexeme: Seq<char>,
    range: Range,
    fl: Seq<(String, Result<Float64, String>)>,
) -> Result<Value, ErrorModel> {
    if lexeme.contains('.') {
        if lexeme.len() > 0 && lexeme.last() == 'd' {
            let body = lexeme.drop_last();
            match decimal_parse(body) {
                Some((m, sc)) => Ok(Value::Dec(Decimal { mantissa: m, scale: sc })),
                None => Err(error_with_note(ErrorKind::MalformedFloat, decimal_error_text(body), Some(range))),
            }
        } else {
            match float_reading(fl, lexeme) {
                Ok(f) => Ok(Value::Float(f)),
                Err(msg) => Err(error_with_note(ErrorKind::MalformedFloat, msg, Some(range))),
            }
        }
    } else {
        let (text, radix) = if starts_with(lexeme, "0x"@) {
            (remove_all(lexeme, "0x"@), 16int)
        } else if starts_with(lexeme, "0b"@) {
            (remove_all(lexeme, "0b"@), 2int)
        } else if starts_with(lexeme, "0o"@) {
            (remove_all(lexeme, "0o"@), 8int)
        } else {
            (lexeme, 10int)
        };
        match parse_i64_spec(text, radix) {
            Some(n) => Ok(Value::Int(n)),
            None => Err(error_with_note(ErrorKind::MalformedInt, int_parse_error_text(text, radix), Some(range))),
        }
    }
}

/// The Float one, the default step of a Float range.
pub open spec fn float_one() -> FloatValue {
    FloatValue { bits: 0x3ff0_0000_0000_0000, text: "1"@ }
}

/// The range a range literal `start..end/step` denotes, where it denotes one.
pub open spec fn range_value(lexeme: Seq<char>, fl: Seq<(String, Result<Float64, String>)>) -> Option<Value> {
    match range_texts(lexeme, '/') {
        None => None,
        Some((a, b, st)) => if a.contains('.') {
            match (float_reading(fl, a), float_reading(fl, b)) {
                (Ok(x), Ok(y)) => match st {
                    Some(t) => match float_reading(fl, t) {
                        Ok(z) => Some(Value::FloatRange(x, y, z)),
                        Err(_) => None,
                    },
                    None => Some(Value::FloatRange(x, y, float_one())),
                },
                _ => None,
            }
        } else {
            match int_range_spec(a, b, st, false) {
                Some((x, y, z)) => Some(Value::IntRange(x, y, z)),
                None => None,
            }
        },
    }
}

/// The value of a symbol token: a key symbol (its colons removed), a
/// boolean, a range, or a symbol; `None` for a malformed range.
pub open spec fn symbol_value(lexeme: Seq<char>, fl: Seq<(String, Result<Float64, String>)>) -> Option<Value> {
    if lexeme.contains(':') {
        Some(Value::KeySymbol(remove_all(lexeme, seq![':'])))
    } else if lexeme == "true"@ {
        Some(Value::Bool(true))
    } else if lexeme == "false"@ {
        Some(Value::Bool(false))
    } else if find_spec(lexeme, ".."@) is Some {
        range_value(lexeme, fl)
    } else {
        Some(Value::Symbol(lexeme))
    }
}

/// The state after reading a token that ends at `end`.
pub open spec fn advanced(st: ParserState, end: Position) -> ParserState {
    ParserState { index: st.index + 1, position: end, ..st }
}

/// The state with one more error.
pub open spec fn with_error(st: ParserState, e: ErrorModel) -> ParserState {
    ParserState { errors: st.errors.push(e), ..st }
}

/// The token kind closes a list of the given kind: 0 for `(`, 1 for `[`,
/// 2 for `{`.
pub open spec fn closes(k: TokenKind, open: int) -> bool {
    match k {
        TokenKind::RightParen => open == 0,
        TokenKind::RightBracket => open == 1,
        TokenKind::RightBrace => open == 2,
        _ => false,
    }
}

/// The state in which a parse of all the tokens starts.
pub open spec fn initial_state() -> ParserState {
    ParserState { index: 0, buffered: None, position: Position { index: 0, line: 0, col: 0 }, errors: Seq::empty() }
}

/// Parses one expression, from the token at the state's index.
pub open spec fn parse_expr_spec(
    toks: Seq<Token>,
    fl: Seq<(String, Result<Float64, String>)>,
    st: ParserState,
) -> (Parsed, ParserState)
    decreases tokens_size(toks), toks.len() - st.index, 3nat, 0nat,
{
    if st.index < 0 || st.index >= toks.len() {
        (Parsed::Break, st)
    } else {
        let t = toks[st.index];
        let st1 = ParserState { index: st.index + 1, position: t.range.end, ..st };
        let start = t.range.start;
        match t.kind {
            TokenKind::Comment(l, k) => attach_spec(toks, fl, Value::Comment(l@, k), st1),
            TokenKind::MultiLineWhitespace => attach_spec(toks, fl, Value::TextSeparator, st1),
            TokenKind::String(l) => attach_spec(toks, fl, Value::String(l@), st1),
            TokenKind::Symbol(l) => match symbol_value(l@, fl) {
                Some(v) => attach_spec(toks, fl, v, st1),
                None => (Parsed::Skipped, with_error(st1, ErrorModel { kind: ErrorKind::MalformedRange, notes: Seq::empty() })),
            },
            TokenKind::Number(l) => match number_value(l@, t.range, fl) {
                Ok(v) => attach_spec(toks, fl, v, st1),
                Err(e) => (Parsed::Skipped, with_error(st1, e)),
            },
            TokenKind::Annotation(_, _) => (
                Parsed::Skipped,
                ParserState {
                    buffered: Some(
                        match st1.buffered {
                            Some(b) => b.push(st.index),
                            None => seq![st.index],
                        },
                    ),
                    ..st1
                },
            ),
            TokenKind::Quote => quote_spec(toks, fl, t.range, st1),
            TokenKind::LeftParen => list_spec(toks, fl, 0, start, st1),
            TokenKind::LeftBracket => list_spec(toks, fl, 1, start, st1),
            TokenKind::LeftBrace => list_spec(toks, fl, 2, start, st1),
            _ => (
                Parsed::Skipped,
                with_error(
                    st1,
                    error_with_note(
                        ErrorKind::UnexpectedToken,
                        "Not expecting token `"@ + kind_lexeme(t.kind) + "`"@,
                        Some(t.range),
                    ),
                ),
            ),
        }
    }
}

/// Parses the quoted expression after a quote token (whose range is given).
pub open spec fn quote_spec(
    toks: Seq<Token>,
    fl: Seq<(String, Result<Float64, String>)>,
    range: Range,
    st1: ParserState,
) -> (Parsed, ParserState)
    decreases tokens_size(toks), toks.len() - st1.index, 4nat, 0nat,
{
    if st1.index < 0 || st1.index > toks.len() {
        (Parsed::Panic, st1)
    } else {
    let (r, st2) = parse_expr_spec(toks, fl, st1);
    match r {
        Parsed::Break => (
            Parsed::Skipped,
            with_error(st2, error_with_note(ErrorKind::InvalidQuote, "Cannot parse quoted expression"@, Some(range))),
        ),
        Parsed::Skipped => (
            Parsed::Skipped,
            with_error(st2, error_with_note(ErrorKind::InvalidQuote, "Invalid quoted expression"@, Some(range))),
        ),
        Parsed::Expr(target) => attach_spec(toks, fl, Value::List(seq![Value::Symbol("quot"@), target]), st2),
        Parsed::Panic => (Parsed::Panic, st2),
    }
    }
}

/// Parses the terms of a list after its opening token and makes the list:
/// `()` is One, `[..]` and `{..}` start with the symbol `Array` or `Dict`.
pub open spec fn list_spec(
    toks: Seq<Token>,
    fl: Seq<(String, Result<Float64, String>)>,
    open: int,
    start: Position,
    st1: ParserState,
) -> (Parsed, ParserState)
    decreases tokens_size(toks), toks.len() - st1.index, 6nat, 0nat,
{
    if st1.index < 0 || st1.index > toks.len() {
        (Parsed::Panic, st1)
    } else {
    let (r, st2) = parse_many_spec(toks, fl, open, start, st1, Seq::empty());
    match r {
        ParsedMany::Terms(terms) => attach_spec(
            toks,
            fl,
            if open == 0 {
                if terms.len() == 0 { Value::One } else { Value::List(terms) }
            } else if open == 1 {
                Value::List(seq![Value::Symbol("Array"@)] + terms)
            } else {
                Value::List(seq![Value::Symbol("Dict"@)] + terms)
            },
            st2,
        ),
        ParsedMany::Break => (Parsed::Break, st2),
        ParsedMany::Panic => (Parsed::Panic, st2),
    }
    }
}

/// Parses the terms of a list up to the closing token, gathering them
/// after `acc`.
pub open spec fn parse_many_spec(
    toks: Seq<Token>,
    fl: Seq<(String, Result<Float64, String>)>,
    open: int,
    start: Position,
    st: ParserState,
    acc: Seq<Value>,
) -> (ParsedMany, ParserState)
    decreases tokens_size(toks), toks.len() - st.index, 5nat, 0nat,
{
    if st.index < 0 || st.index >= toks.len() {
        (
            ParsedMany::Break,
            with_error(
                st,
                error_with_note(ErrorKind::UnterminatedList, "List not terminated"@, Some(Range { start, end: st.position })),
            ),
        )
    } else {
        let t = toks[st.index];
        if closes(t.kind, open) {
            (ParsedMany::Terms(acc), ParserState { index: st.index + 1, position: t.range.end, ..st })
        } else {
            let (r, st2) = parse_expr_spec(toks, fl, ParserState { position: t.range.start, ..st });
            match r {
                Parsed::Break => (ParsedMany::Break, st2),
                Parsed::Panic => (ParsedMany::Panic, st2),
                Parsed::Skipped => if st.index < st2.index <= toks.len() {
                    parse_many_spec(toks, fl, open, start, st2, acc)
                } else {
                    (ParsedMany::Panic, st2)
                },
                Parsed::Expr(e) => if st.index < st2.index <= toks.len() {
                    parse_many_spec(toks, fl, open, start, st2, acc.push(e))
                } else {
                    (ParsedMany::Panic, st2)
                },
            }
        }
    }
}

/// Attaches the waiting annotations to an expression just parsed.
pub open spec fn attach_spec(
    toks: Seq<Token>,
    fl: Seq<(String, Result<Float64, String>)>,
    v: Value,
    st: ParserState,
) -> (Parsed, ParserState)
    decreases tokens_size(toks), 0int, 2nat, 0nat,
{
    match st.buffered {
        None => (Parsed::Expr(v), st),
        Some(anns) => attach_loop_spec(toks, fl, anns, 0, v, ParserState { buffered: None, ..st }),
    }
}

/// The message of an annotation error for the annotation text.
pub open spec fn annotation_error(prefix: Seq<char>, text: Seq<char>, range: Range) -> ErrorModel {
    error_with_note(ErrorKind::MalformedAnnotation, prefix + text + "`"@, Some(range))
}

/// What attaching one annotation gives: the annotated expression, or a stop
/// with an error where the annotation is malformed.
pub enum AttachStep {
    Continue(Value),
    Stop(ParserState),
    Panic,
}

/// Attaches the annotation of the token at index `a` to the expression.
pub open spec fn attach_step_spec(
    toks: Seq<Token>,
    fl: Seq<(String, Result<Float64, String>)>,
    a: int,
    v: Value,
    st: ParserState,
) -> AttachStep
    decreases tokens_size(toks), 0int, 0nat, 0nat,
{
    if !(0 <= a < toks.len()) {
        AttachStep::Panic
    } else {
        let t = toks[a];
        match t.kind {
            TokenKind::Annotation(text, lexed) => match lexed {
                None => AttachStep::Stop(with_error(st, annotation_error("Lexical error in annotation `"@, text@, t.range))),
                Some(inner) => {
                    proof {
                        crate::lexer::token::lemma_token_size_bounded(toks, a);
                    }
                    match parse_all_spec(inner@, fl) {
                        ParsedAll::Panic => AttachStep::Panic,
                        ParsedAll::Errors(errs) => AttachStep::Stop(
                            ParserState {
                                errors: st.errors.push(annotation_error("Parse error in annotation `"@, text@, t.range)) + errs,
                                ..st
                            },
                        ),
                        ParsedAll::Exprs(exprs) => if exprs.len() == 0 {
                            AttachStep::Panic
                        } else {
                            let ann = unpacked(exprs[0]);
                            match ann {
                                Value::Symbol(sym) => if sym.len() == 0 {
                                    AttachStep::Stop(with_error(st, annotation_error("Invalid single-symbol annotation`"@, text@, t.range)))
                                } else if unicode_uppercase(sym[0]) {
                                    AttachStep::Continue(annotated_value(v, "type"@, ann))
                                } else {
                                    AttachStep::Continue(annotated_value(v, sym, Value::Bool(true)))
                                },
                                Value::List(list) => if list.len() > 0 && unpacked(list[0]) is Symbol {
                                    AttachStep::Continue(annotated_value(v, unpacked(list[0])->Symbol_0, ann))
                                } else {
                                    AttachStep::Stop(with_error(st, annotation_error("First term must be a symbol `"@, text@, t.range)))
                                },
                                _ => AttachStep::Stop(
                                    with_error(st, annotation_error("An annotation should be either a symbol or a list `"@, text@, t.range)),
                                ),
                            }
                        },
                    }
                },
            },
            _ => AttachStep::Panic,
        }
    }
}

/// Attaches the annotations from the `i`-th on; the first malformed one
/// stops it, with an error.
pub open spec fn attach_loop_spec(
    toks: Seq<Token>,
    fl: Seq<(String, Result<Float64, String>)>,
    anns: Seq<int>,
    i: int,
    v: Value,
    st: ParserState,
) -> (Parsed, ParserState)
    decreases tokens_size(toks), 0int, 1nat, anns.len() - i,
{
    if i < 0 || i >= anns.len() {
        (Parsed::Expr(v), st)
    } else {
        match attach_step_spec(toks, fl, anns[i], v, st) {
            AttachStep::Continue(v2) => attach_loop_spec(toks, fl, anns, i + 1, v2, st),
            AttachStep::Stop(st2) => (Parsed::Expr(v), st2),
            AttachStep::Panic => (Parsed::Panic, st),
        }
    }
}

/// Parses all the tokens into expressions, or gives the errors found.
pub open spec fn parse_all_spec(toks: Seq<Token>, fl: Seq<(String, Result<Float64, String>)>) -> ParsedAll
    decreases tokens_size(toks), toks.len() + 1, 6nat, 0nat,
{
    parse_all_loop_spec(toks, fl, initial_state(), Seq::empty())
}

/// The outcome of a parse that stopped in the given state.
pub open spec fn parse_outcome(st: ParserState, acc: Seq<Value>) -> ParsedAll {
    if st.errors.len() == 0 {
        ParsedAll::Exprs(acc)
    } else {
        ParsedAll::Errors(st.errors)
    }
}

/// Parses the expressions from the state's index on, gathering them after
/// `acc`; parsing stops at the first expression found after an error.
pub open spec fn parse_all_loop_spec(
    toks: Seq<Token>,
    fl: Seq<(String, Result<Float64, String>)>,
    st: ParserState,
    acc: Seq<Value>,
) -> ParsedAll
    decreases tokens_size(toks), toks.len() - st.index, 4nat, 0nat,
{
    let (r, st2) = parse_expr_spec(toks, fl, st);
    match r {
        Parsed::Panic => ParsedAll::Panic,
        Parsed::Break => parse_outcome(st2, acc),
        Parsed::Skipped => if st.index < st2.index <= toks.len() {
            parse_all_loop_spec(toks, fl, st2, acc)
        } else {
            ParsedAll::Panic
        },
        Parsed::Expr(e) => if st2.errors.len() != 0 {
            parse_outcome(st2, acc)
        } else if st.index < st2.index <= toks.len() {
            parse_all_loop_spec(toks, fl, st2, acc.push(e))
        } else {
            ParsedAll::Panic
        },
    }
}

/// The text with every occurrence of the non-empty pattern removed.
fn remove_all_text(s: &str, pat: &str) -> (r: String)
    requires
        pat@.len() > 0,
    ensures
        r@ == remove_all(s@, pat@),
{
    let chars = to_chars(s);
    let pat_chars = to_chars(pat);
    let pieces = split_text(&chars, &pat_chars);
    let ghost ps = split_spec(chars@, pat_chars@);
    let mut out = String::new();
    let mut i: usize = 0;
    assert(ps.take(0) =~= Seq::<Seq<char>>::empty());
    while i < pieces.len()
        invariant
            i <= pieces@.len(),
            pieces@.len() == ps.len(),
            forall|j: int| 0 <= j < pieces@.len() ==> #[trigger] pieces@[j]@ == ps[j],
            out@ == concat_pieces(ps.take(i as int)),
        decreases pieces@.len() - i,
    {
        let t = chars_to_string(&pieces[i]);
        push_str(&mut out, t.as_str());
        assert(ps.take(i + 1).drop_last() =~= ps.take(i as int));
        i = i + 1;
    }
    assert(ps.take(pieces@.len() as int) =~= ps);
    out
}

/// The reading of the text in the table of float readings.
fn read_float(fl: &[(String, Result<Float64, String>)], t: &str) -> (r: Result<Float64, String>)
    ensures
        match float_reading(fl@, t@) {
            Ok(f) => r matches Ok(g) && g.model() == f,
            Err(m) => r matches Err(n) && n@ == m,
        },
{
    let mut i: usize = 0;
    assert(fl@.skip(0) =~= fl@);
    while i < fl.len()
        invariant
            i <= fl@.len(),
            float_reading(fl@, t@) == float_reading(fl@.skip(i as int), t@),
        decreases fl@.len() - i,
    {
        proof {
            assert(fl@.skip(i as int).drop_first() =~= fl@.skip(i + 1));
            assert(fl@.skip(i as int)[0] == fl@[i as int]);
        }
        if str_eq(fl[i].0.as_str(), t) {
            return match &fl[i].1 {
                Ok(f) => Ok(f.copy()),
                Err(m) => Err(m.clone()),
            };
        }
        i = i + 1;
    }
    proof {
        reveal_strlit("");
    }
    Err(String::new())
}

/// `s` starts with `pat`.
fn text_starts_with(s: &str, pat: &str) -> (r: bool)
    ensures
        r == starts_with(s@, pat@),
{
    let a = to_chars(s);
    let b = to_chars(pat);
    if b.len() > a.len() {
        return false;
    }
    let mut i: usize = 0;
    while i < b.len()
        invariant
            i <= b@.len() <= a@.len(),
            a@ == s@,
            b@ == pat@,
            forall|j: int| 0 <= j < i ==> a@[j] == b@[j],
        decreases b@.len() - i,
    {
        if a[i] != b[i] {
            assert(a@.take(b@.len() as int)[i as int] != b@[i as int]);
            return false;
        }
        i = i + 1;
    }
    assert(a@.take(b@.len() as int) =~= b@);
    true
}

/// The value of a number literal, or the error it raises.
fn read_number(lexeme: &str, range: Range, fl: &[(String, Result<Float64, String>)]) -> (r: Result<Expr, Error>)
    ensures
        match number_value(lexeme@, range, fl@) {
            Ok(v) => r matches Ok(e) && e.model() == v,
            Err(m) => r matches Err(e) && e.model() == m,
        },
{
    if contains_char(lexeme, '.') {
        let chars = to_chars(lexeme);
        if chars.len() > 0 && chars[chars.len() - 1] == 'd' {
            let mut body_chars = chars.clone();
            body_chars.pop();
            assert(body_chars@ =~= lexeme@.drop_last());
            let body = chars_to_string(&body_chars);
            match parse_decimal(body.as_str()) {
                Ok(d) => Ok(Expr::Dec(d)),
                Err(msg) => {
                    let mut e = Error::new(ErrorKind::MalformedFloat);
                    e.push_note(msg.as_str(), Some(range));
                    assert(e.model().notes =~= seq![(msg@, Some(range))]);
                    Err(e)
                },
            }
        } else {
            match read_float(fl, lexeme) {
                Ok(f) => Ok(Expr::Float(f)),
                Err(msg) => {
                    let mut e = Error::new(ErrorKind::MalformedFloat);
                    e.push_note(msg.as_str(), Some(range));
                    assert(e.model().notes =~= seq![(msg@, Some(range))]);
                    Err(e)
                },
            }
        }
    } else {
        proof {
            reveal_strlit("0x");
            reveal_strlit("0b");
            reveal_strlit("0o");
        }
        let (text, radix): (String, u32) = if text_starts_with(lexeme, "0x") {
            (remove_all_text(lexeme, "0x"), 16)
        } else if text_starts_with(lexeme, "0b") {
            (remove_all_text(lexeme, "0b"), 2)
        } else if text_starts_with(lexeme, "0o") {
            (remove_all_text(lexeme, "0o"), 8)
        } else {
            (lexeme.to_owned(), 10)
        };
        proof {
            reveal_strlit("0x");
            reveal_strlit("0b");
            reveal_strlit("0o");
        }
        match parse_i64_radix(text.as_str(), radix) {
            Ok(n) => Ok(Expr::Int(n)),
            Err(msg) => {
                let mut e = Error::new(ErrorKind::MalformedInt);
                e.push_note(msg.as_str(), Some(range));
                assert(e.model().notes =~= seq![(msg@, Some(range))]);
                Err(e)
            },
        }
    }
}

/// The Float one.
fn one_float() -> (r: Float64)
    ensures
        r.model() == float_one(),
{
    Float64 { bits: 0x3ff0_0000_0000_0000, text: "1".to_owned() }
}

/// The value of a symbol token, `None` for a malformed range.
fn read_symbol(lexeme: &str, fl: &[(String, Result<Float64, String>)]) -> (r: Option<Expr>)
    ensures
        match symbol_value(lexeme@, fl@) {
            Some(v) => r matches Some(e) && e.model() == v,
            None => r is None,
        },
{
    if contains_char(lexeme, ':') {
        proof {
            reveal_strlit(":");
        }
        assert(":"@ == seq![':']);
        return Some(Expr::KeySymbol(remove_all_text(lexeme, ":")));
    }
    if str_eq(lexeme, "true") {
        return Some(Expr::Bool(true));
    }
    if str_eq(lexeme, "false") {
        return Some(Expr::Bool(false));
    }
    let chars = to_chars(lexeme);
    let dots = to_chars("..");
    if find_chars(&chars, &dots).is_some() {
        return match split_range(lexeme) {
            None => None,
            Some(RangeLiteral::Int(a, b, c)) => Some(Expr::IntRange(a, b, c)),
            Some(RangeLiteral::Float(a, b, c)) => {
                let Ok(x) = read_float(fl, a.as_str()) else {
                    return None;
                };
                let Ok(y) = read_float(fl, b.as_str()) else {
                    return None;
                };
                let z = match c {
                    Some(t) => match read_float(fl, t.as_str()) {
                        Ok(z) => z,
                        Err(_) => {
                            return None;
                        },
                    },
                    None => one_float(),
                };
                Some(Expr::FloatRange(x, y, z))
            },
        };
    }
    Some(Expr::Symbol(lexeme.to_owned()))
}

/// The symbol followed by the expressions.
fn prepend_symbol(sym: &str, exprs: Vec<Expr>) -> (r: Vec<Expr>)
    ensures
        models(r@) == seq![Value::Symbol(sym@)] + models(exprs@),
{
    let mut items: Vec<Expr> = Vec::new();
    items.push(Expr::symbol(sym));
    let ghost first = items@;
    let mut rest = exprs;
    let ghost rest_models = models(rest@);
    items.append(&mut rest);
    assert(models(items@) =~= seq![Value::Symbol(sym@)] + rest_models);
    items
}

/// Marks that no expression could be parsed: the tokens ran out.
#[derive(Debug)]
pub struct Break {}

/// The index of the list kind that a closing token kind ends: 0 for `)`, 1
/// for `]`, 2 for `}`.
pub open spec fn close_index(k: TokenKind) -> int {
    match k {
        TokenKind::RightParen => 0,
        TokenKind::RightBracket => 1,
        TokenKind::RightBrace => 2,
        _ => -1,
    }
}

/// Whether the token kind is the delimiter.
fn is_delimiter(k: &TokenKind, delimiter: &TokenKind) -> (r: bool)
    ensures
        r == closes(*k, close_index(*delimiter)),
{
    match (k, delimiter) {
        (TokenKind::RightParen, TokenKind::RightParen) => true,
        (TokenKind::RightBracket, TokenKind::RightBracket) => true,
        (TokenKind::RightBrace, TokenKind::RightBrace) => true,
        _ => false,
    }
}

/// An error with one note: a prefix, the text, and a closing backquote.
fn annotation_error_exec(prefix: &str, text: &str, range: &Range) -> (e: Error)
    ensures
        e.model() == annotation_error(prefix@, text@, *range),
{
    let mut msg = String::new();
    push_str(&mut msg, prefix);
    push_str(&mut msg, text);
    push_str(&mut msg, "`");
    let mut e = Error::new(ErrorKind::MalformedAnnotation);
    e.push_note(msg.as_str(), Some(Range { start: range.start, end: range.end }));
    assert(e.model().notes =~= seq![(msg@, Some(*range))]);
    e
}

/// The Parser performs the syntactic analysis stage of the compilation
/// pipeline: the input token stream is reduced into expressions, with the
/// annotations that precede an expression attached to it. The numbers of
/// floating-point literals are read from a table of float readings.
pub struct Parser<'a> {
    tokens: &'a [Token],
    floats: &'a [(String, Result<Float64, String>)],
    index: usize,
    buffered_annotations: Option<Vec<usize>>,
    current_position: Position,
    errors: Vec<Error>,
}

impl<'a> Parser<'a> {
    /// The state of the parser.
    pub closed spec fn state(&self) -> ParserState {
        ParserState {
            index: self.index as int,
            buffered: match self.buffered_annotations {
                Some(v) => Some(v@.map_values(|x: usize| x as int)),
                None => None,
            },
            position: self.current_position,
            errors: error_models(self.errors@),
        }
    }

    /// The tokens the parser reads.
    pub closed spec fn token_seq(&self) -> Seq<Token> {
        self.tokens@
    }

    /// The table of float readings the parser uses.
    pub closed spec fn float_table(&self) -> Seq<(String, Result<Float64, String>)> {
        self.floats@
    }

    /// The parser has not read past its tokens.
    pub closed spec fn wf(&self) -> bool {
        self.index <= self.tokens@.len()
    }

    /// A parser at the start of the tokens.
    pub fn new(tokens: &'a [Token], floats: &'a [(String, Result<Float64, String>)]) -> (p: Parser<'a>)
        ensures
            p.state() == initial_state(),
            p.token_seq() == tokens@,
            p.float_table() == floats@,
            p.wf(),
    {
        let p = Parser {
            tokens,
            floats,
            index: 0,
            buffered_annotations: None,
            current_position: Position::new(),
            errors: Vec::new(),
        };
        assert(error_models(p.errors@) =~= Seq::<ErrorModel>::empty());
        p
    }

    fn add_error(&mut self, e: Error)
        ensures
            final(self).state() == with_error(old(self).state(), e.model()),
            final(self).tokens@ == old(self).tokens@,
            final(self).floats@ == old(self).floats@,
            final(self).index == old(self).index,
    {
        let ghost m = e.model();
        self.errors.push(e);
        assert(error_models(self.errors@) =~= error_models(old(self).errors@).push(m));
    }

    fn next_token(&mut self) -> (r: Option<&'a Token>)
        requires
            old(self).wf(),
        ensures
            final(self).wf(),
            final(self).tokens@ == old(self).tokens@,
            final(self).floats@ == old(self).floats@,
            old(self).index < old(self).tokens@.len() ==> (r matches Some(t) && *t == old(self).tokens@[old(self).index as int]
                && final(self).state() == advanced(old(self).state(), t.range.end)),
            old(self).index >= old(self).tokens@.len() ==> (r is None && final(self).state() == old(self).state()),
    {
        if self.index < self.tokens.len() {
            let token: &'a Token = &self.tokens[self.index];
            self.index = self.index + 1;
            self.current_position = token.range.end;
            Some(token)
        } else {
            None
        }
    }

    fn put_back_token(&mut self, token: &'a Token)
        requires
            old(self).index >= 1,
            old(self).wf(),
        ensures
            final(self).wf(),
            final(self).tokens@ == old(self).tokens@,
            final(self).floats@ == old(self).floats@,
            final(self).state() == (ParserState { index: old(self).index - 1, position: token.range.start, ..old(self).state() }),
    {
        self.current_position = token.range.start;
        self.index = self.index - 1;
    }

    /// Attaches the annotation of the token at index `a`; `false` where the
    /// annotation is malformed, with an error added and the expression as it was.
    fn attach_one(&mut self, a: usize, expr: Expr) -> (r: (Expr, bool))
        requires
            old(self).wf(),
            !(attach_step_spec(old(self).tokens@, old(self).floats@, a as int, expr.model(), old(self).state()) is Panic),
        ensures
            final(self).wf(),
            final(self).tokens@ == old(self).tokens@,
            final(self).floats@ == old(self).floats@,
            match attach_step_spec(old(self).tokens@, old(self).floats@, a as int, expr.model(), old(self).state()) {
                AttachStep::Continue(v2) => r.1 && r.0.model() == v2 && final(self).state() == old(self).state(),
                AttachStep::Stop(st2) => !r.1 && r.0.model() == expr.model() && final(self).state() == st2,
                AttachStep::Panic => false,
            },
        decreases tokens_size(self.tokens@), 0int, 0nat, 1nat,
    {
        let ghost toks = self.tokens@;
        let ghost fl = self.floats@;
        let ghost st = self.state();
        let ghost v = expr.model();
        let ghost step = attach_step_spec(toks, fl, a as int, v, st);
        let annotation_token: &'a Token = &self.tokens[a];
        let TokenKind::Annotation(text, lexed) = &annotation_token.kind else {
            return (expr, false);
        };
        let ghost range = annotation_token.range;
        let ghost tx = text@;
        let Some(inner) = lexed else {
            let e = annotation_error_exec("Lexical error in annotation `", text.as_str(), &annotation_token.range);
            self.add_error(e);
            return (expr, false);
        };
        proof {
            crate::lexer::token::lemma_token_size_bounded(toks, a as int);
        }
        let mut parser = Parser::new(inner.as_slice(), self.floats);
        assert(parser.token_seq() == inner@);
        let ghost pa = parse_all_spec(inner@, fl);
        match parser.parse() {
            Err(mut errors) => {
                assert(pa matches ParsedAll::Errors(es) && es == error_models(errors@));
                let e = annotation_error_exec("Parse error in annotation `", text.as_str(), &annotation_token.range);
                self.add_error(e);
                let ghost before = self.errors@;
                let ghost added = errors@;
                self.errors.append(&mut errors);
                assert(error_models(self.errors@) =~= error_models(before) + error_models(added));
                assert(step == AttachStep::Stop(ParserState {
                    errors: st.errors.push(annotation_error("Parse error in annotation `"@, tx, range)) + error_models(added),
                    ..st
                }));
                (expr, false)
            },
            Ok(exprs) => {
                assert(pa matches ParsedAll::Exprs(vs) && vs == models(exprs@));
                let ann = exprs[0].unpack();
                let ghost am = ann.model();
                assert(am == unpacked(models(exprs@)[0]));
                match ann {
                    Expr::Symbol(sym) => {
                        let chars = to_chars(sym.as_str());
                        if chars.len() == 0 {
                            let e = annotation_error_exec("Invalid single-symbol annotation`", text.as_str(), &annotation_token.range);
                            self.add_error(e);
                            return (expr, false);
                        }
                        if is_uppercase(chars[0]) {
                            assert(step == AttachStep::Continue(annotated_value(v, "type"@, am)));
                            (annotate(expr, "type", ann.deep_clone()), true)
                        } else {
                            assert(step == AttachStep::Continue(annotated_value(v, sym@, Value::Bool(true))));
                            (annotate(expr, sym.as_str(), Expr::Bool(true)), true)
                        }
                    },
                    Expr::List(list) => {
                        assert(am == Value::List(models(list@)));
                        if list.len() > 0 {
                            let first = list[0].unpack();
                            assert(first.model() == unpacked(models(list@)[0]));
                            if let Expr::Symbol(sym) = first {
                                assert(step == AttachStep::Continue(annotated_value(v, sym@, am)));
                                return (annotate(expr, sym.as_str(), ann.deep_clone()), true);
                            }
                        }
                        let e = annotation_error_exec("First term must be a symbol `", text.as_str(), &annotation_token.range);
                        assert(step == AttachStep::Stop(with_error(st, annotation_error("First term must be a symbol `"@, tx, range))));
                        self.add_error(e);
                        (expr, false)
                    },
                    _ => {
                        let e = annotation_error_exec(
                            "An annotation should be either a symbol or a list `",
                            text.as_str(),
                            &annotation_token.range,
                        );
                        self.add_error(e);
                        (expr, false)
                    },
                }
            },
        }
    }

    /// Wraps the expression with the buffered annotations. The annotations
    /// are parsed into expressions: a capitalized symbol is a type, another
    /// symbol a flag set to true, a list a value under the name of its head.
    /// The first malformed annotation stops it, with an error.
    fn attach_buffered_annotations(&mut self, expr: Expr, range: Range) -> (r: Expr)
        requires
            old(self).wf(),
            !(attach_spec(old(self).tokens@, old(self).floats@, expr.model(), old(self).state()).0 is Panic),
        ensures
            final(self).wf(),
            final(self).tokens@ == old(self).tokens@,
            final(self).floats@ == old(self).floats@,
            attach_spec(old(self).tokens@, old(self).floats@, expr.model(), old(self).state()) == (
            Parsed::Expr(r.model()), final(self).state()),
        decreases tokens_size(self.tokens@), 0int, 2nat, 0nat,
    {
        let ghost toks = self.tokens@;
        let ghost fl = self.floats@;
        let ghost e0 = expr.model();
        let ghost goal = attach_spec(toks, fl, expr.model(), self.state());
        let Some(buffered) = self.buffered_annotations.take() else {
            return expr;
        };
        let ghost anns = buffered@.map_values(|x: usize| x as int);
        let mut cur = expr;
        let mut i: usize = 0;
        assert(goal == attach_loop_spec(toks, fl, anns, 0, cur.model(), self.state()));
        while i < buffered.len()
            invariant
                i <= buffered@.len(),
                anns == buffered@.map_values(|x: usize| x as int),
                toks == self.tokens@,
                fl == self.floats@,
                self.wf(),
                goal == attach_loop_spec(toks, fl, anns, i as int, cur.model(), self.state()),
                !(goal.0 is Panic),
                toks == old(self).tokens@,
                fl == old(self).floats@,
                goal == attach_spec(old(self).tokens@, old(self).floats@, e0, old(self).state()),
                e0 == expr.model(),
            decreases buffered@.len() - i,
        {
            let a = buffered[i];
            assert(anns[i as int] == a as int);
            let ghost st = self.state();
            let ghost v = cur.model();
            let ghost step = attach_step_spec(toks, fl, a as int, v, st);
            assert(goal == match step {
                AttachStep::Continue(v2) => attach_loop_spec(toks, fl, anns, i + 1, v2, st),
                AttachStep::Stop(st2) => (Parsed::Expr(v), st2),
                AttachStep::Panic => (Parsed::Panic, st),
            });
            let (next, go_on) = self.attach_one(a, cur);
            if !go_on {
                assert(step matches AttachStep::Stop(st2) && self.state() == st2 && next.model() == v);
                assert(goal == (Parsed::Expr(next.model()), self.state()));
                return next;
            }
            cur = next;
            i = i + 1;
        }
        cur
    }

    /// Adds the annotation token at `index` to the annotations that wait for
    /// the next expression.
    fn buffer_annotation(&mut self, index: usize)
        ensures
            final(self).tokens@ == old(self).tokens@,
            final(self).floats@ == old(self).floats@,
            final(self).index == old(self).index,
            final(self).state() == (ParserState {
                buffered: Some(
                    match old(self).state().buffered {
                        Some(b) => b.push(index as int),
                        None => seq![index as int],
                    },
                ),
                ..old(self).state()
            }),
    {
        let mut anns = match self.buffered_annotations.take() {
            Some(v) => v,
            None => Vec::new(),
        };
        let ghost before = anns@;
        anns.push(index);
        assert(anns@.map_values(|x: usize| x as int) =~= before.map_values(|x: usize| x as int).push(index as int));
        proof {
            if old(self).buffered_annotations is None {
                assert(before.map_values(|x: usize| x as int).push(index as int) =~= seq![index as int]);
            }
        }
        self.buffered_annotations = Some(anns);
    }

    /// Attaches the waiting annotations to the expression just parsed.
    fn finish(&mut self, expr: Expr) -> (r: Result<Option<Expr>, Break>)
        requires
            old(self).wf(),
            !(attach_spec(old(self).tokens@, old(self).floats@, expr.model(), old(self).state()).0 is Panic),
        ensures
            final(self).wf(),
            final(self).tokens@ == old(self).tokens@,
            final(self).floats@ == old(self).floats@,
            final(self).state() == attach_spec(old(self).tokens@, old(self).floats@, expr.model(), old(self).state()).1,
            r matches Ok(Some(e)) && attach_spec(old(self).tokens@, old(self).floats@, expr.model(), old(self).state()).0
                == Parsed::Expr(e.model()),
        decreases tokens_size(self.tokens@), 0int, 2nat, 1nat,
    {
        let end = self.current_position;
        Ok(Some(self.attach_buffered_annotations(expr, Range { start: end, end })))
    }

    /// Parses the quoted expression after a quote token.
    fn parse_quote(&mut self, range: &Range) -> (r: Result<Option<Expr>, Break>)
        requires
            old(self).wf(),
            !(quote_spec(old(self).tokens@, old(self).floats@, *range, old(self).state()).0 is Panic),
        ensures
            final(self).wf(),
            final(self).tokens@ == old(self).tokens@,
            final(self).floats@ == old(self).floats@,
            final(self).state() == quote_spec(old(self).tokens@, old(self).floats@, *range, old(self).state()).1,
            match quote_spec(old(self).tokens@, old(self).floats@, *range, old(self).state()).0 {
                Parsed::Break => r is Err,
                Parsed::Skipped => r matches Ok(None),
                Parsed::Expr(v) => r matches Ok(Some(e)) && e.model() == v,
                Parsed::Panic => false,
            },
        decreases tokens_size(self.tokens@), self.tokens@.len() - self.index, 4nat, 0nat,
    {
        match self.parse_expr() {
            Err(_) => {
                let mut e = Error::new(ErrorKind::InvalidQuote);
                e.push_note("Cannot parse quoted expression", Some(Range { start: range.start, end: range.end }));
                assert(e.model().notes =~= seq![("Cannot parse quoted expression"@, Some(*range))]);
                self.add_error(e);
                Ok(None)
            },
            Ok(None) => {
                let mut e = Error::new(ErrorKind::InvalidQuote);
                e.push_note("Invalid quoted expression", Some(Range { start: range.start, end: range.end }));
                assert(e.model().notes =~= seq![("Invalid quoted expression"@, Some(*range))]);
                self.add_error(e);
                Ok(None)
            },
            Ok(Some(target)) => {
                let ghost tm = target.model();
                let mut items: Vec<Expr> = Vec::new();
                items.push(Expr::symbol("quot"));
                items.push(target);
                assert(models(items@) =~= seq![Value::Symbol("quot"@), tm]);
                self.finish(Expr::List(items))
            },
        }
    }

    /// Parses the terms of a list after its opening token, and makes the
    /// list: `()` is One; `[..]` and `{..}` start with the symbol `Array`
    /// or `Dict`.
    fn parse_list(&mut self, open: u8, start_position: Position) -> (r: Result<Option<Expr>, Break>)
        requires
            old(self).wf(),
            open <= 2,
            !(list_spec(old(self).tokens@, old(self).floats@, open as int, start_position, old(self).state()).0 is Panic),
        ensures
            final(self).wf(),
            final(self).tokens@ == old(self).tokens@,
            final(self).floats@ == old(self).floats@,
            final(self).state() == list_spec(old(self).tokens@, old(self).floats@, open as int, start_position, old(self).state()).1,
            match list_spec(old(self).tokens@, old(self).floats@, open as int, start_position, old(self).state()).0 {
                Parsed::Break => r is Err,
                Parsed::Skipped => r matches Ok(None),
                Parsed::Expr(v) => r matches Ok(Some(e)) && e.model() == v,
                Parsed::Panic => false,
            },
        decreases tokens_size(self.tokens@), self.tokens@.len() - self.index, 6nat, 0nat,
    {
        let delimiter = if open == 0 {
            TokenKind::RightParen
        } else if open == 1 {
            TokenKind::RightBracket
        } else {
            TokenKind::RightBrace
        };
        let terms = self.parse_many(&delimiter, start_position)?;
        if open == 0 {
            if terms.len() == 0 {
                self.finish(Expr::One)
            } else {
                self.finish(Expr::List(terms))
            }
        } else if open == 1 {
            self.finish(Expr::List(prepend_symbol("Array", terms)))
        } else {
            self.finish(Expr::List(prepend_symbol("Dict", terms)))
        }
    }

    /// Parses one expression. `Err` where the tokens ran out; `Ok(None)`
    /// where tokens were consumed without giving an expression.
    #[verifier::rlimit(40)]
    pub fn parse_expr(&mut self) -> (r: Result<Option<Expr>, Break>)
        requires
            old(self).wf(),
            !(parse_expr_spec(old(self).token_seq(), old(self).float_table(), old(self).state()).0 is Panic),
        ensures
            final(self).wf(),
            final(self).token_seq() == old(self).token_seq(),
            final(self).float_table() == old(self).float_table(),
            final(self).state() == parse_expr_spec(old(self).token_seq(), old(self).float_table(), old(self).state()).1,
            match parse_expr_spec(old(self).token_seq(), old(self).float_table(), old(self).state()).0 {
                Parsed::Break => r is Err,
                Parsed::Skipped => r matches Ok(None),
                Parsed::Expr(v) => r matches Ok(Some(e)) && e.model() == v,
                Parsed::Panic => false,
            },
        decreases tokens_size(self.token_seq()), self.token_seq().len() - self.state().index, 3nat, 0nat,
    {
        let ghost toks = self.tokens@;
        let ghost fl = self.floats@;
        let start_index = self.index;
        let Some(token) = self.next_token() else {
            return Err(Break {});
        };
        let range = Range { start: token.range.start, end: token.range.end };
        let start_position = range.start;
        match &token.kind {
            TokenKind::Comment(lexeme, kind) => self.finish(Expr::Comment(lexeme.clone(), *kind)),
            TokenKind::MultiLineWhitespace => self.finish(Expr::TextSeparator),
            TokenKind::String(lexeme) => self.finish(Expr::String(lexeme.clone())),
            TokenKind::Symbol(lexeme) => match read_symbol(lexeme.as_str(), self.floats) {
                Some(e) => self.finish(e),
                None => {
                    let e = Error::new(ErrorKind::MalformedRange);
                    assert(e.model().notes =~= Seq::<(Seq<char>, Option<Range>)>::empty());
                    self.add_error(e);
                    Ok(None)
                },
            },
            TokenKind::Number(lexeme) => match read_number(lexeme.as_str(), Range { start: range.start, end: range.end }, self.floats) {
                Ok(e) => self.finish(e),
                Err(e) => {
                    self.add_error(e);
                    Ok(None)
                },
            },
            TokenKind::Annotation(_, _) => {
                self.buffer_annotation(start_index);
                Ok(None)
            },
            TokenKind::Quote => self.parse_quote(&range),
            TokenKind::LeftParen => self.parse_list(0, start_position),
            TokenKind::LeftBracket => self.parse_list(1, start_position),
            TokenKind::LeftBrace => self.parse_list(2, start_position),
            _ => {
                let mut msg = String::new();
                push_str(&mut msg, "Not expecting token `");
                push_str(&mut msg, token.lexeme().as_str());
                push_str(&mut msg, "`");
                let mut e = Error::new(ErrorKind::UnexpectedToken);
                e.push_note(msg.as_str(), Some(Range { start: range.start, end: range.end }));
                assert(e.model().notes =~= seq![(msg@, Some(range))]);
                self.add_error(e);
                Ok(None)
            },
        }
    }

    /// Parses the terms of a list up to the delimiter.
    pub fn parse_many(&mut self, delimiter: &TokenKind, start_position: Position) -> (r: Result<Vec<Expr>, Break>)
        requires
            old(self).wf(),
            !(parse_many_spec(old(self).token_seq(), old(self).float_table(), close_index(*delimiter), start_position, old(self).state(), Seq::empty()).0 is Panic),
        ensures
            final(self).wf(),
            final(self).token_seq() == old(self).token_seq(),
            final(self).float_table() == old(self).float_table(),
            final(self).state() == parse_many_spec(old(self).token_seq(), old(self).float_table(), close_index(*delimiter), start_position, old(self).state(), Seq::empty()).1,
            match parse_many_spec(old(self).token_seq(), old(self).float_table(), close_index(*delimiter), start_position, old(self).state(), Seq::empty()).0 {
                ParsedMany::Break => r is Err,
                ParsedMany::Terms(terms) => r matches Ok(v) && models(v@) == terms,
                ParsedMany::Panic => false,
            },
        decreases tokens_size(self.token_seq()), self.token_seq().len() - self.state().index, 5nat, 0nat,
    {
        let ghost toks = self.tokens@;
        let ghost fl = self.floats@;
        let ghost open = close_index(*delimiter);
        let ghost goal = parse_many_spec(toks, fl, open, start_position, self.state(), Seq::empty());
        let ghost start_index = self.index;
        let mut exprs: Vec<Expr> = Vec::new();
        assert(models(exprs@) =~= Seq::<Value>::empty());
        loop
            invariant
                toks == self.tokens@,
                fl == self.floats@,
                self.wf(),
                start_index <= self.index,
                start_index == old(self).index,
                goal == parse_many_spec(toks, fl, open, start_position, self.state(), models(exprs@)),
                !(goal.0 is Panic),
                toks == old(self).tokens@,
                fl == old(self).floats@,
                open == close_index(*delimiter),
                goal == parse_many_spec(old(self).tokens@, old(self).floats@, close_index(*delimiter), start_position, old(self).state(), Seq::empty()),
            decreases self.tokens@.len() - self.index,
        {
            let ghost st = self.state();
            let Some(token) = self.next_token() else {
                let mut e = Error::new(ErrorKind::UnterminatedList);
                let end = self.current_position;
                e.push_note("List not terminated", Some(Range { start: start_position, end }));
                assert(e.model().notes =~= seq![("List not terminated"@, Some(Range { start: start_position, end }))]);
                self.add_error(e);
                return Err(Break {});
            };
            if is_delimiter(&token.kind, delimiter) {
                return Ok(exprs);
            }
            self.put_back_token(token);
            let ghost before = exprs@;
            assert(self.token_seq() == toks);
            assert(self.state().index >= start_index);
            match self.parse_expr()? {
                Some(e) => {
                    let ghost em = e.model();
                    exprs.push(e);
                    assert(models(exprs@) =~= models(before).push(em));
                },
                None => {},
            }
        }
    }

    /// Parses the tokens into expressions. The parser tries to find as many
    /// errors as it can: where there are any, they are returned, and the
    /// parser holds none afterwards.
    pub fn parse(&mut self) -> (r: Result<Vec<Expr>, Vec<Error>>)
        requires
            old(self).wf(),
            !(parse_all_loop_spec(old(self).token_seq(), old(self).float_table(), old(self).state(), Seq::empty()) is Panic),
        ensures
            match parse_all_loop_spec(old(self).token_seq(), old(self).float_table(), old(self).state(), Seq::empty()) {
                ParsedAll::Exprs(vs) => r matches Ok(v) && models(v@) == vs,
                ParsedAll::Errors(es) => r matches Err(v) && error_models(v@) == es,
                ParsedAll::Panic => false,
            },
            final(self).state().errors.len() == 0,
        decreases tokens_size(self.token_seq()), self.token_seq().len() + 1, 6nat, 0nat,
    {
        let ghost toks = self.tokens@;
        let ghost fl = self.floats@;
        let ghost goal = parse_all_loop_spec(toks, fl, self.state(), Seq::empty());
        let mut exprs: Vec<Expr> = Vec::new();
        assert(models(exprs@) =~= Seq::<Value>::empty());
        loop
            invariant_except_break
                goal == parse_all_loop_spec(toks, fl, self.state(), models(exprs@)),
            invariant
                toks == self.tokens@,
                fl == self.floats@,
                self.wf(),
                !(goal is Panic),
                toks == old(self).tokens@,
                fl == old(self).floats@,
                goal == parse_all_loop_spec(old(self).tokens@, old(self).floats@, old(self).state(), Seq::empty()),
            ensures
                goal == parse_outcome(self.state(), models(exprs@)),
            decreases self.tokens@.len() - self.index,
        {
            let ghost st = self.state();
            let expr = self.parse_expr();
            let Ok(expr) = expr else {
                break;
            };
            if let Some(expr) = expr {
                if self.errors.len() == 0 {
                    let ghost em = expr.model();
                    let ghost before = exprs@;
                    exprs.push(expr);
                    assert(models(exprs@) =~= models(before).push(em));
                } else {
                    break;
                }
            }
        }
        if self.errors.len() == 0 {
            Ok(exprs)
        } else {
            let mut errors: Vec<Error> = Vec::new();
            core::mem::swap(&mut errors, &mut self.errors);
            Err(errors)
        }
    }
}

/// One piece, put together, is that piece.
proof fn lemma_concat_single(a: Seq<char>)
    ensures
        concat_pieces(seq![a]) == a,
{
    let x = seq![a];
    assert(x.drop_last() =~= Seq::<Seq<char>>::empty());
    assert(concat_pieces(x.drop_last()) =~= Seq::<char>::empty());
    assert(x.last() == a);
    assert(concat_pieces(x) == concat_pieces(x.drop_last()) + x.last());
    assert(concat_pieces(x) =~= a);
}

/// The pieces after a first piece `a`, put together, follow `a`.
proof fn lemma_concat_pieces_prepend(a: Seq<char>, rest: Seq<Seq<char>>)
    ensures
        concat_pieces(seq![a] + rest) == a + concat_pieces(rest),
    decreases rest.len(),
{
    let all = seq![a] + rest;
    if rest.len() == 0 {
        assert(all =~= seq![a]);
        lemma_concat_single(a);
        assert(concat_pieces(rest) =~= Seq::<char>::empty());
        assert(a + concat_pieces(rest) =~= a);
    } else {
        assert(all.drop_last() =~= seq![a] + rest.drop_last());
        assert(all.last() == rest.last());
        lemma_concat_pieces_prepend(a, rest.drop_last());
        assert(concat_pieces(all) =~= a + concat_pieces(rest));
    }
}

/// A text without a colon keeps all of its characters when the colons are
/// removed.
proof fn lemma_no_colon_kept(t: Seq<char>)
    requires
        forall|k: int| 0 <= k < t.len() ==> t[k] != ':',
    ensures
        t.filter(|c: char| c != ':') == t,
    decreases t.len(),
{
    reveal(Seq::filter);
    if t.len() > 0 {
        lemma_no_colon_kept(t.drop_last());
        assert(t.drop_last().push(t.last()) =~= t);
    }
}

/// Putting together the pieces of `s` between its colons, from `from` on,
/// gives that part of `s` with every colon removed.
proof fn lemma_colon_pieces(s: Seq<char>, from: int)
    requires
        0 <= from <= s.len(),
    ensures
        concat_pieces(split_from(s, seq![':'], from)) == s.subrange(from, s.len() as int).filter(|c: char| c != ':'),
    decreases s.len() - from,
{
    let pat = seq![':'];
    lemma_find_from_bounds(s, pat, from);
    let tail = s.subrange(from, s.len() as int);
    match find_from(s, pat, from) {
        None => {
            assert forall|k: int| 0 <= k < tail.len() implies tail[k] != ':' by {
                if tail[k] == ':' {
                    assert(s.subrange(from + k, from + k + 1) =~= pat);
                    assert(occurs_at(s, pat, from + k));
                }
            }
            lemma_no_colon_kept(tail);
            assert(split_from(s, pat, from) == seq![tail]);
            lemma_concat_single(tail);
        },
        Some(i) => {
            let head = s.subrange(from, i);
            let rest = s.subrange(i + 1, s.len() as int);
            assert(s.subrange(i, i + 1) == pat);
            assert(s[i] == ':') by {
                assert(s.subrange(i, i + 1)[0] == s[i]);
            }
            assert forall|k: int| 0 <= k < head.len() implies head[k] != ':' by {
                if head[k] == ':' {
                    assert(s.subrange(from + k, from + k + 1) =~= pat);
                    assert(occurs_at(s, pat, from + k));
                }
            }
            lemma_no_colon_kept(head);
            lemma_colon_pieces(s, i + 1);
            assert(split_from(s, pat, from) == seq![head] + split_from(s, pat, i + 1));
            lemma_concat_pieces_prepend(head, split_from(s, pat, i + 1));
            assert(tail =~= head + (seq![':'] + rest));
            Seq::filter_distributes_over_add(head, seq![':'] + rest, |c: char| c != ':');
            Seq::filter_distributes_over_add(seq![':'], rest, |c: char| c != ':');
            reveal(Seq::filter);
            let colon = seq![':'];
            assert(colon.drop_last() =~= Seq::<char>::empty());
            assert(Seq::<char>::empty().filter(|c: char| c != ':') =~= Seq::<char>::empty());
            assert(colon.filter(|c: char| c != ':') == colon.drop_last().filter(|c: char| c != ':'));
            assert(colon.filter(|c: char| c != ':') =~= Seq::<char>::empty());
            assert(head + Seq::<char>::empty() + rest.filter(|c: char| c != ':') =~= head + rest.filter(|c: char| c != ':'));
        },
    }
}

/// A symbol token that holds a colon, at the end (`name:`) or anywhere
/// else, reads as the key symbol whose text is the token with every colon
/// removed: `name:` and `:name` name the same key, and a key's text holds
/// no colon.
pub proof fn law_key_symbol_drops_every_colon(lexeme: Seq<char>, fl: Seq<(String, Result<Float64, String>)>)
    requires
        lexeme.contains(':'),
    ensures
        symbol_value(lexeme, fl) == Some(Value::KeySymbol(lexeme.filter(|c: char| c != ':'))),
        !lexeme.filter(|c: char| c != ':').contains(':'),
{
    lemma_colon_pieces(lexeme, 0);
    assert(lexeme.subrange(0, lexeme.len() as int) =~= lexeme);
    let kept = lexeme.filter(|c: char| c != ':');
    if kept.contains(':') {
        let k = choose|k: int| 0 <= k < kept.len() && kept[k] == ':';
        lexeme.lemma_filter_pred(|c: char| c != ':', k);
    }
}

} // verus!
