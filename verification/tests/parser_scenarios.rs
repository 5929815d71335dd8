use tan::error::ErrorKind;
use tan::expr::{CommentKind, Expr, Float64};
use tan::lexer::token::{Token, TokenKind};
use tan::parser::error::ParseError;
use tan::parser::util::{is_key_symbol, recognize_range, split_range, RangeLiteral};
use tan::parser::Parser;
use tan::range::{Position, Range};

fn at(index: usize) -> Range {
    Position { index, line: 0, col: index }..Position { index: index + 1, line: 0, col: index + 1 }
}

fn tokens(kinds: Vec<TokenKind>) -> Vec<Token> {
    kinds.into_iter().enumerate().map(|(i, k)| Token::new(k, at(i))).collect()
}

fn sym(s: &str) -> TokenKind {
    TokenKind::Symbol(s.to_owned())
}

fn num(s: &str) -> TokenKind {
    TokenKind::Number(s.to_owned())
}

fn parse_with(kinds: Vec<TokenKind>, floats: &[(String, Result<Float64, String>)]) -> Result<Vec<Expr>, Vec<tan::error::Error>> {
    let toks = tokens(kinds);
    let mut parser = Parser::new(toks.as_slice(), floats);
    parser.parse()
}

fn parse(kinds: Vec<TokenKind>) -> Result<Vec<Expr>, Vec<tan::error::Error>> {
    parse_with(kinds, &[])
}

fn shown(r: Result<Vec<Expr>, Vec<tan::error::Error>>) -> String {
    format!("{:?}", r.expect("the tokens parse"))
}

fn error_kinds(r: Result<Vec<Expr>, Vec<tan::error::Error>>) -> Vec<ErrorKind> {
    match r {
        Ok(exprs) => panic!("expected errors, got {exprs:?}"),
        Err(errors) => errors.iter().map(|e| e.kind).collect(),
    }
}

#[test]
fn parse_list_of_symbol_and_int() {
    let r = parse(vec![TokenKind::LeftParen, sym("a"), num("1"), TokenKind::RightParen]);
    assert_eq!(shown(r), r#"[List([Symbol("a"), Int(1)])]"#);
}

#[test]
fn parse_empty_list_is_one() {
    let r = parse(vec![TokenKind::LeftParen, TokenKind::RightParen]);
    assert_eq!(shown(r), "[One]");
}

#[test]
fn parse_array_and_dict_literals() {
    let r = parse(vec![TokenKind::LeftBracket, num("1"), num("2"), TokenKind::RightBracket]);
    assert_eq!(shown(r), r#"[List([Symbol("Array"), Int(1), Int(2)])]"#);
    let r = parse(vec![TokenKind::LeftBrace, sym(":a"), num("1"), TokenKind::RightBrace]);
    assert_eq!(shown(r), r#"[List([Symbol("Dict"), KeySymbol("a"), Int(1)])]"#);
}

#[test]
fn parse_number_radixes() {
    let r = parse(vec![num("0xff"), num("0b101"), num("0o17"), num("-42")]);
    assert_eq!(shown(r), "[Int(255), Int(5), Int(15), Int(-42)]");
}

#[test]
fn parse_malformed_int_is_an_error() {
    assert_eq!(error_kinds(parse(vec![num("12x")])), vec![ErrorKind::MalformedInt]);
}

#[test]
fn parse_booleans_and_ranges() {
    let r = parse(vec![sym("true"), sym("false"), sym("2..5"), sym("5..2"), sym("1..10/3")]);
    assert_eq!(shown(r), "[Bool(true), Bool(false), IntRange(2, 5, 1), IntRange(5, 2, 1), IntRange(1, 10, 3)]");
}

#[test]
fn parse_malformed_range_is_an_error() {
    assert_eq!(error_kinds(parse(vec![sym("1..x")])), vec![ErrorKind::MalformedRange]);
}

#[test]
fn parse_quote_wraps_in_quot() {
    let r = parse(vec![TokenKind::Quote, sym("x")]);
    assert_eq!(shown(r), r#"[List([Symbol("quot"), Symbol("x")])]"#);
}

#[test]
fn parse_quote_without_target_is_an_error() {
    assert_eq!(error_kinds(parse(vec![TokenKind::Quote])), vec![ErrorKind::InvalidQuote]);
}

#[test]
fn parse_comments_strings_and_separators() {
    let r = parse(vec![
        TokenKind::Comment("; hi".to_owned(), CommentKind::Line),
        TokenKind::String("text".to_owned()),
        TokenKind::MultiLineWhitespace,
    ]);
    assert_eq!(shown(r), r#"[Comment("; hi", Line), String("text"), TextSeparator]"#);
}

#[test]
fn parse_unterminated_list_is_an_error() {
    let r = parse(vec![TokenKind::LeftParen, sym("a")]);
    match r {
        Err(errors) => {
            assert_eq!(errors.len(), 1);
            assert_eq!(errors[0].kind, ErrorKind::UnterminatedList);
            assert_eq!(errors[0].notes[0].text, "List not terminated");
        }
        Ok(exprs) => panic!("expected an error, got {exprs:?}"),
    }
}

#[test]
fn parse_stray_closing_paren_is_an_error() {
    let r = parse(vec![TokenKind::RightParen, sym("a")]);
    match r {
        Err(errors) => {
            assert_eq!(errors[0].kind, ErrorKind::UnexpectedToken);
            assert_eq!(errors[0].notes[0].text, "Not expecting token `)`");
        }
        Ok(exprs) => panic!("expected an error, got {exprs:?}"),
    }
}

#[test]
fn parse_type_annotation() {
    let ann = TokenKind::Annotation("#Int".to_owned(), Some(tokens(vec![sym("Int")])));
    let r = parse(vec![ann, sym("x")]);
    assert_eq!(shown(r), r#"[Annotated(Symbol("x"), [("type", Symbol("Int"))])]"#);
}

#[test]
fn parse_flag_and_list_annotations() {
    let flag = TokenKind::Annotation("#inline".to_owned(), Some(tokens(vec![sym("inline")])));
    let list = TokenKind::Annotation(
        "#(min 1)".to_owned(),
        Some(tokens(vec![TokenKind::LeftParen, sym("min"), num("1"), TokenKind::RightParen])),
    );
    let r = parse(vec![flag, list, sym("x")]);
    assert_eq!(
        shown(r),
        r#"[Annotated(Symbol("x"), [("inline", Bool(true)), ("min", List([Symbol("min"), Int(1)]))])]"#
    );
}

#[test]
fn parse_malformed_annotation_is_an_error() {
    let ann = TokenKind::Annotation("#(1 2)".to_owned(), Some(tokens(vec![TokenKind::LeftParen, num("1"), num("2"), TokenKind::RightParen])));
    let r = parse(vec![ann, sym("x")]);
    match r {
        Err(errors) => {
            assert_eq!(errors[0].kind, ErrorKind::MalformedAnnotation);
            assert_eq!(errors[0].notes[0].text, "First term must be a symbol `#(1 2)`");
        }
        Ok(exprs) => panic!("expected an error, got {exprs:?}"),
    }
}

#[test]
fn parse_unlexed_annotation_is_an_error() {
    let ann = TokenKind::Annotation("#\"".to_owned(), None);
    let r = parse(vec![ann, sym("x")]);
    match r {
        Err(errors) => {
            assert_eq!(errors[0].kind, ErrorKind::MalformedAnnotation);
            assert_eq!(errors[0].notes[0].text, "Lexical error in annotation `#\"`");
        }
        Ok(exprs) => panic!("expected an error, got {exprs:?}"),
    }
}

#[test]
fn parse_float_from_table() {
    let one_half = Float64 { bits: 0.5f64.to_bits(), text: "0.5".to_owned() };
    let floats = vec![("0.5".to_owned(), Ok(one_half))];
    let r = parse_with(vec![num("0.5")], &floats);
    let exprs = r.expect("the float parses");
    match &exprs[0] {
        Expr::Float(f) => {
            assert_eq!(f.bits, 0.5f64.to_bits());
            assert_eq!(f.text, "0.5");
        }
        other => panic!("expected a float, got {other:?}"),
    }
}

#[test]
fn parse_float_missing_from_table_is_an_error() {
    let floats = vec![("0.5".to_owned(), Err("invalid float literal".to_owned()))];
    assert_eq!(error_kinds(parse_with(vec![num("0.5")], &floats)), vec![ErrorKind::MalformedFloat]);
}

#[test]
fn parse_decimal_literal() {
    let r = parse(vec![num("1.25d")]);
    let exprs = r.expect("the decimal parses");
    assert!(matches!(exprs[0], Expr::Dec(_)));
}

#[test]
fn key_symbols_start_with_colon() {
    assert!(is_key_symbol(":name"));
    assert!(!is_key_symbol("name"));
}

#[test]
fn recognize_range_directs_the_step() {
    assert!(matches!(recognize_range("2..5"), Some(RangeLiteral::Int(2, 5, 1))));
    assert!(matches!(recognize_range("5..2"), Some(RangeLiteral::Int(5, 2, -1))));
    assert!(matches!(recognize_range("1..10/2"), Some(RangeLiteral::Int(1, 10, 2))));
    assert!(recognize_range("1..2..3").is_none());
    assert!(recognize_range("1..10|2").is_none());
}

#[test]
fn recognize_range_keeps_float_texts() {
    match recognize_range("0.5..2.5") {
        Some(RangeLiteral::Float(a, b, None)) => {
            assert_eq!(a, "0.5");
            assert_eq!(b, "2.5");
        }
        other => panic!("expected a float range, got {other:?}"),
    }
}

#[test]
fn split_range_uses_slash_for_step() {
    assert!(matches!(split_range("0..10/5"), Some(RangeLiteral::Int(0, 10, 5))));
}

#[test]
fn parse_error_texts() {
    let t = Token::new(TokenKind::RightParen, at(0));
    assert_eq!(ParseError::UnexpectedToken(t).to_text(), "parse error: unexpected `)`");
    assert_eq!(ParseError::UnterminatedList.to_text(), "parse error: unterminated list");
    assert_eq!(
        ParseError::MalformedAnnotation("#x".to_owned()).to_text(),
        "parse error: malformed annotation `#x`"
    );
}

#[test]
fn token_lexemes() {
    assert_eq!(Token::new(TokenKind::LeftBrace, at(0)).lexeme(), "{");
    assert_eq!(Token::new(sym("abc"), at(0)).lexeme(), "abc");
    assert_eq!(Token::new(TokenKind::MultiLineWhitespace, at(0)).lexeme(), "\n\n");
}

#[test]
fn optimize_rewrites_array_expressions() {
    // (do (let a [1 2 3 4]) (writeln (+ 2 3)))
    let kinds = vec![
        TokenKind::LeftParen,
        sym("do"),
        TokenKind::LeftParen,
        sym("let"),
        sym("a"),
        TokenKind::LeftBracket,
        num("1"),
        num("2"),
        num("3"),
        num("4"),
        TokenKind::RightBracket,
        TokenKind::RightParen,
        TokenKind::LeftParen,
        sym("writeln"),
        TokenKind::LeftParen,
        sym("+"),
        num("2"),
        num("3"),
        TokenKind::RightParen,
        TokenKind::RightParen,
        TokenKind::RightParen,
    ];
    let expr = parse(kinds).expect("the tokens parse").remove(0);
    let expr_optimized = tan::optimize::optimize(expr);
    let s = format!("{expr_optimized:?}");
    assert!(s.contains("Array([Int(1), Int(2), Int(3), Int(4)]"));
}

#[test]
fn optimize_reaches_nested_map_lists() {
    let inner = Expr::List(vec![Expr::Symbol("Map".to_owned()), Expr::String("k".to_owned()), Expr::Int(1)]);
    let outer = Expr::List(vec![Expr::Symbol("Array".to_owned()), inner]);
    let s = format!("{:?}", tan::optimize::optimize(outer));
    assert_eq!(s, r#"Array([Dict([("k", Int(1))])])"#);
}

#[test]
fn optimize_leaves_brace_lists() {
    let kinds = vec![TokenKind::LeftBrace, TokenKind::String("k".to_owned()), num("1"), TokenKind::RightBrace];
    let expr = parse(kinds).expect("the tokens parse").remove(0);
    let s = format!("{:?}", tan::optimize::optimize(expr));
    assert_eq!(s, r#"List([Symbol("Dict"), String("k"), Int(1)])"#);
}

#[test]
fn prune_removes_comments() {
    // (do ; comment
    // (let a [1 2 3 4]) ; a comment
    // (writeln (+ 2 3)))
    let comment = |t: &str| TokenKind::Comment(t.to_owned(), CommentKind::Line);
    let kinds = vec![
        TokenKind::LeftParen,
        sym("do"),
        comment("; comment"),
        TokenKind::LeftParen,
        sym("let"),
        sym("a"),
        TokenKind::LeftBracket,
        num("1"),
        num("2"),
        num("3"),
        num("4"),
        TokenKind::RightBracket,
        TokenKind::RightParen,
        comment("; a comment"),
        TokenKind::LeftParen,
        sym("writeln"),
        TokenKind::LeftParen,
        sym("+"),
        num("2"),
        num("3"),
        TokenKind::RightParen,
        TokenKind::RightParen,
        TokenKind::RightParen,
    ];
    let expr = parse(kinds).expect("the tokens parse").remove(0);
    let no_code = |code: &str| -> Result<Expr, Vec<tan::error::Error>> { Ok(Expr::Symbol(code.to_owned())) };
    let expr = tan::prune::prune(expr, no_code).unwrap();
    let s = expr.to_text();
    assert!(s.contains("(do (let a (Array 1 2 3 4)) (writeln (+ 2 3)))"));
}

#[test]
fn prune_drops_a_lone_comment_and_reaches_nested_templates() {
    let as_symbol = |code: &str| -> Result<Expr, Vec<tan::error::Error>> { Ok(Expr::Symbol(code.to_owned())) };
    let lone = Expr::Comment("; x".to_owned(), CommentKind::Line);
    assert!(tan::prune::prune(lone, as_symbol).is_none());
    let nested = Expr::List(vec![
        Expr::Symbol("let".to_owned()),
        Expr::Symbol("m".to_owned()),
        Expr::Annotated(
            Box::new(Expr::List(vec![Expr::String("n=${n}".to_owned()), Expr::TextSeparator])),
            vec![("inline".to_owned(), Expr::Bool(true))],
        ),
    ]);
    let pruned = tan::prune::prune(nested, as_symbol).unwrap();
    assert_eq!(
        format!("{pruned:?}"),
        r#"List([Symbol("let"), Symbol("m"), Annotated(List([List([Symbol("format"), String("n="), Symbol("n")])]), [("inline", Bool(true))])])"#
    );
}
