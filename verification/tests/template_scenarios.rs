use tan::error::{Error, ErrorKind};
use tan::expr::{CommentKind, Expr};
use tan::parser::util::recognize_string_template;
use tan::prune::prune_fn;

fn as_symbol(code: &str) -> Result<Expr, Vec<Error>> {
    Ok(Expr::Symbol(code.to_owned()))
}

fn shown(e: &Expr) -> String {
    format!("{e:?}")
}

#[test]
fn recognize_string_template_splits_texts_and_code() {
    let r = recognize_string_template("name: ${name}, age: ${age}.", as_symbol).expect("a template");
    assert_eq!(
        shown(&r),
        r#"List([Symbol("format"), String("name: "), Symbol("name"), String(", age: "), Symbol("age"), String(".")])"#
    );
}

#[test]
fn recognize_string_template_keeps_empty_leading_text() {
    let r = recognize_string_template("${a}${b}", as_symbol).expect("a template");
    assert_eq!(
        shown(&r),
        r#"List([Symbol("format"), String(""), Symbol("a"), String(""), Symbol("b")])"#
    );
}

#[test]
fn recognize_string_template_without_closing_brace_is_text() {
    let r = recognize_string_template("cost: ${total", as_symbol).expect("a template");
    assert_eq!(shown(&r), r#"List([Symbol("format"), String("cost: ${total")])"#);
}

#[test]
fn recognize_string_template_returns_parse_errors() {
    let failing = |_: &str| -> Result<Expr, Vec<Error>> { Err(vec![Error::general("bad code")]) };
    let errors = recognize_string_template("x ${(} y", failing).expect_err("the code fails");
    assert_eq!(errors.len(), 1);
    assert_eq!(errors[0].kind, ErrorKind::General);
}

#[test]
fn prune_transforms_template_strings() {
    let input = "An amount: $110.00. Here is a number: ${num}, and another: ${another-num}";
    let expr = prune_fn(Expr::String(input.to_owned()), as_symbol).expect("kept");
    let Expr::List(ref exprs) = expr else {
        panic!("assertion failed: invalid form")
    };
    assert!(matches!(&exprs[0], Expr::Symbol(s) if s == "format"));
    assert_eq!(exprs.len(), 5);
}

#[test]
fn prune_drops_comments_and_separators() {
    assert!(prune_fn(Expr::Comment("; note".to_owned(), CommentKind::Line), as_symbol).is_none());
    assert!(prune_fn(Expr::TextSeparator, as_symbol).is_none());
    assert!(prune_fn(Expr::Annotation("#inline".to_owned()), as_symbol).is_none());
}

#[test]
fn prune_keeps_other_expressions() {
    assert_eq!(shown(&prune_fn(Expr::String("plain $5".to_owned()), as_symbol).unwrap()), r#"String("plain $5")"#);
    assert_eq!(shown(&prune_fn(Expr::Int(3), as_symbol).unwrap()), "Int(3)");
}

#[test]
fn prune_keeps_annotations_of_templates() {
    let annotated = Expr::Annotated(
        Box::new(Expr::String("${x}!".to_owned())),
        vec![("type".to_owned(), Expr::Symbol("String".to_owned()))],
    );
    let pruned = prune_fn(annotated, as_symbol).expect("kept");
    assert_eq!(
        shown(&pruned),
        r#"Annotated(List([Symbol("format"), String(""), Symbol("x"), String("!")]), [("type", Symbol("String"))])"#
    );
}

#[test]
fn template_pieces_spell_the_text() {
    let input = "x ${a} y ${b}${ z";
    let code_marker = |code: &str| -> Result<Expr, Vec<Error>> { Ok(Expr::Symbol(code.to_owned())) };
    let Expr::List(items) = recognize_string_template(input, code_marker).expect("a template") else {
        panic!("expected a list");
    };
    let mut text = String::new();
    for item in &items[1..] {
        match item {
            Expr::String(s) => text.push_str(s),
            Expr::Symbol(code) => text.push_str(&format!("${{{code}}}")),
            other => panic!("unexpected item {other:?}"),
        }
    }
    assert_eq!(text, input);
}
