use tan::context::Context;
use tan::error::Error;
use tan::expr::Expr;
use tan::library::cmark::html_from_common_mark;

fn render(args: &[Expr]) -> String {
    let mut context = Context::new();
    let Expr::String(value) = html_from_common_mark(args, &mut context).unwrap() else {
        panic!("expected a String");
    };
    value
}

#[test]
fn html_from_common_mark_usage() {
    let markup = Expr::Annotated(
        Box::new(Expr::String("# Title\nThis is a _nice_ text.".to_owned())),
        vec![("type".to_owned(), Expr::Symbol("Common-Mark".to_owned()))],
    );
    let value = render(&[markup]);
    let expected = "<h1>Title</h1>\n<p>This is a <em>nice</em> text.</p>\n";
    assert_eq!(value, expected);
}

#[test]
fn html_from_common_mark_passes_raw_html_only_when_asked() {
    let markup = || Expr::String("<b>x</b>".to_owned());
    let options = Expr::Dict(vec![("unsafe".to_owned(), Expr::Bool(true))]);
    assert_eq!(render(&[markup(), options]), "<p><b>x</b></p>\n");
    assert_eq!(render(&[markup()]), "<p><!-- raw HTML omitted -->x<!-- raw HTML omitted --></p>\n");
}

#[test]
fn html_from_common_mark_uses_the_extensions() {
    let value = render(&[Expr::String("~~gone~~".to_owned())]);
    assert_eq!(value, "<p><del>gone</del></p>\n");
}

#[test]
fn html_from_common_mark_errors() {
    let mut context = Context::new();
    let e: Error = html_from_common_mark(&[], &mut context).unwrap_err();
    assert_eq!(e.notes[0].text, "expected at least one argument");
    let e = html_from_common_mark(&[Expr::Int(1)], &mut context).unwrap_err();
    assert_eq!(e.notes[0].text, "`markup` should be a String");
    let e = html_from_common_mark(&[Expr::String("x".to_owned()), Expr::Int(1)], &mut context).unwrap_err();
    assert_eq!(e.notes[0].text, "options argument should be a map");
}
