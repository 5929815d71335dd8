use std::cmp::Ordering;

use tan::context::Context;
use tan::expr::{dict_get, format_value, Expr};
use tan::library::buffer::{buffer_new, buffer_put};
use tan::library::char::char_new;
use tan::library::chrono::{chrono_date, chrono_date_add_days, chrono_date_format, chrono_date_to_string};
use tan::library::cmp::rust_ordering_from_tan_ordering;
use tan::library::error::error_new;
use tan::library::html::html_from_expr;
use tan::library::lang::with_type;
use tan::library::path::{path_get_dirname, path_get_extension};
use tan::library::range::range_int_new;
use tan::library::regex::{regex_capture, regex_is_matching, regex_new};
use tan::library::seq::{array_concat_mut, array_join, array_push, array_skip, array_slice, list_cons};
use tan::library::set::{set_new, set_put, set_values};
use tan::library::u8::u8_new;
use tan::module::Module;
use tan::optimize::optimize_fn;

fn string(s: &str) -> Expr {
    Expr::String(s.to_owned())
}

fn symbol(s: &str) -> Expr {
    Expr::Symbol(s.to_owned())
}

fn list(items: Vec<Expr>) -> Expr {
    Expr::List(items)
}

fn dict(entries: Vec<(&str, Expr)>) -> Expr {
    Expr::Dict(entries.into_iter().map(|(k, v)| (k.to_owned(), v)).collect())
}

fn ints(ns: &[i64]) -> Expr {
    Expr::Array(ns.iter().map(|n| Expr::Int(*n)).collect())
}

#[test]
fn buffer_put_usage() {
    let mut context = Context::new();

    let buf = buffer_new(&[Expr::Int(4)], &mut context).unwrap();
    let mut args = vec![buf, Expr::Int(2), Expr::U8(9)];
    buffer_put(&mut args, &mut context).unwrap();
    let value = format_value(&args[0]);
    assert_eq!(value, "[0 0 9 0]");

    let buf = buffer_new(&[Expr::Int(4)], &mut context).unwrap();
    let mut args = vec![buf, Expr::Int(-4), Expr::U8(9)];
    let result = buffer_put(&mut args, &mut context);
    assert!(result.is_err());
    let error = result.err().unwrap();
    assert_eq!("buffer index=`-4` cannot be negative", error.notes[0].text);

    let buf = buffer_new(&[Expr::Int(4)], &mut context).unwrap();
    let mut args = vec![buf, Expr::Int(15), Expr::U8(9)];
    let result = buffer_put(&mut args, &mut context);
    assert!(result.is_err());
    let error = result.err().unwrap();
    assert_eq!("buffer index=`15` must be less than the buffer length", error.notes[0].text);
}

#[test]
fn char_char_new_usage() {
    let expr = char_new(&[string("c")]).unwrap();
    assert!(matches!(expr, Expr::Char(c) if c == 'c'));

    let result = char_new(&[string("")]);
    assert!(result.is_err());

    let result = char_new(&[string("abc")]);
    assert!(result.is_err());
}

#[test]
fn chrono_date_usage() {
    let args = [string("2024-01-17")];
    let date = chrono_date(&args).unwrap();
    let map = date.as_dict().unwrap();
    assert!(matches!(dict_get(map, "year").unwrap(), Expr::Int(year) if *year == 2024));
    assert!(matches!(dict_get(map, "month").unwrap(), Expr::Int(month) if *month == 1));
    assert!(matches!(dict_get(map, "day").unwrap(), Expr::Int(day) if *day == 17));
}

#[test]
fn chrono_date_add_days_usage() {
    let d = chrono_date(&[string("2024-01-18")]).unwrap();
    let d = chrono_date_add_days(&[d, Expr::Int(2)]).unwrap();
    let expr = chrono_date_to_string(&[d]).unwrap();
    assert!(matches!(expr, Expr::String(ref s) if s == "2024-01-20"));

    let d = chrono_date(&[string("2024-01-18")]).unwrap();
    let d = chrono_date_add_days(&[d, Expr::Int(-20)]).unwrap();
    let expr = chrono_date_to_string(&[d]).unwrap();
    assert!(matches!(expr, Expr::String(ref s) if s == "2023-12-29"));
}

#[test]
fn date_format_usage() {
    let d = chrono_date(&[string("2024-01-18")]).unwrap();
    let expr = chrono_date_format(&[string("%B %d, %Y"), d]).unwrap();
    assert!(matches!(expr, Expr::String(ref s) if s == "January 18, 2024"));
}

#[test]
fn rust_ordering_from_tan_ordering_usage() {
    assert!(matches!(rust_ordering_from_tan_ordering(&Expr::Int(20)), Some(Ordering::Greater)));
    assert!(matches!(rust_ordering_from_tan_ordering(&Expr::Int(0)), Some(Ordering::Equal)));
}

#[test]
fn error_new_usage() {
    let mut context = Context::new();
    let expr = error_new(&[string("undefined symbol")], &mut context).unwrap();
    let value = format_value(&expr);
    assert_eq!(value, r#"(Error "undefined symbol")"#);
}

#[test]
fn html_from_expr_usage() {
    let expr = list(vec![
        symbol("html"),
        dict(vec![("lang", string("el"))]),
        list(vec![
            symbol("head"),
            list(vec![symbol("title"), string("Hello")]),
            list(vec![symbol("link"), dict(vec![("href", string("https://www.example.com/icon.png"))])]),
        ]),
        list(vec![
            symbol("body"),
            list(vec![symbol("header"), string("A nice header")]),
            string("Hello "),
            string("George"),
            string("! Num: "),
            list(vec![symbol("b"), string("cool "), Expr::Int(3)]),
            list(vec![symbol("br")]),
            list(vec![symbol("br")]),
            list(vec![
                symbol("div"),
                string("Component: "),
                list(vec![symbol("i"), string("Stella")]),
                string(" is cool!"),
            ]),
            Expr::Nothing,
        ]),
    ]);
    let expr = html_from_expr(&[expr]).unwrap();
    let value = expr.as_string().unwrap();
    let expected = r#"<html lang="el"><head><title>Hello</title><link href="https://www.example.com/icon.png" /></head><body><header>A nice header</header>Hello George! Num: <b>cool 3</b><br /><br /><div>Component: <i>Stella</i> is cool!</div></body></html>"#;
    assert_eq!(value, expected);
}

#[test]
fn should_close_script_tags() {
    let expr = list(vec![symbol("script"), dict(vec![("src", string("https://example.com/script.js"))])]);
    let expr = html_from_expr(&[expr]).unwrap();
    let value = expr.as_string().unwrap();
    assert_eq!(value, r#"<script src="https://example.com/script.js"></script>"#);
}

#[test]
fn bare_script_tag_is_closed() {
    let expr = html_from_expr(&[list(vec![symbol("script")])]).unwrap();
    assert_eq!(expr.as_string().unwrap(), "<script></script>");
    let expr = html_from_expr(&[list(vec![symbol("br")])]).unwrap();
    assert_eq!(expr.as_string().unwrap(), "<br />");
}

#[test]
fn should_handle_doctype() {
    let expr = Expr::Array(vec![
        list(vec![symbol("!DOCTYPE")]),
        list(vec![symbol("script"), dict(vec![("src", string("https://example.com/script.js"))])]),
    ]);
    let expr = html_from_expr(&[expr]).unwrap();
    let value = expr.as_string().unwrap();
    assert_eq!(value, "<!DOCTYPE html>\n<script src=\"https://example.com/script.js\"></script>");
}

#[test]
fn should_handle_array_of_exprs() {
    let helper = Expr::Array(vec![
        list(vec![symbol("b"), string("Cool")]),
        list(vec![symbol("i"), string("Stuff")]),
    ]);
    let expr = list(vec![symbol("div"), helper, list(vec![symbol("b"), string("Works")])]);
    let expr = html_from_expr(&[expr]).unwrap();
    let value = expr.as_string().unwrap();
    assert_eq!(value, r#"<div><b>Cool</b><i>Stuff</i><b>Works</b></div>"#);
}

#[test]
fn with_type_usage() {
    let a = with_type(&[Expr::Type("First-Name".to_owned()), string("George")]).unwrap();
    let Expr::Annotated(_, anns) = &a else {
        panic!("expected an annotated expression");
    };
    let typ = dict_get(anns, "type").unwrap();
    assert_eq!(format_value(typ), "First-Name");
}

#[test]
fn path_get_dirname_usage() {
    let mut context = Context::new();
    let expr = path_get_dirname(&[string("/home/george/data/users.data.tan")], &mut context).unwrap();
    assert_eq!(expr.as_string().unwrap(), "/home/george/data");

    let expr = path_get_dirname(&[string("users.data.tan")], &mut context).unwrap();
    assert_eq!(expr.as_string().unwrap(), "");
}

#[test]
fn path_get_extension_usage() {
    let mut context = Context::new();
    let expr = path_get_extension(&[string("users.data.tan")], &mut context).unwrap();
    assert_eq!(expr.as_string().unwrap(), "data.tan");

    let expr = path_get_extension(&[string(".secret-file.data.tan")], &mut context).unwrap();
    assert_eq!(expr.as_string().unwrap(), "data.tan");
}

/// The items of an Int range, as a `for` loop walks them.
fn range_items(range: &Expr) -> Expr {
    let Expr::IntRange(start, end, step) = range else {
        panic!("expected an Int range");
    };
    let mut vals = Vec::new();
    let mut i = *start;
    while i < *end {
        vals.push(Expr::Int(i));
        i += step;
    }
    Expr::Array(vals)
}

#[test]
fn range_new_usage() {
    let range = range_int_new(&[Expr::Int(0), Expr::Int(5)]).unwrap();
    assert_eq!(format_value(&range_items(&range)), "[0 1 2 3 4]");

    let range = range_int_new(&[Expr::Int(1), Expr::Int(4)]).unwrap();
    assert_eq!(format_value(&range_items(&range)), "[1 2 3]");
}

#[test]
fn is_matching_usage() {
    let rx = regex_new(&[string("\\d+")]).unwrap();
    let expr = regex_is_matching(&[rx, string("1234")]).unwrap();
    assert_eq!(format_value(&expr), "true");

    let rx = regex_new(&[string("\\d+")]).unwrap();
    let expr = regex_is_matching(&[rx, string("hello")]).unwrap();
    assert_eq!(format_value(&expr), "false");
}

#[test]
fn capture_usage() {
    let rx = regex_new(&[string("\\s*(\\d+)\\s*")]).unwrap();
    let expr = regex_capture(&[rx, string(" 12,  345 6 7890    11 ")]).unwrap();
    assert_eq!(format_value(&expr), r#"["12" "345" "6" "7890" "11"]"#);

    let rx = regex_new(&[string("class=\"([\\w ]*)\"")]).unwrap();
    let expr = regex_capture(&[
        rx,
        string("<div class=\"cool stuff\"><i class=\"nice\">works</i><i class=\"work\">works</i></div>"),
    ])
    .unwrap();
    assert_eq!(format_value(&expr), r#"["cool stuff" "nice" "work"]"#);
}

#[test]
fn list_cons_usage() {
    let mut context = Context::new();
    let t = list(vec![Expr::Int(2), Expr::Int(3), Expr::Int(4), Expr::Int(5)]);
    let expr = list_cons(&[Expr::Int(1), t], &mut context).unwrap();
    assert_eq!(format_value(&expr), "(1 2 3 4 5)");
}

#[test]
fn array_push_usage() {
    let mut context = Context::new();
    let mut args = vec![ints(&[1, 2]), Expr::Int(3)];
    array_push(&mut args, &mut context).unwrap();
    args[1] = Expr::Int(4);
    array_push(&mut args, &mut context).unwrap();
    assert_eq!(format_value(&args[0]), "[1 2 3 4]");
}

#[test]
fn array_concat_mut_usage() {
    let mut context = Context::new();
    let mut args = vec![ints(&[1, 2]), ints(&[3, 4])];
    array_concat_mut(&mut args, &mut context).unwrap();
    assert_eq!(format_value(&args[0]), "[1 2 3 4]");
}

#[test]
fn array_join_usage() {
    let mut context = Context::new();
    let arr = Expr::Array(vec![string("george"), string("chris"), string("alex")]);
    let expr = array_join(&[arr, string(", ")], &mut context).unwrap();
    assert_eq!(format_value(&expr), "george, chris, alex");

    let arr = Expr::Array(vec![string("*"), string("*"), string("*")]);
    let expr = array_join(&[arr], &mut context).unwrap();
    assert_eq!(format_value(&expr), "***");
}

#[test]
fn array_skip_usage() {
    let mut context = Context::new();
    let expr = array_skip(&[ints(&[1, 2, 3, 4, 5]), Expr::Int(2)], &mut context).unwrap();
    assert_eq!(format_value(&expr), "[3 4 5]");

    let expr = array_skip(&[ints(&[1, 2, 3, 4])], &mut context).unwrap();
    assert_eq!(format_value(&expr), "[2 3 4]");
}

#[test]
fn array_filter_usage() {}

#[test]
fn slice_usage() {
    let mut context = Context::new();
    let expr = array_slice(&[ints(&[1, 2, 3, 4, 5]), Expr::Int(2)], &mut context).unwrap();
    assert_eq!(format_value(&expr), "[3 4 5]");
}

#[test]
fn set_put_usage() {
    let s = set_new(&[]).unwrap();
    let mut args = vec![s, string("hello")];
    set_put(&mut args).unwrap();
    set_put(&mut args).unwrap();
    set_put(&mut args).unwrap();
    args[1] = string("world");
    set_put(&mut args).unwrap();
    set_put(&mut args).unwrap();
    let expr = set_values(&[args.remove(0)]).unwrap();
    let values = expr.as_array().unwrap();
    assert_eq!(values.len(), 2);
    assert!(values.iter().any(|v| v.equals(&string("hello"))));
    assert!(values.iter().any(|v| v.equals(&string("world"))));
}

#[test]
fn u8_char_new_usage() {
    let expr = u8_new(&[Expr::Int(12)]).unwrap();
    assert!(matches!(expr, Expr::U8(n) if n == 12));

    let result = u8_new(&[Expr::Int(300)]);
    assert!(result.is_err());

    let result = u8_new(&[Expr::Int(-8)]);
    assert!(result.is_err());
}

#[test]
fn new_modules_do_not_duplicate_prelude() {
    let module = Module::default();
    assert_eq!(module.scope.bindings.len(), 0);
}

#[test]
fn optimize_fn_rewrites_array_list() {
    let input = list(vec![symbol("Array"), Expr::Int(1), Expr::Int(2), Expr::Int(3), Expr::Int(4)]);
    let optimized = optimize_fn(input);
    assert!(matches!(&optimized, Expr::Array(items) if items.len() == 4));
    assert_eq!(format_value(&optimized), "[1 2 3 4]");
}
