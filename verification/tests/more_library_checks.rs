use tan::args::unpack_symbolic_arg;
use tan::context::Context;
use tan::error::ErrorKind;
use tan::expr::Expr;
use tan::library::bool::bool_not;
use tan::library::char::{char_is_lowercase, char_is_uppercase};
use tan::library::chrono::{
    chrono_date_format, chrono_date_from_components, chrono_date_from_map, chrono_date_to_rfc399, chrono_date_to_string,
    try_chrono_date_add_days, try_chrono_date_format,
};
use tan::library::eq::{eq_int, eq_string, eq_symbol, int_gt, lt, not_eq_int, not_eq_string, not_eq_symbol};
use tan::library::prelude::expr_to_string;
use tan::library::regex::{regex_split, regex_split_matches, try_regex_capture};
use tan::library::seq::{array_contains, array_count, array_is_empty, array_roll, list_count};
use tan::ops::eq::gt;
use tan::ops::string::{char_uppercased, string_chars, string_constructor_from_chars};

fn string(s: &str) -> Expr {
    Expr::String(s.to_owned())
}

fn symbol(s: &str) -> Expr {
    Expr::Symbol(s.to_owned())
}

fn shown(e: &Expr) -> String {
    format!("{e:?}")
}

fn ints(ns: &[i64]) -> Expr {
    Expr::Array(ns.iter().map(|n| Expr::Int(*n)).collect())
}

#[test]
fn equality_and_order_of_ints_strings_symbols() {
    let mut c = Context::new();
    assert_eq!(shown(&eq_int(&[Expr::Int(2), Expr::Int(2)], &mut c).unwrap()), "Bool(true)");
    assert_eq!(shown(&not_eq_int(&[Expr::Int(2), Expr::Int(2)], &mut c).unwrap()), "Bool(false)");
    assert_eq!(shown(&eq_string(&[string("a"), string("b")], &mut c).unwrap()), "Bool(false)");
    assert_eq!(shown(&not_eq_string(&[string("a"), string("b")], &mut c).unwrap()), "Bool(true)");
    assert_eq!(shown(&eq_symbol(&[symbol("a"), symbol("a")], &mut c).unwrap()), "Bool(true)");
    assert_eq!(shown(&not_eq_symbol(&[symbol("a"), symbol("a")], &mut c).unwrap()), "Bool(false)");
    assert_eq!(shown(&int_gt(&[Expr::Int(3), Expr::Int(2)], &mut c).unwrap()), "Bool(true)");
    assert_eq!(shown(&lt(&[Expr::Int(3), Expr::Int(2)], &mut c).unwrap()), "Bool(false)");
    assert_eq!(shown(&gt(&[Expr::Int(1), Expr::Int(2)]).unwrap()), "Bool(false)");
    assert_eq!(eq_int(&[Expr::Int(2), string("2")], &mut c).unwrap_err().kind, ErrorKind::InvalidArguments);
}

#[test]
fn counting_and_membership() {
    let mut c = Context::new();
    let list = Expr::List(vec![Expr::Int(1), Expr::Int(2)]);
    assert_eq!(shown(&list_count(&[list], &mut c).unwrap()), "Int(2)");
    assert_eq!(shown(&array_count(&[ints(&[1, 2, 3])], &mut c).unwrap()), "Int(3)");
    assert_eq!(shown(&array_is_empty(&[ints(&[])], &mut c).unwrap()), "Bool(true)");
    assert_eq!(shown(&array_contains(&[ints(&[1, 2, 3]), Expr::Int(2)], &mut c).unwrap()), "Bool(true)");
    assert_eq!(shown(&array_contains(&[ints(&[1, 2, 3]), Expr::Int(5)], &mut c).unwrap()), "Bool(false)");
    let e = list_count(&[Expr::Int(1)], &mut c).unwrap_err();
    assert_eq!(e.notes[0].text, "`list` argument should be a List");
}

#[test]
fn array_roll_gives_windows() {
    let mut c = Context::new();
    let r = array_roll(&[Expr::Int(2), ints(&[1, 2, 3, 4])], &mut c).unwrap();
    assert_eq!(
        shown(&r),
        "Array([Array([Int(1), Int(2)]), Array([Int(2), Int(3)]), Array([Int(3), Int(4)])])"
    );
    let r = array_roll(&[Expr::Int(5), ints(&[1, 2])], &mut c).unwrap();
    assert_eq!(shown(&r), "Array([])");
}

#[test]
fn bool_not_negates() {
    let mut c = Context::new();
    assert_eq!(shown(&bool_not(&[Expr::Bool(true)], &mut c).unwrap()), "Bool(false)");
    assert_eq!(bool_not(&[Expr::Int(1)], &mut c).unwrap_err().notes[0].text, "`not` argument should be boolean");
}

#[test]
fn char_cases() {
    assert_eq!(shown(&char_is_uppercase(&[Expr::Char('Ä')]).unwrap()), "Bool(true)");
    assert_eq!(shown(&char_is_lowercase(&[Expr::Char('Ä')]).unwrap()), "Bool(false)");
    assert_eq!(shown(&char_uppercased(&[Expr::Char('ß')]).unwrap()), "Char('S')");
    assert_eq!(shown(&char_uppercased(&[Expr::Char('q')]).unwrap()), "Char('Q')");
}

#[test]
fn strings_and_chars() {
    let chars = string_chars(&[string("hé")]).unwrap();
    assert_eq!(shown(&chars), "Array([Char('h'), Char('é')])");
    let back = string_constructor_from_chars(&[chars]).unwrap();
    assert_eq!(shown(&back), r#"String("hé")"#);
    let f = tan::ops::string::format(&[string("n="), Expr::Int(3), string(";")]).unwrap();
    assert_eq!(shown(&f), r#"String("n=3;")"#);
}

#[test]
fn expr_to_string_prints() {
    let mut c = Context::new();
    assert_eq!(shown(&expr_to_string(&[ints(&[1, 2])], &mut c).unwrap()), r#"String("[1 2]")"#);
    assert_eq!(expr_to_string(&[], &mut c).unwrap_err().notes[0].text, "requires `this` argument");
}

#[test]
fn regex_split_and_matches() {
    let pieces = regex_split(&[string(r"\s*,\s*"), string("a , b,c")]).unwrap();
    assert_eq!(shown(&pieces), r#"Array([String("a"), String("b"), String("c")])"#);
    let found = regex_split_matches(&[string(r"\d+"), string("a1b22c333")]).unwrap();
    assert_eq!(shown(&found), r#"Array([String("1"), String("22"), String("333")])"#);
    let e = regex_split(&[string("("), string("x")]).unwrap_err();
    assert_eq!(e.notes[0].text, "invalid regex pattern: `(`");
}

#[test]
fn regex_capture_with_missing_group_is_refused() {
    assert!(try_regex_capture(&[string(r"(a)|(b)"), string("b")]).is_none());
    let r = try_regex_capture(&[string(r"(\d+)-(\d+)"), string("12-34")]).expect("groups all take part");
    assert_eq!(shown(&r.unwrap()), r#"Array([String("12")])"#);
}

#[test]
fn dates_from_components_and_maps() {
    let d = chrono_date_from_components(&[Expr::Int(2024), Expr::Int(3), Expr::Int(9)]).unwrap();
    assert_eq!(shown(&chrono_date_to_string(&[d.deep_clone()]).unwrap()), r#"String("2024-03-09")"#);
    assert_eq!(shown(&chrono_date_to_rfc399(&[d.deep_clone()]).unwrap()), r#"String("2024-03-09T00:00:00")"#);
    let map = Expr::Dict(vec![
        ("year".to_owned(), Expr::Int(2020)),
        ("month".to_owned(), Expr::Int(12)),
        ("day".to_owned(), Expr::Int(31)),
    ]);
    let d2 = chrono_date_from_map(&[map]).unwrap();
    assert_eq!(shown(&chrono_date_to_string(&[d2]).unwrap()), r#"String("2020-12-31")"#);
    let formatted = chrono_date_format(&[string("%Y/%m/%d"), d]).unwrap();
    assert_eq!(shown(&formatted), r#"String("2024/03/09")"#);
}

#[test]
fn date_functions_refuse_impossible_dates() {
    let bad = chrono_date_from_components(&[Expr::Int(2024), Expr::Int(2), Expr::Int(30)]).unwrap();
    assert!(try_chrono_date_format(&[string("%Y"), bad.deep_clone()]).is_none());
    assert!(try_chrono_date_add_days(&[bad, Expr::Int(1)]).is_none());
    let good = chrono_date_from_components(&[Expr::Int(2024), Expr::Int(2), Expr::Int(28)]).unwrap();
    let next = try_chrono_date_add_days(&[good, Expr::Int(1)]).expect("a real date").unwrap();
    assert_eq!(shown(&chrono_date_to_string(&[next]).unwrap()), r#"String("2024-02-29")"#);
}

#[test]
fn symbolic_arguments() {
    let args = [symbol("a"), Expr::KeySymbol("k".to_owned()), Expr::Int(1)];
    assert_eq!(unpack_symbolic_arg(&args, 0, "x").unwrap(), "a");
    assert_eq!(unpack_symbolic_arg(&args, 1, "x").unwrap(), "k");
    assert_eq!(unpack_symbolic_arg(&args, 2, "x").unwrap_err().kind, ErrorKind::InvalidArguments);
}

#[test]
fn argument_error_messages() {
    let mut c = Context::new();
    assert_eq!(eq_int(&[], &mut c).unwrap_err().notes[0].text, "missing `a` argument");
    assert_eq!(eq_int(&[Expr::Int(1), string("x")], &mut c).unwrap_err().notes[0].text, "`b` argument should be an Int");
    assert_eq!(eq_string(&[string("a")], &mut c).unwrap_err().notes[0].text, "requires two arguments");
    assert_eq!(eq_string(&[Expr::Int(1), string("a")], &mut c).unwrap_err().notes[0].text, "invalid first argument");
    assert_eq!(gt(&[Expr::Int(1), symbol("a")]).unwrap_err().notes[0].text, "`a` is not an Int");
    assert_eq!(gt(&[Expr::Int(1)]).unwrap_err().notes[0].text, "`>` requires at least two arguments");
    assert_eq!(
        tan::ops::arithmetic::add_int(&[Expr::Int(1), symbol("x"), symbol("y")]).unwrap_err().notes[0].text,
        "x is not an Int"
    );
    assert_eq!(
        tan::ops::arithmetic::sub_int(&[symbol("q"), Expr::Int(1)]).unwrap_err().notes[0].text,
        "q is not an Int"
    );
    assert_eq!(
        tan::library::buffer::buffer_new(&[symbol("n")], &mut c).unwrap_err().notes[0].text,
        "length=`n` is not Int"
    );
    let mut put_args = vec![symbol("b"), Expr::Int(0), Expr::Int(1)];
    assert_eq!(
        tan::library::buffer::buffer_put(&mut put_args, &mut c).unwrap_err().notes[0].text,
        "buffer=`b` is not a Buffer"
    );
    assert_eq!(
        array_roll(&[Expr::Int(2), Expr::Int(3)], &mut c).unwrap_err().notes[0].text,
        "`items` argument should be an Array"
    );
    assert_eq!(
        chrono_date_from_components(&[Expr::Int(2024), string("x")]).unwrap_err().notes[0].text,
        "`month` argument should be an Int"
    );
    assert_eq!(string_chars(&[]).unwrap_err().notes[0].text, "`chars` requires `this` argument");
}
