use tan::context::Context;
use tan::error::ErrorKind;
use tan::expr::{format_value, Expr, Float64};
use tan::library::cmark::common_mark_arguments;
use tan::library::dec::dec_from_string;
use tan::library::float::float_max_value;
use tan::library::integer::{int_bitwise_and, int_bitwise_or, int_from_bool, int_from_string};
use tan::library::io::{echo_output, unescape_text, write_output, writeln_output};
use tan::library::json::{expr_to_json_value, json_value_to_expr, JsonValue};
use tan::library::lang::{curry, with_ann};
use tan::library::math::complex::complex_new;
use tan::library::maybe::{expect, is_none, is_some, some_or};
use tan::library::rng::random_int;
use tan::library::uuid::uuid_new_v4;
use tan::ops::arithmetic::{add_int, add_int_impl, mul_int, sub_int};
use tan::library::json::json_source;
use tan::library::process::{command_argument, exit_code};
use tan::library::seq::{array_map, array_skip, array_slice, array_sort_mut};
use tan::ops::io::{file_path_argument, file_write_arguments};
use tan::optimize::optimize_fn;
use tan::parser::util::{recognize_range, RangeLiteral};
use tan::range::Position;
use tan::scope::Scope;

fn string(s: &str) -> Expr {
    Expr::String(s.to_owned())
}

fn symbol(s: &str) -> Expr {
    Expr::Symbol(s.to_owned())
}

fn shown(e: &Expr) -> String {
    format!("{e:?}")
}

#[test]
fn dec_from_string_reads_decimal() {
    let r = dec_from_string(&[string("12.50")]).expect("a decimal");
    assert_eq!(format_value(&r), "12.50");
}

#[test]
fn dec_from_string_reads_signs() {
    let r = dec_from_string(&[string("-0")]).expect("a decimal");
    assert_eq!(format_value(&r), "0");
    let r = dec_from_string(&[string("-1.25")]).expect("a decimal");
    assert_eq!(format_value(&r), "-1.25");
}

#[test]
fn dec_from_string_prints_point_and_zeros() {
    for (text, printed) in [("-0.05", "-0.05"), ("0.00", "0.00"), ("007", "7"), ("120", "120"), (".5", "0.5")] {
        let r = dec_from_string(&[string(text)]).expect("a decimal");
        assert_eq!(format_value(&r), printed, "for {text}");
    }
}

#[test]
fn dec_from_string_rejects_garbage() {
    let e = dec_from_string(&[string("12.5.1")]).expect_err("not a decimal");
    assert_eq!(e.kind, ErrorKind::InvalidArguments);
    assert_eq!(e.notes[0].text, "string=`12.5.1` is not a valid Dec number");
    let e = dec_from_string(&[Expr::Int(1)]).expect_err("not a string");
    assert_eq!(e.kind, ErrorKind::InvalidArguments);
}

#[test]
fn random_int_stays_below_end() {
    for _ in 0..100 {
        match random_int(&[Expr::Int(5)]).expect("an Int") {
            Expr::Int(n) => assert!((0..5).contains(&n)),
            other => panic!("expected an Int, got {other:?}"),
        }
    }
    let e = random_int(&[]).expect_err("no argument");
    assert_eq!(e.notes[0].text, "expected at least one argument");
    let e = random_int(&[string("x")]).expect_err("not an Int");
    assert_eq!(e.notes[0].text, "expected Int argument");
}

#[test]
fn uuid_new_v4_is_hyphenated() {
    let Expr::String(s) = uuid_new_v4(&[]).expect("a uuid") else {
        panic!("expected a String");
    };
    let chars: Vec<char> = s.chars().collect();
    assert_eq!(chars.len(), 36);
    for i in [8, 13, 18, 23] {
        assert_eq!(chars[i], '-');
    }
    assert_eq!(chars[14], '4');
    assert!(matches!(chars[19], '8' | '9' | 'a' | 'b'));
    for (i, c) in chars.iter().enumerate() {
        if ![8, 13, 18, 23].contains(&i) {
            assert!(c.is_ascii_digit() || ('a'..='f').contains(c), "{c} is not a lowercase hex digit");
        }
    }
}

#[test]
fn date_now_is_a_calendar_date() {
    let date = tan::library::chrono::chrono_date_now(&[]).expect("a date");
    let entries = date.as_dict().expect("a Dict");
    let get = |k: &str| entries.iter().find(|(n, _)| n == k).and_then(|(_, v)| v.as_int()).expect("a field");
    let (y, m, d) = (get("year"), get("month"), get("day"));
    assert!((1..=12).contains(&m));
    let leap = (y % 4 == 0 && y % 100 != 0) || y % 400 == 0;
    let days = match m {
        2 if leap => 29,
        2 => 28,
        4 | 6 | 9 | 11 => 30,
        _ => 31,
    };
    assert!(1 <= d && d <= days);
}

fn add_five(_func: &Expr, x: &Expr) -> Result<Expr, tan::error::Error> {
    match x.as_int() {
        Some(n) => Ok(Expr::Int(n + 5)),
        None => Err(tan::error::Error::invalid_arguments("expected Int", None)),
    }
}

#[test]
fn array_map_applies_the_function_to_each_item() {
    let mut context = Context::new();
    let args = [Expr::Nothing, Expr::Array(vec![Expr::Int(1), Expr::Int(2), Expr::Int(3), Expr::Int(4)])];
    let r = array_map(&args, &mut context, add_five).expect("mapped");
    assert_eq!(format_value(&r), "[6 7 8 9]");
}

#[test]
fn array_map_stops_at_the_first_error() {
    let mut context = Context::new();
    let args = [Expr::Nothing, Expr::Array(vec![Expr::Int(1), string("x"), Expr::Int(3)])];
    let e = array_map(&args, &mut context, add_five).expect_err("an item is no Int");
    assert_eq!(e.notes[0].text, "expected Int");
}

#[test]
fn array_map_checks_its_arguments() {
    let mut context = Context::new();
    let e = array_map(&[Expr::Nothing], &mut context, add_five).expect_err("one argument");
    assert_eq!(e.kind, ErrorKind::InvalidArguments);
    assert_eq!(e.notes[0].text, "requires `func` and `seq` arguments");
    let e = array_map(&[Expr::Nothing, Expr::Int(1)], &mut context, add_five).expect_err("no array");
    assert_eq!(e.notes[0].text, "`seq` must be an `Array`");
}

fn by_value(a: &Expr, b: &Expr) -> Result<Expr, tan::error::Error> {
    let (x, y) = (a.as_int().unwrap(), b.as_int().unwrap());
    Ok(Expr::Int(if x < y { -1 } else if x == y { 0 } else { 1 }))
}

#[test]
fn array_sort_mut_sorts_in_place() {
    let mut context = Context::new();
    let mut args = vec![
        Expr::Array(vec![Expr::Int(3), Expr::Int(1), Expr::Int(2), Expr::Int(1)]),
        Expr::Nothing,
    ];
    let r = array_sort_mut(&mut args, &mut context, by_value).expect("sorted");
    assert_eq!(format_value(&r), "[1 1 2 3]");
    assert_eq!(format_value(&args[0]), "[1 1 2 3]");
}

fn ints(v: &[i64]) -> Expr {
    Expr::Array(v.iter().map(|n| Expr::Int(*n)).collect())
}

#[test]
fn array_sort_mut_orders_by_the_comparator() {
    let mut context = Context::new();
    let ascending = |a: &Expr, b: &Expr| Ok(Expr::Int(a.as_int().unwrap() - b.as_int().unwrap()));
    let mut args = vec![ints(&[5, 1, 6, 4, 3]), Expr::Nothing];
    let r = array_sort_mut(&mut args, &mut context, ascending).expect("sorted");
    assert_eq!(format_value(&r), "[1 3 4 5 6]");
    let descending = |a: &Expr, b: &Expr| Ok(Expr::Int(b.as_int().unwrap() - a.as_int().unwrap()));
    let mut args = vec![ints(&[5, 1, 6, 4, 3]), Expr::Nothing];
    let r = array_sort_mut(&mut args, &mut context, descending).expect("sorted");
    assert_eq!(format_value(&r), "[6 5 4 3 1]");
}

#[test]
fn array_sort_mut_is_stable() {
    let mut context = Context::new();
    let pair = |k: i64, t: &str| Expr::Array(vec![Expr::Int(k), string(t)]);
    let by_key = |a: &Expr, b: &Expr| {
        let key = |e: &Expr| e.as_array().unwrap()[0].as_int().unwrap();
        Ok(Expr::Int(key(a) - key(b)))
    };
    let mut args = vec![Expr::Array(vec![pair(2, "a"), pair(1, "b"), pair(2, "c"), pair(1, "d")]), Expr::Nothing];
    let r = array_sort_mut(&mut args, &mut context, by_key).expect("sorted");
    assert_eq!(format_value(&r), r#"[[1 "b"] [1 "d"] [2 "a"] [2 "c"]]"#);
}

#[test]
fn array_sort_mut_checks_its_arguments() {
    let mut context = Context::new();
    let mut args = vec![Expr::Int(1)];
    let e = array_sort_mut(&mut args, &mut context, by_value).expect_err("one argument");
    assert_eq!(e.notes[0].text, "requires `array` and `func` arguments");
    let mut args = vec![Expr::Int(1), Expr::Nothing];
    let e = array_sort_mut(&mut args, &mut context, by_value).expect_err("no array");
    assert_eq!(e.notes[0].text, "`array` argument should be a Array");
}

#[test]
fn unescape_turns_escapes_into_line_breaks() {
    assert_eq!(unescape_text("a\\nb"), "a\nb");
    assert_eq!(unescape_text("plain"), "plain");
    assert_eq!(unescape_text("end\\"), "end\\");
}

#[test]
fn write_outputs() {
    let args = [string("a\\n"), Expr::Int(1), string("b")];
    assert_eq!(write_output(&args), "a\n1b");
    assert_eq!(writeln_output(&args), "a\n1b\n");
    assert_eq!(echo_output(&args), "a\n 1 b\n");
    assert_eq!(echo_output(&[]), "\n");
}

#[test]
fn with_ann_annotates_target() {
    let anns = Expr::Dict(vec![("inline".to_owned(), Expr::Bool(true))]);
    let r = with_ann(&[anns, symbol("x")]);
    match r {
        Ok(e) => assert_eq!(shown(&e), r#"Annotated(Symbol("x"), [("inline", Bool(true))])"#),
        Err(e) => panic!("unexpected error {e:?}"),
    }
    let e = with_ann(&[symbol("x"), symbol("y")]).unwrap_err();
    assert_eq!(e.notes[0].text, "`annotations` argument should be a Map");
}

#[test]
fn curry_nests_parameters() {
    let params = [symbol("x"), symbol("y")];
    let body = [Expr::List(vec![symbol("+"), symbol("x"), symbol("y")])];
    let (ps, b) = curry(&params, &body).expect("curried");
    assert_eq!(format!("{ps:?}"), r#"[Symbol("x")]"#);
    assert_eq!(
        format!("{b:?}"),
        r#"[List([Type("Func"), Array([Symbol("y")]), List([Symbol("+"), Symbol("x"), Symbol("y")])])]"#
    );
    assert!(curry(&[], &body).is_none());
}

#[test]
fn complex_new_fills_missing_parts() {
    let one = Float64 { bits: 1.0f64.to_bits(), text: "1".to_owned() };
    let r = complex_new(&[Expr::Float(one)]).expect("a complex");
    let text = shown(&r);
    assert!(text.starts_with("Annotated(Array([Float(Float64 { bits: 4607182418800017408"), "{text}");
    assert!(text.contains(r#"Float(Float64 { bits: 0, text: "0" })"#), "{text}");
    assert!(text.ends_with(r#"[("type", Type("Complex"))])"#), "{text}");
}

#[test]
fn common_mark_arguments_cases() {
    let (markup, unsafe_html) = common_mark_arguments(&[string("# Hi")]).expect("markup");
    assert_eq!(markup, "# Hi");
    assert!(!unsafe_html);
    let options = Expr::Dict(vec![("unsafe".to_owned(), Expr::Bool(true))]);
    let (_, unsafe_html) = common_mark_arguments(&[string("x"), options]).expect("markup");
    assert!(unsafe_html);
    let e = common_mark_arguments(&[]).expect_err("no markup");
    assert_eq!(e.notes[0].text, "expected at least one argument");
    let e = common_mark_arguments(&[Expr::Int(1)]).expect_err("not a string");
    assert_eq!(e.notes[0].text, "`markup` should be a String");
    let e = common_mark_arguments(&[string("x"), Expr::Int(1)]).expect_err("not a map");
    assert_eq!(e.notes[0].text, "options argument should be a map");
}

#[test]
fn json_read_then_write_round_trip() {
    let json = JsonValue::Object(vec![
        ("first_name".to_owned(), JsonValue::String("Ann".to_owned())),
        ("tags".to_owned(), JsonValue::Array(vec![JsonValue::Bool(true), JsonValue::Int(3)])),
    ]);
    let expr = json_value_to_expr(&json);
    assert_eq!(
        shown(&expr),
        r#"Dict([("first-name", String("Ann")), ("tags", Array([Bool(true), Int(3)]))])"#
    );
    let back = expr_to_json_value(&expr);
    assert_eq!(
        format!("{back:?}"),
        r#"Object([("first-name", String("Ann")), ("tags", Array([Bool(true), Int(3)]))])"#
    );
}

#[test]
fn json_null_reads_as_nothing() {
    assert_eq!(shown(&json_value_to_expr(&JsonValue::Null)), "Nothing");
}

#[test]
fn float_max_is_the_largest_double() {
    match float_max_value() {
        Expr::Float(f) => {
            assert_eq!(f.bits, f64::MAX.to_bits());
            assert_eq!(f.text, f64::MAX.to_string());
        }
        other => panic!("expected a Float, got {other:?}"),
    }
}

#[test]
fn int_conversions() {
    assert_eq!(shown(&int_from_bool(&[Expr::Bool(true)]).unwrap()), "Int(1)");
    assert_eq!(shown(&int_from_bool(&[Expr::Bool(false)]).unwrap()), "Int(0)");
    assert_eq!(shown(&int_from_string(&[string("-123")]).unwrap()), "Int(-123)");
    assert_eq!(int_from_string(&[string("12a")]).unwrap_err().kind, ErrorKind::InvalidArguments);
    assert_eq!(shown(&int_bitwise_and(&[Expr::Int(12), Expr::Int(10)]).unwrap()), "Int(8)");
    assert_eq!(shown(&int_bitwise_or(&[Expr::Int(12), Expr::Int(10)]).unwrap()), "Int(14)");
}

#[test]
fn maybe_functions() {
    assert_eq!(shown(&is_none(&[Expr::Nothing]).unwrap()), "Bool(true)");
    assert_eq!(shown(&is_some(&[Expr::Int(1)]).unwrap()), "Bool(true)");
    assert_eq!(shown(&some_or(&[Expr::Nothing, Expr::Int(2)]).unwrap()), "Int(2)");
    assert_eq!(shown(&some_or(&[Expr::Int(1), Expr::Int(2)]).unwrap()), "Int(1)");
    let mut context = Context::new();
    let e = expect(&[Expr::Nothing, string("a value")], &mut context).unwrap_err();
    assert_eq!(e.kind, ErrorKind::Panic);
    assert_eq!(e.notes[0].text, "Failed expect: a value");
}

#[test]
fn int_arithmetic() {
    assert_eq!(add_int_impl(vec![1, 2, 3]), 6);
    assert_eq!(shown(&add_int(&[Expr::Int(1), Expr::Int(2)]).unwrap()), "Int(3)");
    assert_eq!(shown(&mul_int(&[Expr::Int(3), Expr::Int(4)]).unwrap()), "Int(12)");
    assert_eq!(shown(&sub_int(&[Expr::Int(10), Expr::Int(4)]).unwrap()), "Int(6)");
    assert_eq!(add_int(&[Expr::Int(1), string("2")]).unwrap_err().kind, ErrorKind::InvalidArguments);
}

#[test]
fn scope_insert_get_remove() {
    let mut scope = Scope::empty();
    assert!(scope.insert("a", Expr::Int(1)).is_none());
    assert_eq!(shown(&scope.insert("a", Expr::Int(2)).unwrap()), "Int(1)");
    assert_eq!(shown(&scope.get("a").unwrap()), "Int(2)");
    assert!(scope.contains_name("a"));
    assert_eq!(shown(&scope.remove("a").unwrap()), "Int(2)");
    assert!(scope.get("a").is_none());
}

#[test]
fn scope_lookup_reaches_parent_and_shadows() {
    let mut parent = Scope::empty();
    parent.insert("a", Expr::Int(1));
    parent.insert("b", Expr::Int(5));
    let mut child = Scope::new(parent);
    child.insert("a", Expr::Int(2));
    assert_eq!(shown(&child.get("a").unwrap()), "Int(2)");
    assert_eq!(shown(&child.get("b").unwrap()), "Int(5)");
    assert!(!child.contains_name("b"));
    assert!(child.contains_name_recursive("b"));
}

#[test]
fn position_next_then_prev_col_returns() {
    let mut p = Position { index: 7, line: 2, col: 3 };
    p.move_to_next_col();
    assert_eq!((p.index, p.line, p.col), (8, 2, 4));
    p.move_to_prev_col();
    assert_eq!(p, Position { index: 7, line: 2, col: 3 });
    p.move_to_next_line();
    assert_eq!((p.index, p.line, p.col), (7, 3, 0));
}

#[test]
fn printed_int_range_reads_back() {
    let (a, b, c) = (-3i64, 7i64, 2i64);
    let text = format!("{a}..{b}/{c}");
    assert!(matches!(recognize_range(&text), Some(RangeLiteral::Int(-3, 7, 2))));
}

#[test]
fn sum_of_pushed_list_adds_the_new_item() {
    assert_eq!(add_int_impl(vec![4, 5, 6]), add_int_impl(vec![4, 5]) + 6);
    assert_eq!(add_int_impl(vec![]), 0);
}

#[test]
fn skip_gives_slice_to_end() {
    let mut context = Context::new();
    let arr = Expr::Array(vec![Expr::Int(1), Expr::Int(2), Expr::Int(3), Expr::Int(4)]);
    let skipped = array_skip(&[arr.deep_clone(), Expr::Int(2)], &mut context).unwrap();
    let sliced = array_slice(&[arr, Expr::Int(2)], &mut context).unwrap();
    assert_eq!(shown(&skipped), shown(&sliced));
    assert_eq!(shown(&skipped), "Array([Int(3), Int(4)])");
}

#[test]
fn optimize_fn_makes_dicts_and_is_idempotent() {
    let map_list = Expr::List(vec![symbol("Map"), string("a"), Expr::Int(1), string("b"), Expr::Int(2)]);
    let dict = optimize_fn(map_list);
    assert_eq!(shown(&dict), r#"Dict([("a", Int(1)), ("b", Int(2))])"#);
    let again = optimize_fn(dict.deep_clone());
    assert_eq!(shown(&again), shown(&dict));
    let other = Expr::List(vec![symbol("do"), Expr::Int(1)]);
    assert_eq!(shown(&optimize_fn(other)), r#"List([Symbol("do"), Int(1)])"#);
}

#[test]
fn json_source_checks_its_argument() {
    assert_eq!(json_source(&[string("{}")]).unwrap(), "{}");
    assert_eq!(json_source(&[]).unwrap_err().notes[0].text, "`read` requires `json` argument");
    assert_eq!(json_source(&[Expr::Int(1)]).unwrap_err().notes[0].text, "`json` argument should be a String");
}

#[test]
fn exit_code_and_command_arguments() {
    assert_eq!(exit_code(&[]).unwrap(), 0);
    assert_eq!(exit_code(&[Expr::Int(3)]).unwrap(), 3);
    assert_eq!(exit_code(&[string("x")]).unwrap_err().notes[0].text, "expected Int argument");
    assert_eq!(command_argument(&[string("ls")]).unwrap(), "ls");
    assert_eq!(command_argument(&[]).unwrap_err().notes[0].text, "`exec` requires `cmd` argument");
    assert_eq!(command_argument(&[Expr::Int(1)]).unwrap_err().notes[0].text, "`cmd` argument should be a String");
}

#[test]
fn file_arguments() {
    assert_eq!(file_path_argument(&[string("a.txt")]).unwrap(), "a.txt");
    assert_eq!(
        file_path_argument(&[]).unwrap_err().notes[0].text,
        "`read_as_string` requires a `path` argument"
    );
    let (p, c) = file_write_arguments(&[string("a.txt"), string("hi")]).unwrap();
    assert_eq!((p.as_str(), c.as_str()), ("a.txt", "hi"));
    assert_eq!(
        file_write_arguments(&[string("a.txt"), Expr::Int(1)]).unwrap_err().notes[0].text,
        "`content` argument should be a String"
    );
}
