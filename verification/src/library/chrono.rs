//! Dates and times.

use vstd::prelude::*;

use std::fmt::Write;

use chrono::{Datelike, Timelike};

use crate::args::{dict_problem, first_problem, int_problem, unpack_dict_arg, unpack_int_arg};
use crate::context::{Context, Modules, bound_foreign, insert_foreign, lemma_bound_required, require_module};
use crate::error::{error_says, Error, ErrorKind};
use crate::expr::{
    annotate_type, annotated_value, clone_pairs, dict_get, dict_of, entry_value, first_key_from, int_of, pair_models,
    push_str, string_of, stringable_of, text_of, Expr, Value,
};
use crate::foreign::ForeignFn;
use crate::util::{digit_char, i64_to_string, int_text, nat_text};

verus! {

/// A calendar date and time of day, as plain numbers.
pub struct DateTimeParts {
    pub year: i64,
    pub month: i64,
    pub day: i64,
    pub hour: i64,
    pub minute: i64,
    pub second: i64,
}

/// A leap year of the proleptic Gregorian calendar.
pub open spec fn is_leap_year(year: int) -> bool {
    (year % 4 == 0 && year % 100 != 0) || year % 400 == 0
}

/// The number of days of the month (1 to 12) in the year.
pub open spec fn days_in_month(year: int, month: int) -> int {
    if month == 2 {
        if is_leap_year(year) {
            29
        } else {
            28
        }
    } else if month == 4 || month == 6 || month == 9 || month == 11 {
        30
    } else {
        31
    }
}

/// `Utc::now().naive_utc()`: the current date and time in UTC, a day that
/// exists in the calendar. Which instant it is, is the clock's; only that
/// it is a real date and time is stated.
#[verifier::external_body]
fn utc_now() -> (r: DateTimeParts)
    ensures
        1 <= r.month <= 12,
        1 <= r.day <= days_in_month(r.year as int, r.month as int),
        0 <= r.hour <= 23,
        0 <= r.minute <= 59,
        0 <= r.second <= 59,
{
    let t = chrono::Utc::now().naive_utc();
    DateTimeParts {
        year: t.year() as i64,
        month: t.month() as i64,
        day: t.day() as i64,
        hour: t.hour() as i64,
        minute: t.minute() as i64,
        second: t.second() as i64,
    }
}

/// The date, as year, month and day, that `NaiveDate::parse_from_str` reads
/// from the text with the format `%Y-%m-%d`, where it reads one.
pub uninterp spec fn iso_date_parse(text: Seq<char>) -> Option<(i64, i64, i64)>;

/// `NaiveDate::parse_from_str(text, "%Y-%m-%d")`: the date read from the
/// text, as year, month (1 to 12) and day (1 to 31).
#[verifier::external_body]
fn parse_iso_date(text: &str) -> (r: Option<(i64, i64, i64)>)
    ensures
        r == iso_date_parse(text@),
        r matches Some((y, m, d)) ==> 1 <= m <= 12 && 1 <= d <= 31,
{
    match chrono::NaiveDate::parse_from_str(text, "%Y-%m-%d") {
        Ok(d) => Some((d.year() as i64, d.month() as i64, d.day() as i64)),
        Err(_) => None,
    }
}

/// The text that `NaiveDate::format` writes for the date with the format
/// description, where the description is valid (and the date exists).
pub uninterp spec fn date_format_text(year: i64, month: i64, day: i64, fmt: Seq<char>) -> Option<Seq<char>>;

/// `NaiveDate::from_ymd_opt` then `format`, written out: the formatted date,
/// where the date exists and the format description is valid.
#[verifier::external_body]
fn format_date(year: i64, month: i64, day: i64, fmt: &str) -> (r: Option<String>)
    ensures
        r matches Some(t) ==> date_format_text(year, month, day, fmt@) == Some(t@),
        r is None ==> date_format_text(year, month, day, fmt@) is None,
{
    let date = chrono::NaiveDate::from_ymd_opt(year as i32, month as u32, day as u32)?;
    let mut out = String::new();
    match write!(out, "{}", date.format(fmt)) {
        Ok(()) => Some(out),
        Err(_) => None,
    }
}

/// The date, as year, month and day, that lies the given number of days
/// after the date, where both exist in chrono's calendar.
pub uninterp spec fn date_plus_days(year: i64, month: i64, day: i64, days: i64) -> Option<(i64, i64, i64)>;

/// `NaiveDate::from_ymd_opt`, `TimeDelta::try_days` and
/// `checked_add_signed`: the date the given number of days later, as year,
/// month (1 to 12) and day (1 to 31), where none of them overflows.
#[verifier::external_body]
fn add_days_to_date(year: i64, month: i64, day: i64, days: i64) -> (r: Option<(i64, i64, i64)>)
    ensures
        r == date_plus_days(year, month, day, days),
        r matches Some((y, m, d)) ==> 1 <= m <= 12 && 1 <= d <= 31,
{
    let date = chrono::NaiveDate::from_ymd_opt(year as i32, month as u32, day as u32)?;
    let later = date.checked_add_signed(chrono::TimeDelta::try_days(days)?)?;
    Some((later.year() as i64, later.month() as i64, later.day() as i64))
}

/// A number printed with at least two digits, as `{:02}` prints it.
pub open spec fn pad2(n: int) -> Seq<char> {
    if 0 <= n < 10 {
        seq!['0'] + int_text(n)
    } else {
        int_text(n)
    }
}

/// The number printed with at least two digits.
fn pad2_text(n: i64) -> (r: String)
    ensures
        r@ == pad2(n as int),
{
    let t = i64_to_string(n);
    if 0 <= n && n < 10 {
        let mut out = String::new();
        push_str(&mut out, "0");
        push_str(&mut out, t.as_str());
        proof {
            reveal_strlit("0");
        }
        out
    } else {
        t
    }
}

/// A Date: a dictionary of year, month and day, of type `Date`.
pub open spec fn date_value(year: i64, month: i64, day: i64) -> Value {
    annotated_value(
        Value::Dict(seq![("year"@, Value::Int(year)), ("month"@, Value::Int(month)), ("day"@, Value::Int(day))]),
        "type"@,
        Value::Type("Date"@),
    )
}

/// A Date-Time: a dictionary of year, month, day, hour, minute and second,
/// of type `Date-Time`.
pub open spec fn date_time_value(p: DateTimeParts) -> Value {
    annotated_value(
        Value::Dict(
            seq![
                ("year"@, Value::Int(p.year)),
                ("month"@, Value::Int(p.month)),
                ("day"@, Value::Int(p.day)),
                ("hour"@, Value::Int(p.hour)),
                ("minute"@, Value::Int(p.minute)),
                ("second"@, Value::Int(p.second)),
            ],
        ),
        "type"@,
        Value::Type("Date-Time"@),
    )
}

/// The Date-Time of the given parts.
pub fn tan_date_time_from_rust_date_time(p: DateTimeParts) -> (r: Expr)
    ensures
        r.model() == date_time_value(p),
{
    let mut entries: Vec<(String, Expr)> = Vec::new();
    entries.push(("year".to_owned(), Expr::Int(p.year)));
    entries.push(("month".to_owned(), Expr::Int(p.month)));
    entries.push(("day".to_owned(), Expr::Int(p.day)));
    entries.push(("hour".to_owned(), Expr::Int(p.hour)));
    entries.push(("minute".to_owned(), Expr::Int(p.minute)));
    entries.push(("second".to_owned(), Expr::Int(p.second)));
    assert(pair_models(entries@) =~= seq![
        ("year"@, Value::Int(p.year)),
        ("month"@, Value::Int(p.month)),
        ("day"@, Value::Int(p.day)),
        ("hour"@, Value::Int(p.hour)),
        ("minute"@, Value::Int(p.minute)),
        ("second"@, Value::Int(p.second)),
    ]);
    annotate_type(Expr::Dict(entries), "Date-Time")
}

/// `(Date-Time)`: the current date and time, in UTC.
pub fn chrono_date_time_now(args: &[Expr]) -> (r: Result<Expr, Error>)
    ensures
        r matches Ok(e) && exists|p: DateTimeParts| #[trigger] date_time_value(p) == e.model() && 1 <= p.month <= 12
            && 1 <= p.day <= days_in_month(p.year as int, p.month as int) && 0 <= p.hour <= 23 && 0 <= p.minute <= 59 && 0 <= p.second <= 59,
{
    let p = utc_now();
    let e = tan_date_time_from_rust_date_time(p);
    assert(date_time_value(p) == e.model());
    Ok(e)
}

/// `(Date-Time)`: the current date and time; only the form without
/// arguments exists.
pub fn chrono_date_time(args: &[Expr]) -> (r: Result<Expr, Error>)
    requires
        args@.len() == 0,
    ensures
        r matches Ok(e) && exists|p: DateTimeParts| #[trigger] date_time_value(p) == e.model() && 1 <= p.month <= 12
            && 1 <= p.day <= days_in_month(p.year as int, p.month as int) && 0 <= p.hour <= 23 && 0 <= p.minute <= 59 && 0 <= p.second <= 59,
{
    chrono_date_time_now(args)
}

/// The value of the entry `key` as an Int, where it is one.
fn int_entry(entries: &Vec<(String, Expr)>, key: &str) -> (r: Option<i64>)
    requires
        entry_value(pair_models(entries@), key@) is Some,
    ensures
        r == int_of(entry_value(pair_models(entries@), key@)->0),
{
    match dict_get(entries, key) {
        Some(e) => e.as_int(),
        None => None,
    }
}

/// The entries hold all of the keys.
pub open spec fn has_entries(s: Seq<(Seq<char>, Value)>, keys: Seq<Seq<char>>) -> bool {
    forall|i: int| 0 <= i < keys.len() ==> #[trigger] entry_value(s, keys[i]) is Some
}

/// The Int of the entry `key`, where it is one.
pub open spec fn int_field(s: Seq<(Seq<char>, Value)>, key: Seq<char>) -> Option<i64> {
    int_of(entry_value(s, key)->0)
}

/// The keys of a Date-Time.
pub open spec fn date_time_keys() -> Seq<Seq<char>> {
    seq!["year"@, "month"@, "day"@, "hour"@, "minute"@, "second"@]
}

/// The keys of a Date.
pub open spec fn date_keys() -> Seq<Seq<char>> {
    seq!["year"@, "month"@, "day"@]
}

/// The text of a Date-Time: `YYYY-MM-DDTHH:MM:SSZ`, or the message of the
/// error for the first field that is not an Int.
pub open spec fn date_time_text(s: Seq<(Seq<char>, Value)>) -> Result<Seq<char>, Seq<char>> {
    match (int_field(s, "year"@), int_field(s, "month"@), int_field(s, "day"@)) {
        (None, _, _) => Err("invalid Date-Time"@),
        (_, None, _) => Err("invalid Date-Time"@),
        (_, _, None) => Err("invalid Dat-Time"@),
        (Some(y), Some(m), Some(d)) => match (int_field(s, "hour"@), int_field(s, "minute"@), int_field(s, "second"@)) {
            (Some(h), Some(mi), Some(sec)) => Ok(int_text(y as int) + seq!['-'] + pad2(m as int) + seq!['-'] + pad2(d as int)
                + seq!['T'] + pad2(h as int) + seq![':'] + pad2(mi as int) + seq![':'] + pad2(sec as int) + seq!['Z']),
            _ => Err("invalid Date-Time"@),
        },
    }
}

/// `(to-rfc-399 this)`: the text of the Date-Time `this`,
/// `YYYY-MM-DDTHH:MM:SSZ`. A dictionary without one of the six fields has no text.
pub fn chrono_date_time_to_string(args: &[Expr]) -> (r: Result<Expr, Error>)
    requires
        args@.len() == 1 && dict_of(args@[0].model()) is Some ==> has_entries(dict_of(args@[0].model())->0, date_time_keys()),
    ensures
        args@.len() != 1 ==> (r matches Err(e) && error_says(e, ErrorKind::InvalidArguments, "requires `this` argument"@)),
        args@.len() == 1 && dict_of(args@[0].model()) is None ==> (r matches Err(e) && error_says(
            e,
            ErrorKind::InvalidArguments,
            "`this` argument should be a Date-Time"@,
        )),
        args@.len() == 1 && dict_of(args@[0].model()) is Some ==> (match date_time_text(dict_of(args@[0].model())->0) {
            Ok(t) => r matches Ok(e) && e.model() == Value::String(t),
            Err(m) => r matches Err(e) && error_says(e, ErrorKind::InvalidArguments, m),
        }),
{
    if args.len() != 1 {
        return Err(Error::invalid_arguments("requires `this` argument", None));
    }
    let Some(map) = args[0].as_dict() else {
        return Err(Error::invalid_arguments("`this` argument should be a Date-Time", None));
    };
    let ghost s = pair_models(map@);
    proof {
        assert(entry_value(s, date_time_keys()[0]) is Some);
        assert(entry_value(s, date_time_keys()[1]) is Some);
        assert(entry_value(s, date_time_keys()[2]) is Some);
        assert(entry_value(s, date_time_keys()[3]) is Some);
        assert(entry_value(s, date_time_keys()[4]) is Some);
        assert(entry_value(s, date_time_keys()[5]) is Some);
    }
    let Some(year) = int_entry(map, "year") else {
        return Err(Error::invalid_arguments("invalid Date-Time", None));
    };
    let Some(month) = int_entry(map, "month") else {
        return Err(Error::invalid_arguments("invalid Date-Time", None));
    };
    let Some(day) = int_entry(map, "day") else {
        return Err(Error::invalid_arguments("invalid Dat-Time", None));
    };
    let Some(hour) = int_entry(map, "hour") else {
        return Err(Error::invalid_arguments("invalid Date-Time", None));
    };
    let Some(minute) = int_entry(map, "minute") else {
        return Err(Error::invalid_arguments("invalid Date-Time", None));
    };
    let Some(second) = int_entry(map, "second") else {
        return Err(Error::invalid_arguments("invalid Date-Time", None));
    };
    let mut out = i64_to_string(year);
    push_str(&mut out, "-");
    push_str(&mut out, pad2_text(month).as_str());
    push_str(&mut out, "-");
    push_str(&mut out, pad2_text(day).as_str());
    push_str(&mut out, "T");
    push_str(&mut out, pad2_text(hour).as_str());
    push_str(&mut out, ":");
    push_str(&mut out, pad2_text(minute).as_str());
    push_str(&mut out, ":");
    push_str(&mut out, pad2_text(second).as_str());
    push_str(&mut out, "Z");
    proof {
        reveal_strlit("-");
        reveal_strlit("T");
        reveal_strlit(":");
        reveal_strlit("Z");
    }
    Ok(Expr::String(out))
}

/// `(to-rfc-399 this)`: the text of the Date-Time, as `to-string` gives it.
pub fn chrono_date_time_to_rfc399(args: &[Expr]) -> (r: Result<Expr, Error>)
    requires
        args@.len() == 1 && dict_of(args@[0].model()) is Some ==> has_entries(dict_of(args@[0].model())->0, date_time_keys()),
    ensures
        args@.len() != 1 ==> (r matches Err(e) && error_says(e, ErrorKind::InvalidArguments, "requires `this` argument"@)),
        args@.len() == 1 && dict_of(args@[0].model()) is None ==> (r matches Err(e) && error_says(
            e,
            ErrorKind::InvalidArguments,
            "`this` argument should be a Date-Time"@,
        )),
        args@.len() == 1 && dict_of(args@[0].model()) is Some ==> (match date_time_text(dict_of(args@[0].model())->0) {
            Ok(t) => r matches Ok(e) && e.model() == Value::String(t),
            Err(m) => r matches Err(e) && error_says(e, ErrorKind::InvalidArguments, m),
        }),
{
    chrono_date_time_to_string(args)
}

/// The Date of the given year, month and day.
pub fn tan_date_from_components(year: i64, month: i64, day: i64) -> (r: Expr)
    ensures
        r.model() == date_value(year, month, day),
{
    let mut entries: Vec<(String, Expr)> = Vec::new();
    entries.push(("year".to_owned(), Expr::Int(year)));
    entries.push(("month".to_owned(), Expr::Int(month)));
    entries.push(("day".to_owned(), Expr::Int(day)));
    assert(pair_models(entries@) =~= seq![
        ("year"@, Value::Int(year)),
        ("month"@, Value::Int(month)),
        ("day"@, Value::Int(day)),
    ]);
    annotate_type(Expr::Dict(entries), "Date")
}

/// The Date of a date given as year, month and day.
pub fn tan_date_from_rust_date(year: i64, month: i64, day: i64) -> (r: Expr)
    ensures
        r.model() == date_value(year, month, day),
{
    tan_date_from_components(year, month, day)
}

/// `(Date)`: the current date, in UTC.
pub fn chrono_date_now(args: &[Expr]) -> (r: Result<Expr, Error>)
    ensures
        r matches Ok(e) && exists|y: i64, m: i64, d: i64| #[trigger] date_value(y, m, d) == e.model() && 1 <= m <= 12
            && 1 <= d <= days_in_month(y as int, m as int),
{
    let p = utc_now();
    let e = tan_date_from_rust_date(p.year, p.month, p.day);
    assert(date_value(p.year, p.month, p.day) == e.model());
    Ok(e)
}

/// `(Date str)`: the Date that a `YYYY-MM-DD` text denotes.
pub fn chrono_date_from_string(args: &[Expr]) -> (r: Result<Expr, Error>)
    ensures
        args@.len() != 1 ==> (r matches Err(e) && error_says(e, ErrorKind::InvalidArguments, "requires `str` argument"@)),
        args@.len() == 1 && string_of(args@[0].model()) is None ==> (r matches Err(e) && error_says(
            e,
            ErrorKind::InvalidArguments,
            "`str` argument should be a String"@,
        )),
        args@.len() == 1 && string_of(args@[0].model()) is Some ==> (match iso_date_parse(string_of(args@[0].model())->0) {
            Some((y, m, d)) => r matches Ok(e) && e.model() == date_value(y, m, d),
            None => r matches Err(e) && error_says(e, ErrorKind::InvalidArguments, "invalid date string"@),
        }),
{
    if args.len() != 1 {
        return Err(Error::invalid_arguments("requires `str` argument", None));
    }
    let Some(s) = args[0].as_string() else {
        return Err(Error::invalid_arguments("`str` argument should be a String", None));
    };
    match parse_iso_date(s.as_str()) {
        Some((y, m, d)) => Ok(tan_date_from_rust_date(y, m, d)),
        None => Err(Error::invalid_arguments("invalid date string", None)),
    }
}

/// `(Date)` or `(Date str)`: the current date, or the date that the text denotes.
pub fn chrono_date(args: &[Expr]) -> (r: Result<Expr, Error>)
    ensures
        args@.len() == 0 ==> (r matches Ok(e) && exists|y: i64, m: i64, d: i64| #[trigger] date_value(y, m, d)
            == e.model() && 1 <= m <= 12 && 1 <= d <= 31),
        args@.len() > 1 ==> (r matches Err(e) && error_says(e, ErrorKind::InvalidArguments, "requires `str` argument"@)),
        args@.len() == 1 && string_of(args@[0].model()) is None ==> (r matches Err(e) && error_says(
            e,
            ErrorKind::InvalidArguments,
            "`str` argument should be a String"@,
        )),
        args@.len() == 1 && string_of(args@[0].model()) is Some ==> (match iso_date_parse(string_of(args@[0].model())->0) {
            Some((y, m, d)) => r matches Ok(e) && e.model() == date_value(y, m, d),
            None => r matches Err(e) && error_says(e, ErrorKind::InvalidArguments, "invalid date string"@),
        }),
{
    if args.len() == 0 {
        chrono_date_now(args)
    } else {
        chrono_date_from_string(args)
    }
}

/// `(Date year month day)`: the Date of the given numbers.
pub fn chrono_date_from_components(args: &[Expr]) -> (r: Result<Expr, Error>)
    ensures
        args@.len() >= 3 && int_of(args@[0].model()) is Some && int_of(args@[1].model()) is Some && int_of(
            args@[2].model(),
        ) is Some ==> (r matches Ok(e) && e.model() == date_value(
            int_of(args@[0].model())->0,
            int_of(args@[1].model())->0,
            int_of(args@[2].model())->0,
        )),
        match first_problem(
            int_problem(args@, 0, "year"@),
            first_problem(int_problem(args@, 1, "month"@), int_problem(args@, 2, "day"@)),
        ) {
            Some(m) => r matches Err(e) && error_says(e, ErrorKind::InvalidArguments, m),
            None => true,
        },
{
    let year = unpack_int_arg(args, 0, "year")?;
    let month = unpack_int_arg(args, 1, "month")?;
    let day = unpack_int_arg(args, 2, "day")?;
    Ok(tan_date_from_components(year, month, day))
}

/// `(Date components)`: the dictionary of components, of type `Date`.
pub fn chrono_date_from_map(args: &[Expr]) -> (r: Result<Expr, Error>)
    ensures
        args@.len() >= 1 && dict_of(args@[0].model()) is Some ==> (r matches Ok(e) && e.model() == annotated_value(
            Value::Dict(dict_of(args@[0].model())->0),
            "type"@,
            Value::Type("Date"@),
        )),
        match dict_problem(args@, 0, "components"@) {
            Some(m) => r matches Err(e) && error_says(e, ErrorKind::InvalidArguments, m),
            None => true,
        },
{
    let map = unpack_dict_arg(args, 0, "components")?;
    let entries = clone_pairs(map);
    Ok(annotate_type(Expr::Dict(entries), "Date"))
}

/// The text `year-month-day` of the printed fields of a Date.
pub open spec fn tan_date_text(s: Seq<(Seq<char>, Value)>) -> Seq<char> {
    text_of(entry_value(s, "year"@)->0) + seq!['-'] + text_of(entry_value(s, "month"@)->0) + seq!['-']
        + text_of(entry_value(s, "day"@)->0)
}

/// The date, as year, month and day, that a Date denotes: a dictionary with
/// the three fields whose printed values read as a `%Y-%m-%d` date.
pub open spec fn tan_date_denotes(v: Value) -> Option<(i64, i64, i64)> {
    match dict_of(v) {
        Some(s) => if has_entries(s, date_keys()) {
            iso_date_parse(tan_date_text(s))
        } else {
            None
        },
        None => None,
    }
}

/// The date that a Date denotes, where it denotes one.
pub fn tan_date_parts(tan_date: &Expr) -> (r: Option<(i64, i64, i64)>)
    ensures
        r == tan_date_denotes(tan_date.model()),
{
    let Some(map) = tan_date.as_dict() else {
        return None;
    };
    let ghost s = pair_models(map@);
    let Some(year) = dict_get(map, "year") else {
        return None;
    };
    let Some(month) = dict_get(map, "month") else {
        proof {
            assert(entry_value(s, date_keys()[1]) is None);
        }
        return None;
    };
    let Some(day) = dict_get(map, "day") else {
        proof {
            assert(entry_value(s, date_keys()[2]) is None);
        }
        return None;
    };
    proof {
        assert(entry_value(s, "year"@) is Some);
        assert(entry_value(s, "month"@) is Some);
        assert(entry_value(s, "day"@) is Some);
        assert(date_keys()[0] == "year"@ && date_keys()[1] == "month"@ && date_keys()[2] == "day"@);
        assert(has_entries(s, date_keys()));
        assert(dict_of(tan_date.model()) == Some(s));
    }
    let mut text = year.to_text();
    push_str(&mut text, "-");
    push_str(&mut text, month.to_text().as_str());
    push_str(&mut text, "-");
    push_str(&mut text, day.to_text().as_str());
    proof {
        reveal_strlit("-");
        assert(text@ =~= tan_date_text(s));
    }
    parse_iso_date(text.as_str())
}

/// The date, as year, month and day, that the Date denotes.
pub fn rust_date_from_tan_date(tan_date: &Expr) -> (r: (i64, i64, i64))
    requires
        tan_date_denotes(tan_date.model()) is Some,
    ensures
        tan_date_denotes(tan_date.model()) == Some(r),
{
    match tan_date_parts(tan_date) {
        Some(t) => t,
        None => (0, 0, 0),
    }
}

/// `(format-string spec date)` panics nowhere on these arguments: the date
/// denotes a date, and where the spec is a text, it is a valid format of it.
pub open spec fn date_format_defined(args: Seq<Expr>) -> bool {
    args.len() == 2 ==> (tan_date_denotes(args[1].model()) matches Some((y, m, d)) && (stringable_of(args[0].model()) is Some
        ==> date_format_text(y, m, d, stringable_of(args[0].model())->0) is Some))
}

/// `(format-string spec date)`: the date formatted by the strftime-style
/// description `spec`.
pub fn chrono_date_format(args: &[Expr]) -> (r: Result<Expr, Error>)
    requires
        date_format_defined(args@),
    ensures
        args@.len() != 2 ==> (r matches Err(e) && error_says(e, ErrorKind::InvalidArguments, "requires `spec` and `date` arguments"@)),
        args@.len() == 2 && stringable_of(args@[0].model()) is None ==> (r matches Err(e) && error_says(
            e,
            ErrorKind::InvalidArguments,
            "`format-spec` argument should be a Stringable"@,
        )),
        args@.len() == 2 && stringable_of(args@[0].model()) is Some ==> (tan_date_denotes(args@[1].model()) matches Some((y, m, d))
            && r matches Ok(e) && e.model() == Value::String(date_format_text(y, m, d, stringable_of(args@[0].model())->0)->0)),
{
    if args.len() != 2 {
        return Err(Error::invalid_arguments("requires `spec` and `date` arguments", None));
    }
    let (y, m, d) = rust_date_from_tan_date(&args[1]);
    let Some(fmt) = args[0].as_stringable() else {
        return Err(Error::invalid_arguments("`format-spec` argument should be a Stringable", None));
    };
    match format_date(y, m, d, fmt.as_str()) {
        Some(t) => Ok(Expr::String(t)),
        None => Ok(Expr::String(String::new())),
    }
}

/// `format-string` where it has a value: `None` where the date denotes no
/// date, or the spec is not a valid format.
pub fn try_chrono_date_format(args: &[Expr]) -> (r: Option<Result<Expr, Error>>)
    ensures
        r is None <==> !date_format_defined(args@),
        r matches Some(res) ==> date_format_defined(args@),
{
    if args.len() == 2 {
        let Some((y, m, d)) = tan_date_parts(&args[1]) else {
            return None;
        };
        if let Some(fmt) = args[0].as_stringable() {
            if format_date(y, m, d, fmt.as_str()).is_none() {
                return None;
            }
        }
    }
    Some(chrono_date_format(args))
}

/// `(add-days this days)` panics nowhere on these arguments: where `days` is
/// an Int, `this` denotes a date, and the date that many days later exists.
pub open spec fn add_days_defined(args: Seq<Expr>) -> bool {
    args.len() == 2 && int_of(args[1].model()) is Some ==> (tan_date_denotes(args[0].model()) matches Some((y, m, d))
        && date_plus_days(y, m, d, int_of(args[1].model())->0) is Some)
}

/// `(add-days this days)`: the Date that lies `days` days after the Date `this`.
pub fn chrono_date_add_days(args: &[Expr]) -> (r: Result<Expr, Error>)
    requires
        add_days_defined(args@),
    ensures
        args@.len() != 2 ==> (r matches Err(e) && error_says(e, ErrorKind::InvalidArguments, "requires `this` argument"@)),
        args@.len() == 2 && int_of(args@[1].model()) is None ==> (r matches Err(e) && error_says(
            e,
            ErrorKind::InvalidArguments,
            "`days` argument should be an Int"@,
        )),
        args@.len() == 2 && int_of(args@[1].model()) is Some ==> (tan_date_denotes(args@[0].model()) matches Some((y, m, d))
            && date_plus_days(y, m, d, int_of(args@[1].model())->0) matches Some((ny, nm, nd))
            && r matches Ok(e) && e.model() == date_value(ny, nm, nd)),
{
    if args.len() != 2 {
        return Err(Error::invalid_arguments("requires `this` argument", None));
    }
    let Some(days) = args[1].as_int() else {
        return Err(Error::invalid_arguments("`days` argument should be an Int", None));
    };
    let (y, m, d) = rust_date_from_tan_date(&args[0]);
    match add_days_to_date(y, m, d, days) {
        Some((ny, nm, nd)) => Ok(tan_date_from_rust_date(ny, nm, nd)),
        None => Ok(Expr::Nothing),
    }
}

/// `add-days` where it has a value: `None` where `this` denotes no date or
/// the date that many days later does not exist.
pub fn try_chrono_date_add_days(args: &[Expr]) -> (r: Option<Result<Expr, Error>>)
    ensures
        r is None <==> !add_days_defined(args@),
        r matches Some(res) ==> add_days_defined(args@),
{
    if args.len() == 2 {
        if let Some(days) = args[1].as_int() {
            let Some((y, m, d)) = tan_date_parts(&args[0]) else {
                return None;
            };
            if add_days_to_date(y, m, d, days).is_none() {
                return None;
            }
        }
    }
    Some(chrono_date_add_days(args))
}

/// The text of a Date followed by `suffix`: `YYYY-MM-DD`, or the message of
/// the error for the first field that is not an Int.
pub open spec fn date_text(s: Seq<(Seq<char>, Value)>, suffix: Seq<char>) -> Result<Seq<char>, Seq<char>> {
    match (int_field(s, "year"@), int_field(s, "month"@), int_field(s, "day"@)) {
        (Some(y), Some(m), Some(d)) => Ok(int_text(y as int) + seq!['-'] + pad2(m as int) + seq!['-'] + pad2(d as int) + suffix),
        _ => Err("invalid Date"@),
    }
}

/// A Date made from components has the three fields, and prints as
/// `YYYY-MM-DD` with the month and day in two digits.
pub proof fn law_date_from_components_prints(year: i64, month: i64, day: i64)
    ensures
        dict_of(date_value(year, month, day)) is Some,
        has_entries(dict_of(date_value(year, month, day))->0, date_keys()),
        date_text(dict_of(date_value(year, month, day))->0, ""@) == Ok::<Seq<char>, Seq<char>>(
            int_text(year as int) + seq!['-'] + pad2(month as int) + seq!['-'] + pad2(day as int),
        ),
{
    let s = seq![("year"@, Value::Int(year)), ("month"@, Value::Int(month)), ("day"@, Value::Int(day))];
    assert(dict_of(date_value(year, month, day)) == Some(s));
    reveal_strlit("year");
    reveal_strlit("month");
    reveal_strlit("day");
    assert("year"@.len() == 4 && "month"@.len() == 5 && "day"@.len() == 3);
    assert(entry_value(s, "year"@) == Some(Value::Int(year)));
    assert(s[0].0 != "month"@);
    assert(first_key_from(s, "month"@, 1) == Some(1int));
    assert(entry_value(s, "month"@) == Some(Value::Int(month)));
    assert(s[0].0 != "day"@ && s[1].0 != "day"@);
    assert(first_key_from(s, "day"@, 2) == Some(2int));
    assert(first_key_from(s, "day"@, 1) == Some(2int));
    assert(entry_value(s, "day"@) == Some(Value::Int(day)));
    assert forall|i: int| 0 <= i < date_keys().len() implies #[trigger] entry_value(s, date_keys()[i]) is Some by {
        if i == 0 {
            assert(date_keys()[0] == "year"@);
        } else if i == 1 {
            assert(date_keys()[1] == "month"@);
        } else {
            assert(date_keys()[2] == "day"@);
        }
    }
    assert(int_text(year as int) + seq!['-'] + pad2(month as int) + seq!['-'] + pad2(day as int) + ""@ =~= int_text(
        year as int,
    ) + seq!['-'] + pad2(month as int) + seq!['-'] + pad2(day as int)) by {
        reveal_strlit("");
    }
}

fn date_to_text(args: &[Expr], suffix: &str) -> (r: Result<Expr, Error>)
    requires
        args@.len() == 1 && dict_of(args@[0].model()) is Some ==> has_entries(dict_of(args@[0].model())->0, date_keys()),
    ensures
        args@.len() != 1 ==> (r matches Err(e) && error_says(e, ErrorKind::InvalidArguments, "requires `this` argument"@)),
        args@.len() == 1 && dict_of(args@[0].model()) is None ==> (r matches Err(e) && error_says(
            e,
            ErrorKind::InvalidArguments,
            "`this` argument should be a Date"@,
        )),
        args@.len() == 1 && dict_of(args@[0].model()) is Some ==> (match date_text(dict_of(args@[0].model())->0, suffix@) {
            Ok(t) => r matches Ok(e) && e.model() == Value::String(t),
            Err(m) => r matches Err(e) && error_says(e, ErrorKind::InvalidArguments, m),
        }),
{
    if args.len() != 1 {
        return Err(Error::invalid_arguments("requires `this` argument", None));
    }
    let Some(map) = args[0].as_dict() else {
        return Err(Error::invalid_arguments("`this` argument should be a Date", None));
    };
    let ghost s = pair_models(map@);
    proof {
        assert(entry_value(s, date_keys()[0]) is Some);
        assert(entry_value(s, date_keys()[1]) is Some);
        assert(entry_value(s, date_keys()[2]) is Some);
    }
    let Some(year) = int_entry(map, "year") else {
        return Err(Error::invalid_arguments("invalid Date", None));
    };
    let Some(month) = int_entry(map, "month") else {
        return Err(Error::invalid_arguments("invalid Date", None));
    };
    let Some(day) = int_entry(map, "day") else {
        return Err(Error::invalid_arguments("invalid Date", None));
    };
    let mut out = i64_to_string(year);
    push_str(&mut out, "-");
    push_str(&mut out, pad2_text(month).as_str());
    push_str(&mut out, "-");
    push_str(&mut out, pad2_text(day).as_str());
    push_str(&mut out, suffix);
    proof {
        reveal_strlit("-");
    }
    Ok(Expr::String(out))
}

/// `(to-string this)`: the text of the Date `this`, `YYYY-MM-DD`. A
/// dictionary without one of the three fields has no text.
pub fn chrono_date_to_string(args: &[Expr]) -> (r: Result<Expr, Error>)
    requires
        args@.len() == 1 && dict_of(args@[0].model()) is Some ==> has_entries(dict_of(args@[0].model())->0, date_keys()),
    ensures
        args@.len() != 1 ==> (r matches Err(e) && error_says(e, ErrorKind::InvalidArguments, "requires `this` argument"@)),
        args@.len() == 1 && dict_of(args@[0].model()) is None ==> (r matches Err(e) && error_says(
            e,
            ErrorKind::InvalidArguments,
            "`this` argument should be a Date"@,
        )),
        args@.len() == 1 && dict_of(args@[0].model()) is Some ==> (match date_text(dict_of(args@[0].model())->0, ""@) {
            Ok(t) => r matches Ok(e) && e.model() == Value::String(t),
            Err(m) => r matches Err(e) && error_says(e, ErrorKind::InvalidArguments, m),
        }),
{
    date_to_text(args, "")
}

/// `(to-rfc-399 this)`: the text of the Date `this` at midnight,
/// `YYYY-MM-DDT00:00:00`.
pub fn chrono_date_to_rfc399(args: &[Expr]) -> (r: Result<Expr, Error>)
    requires
        args@.len() == 1 && dict_of(args@[0].model()) is Some ==> has_entries(dict_of(args@[0].model())->0, date_keys()),
    ensures
        args@.len() != 1 ==> (r matches Err(e) && error_says(e, ErrorKind::InvalidArguments, "requires `this` argument"@)),
        args@.len() == 1 && dict_of(args@[0].model()) is None ==> (r matches Err(e) && error_says(
            e,
            ErrorKind::InvalidArguments,
            "`this` argument should be a Date"@,
        )),
        args@.len() == 1 && dict_of(args@[0].model()) is Some ==> (match date_text(dict_of(args@[0].model())->0, "T00:00:00"@) {
            Ok(t) => r matches Ok(e) && e.model() == Value::String(t),
            Err(m) => r matches Err(e) && error_says(e, ErrorKind::InvalidArguments, m),
        }),
{
    date_to_text(args, "T00:00:00")
}

/// The modules after `setup_lib_chrono`: the bindings it adds to the `chrono` module.
pub open spec fn lib_chrono(m: Modules) -> Modules {
    let m = bound_foreign(m, "chrono"@, "Date-Time"@, ForeignFn::ChronoDateTime);
    let m = bound_foreign(m, "chrono"@, "to-rfc-399"@, ForeignFn::ChronoDateTimeToRfc399);
    let m = bound_foreign(m, "chrono"@, "to-rfc-399$$Date-Time"@, ForeignFn::ChronoDateTimeToRfc399);
    let m = bound_foreign(m, "chrono"@, "Date"@, ForeignFn::ChronoDate);
    let m = bound_foreign(m, "chrono"@, "Date$$Map"@, ForeignFn::ChronoDateFromMap);
    let m = bound_foreign(m, "chrono"@, "Date$$Int$$Int$$Int"@, ForeignFn::ChronoDateFromComponents);
    let m = bound_foreign(m, "chrono"@, "add-days"@, ForeignFn::ChronoDateAddDays);
    let m = bound_foreign(m, "chrono"@, "format-string"@, ForeignFn::ChronoDateFormat);
    m
}

/// Binds the functions of this library in the `chrono` module.
pub fn setup_lib_chrono(context: &mut Context)
    requires
        old(context).wf(),
    ensures
        final(context).wf(),
        final(context).modules() == lib_chrono(old(context).modules()),
{
    let module = require_module("chrono", context);
    insert_foreign(context, module, "Date-Time", ForeignFn::ChronoDateTime);
    proof {
        lemma_bound_required(old(context).modules(), "chrono"@, "Date-Time"@, Value::ForeignFunc(ForeignFn::ChronoDateTime));
    }
    insert_foreign(context, module, "to-rfc-399", ForeignFn::ChronoDateTimeToRfc399);
    insert_foreign(context, module, "to-rfc-399$$Date-Time", ForeignFn::ChronoDateTimeToRfc399);
    insert_foreign(context, module, "Date", ForeignFn::ChronoDate);
    insert_foreign(context, module, "Date$$Map", ForeignFn::ChronoDateFromMap);
    insert_foreign(context, module, "Date$$Int$$Int$$Int", ForeignFn::ChronoDateFromComponents);
    insert_foreign(context, module, "add-days", ForeignFn::ChronoDateAddDays);
    insert_foreign(context, module, "format-string", ForeignFn::ChronoDateFormat);
}

/// A number from 0 to 99 printed with two digits: its tens and its units.
proof fn lemma_pad2_digits(n: int)
    requires
        0 <= n <= 99,
    ensures
        pad2(n) == seq![digit_char(n / 10), digit_char(n % 10)],
{
    if n < 10 {
        assert(nat_text(n as nat) == seq![digit_char(n)]);
        assert(digit_char(0) == '0');
        assert(n / 10 == 0 && n % 10 == n);
        assert(pad2(n) =~= seq![digit_char(n / 10), digit_char(n % 10)]);
    } else {
        let t = (n / 10) as nat;
        assert(t < 10);
        assert(nat_text(t) == seq![digit_char(t as int)]);
        assert(nat_text(n as nat) == nat_text(t) + seq![digit_char(n % 10)]);
        assert(pad2(n) =~= seq![digit_char(n / 10), digit_char(n % 10)]);
    }
}

/// A Date-Time whose fields are Ints prints as the year, then `-MM-DD`,
/// `T`, `HH:MM:SS` and `Z`, each field with two digits (tens, then units)
/// and in that order: month, day, hour, minute, second.
pub proof fn law_date_time_text_fields(s: Seq<(Seq<char>, Value)>, y: i64, m: i64, d: i64, h: i64, mi: i64, sec: i64)
    requires
        int_field(s, "year"@) == Some(y),
        int_field(s, "month"@) == Some(m),
        int_field(s, "day"@) == Some(d),
        int_field(s, "hour"@) == Some(h),
        int_field(s, "minute"@) == Some(mi),
        int_field(s, "second"@) == Some(sec),
        0 <= m <= 99,
        0 <= d <= 99,
        0 <= h <= 99,
        0 <= mi <= 99,
        0 <= sec <= 99,
    ensures
        date_time_text(s) == Ok::<Seq<char>, Seq<char>>(int_text(y as int) + seq!['-'] + seq![digit_char(m as int / 10), digit_char(m as int % 10)] + seq!['-'] + seq![digit_char(d as int / 10), digit_char(d as int % 10)] + seq!['T'] + seq![digit_char(h as int / 10), digit_char(h as int % 10)] + seq![':'] + seq![digit_char(mi as int / 10), digit_char(mi as int % 10)] + seq![':'] + seq![digit_char(sec as int / 10), digit_char(sec as int % 10)] + seq!['Z']),
{
    lemma_pad2_digits(m as int);
    lemma_pad2_digits(d as int);
    lemma_pad2_digits(h as int);
    lemma_pad2_digits(mi as int);
    lemma_pad2_digits(sec as int);
}

/// A Date made from a year and a month and day of at most two digits
/// prints as the year, `-`, the month's tens and units, `-`, and the day's
/// tens and units.
pub proof fn law_date_prints_two_digit_fields(year: i64, month: i64, day: i64)
    requires
        0 <= month <= 99,
        0 <= day <= 99,
    ensures
        date_text(dict_of(date_value(year, month, day))->0, ""@) == Ok::<Seq<char>, Seq<char>>(int_text(year as int)
            + seq!['-'] + seq![digit_char(month as int / 10), digit_char(month as int % 10)] + seq!['-'] + seq![
            digit_char(day as int / 10),
            digit_char(day as int % 10),
        ]),
{
    law_date_from_components_prints(year, month, day);
    lemma_pad2_digits(month as int);
    lemma_pad2_digits(day as int);
}

} // verus!
