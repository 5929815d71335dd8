//! Regular expressions.

use vstd::prelude::*;

use regex::Regex;

use crate::args::{first_problem, stringable_problem, unpack_stringable_arg};
use crate::context::{Context, Modules, bound_foreign, insert_foreign, lemma_bound_required, require_module};
use crate::error::{error_says, Error, ErrorKind};
use crate::expr::{annotate_type, annotated_value, models, push_str, string_of, stringable_of, Expr, Value};
use crate::foreign::ForeignFn;

verus! {

/// `Regex::new` accepts the pattern.
pub uninterp spec fn regex_compiles(pattern: Seq<char>) -> bool;

/// `Regex::is_match`: some part of the text matches the pattern.
pub uninterp spec fn regex_is_match(pattern: Seq<char>, text: Seq<char>) -> bool;

/// `Regex::split`: the pieces of the text between the matches of the pattern.
pub uninterp spec fn regex_split_pieces(pattern: Seq<char>, text: Seq<char>) -> Seq<Seq<char>>;

/// `Regex::find_iter`: the texts of the successive non-overlapping matches.
pub uninterp spec fn regex_find_all(pattern: Seq<char>, text: Seq<char>) -> Seq<Seq<char>>;

/// `Regex::captures_iter`, group 1 of each successive match: its text where
/// the group took part in the match.
pub uninterp spec fn regex_first_groups(pattern: Seq<char>, text: Seq<char>) -> Seq<Option<Seq<char>>>;

/// `Regex::new` then `is_match`: whether the text matches, where the pattern compiles.
#[verifier::external_body]
fn match_regex(pattern: &str, text: &str) -> (r: Option<bool>)
    ensures
        r is Some <==> regex_compiles(pattern@),
        r matches Some(b) ==> b == regex_is_match(pattern@, text@),
{
    match Regex::new(pattern) {
        Ok(re) => Some(re.is_match(text)),
        Err(_) => None,
    }
}

/// `Regex::new` then `split`: the pieces, where the pattern compiles.
#[verifier::external_body]
fn split_regex(pattern: &str, text: &str) -> (r: Option<Vec<String>>)
    ensures
        r is Some <==> regex_compiles(pattern@),
        r matches Some(v) ==> v@.len() == regex_split_pieces(pattern@, text@).len() && forall|i: int|
            0 <= i < v@.len() ==> #[trigger] v@[i]@ == regex_split_pieces(pattern@, text@)[i],
{
    match Regex::new(pattern) {
        Ok(re) => Some(re.split(text).map(|p| p.to_owned()).collect()),
        Err(_) => None,
    }
}

/// `Regex::new` then `find_iter`: the matched texts, where the pattern compiles.
#[verifier::external_body]
fn find_regex(pattern: &str, text: &str) -> (r: Option<Vec<String>>)
    ensures
        r is Some <==> regex_compiles(pattern@),
        r matches Some(v) ==> v@.len() == regex_find_all(pattern@, text@).len() && forall|i: int|
            0 <= i < v@.len() ==> #[trigger] v@[i]@ == regex_find_all(pattern@, text@)[i],
{
    match Regex::new(pattern) {
        Ok(re) => Some(re.find_iter(text).map(|m| m.as_str().to_owned()).collect()),
        Err(_) => None,
    }
}

/// `Regex::new` then `captures_iter`: group 1 of each match, where the
/// pattern compiles.
#[verifier::external_body]
fn capture_regex(pattern: &str, text: &str) -> (r: Option<Vec<Option<String>>>)
    ensures
        r is Some <==> regex_compiles(pattern@),
        r matches Some(v) ==> v@.len() == regex_first_groups(pattern@, text@).len() && forall|i: int|
            0 <= i < v@.len() ==> (match #[trigger] v@[i] {
                Some(t) => regex_first_groups(pattern@, text@)[i] == Some(t@),
                None => regex_first_groups(pattern@, text@)[i] is None,
            }),
{
    match Regex::new(pattern) {
        Ok(re) => Some(re.captures_iter(text).map(|c| c.get(1).map(|m| m.as_str().to_owned())).collect()),
        Err(_) => None,
    }
}

/// The texts as String values.
pub open spec fn string_values(s: Seq<Seq<char>>) -> Seq<Value>
    decreases s.len(),
{
    if s.len() == 0 {
        Seq::empty()
    } else {
        string_values(s.drop_last()).push(Value::String(s.last()))
    }
}

/// The texts as String expressions.
fn string_exprs(v: Vec<String>, Ghost(texts): Ghost<Seq<Seq<char>>>) -> (r: Vec<Expr>)
    requires
        v@.len() == texts.len(),
        forall|i: int| 0 <= i < v@.len() ==> #[trigger] v@[i]@ == texts[i],
    ensures
        models(r@) == string_values(texts),
{
    let mut out: Vec<Expr> = Vec::new();
    let mut i: usize = 0;
    assert(texts.take(0) =~= Seq::<Seq<char>>::empty());
    assert(models(out@) =~= Seq::<Value>::empty());
    while i < v.len()
        invariant
            i <= v@.len(),
            v@.len() == texts.len(),
            forall|j: int| 0 <= j < v@.len() ==> #[trigger] v@[j]@ == texts[j],
            models(out@) == string_values(texts.take(i as int)),
        decreases v@.len() - i,
    {
        let e = Expr::String(v[i].clone());
        let ghost before = out@;
        out.push(e);
        assert(models(out@) =~= models(before).push(e.model()));
        assert(texts.take(i + 1).drop_last() =~= texts.take(i as int));
        i = i + 1;
    }
    assert(texts.take(v@.len() as int) =~= texts);
    out
}

/// The message of an invalid pattern.
fn invalid_pattern(pattern: &str, quoted: bool) -> (e: Error)
    ensures
        error_says(e, ErrorKind::InvalidArguments, if quoted {
            "invalid regex pattern: `"@ + pattern@ + "`"@
        } else {
            "invalid regex pattern: "@ + pattern@
        }),
{
    let mut msg = String::new();
    push_str(&mut msg, "invalid regex pattern: ");
    if quoted {
        push_str(&mut msg, "`");
    }
    push_str(&mut msg, pattern);
    if quoted {
        push_str(&mut msg, "`");
    }
    proof {
        reveal_strlit("invalid regex pattern: ");
        reveal_strlit("invalid regex pattern: `");
        reveal_strlit("`");
        if quoted {
            assert(msg@ =~= "invalid regex pattern: `"@ + pattern@ + "`"@);
        }
    }
    Error::invalid_arguments(msg.as_str(), None)
}

/// `(Regex pattern)`: the pattern, as a String annotated with the type `Regex`.
pub fn regex_new(args: &[Expr]) -> (r: Result<Expr, Error>)
    ensures
        args@.len() != 1 ==> (r matches Err(e) && error_says(e, ErrorKind::InvalidArguments, "requires `pattern` argument"@)),
        args@.len() == 1 && stringable_of(args@[0].model()) is None ==> (r matches Err(e) && error_says(
            e,
            ErrorKind::InvalidArguments,
            "`pattern` argument should be a String"@,
        )),
        args@.len() == 1 && stringable_of(args@[0].model()) is Some ==> (r matches Ok(e) && e.model()
            == annotated_value(Value::String(stringable_of(args@[0].model())->0), "type"@, Value::Type("Regex"@))),
{
    if args.len() != 1 {
        return Err(Error::invalid_arguments("requires `pattern` argument", None));
    }
    let Some(pattern) = args[0].as_stringable() else {
        return Err(Error::invalid_arguments("`pattern` argument should be a String", None));
    };
    let rx = Expr::string(pattern.as_str());
    Ok(annotate_type(rx, "Regex"))
}

/// `(matching? this string)`: whether the string matches the Regex `this`.
pub fn regex_is_matching(args: &[Expr]) -> (r: Result<Expr, Error>)
    ensures
        args@.len() != 2 ==> (r matches Err(e) && error_says(
            e,
            ErrorKind::InvalidArguments,
            "requires `this` and `string` arguments"@,
        )),
        args@.len() == 2 && string_of(args@[0].model()) is None ==> (r matches Err(e) && error_says(
            e,
            ErrorKind::InvalidArguments,
            "`this` argument should be a Regex"@,
        )),
        args@.len() == 2 && string_of(args@[0].model()) is Some && stringable_of(args@[1].model()) is None
            ==> (r matches Err(e) && error_says(e, ErrorKind::InvalidArguments, "`string` argument should be a Stringable"@)),
        args@.len() == 2 && string_of(args@[0].model()) is Some && stringable_of(args@[1].model()) is Some ==> (
        !regex_compiles(string_of(args@[0].model())->0) ==> (r matches Err(e) && error_says(
            e,
            ErrorKind::InvalidArguments,
            "invalid regex pattern: "@ + string_of(args@[0].model())->0,
        ))),
        args@.len() == 2 && string_of(args@[0].model()) is Some && stringable_of(args@[1].model()) is Some ==> (
        regex_compiles(string_of(args@[0].model())->0) ==> (r matches Ok(e) && e.model() == Value::Bool(
            regex_is_match(string_of(args@[0].model())->0, stringable_of(args@[1].model())->0),
        ))),
{
    if args.len() != 2 {
        return Err(Error::invalid_arguments("requires `this` and `string` arguments", None));
    }
    let Some(re_pattern) = args[0].as_string() else {
        return Err(Error::invalid_arguments("`this` argument should be a Regex", None));
    };
    let Some(string) = args[1].as_stringable() else {
        return Err(Error::invalid_arguments("`string` argument should be a Stringable", None));
    };
    match match_regex(re_pattern.as_str(), string.as_str()) {
        Some(b) => Ok(Expr::Bool(b)),
        None => Err(invalid_pattern(re_pattern.as_str(), false)),
    }
}

/// `(split sep-regex text)`: the pieces of the text between the matches of
/// the pattern, as an Array of Strings.
pub fn regex_split(args: &[Expr]) -> (r: Result<Expr, Error>)
    ensures
        match first_problem(stringable_problem(args@, 0, "sep-regex"@), stringable_problem(args@, 1, "text"@)) {
            Some(m) => r matches Err(e) && error_says(e, ErrorKind::InvalidArguments, m),
            None => true,
        },
        args@.len() >= 2 && stringable_of(args@[0].model()) is Some && stringable_of(args@[1].model()) is Some
            ==> (!regex_compiles(stringable_of(args@[0].model())->0) ==> (r matches Err(e) && error_says(
            e,
            ErrorKind::InvalidArguments,
            "invalid regex pattern: `"@ + stringable_of(args@[0].model())->0 + "`"@,
        ))),
        args@.len() >= 2 && stringable_of(args@[0].model()) is Some && stringable_of(args@[1].model()) is Some
            ==> (regex_compiles(stringable_of(args@[0].model())->0) ==> (r matches Ok(e) && e.model() == Value::Array(
            string_values(regex_split_pieces(stringable_of(args@[0].model())->0, stringable_of(args@[1].model())->0)),
        ))),
{
    let regex = unpack_stringable_arg(args, 0, "sep-regex")?;
    let text = unpack_stringable_arg(args, 1, "text")?;
    match split_regex(regex.as_str(), text.as_str()) {
        Some(parts) => Ok(Expr::array(string_exprs(parts, Ghost(regex_split_pieces(regex@, text@))))),
        None => Err(invalid_pattern(regex.as_str(), true)),
    }
}

/// `(split-matches match-regex text)`: the texts of the successive matches
/// of the pattern, as an Array of Strings.
pub fn regex_split_matches(args: &[Expr]) -> (r: Result<Expr, Error>)
    ensures
        match first_problem(stringable_problem(args@, 0, "match-regex"@), stringable_problem(args@, 1, "text"@)) {
            Some(m) => r matches Err(e) && error_says(e, ErrorKind::InvalidArguments, m),
            None => true,
        },
        args@.len() >= 2 && stringable_of(args@[0].model()) is Some && stringable_of(args@[1].model()) is Some
            ==> (!regex_compiles(stringable_of(args@[0].model())->0) ==> (r matches Err(e) && error_says(
            e,
            ErrorKind::InvalidArguments,
            "invalid regex pattern: `"@ + stringable_of(args@[0].model())->0 + "`"@,
        ))),
        args@.len() >= 2 && stringable_of(args@[0].model()) is Some && stringable_of(args@[1].model()) is Some
            ==> (regex_compiles(stringable_of(args@[0].model())->0) ==> (r matches Ok(e) && e.model() == Value::Array(
            string_values(regex_find_all(stringable_of(args@[0].model())->0, stringable_of(args@[1].model())->0)),
        ))),
{
    let regex = unpack_stringable_arg(args, 0, "match-regex")?;
    let text = unpack_stringable_arg(args, 1, "text")?;
    match find_regex(regex.as_str(), text.as_str()) {
        Some(parts) => Ok(Expr::array(string_exprs(parts, Ghost(regex_find_all(regex@, text@))))),
        None => Err(invalid_pattern(regex.as_str(), true)),
    }
}

/// Group 1 took part in every match.
pub open spec fn groups_complete(groups: Seq<Option<Seq<char>>>) -> bool {
    forall|i: int| 0 <= i < groups.len() ==> #[trigger] groups[i] is Some
}

/// The texts of the groups.
pub open spec fn group_texts(groups: Seq<Option<Seq<char>>>) -> Seq<Seq<char>>
    decreases groups.len(),
{
    if groups.len() == 0 {
        Seq::empty()
    } else {
        group_texts(groups.drop_last()).push(groups.last()->0)
    }
}

/// The texts of the groups, each of which took part in its match.
fn unwrap_groups(groups: Vec<Option<String>>, Ghost(g): Ghost<Seq<Option<Seq<char>>>>) -> (r: Vec<String>)
    requires
        groups@.len() == g.len(),
        groups_complete(g),
        forall|i: int| 0 <= i < groups@.len() ==> (match #[trigger] groups@[i] {
            Some(t) => g[i] == Some(t@),
            None => g[i] is None,
        }),
    ensures
        r@.len() == group_texts(g).len(),
        forall|i: int| 0 <= i < r@.len() ==> #[trigger] r@[i]@ == group_texts(g)[i],
{
    let mut out: Vec<String> = Vec::new();
    let mut i: usize = 0;
    while i < groups.len()
        invariant
            i <= groups@.len(),
            groups@.len() == g.len(),
            groups_complete(g),
            forall|j: int| 0 <= j < groups@.len() ==> (match #[trigger] groups@[j] {
                Some(t) => g[j] == Some(t@),
                None => g[j] is None,
            }),
            out@.len() == i,
            group_texts(g.take(i as int)).len() == i,
            forall|j: int| 0 <= j < i ==> #[trigger] out@[j]@ == group_texts(g.take(i as int))[j],
        decreases groups@.len() - i,
    {
        assert(g[i as int] is Some);
        let t = match &groups[i] {
            Some(t) => t.clone(),
            None => String::new(),
        };
        assert(g.take(i + 1).drop_last() =~= g.take(i as int));
        out.push(t);
        i = i + 1;
    }
    assert(g.take(groups@.len() as int) =~= g);
    out
}

/// `(capture re string)`: group 1 of each match of the pattern, as an
/// Array of Strings. Every match must have its group 1 take part.
pub fn regex_capture(args: &[Expr]) -> (r: Result<Expr, Error>)
    requires
        args@.len() >= 2 && stringable_of(args@[0].model()) is Some && stringable_of(args@[1].model()) is Some
            && regex_compiles(stringable_of(args@[0].model())->0) ==> groups_complete(
            regex_first_groups(stringable_of(args@[0].model())->0, stringable_of(args@[1].model())->0),
        ),
    ensures
        match first_problem(stringable_problem(args@, 0, "re"@), stringable_problem(args@, 1, "string"@)) {
            Some(m) => r matches Err(e) && error_says(e, ErrorKind::InvalidArguments, m),
            None => true,
        },
        args@.len() >= 2 && stringable_of(args@[0].model()) is Some && stringable_of(args@[1].model()) is Some
            ==> (!regex_compiles(stringable_of(args@[0].model())->0) ==> (r matches Err(e) && error_says(
            e,
            ErrorKind::InvalidArguments,
            "invalid regex pattern: "@ + stringable_of(args@[0].model())->0,
        ))),
        args@.len() >= 2 && stringable_of(args@[0].model()) is Some && stringable_of(args@[1].model()) is Some
            ==> (regex_compiles(stringable_of(args@[0].model())->0) ==> (r matches Ok(e) && e.model() == Value::Array(
            string_values(group_texts(regex_first_groups(stringable_of(args@[0].model())->0, stringable_of(args@[1].model())->0))),
        ))),
{
    let re_pattern = unpack_stringable_arg(args, 0, "re")?;
    let string = unpack_stringable_arg(args, 1, "string")?;
    match capture_regex(re_pattern.as_str(), string.as_str()) {
        Some(groups) => {
            let ghost g = regex_first_groups(re_pattern@, string@);
            let texts = unwrap_groups(groups, Ghost(g));
            Ok(Expr::array(string_exprs(texts, Ghost(group_texts(g)))))
        },
        None => Err(invalid_pattern(re_pattern.as_str(), false)),
    }
}

/// `capture`, where every match has its group 1 take part: `None` where
/// some match lacks it, on which `capture` has no value.
pub fn try_regex_capture(args: &[Expr]) -> (r: Option<Result<Expr, Error>>)
    ensures
        r matches Some(res) ==> (args@.len() >= 2 && stringable_of(args@[0].model()) is Some && stringable_of(args@[1].model()) is Some
            && regex_compiles(stringable_of(args@[0].model())->0) ==> groups_complete(
            regex_first_groups(stringable_of(args@[0].model())->0, stringable_of(args@[1].model())->0),
        )),
        r is None <==> (args@.len() >= 2 && stringable_of(args@[0].model()) is Some && stringable_of(args@[1].model()) is Some
            && regex_compiles(stringable_of(args@[0].model())->0) && !groups_complete(
            regex_first_groups(stringable_of(args@[0].model())->0, stringable_of(args@[1].model())->0),
        )),
{
    if args.len() >= 2 {
        let pa = args[0].as_stringable();
        let ta = args[1].as_stringable();
        if let (Some(p), Some(t)) = (pa, ta) {
            assert(stringable_of(args@[0].model()) == Some(p@));
            assert(stringable_of(args@[1].model()) == Some(t@));
            if let Some(groups) = capture_regex(p.as_str(), t.as_str()) {
                let ghost g = regex_first_groups(p@, t@);
                let mut i: usize = 0;
                while i < groups.len()
                    invariant
                        i <= groups@.len(),
                        groups@.len() == g.len(),
                        forall|j: int| 0 <= j < groups@.len() ==> (match #[trigger] groups@[j] {
                            Some(x) => g[j] == Some(x@),
                            None => g[j] is None,
                        }),
                        forall|j: int| 0 <= j < i ==> #[trigger] g[j] is Some,
                        args@.len() >= 2,
                        stringable_of(args@[0].model()) == Some(p@),
                        stringable_of(args@[1].model()) == Some(t@),
                        regex_compiles(p@),
                        g == regex_first_groups(p@, t@),
                    decreases groups@.len() - i,
                {
                    if groups[i].is_none() {
                        assert(groups@[i as int] is None);
                        assert(g[i as int] is None);
                        assert(!groups_complete(g));
                        return None;
                    }
                    i = i + 1;
                }
            }
        }
    }
    Some(regex_capture(args))
}

/// The modules after `setup_lib_regex`: the bindings it adds to the `regex` module.
pub open spec fn lib_regex(m: Modules) -> Modules {
    let m = bound_foreign(m, "regex"@, "Regex"@, ForeignFn::RegexNew);
    let m = bound_foreign(m, "regex"@, "matching?"@, ForeignFn::RegexIsMatching);
    let m = bound_foreign(m, "regex"@, "split$$Regex$$String"@, ForeignFn::RegexSplit);
    let m = bound_foreign(m, "regex"@, "split-matches"@, ForeignFn::RegexSplitMatches);
    let m = bound_foreign(m, "regex"@, "capture"@, ForeignFn::RegexCapture);
    m
}

/// Binds the functions of this library in the `regex` module.
pub fn setup_lib_regex(context: &mut Context)
    requires
        old(context).wf(),
    ensures
        final(context).wf(),
        final(context).modules() == lib_regex(old(context).modules()),
{
    let module = require_module("regex", context);
    insert_foreign(context, module, "Regex", ForeignFn::RegexNew);
    proof {
        lemma_bound_required(old(context).modules(), "regex"@, "Regex"@, Value::ForeignFunc(ForeignFn::RegexNew));
    }
    insert_foreign(context, module, "matching?", ForeignFn::RegexIsMatching);
    insert_foreign(context, module, "split$$Regex$$String", ForeignFn::RegexSplit);
    insert_foreign(context, module, "split-matches", ForeignFn::RegexSplitMatches);
    insert_foreign(context, module, "capture", ForeignFn::RegexCapture);
}

} // verus!
