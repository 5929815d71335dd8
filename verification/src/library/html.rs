//! HTML rendering of expressions.

use vstd::prelude::*;

use crate::context::{Context, Modules, bound_foreign, insert_foreign, lemma_bound_required, require_module};
use crate::error::{Error, ErrorKind};
use crate::expr::{dict_of, format_value, models, pair_models, push_str, symbol_of, text_of, unpacked, value_text, Expr, Value};
use crate::foreign::ForeignFn;
use crate::util::str_eq;

verus! {

/// The text of one attribute: `key="value"`.
pub open spec fn attr_text(e: (Seq<char>, Value)) -> Seq<char> {
    e.0 + "=\""@ + value_text(e.1) + seq!['"']
}

/// The attributes' texts, separated by single spaces.
pub open spec fn attrs_text(s: Seq<(Seq<char>, Value)>) -> Seq<char>
    decreases s.len(),
{
    if s.len() == 0 {
        Seq::empty()
    } else if s.len() == 1 {
        attr_text(s[0])
    } else {
        attrs_text(s.drop_last()) + seq![' '] + attr_text(s.last())
    }
}

/// The texts of the values, one after the other.
pub open spec fn concat_value_texts(s: Seq<Value>) -> Seq<char>
    decreases s.len(),
{
    if s.len() == 0 {
        Seq::empty()
    } else {
        concat_value_texts(s.drop_last()) + value_text(s.last())
    }
}

/// The HTML of an expression, or the message of the error it raises: the
/// value under its annotations is rendered.
pub open spec fn rendered(v: Value) -> Result<Seq<char>, Seq<char>>
    decreases v, 3nat,
{
    match v {
        Value::Annotated(inner, _) => rendered_plain(*inner),
        _ => rendered_plain(v),
    }
}

/// The HTML of a tag with the given name, attribute text and body.
pub open spec fn tag_text(sym: Seq<char>, attrs: Seq<char>, body: Seq<char>) -> Seq<char> {
    if body.len() == 0 && sym != "script"@ {
        seq!['<'] + sym + attrs + " />"@
    } else {
        seq!['<'] + sym + attrs + seq!['>'] + body + "</"@ + sym + seq!['>']
    }
}

/// The HTML of an expression that is not itself annotated.
pub open spec fn rendered_plain(u: Value) -> Result<Seq<char>, Seq<char>>
    decreases u, 2nat,
{
    match u {
        Value::Array(items) => rendered_all(items),
        Value::List(items) => if items.len() == 0 {
            Err("empty expression, remove"@)
        } else {
            match symbol_of(items[0]) {
                None => Err(text_of(items[0]) + " is not a Symbol"@),
                Some(sym) => if sym == "!DOCTYPE"@ {
                    Ok("<!DOCTYPE html>\n"@)
                } else if sym == "format"@ {
                    Ok(concat_value_texts(items.skip(1)))
                } else if items.len() == 1 {
                    Ok(tag_text(sym, Seq::empty(), Seq::empty()))
                } else {
                    let (attrs, start) = match dict_of(items[1]) {
                        Some(entries) => (seq![' '] + attrs_text(entries), 2int),
                        None => (Seq::empty(), 1int),
                    };
                    match rendered_children(items.skip(start)) {
                        Err(m) => Err(m),
                        Ok(body) => Ok(tag_text(sym, attrs, body)),
                    }
                }
            }
        },
        Value::Nothing => Ok(Seq::empty()),
        Value::Never => Ok(Seq::empty()),
        _ => Ok(value_text(u)),
    }
}

/// The HTML of the values, one after the other; the first error stops it.
pub open spec fn rendered_all(items: Seq<Value>) -> Result<Seq<char>, Seq<char>>
    decreases items, 1nat,
{
    if items.len() == 0 {
        Ok(Seq::empty())
    } else {
        match rendered_all(items.drop_last()) {
            Err(m) => Err(m),
            Ok(s) => match rendered(items.last()) {
                Err(m) => Err(m),
                Ok(t) => Ok(s + t),
            },
        }
    }
}

/// The HTML of the children of a tag: an array child is spread into its
/// items; the first error stops it.
pub open spec fn rendered_children(items: Seq<Value>) -> Result<Seq<char>, Seq<char>>
    decreases items, 1nat,
{
    if items.len() == 0 {
        Ok(Seq::empty())
    } else {
        match rendered_children(items.drop_last()) {
            Err(m) => Err(m),
            Ok(s) => match rendered_child(items.last()) {
                Err(m) => Err(m),
                Ok(t) => Ok(s + t),
            },
        }
    }
}

/// The HTML of one child of a tag.
pub open spec fn rendered_child(c: Value) -> Result<Seq<char>, Seq<char>>
    decreases c, 4nat,
{
    match c {
        Value::Annotated(inner, _) => match *inner {
            Value::Array(items) => rendered_all(items),
            _ => rendered(c),
        },
        Value::Array(items) => rendered_all(items),
        _ => rendered(c),
    }
}

/// Once a prefix of the values fails to render, so do the values, with the same error.
proof fn lemma_rendered_all_err(s: Seq<Value>, k: int)
    requires
        0 <= k <= s.len(),
        rendered_all(s.take(k)) is Err,
    ensures
        rendered_all(s) == rendered_all(s.take(k)),
    decreases s.len() - k,
{
    if k < s.len() {
        assert(s.take(k + 1).drop_last() =~= s.take(k));
        lemma_rendered_all_err(s, k + 1);
    } else {
        assert(s.take(k) =~= s);
    }
}

/// Once a prefix of the children fails to render, so do the children, with the same error.
proof fn lemma_rendered_children_err(s: Seq<Value>, k: int)
    requires
        0 <= k <= s.len(),
        rendered_children(s.take(k)) is Err,
    ensures
        rendered_children(s) == rendered_children(s.take(k)),
    decreases s.len() - k,
{
    if k < s.len() {
        assert(s.take(k + 1).drop_last() =~= s.take(k));
        lemma_rendered_children_err(s, k + 1);
    } else {
        assert(s.take(k) =~= s);
    }
}

/// The error raised where rendering fails with the message `m`.
pub open spec fn is_render_error(e: Error, m: Seq<char>) -> bool {
    e.kind == ErrorKind::InvalidArguments && e.notes@.len() == 1 && e.notes@[0].text@ == m
}

/// Renders an expression as HTML, in a String expression.
fn render_expr(expr: &Expr) -> (r: Result<Expr, Error>)
    ensures
        rendered(expr.model()) matches Ok(h) ==> (r matches Ok(e) && e.model() == Value::String(h)),
        rendered(expr.model()) matches Err(m) ==> (r matches Err(e) && is_render_error(e, m)),
    decreases expr, 3nat,
{
    match expr {
        Expr::Annotated(inner, _) => render_plain(inner),
        _ => render_plain(expr),
    }
}

/// Renders the expressions one after the other.
fn render_all(terms: &Vec<Expr>) -> (r: Result<String, Error>)
    ensures
        rendered_all(models(terms@)) matches Ok(h) ==> (r matches Ok(t) && t@ == h),
        rendered_all(models(terms@)) matches Err(m) ==> (r matches Err(e) && is_render_error(e, m)),
    decreases terms, 1nat,
{
    let ghost ms = models(terms@);
    let mut html = String::new();
    let mut i: usize = 0;
    assert(ms.take(0) =~= Seq::<Value>::empty());
    while i < terms.len()
        invariant
            i <= terms@.len(),
            ms == models(terms@),
            rendered_all(ms.take(i as int)) == Ok::<Seq<char>, Seq<char>>(html@),
        decreases terms@.len() - i,
    {
        proof {
            assert(decreases_to!(*terms => terms@));
            assert(decreases_to!(terms@ => terms@[i as int]));
            assert(ms.take(i + 1).drop_last() =~= ms.take(i as int));
            assert(ms.take(i + 1).last() == terms@[i as int].model());
        }
        match render_expr(&terms[i]) {
            Ok(e) => {
                let t = format_value(&e);
                push_str(&mut html, t.as_str());
            },
            Err(e) => {
                proof {
                    lemma_rendered_all_err(ms, i + 1);
                }
                return Err(e);
            },
        }
        i = i + 1;
    }
    assert(ms.take(terms@.len() as int) =~= ms);
    Ok(html)
}

/// Renders the children of a tag, from the `start`-th term on; an array
/// child is spread into its items.
fn render_children(terms: &Vec<Expr>, start: usize) -> (r: Result<String, Error>)
    requires
        start <= terms@.len(),
    ensures
        rendered_children(models(terms@).skip(start as int)) matches Ok(h) ==> (r matches Ok(t)
            && t@ == h),
        rendered_children(models(terms@).skip(start as int)) matches Err(m) ==> (r matches Err(e)
            && is_render_error(e, m)),
    decreases terms, 1nat,
{
    let ghost ms = models(terms@).skip(start as int);
    let mut body = String::new();
    let mut i: usize = start;
    assert(ms.take(0) =~= Seq::<Value>::empty());
    while i < terms.len()
        invariant
            start <= i <= terms@.len(),
            ms == models(terms@).skip(start as int),
            rendered_children(ms.take(i - start)) == Ok::<Seq<char>, Seq<char>>(body@),
        decreases terms@.len() - i,
    {
        proof {
            assert(decreases_to!(*terms => terms@));
            assert(decreases_to!(terms@ => terms@[i as int]));
            assert(ms.take(i - start + 1).drop_last() =~= ms.take(i - start));
            assert(ms.take(i - start + 1).last() == terms@[i as int].model());
        }
        let child = render_child(&terms[i]);
        match child {
            Ok(t) => {
                push_str(&mut body, t.as_str());
            },
            Err(e) => {
                proof {
                    lemma_rendered_children_err(ms, i - start + 1);
                }
                return Err(e);
            },
        }
        i = i + 1;
    }
    assert(ms.take(terms@.len() - start) =~= ms);
    Ok(body)
}

/// Renders one child of a tag: an array is spread into its items.
fn render_child(term: &Expr) -> (r: Result<String, Error>)
    ensures
        rendered_child(term.model()) matches Ok(h) ==> (r matches Ok(t) && t@ == h),
        rendered_child(term.model()) matches Err(m) ==> (r matches Err(e) && is_render_error(e, m)),
    decreases term, 4nat,
{
    match term {
        Expr::Annotated(inner, _) => match &**inner {
            Expr::Array(items) => {
                assert(term.model() matches Value::Annotated(b, _) && *b == Value::Array(models(items@)));
                render_all(items)
            },
            _ => {
                assert(!(inner.model() is Array));
                match render_expr(term) {
                    Ok(e) => Ok(format_value(&e)),
                    Err(e) => Err(e),
                }
            },
        },
        Expr::Array(items) => render_all(items),
        _ => match render_expr(term) {
            Ok(e) => Ok(format_value(&e)),
            Err(e) => Err(e),
        },
    }
}

/// The attributes' texts, separated by single spaces.
fn render_attrs(entries: &Vec<(String, Expr)>) -> (r: String)
    ensures
        r@ == attrs_text(pair_models(entries@)),
{
    let ghost ms = pair_models(entries@);
    let mut out = String::new();
    let mut i: usize = 0;
    assert(ms.take(0) =~= Seq::<(Seq<char>, Value)>::empty());
    while i < entries.len()
        invariant
            i <= entries@.len(),
            ms == pair_models(entries@),
            out@ == attrs_text(ms.take(i as int)),
        decreases entries@.len() - i,
    {
        let ghost before = out@;
        if i > 0 {
            push_str(&mut out, " ");
        }
        push_str(&mut out, entries[i].0.as_str());
        push_str(&mut out, "=\"");
        let v = format_value(&entries[i].1);
        push_str(&mut out, v.as_str());
        push_str(&mut out, "\"");
        proof {
            reveal_strlit(" ");
            reveal_strlit("=\"");
            reveal_strlit("\"");
            let next = ms.take(i + 1);
            assert(next.drop_last() =~= ms.take(i as int));
            assert(next.last() == (entries@[i as int].0@, entries@[i as int].1.model()));
            if i > 0 {
                assert(out@ =~= attrs_text(next.drop_last()) + seq![' '] + attr_text(next.last()));
            } else {
                assert(out@ =~= attr_text(next.last()));
            }
        }
        i = i + 1;
    }
    assert(ms.take(entries@.len() as int) =~= ms);
    out
}

/// The texts of the terms from the second on, one after the other.
fn join_tail_texts(terms: &Vec<Expr>) -> (r: String)
    requires
        terms@.len() >= 1,
    ensures
        r@ == concat_value_texts(models(terms@).skip(1)),
{
    let ghost ms = models(terms@).skip(1);
    let mut out = String::new();
    let mut i: usize = 1;
    assert(ms.take(0) =~= Seq::<Value>::empty());
    while i < terms.len()
        invariant
            1 <= i <= terms@.len(),
            ms == models(terms@).skip(1),
            out@ == concat_value_texts(ms.take(i - 1)),
        decreases terms@.len() - i,
    {
        let t = format_value(&terms[i]);
        push_str(&mut out, t.as_str());
        proof {
            assert(ms.take(i as int).drop_last() =~= ms.take(i - 1));
            assert(ms.take(i as int).last() == terms@[i as int].model());
        }
        i = i + 1;
    }
    assert(ms.take(terms@.len() - 1) =~= ms);
    out
}

/// Renders an expression that is taken as it is, annotations and all.
fn render_plain(u: &Expr) -> (r: Result<Expr, Error>)
    ensures
        rendered_plain(u.model()) matches Ok(h) ==> (r matches Ok(e) && e.model() == Value::String(h)),
        rendered_plain(u.model()) matches Err(m) ==> (r matches Err(e) && is_render_error(e, m)),
    decreases u, 2nat,
{
    match u {
        Expr::Array(terms) => match render_all(terms) {
            Ok(html) => Ok(Expr::String(html)),
            Err(e) => Err(e),
        },
        Expr::List(terms) => {
            if terms.len() == 0 {
                assert(u.model() == Value::List(models(terms@)));
                assert(models(terms@).len() == 0);
                assert(rendered_plain(u.model()) is Err);
                return Err(Error::invalid_arguments("empty expression, remove", None));
            }
            let op = &terms[0];
            let Some(sym) = op.as_symbol() else {
                let mut msg = op.to_text();
                push_str(&mut msg, " is not a Symbol");
                return Err(Error::invalid_arguments(msg.as_str(), None));
            };
            if str_eq(sym.as_str(), "!DOCTYPE") {
                return Ok(Expr::string("<!DOCTYPE html>\n"));
            }
            if str_eq(sym.as_str(), "format") {
                return Ok(Expr::String(join_tail_texts(terms)));
            }
            if terms.len() == 1 {
                let mut out = String::new();
                push_str(&mut out, "<");
                push_str(&mut out, sym.as_str());
                proof {
                    reveal_strlit("<");
                    reveal_strlit(" />");
                    reveal_strlit("></");
                    reveal_strlit(">");
                    reveal_strlit("</");
                }
                let ghost head = out@;
                assert(head =~= seq!['<'] + sym@);
                if str_eq(sym.as_str(), "script") {
                    push_str(&mut out, "></");
                    push_str(&mut out, sym.as_str());
                    push_str(&mut out, ">");
                    assert(out@ =~= head + seq!['>'] + "</"@ + sym@ + seq!['>']);
                    assert(tag_text(sym@, Seq::empty(), Seq::empty()) =~= out@);
                } else {
                    push_str(&mut out, " />");
                    assert(tag_text(sym@, Seq::empty(), Seq::empty()) =~= out@);
                }
                return Ok(Expr::String(out));
            }
            let mut attributes = String::new();
            let mut start: usize = 1;
            if let Some(map) = terms[1].as_dict() {
                start = 2;
                push_str(&mut attributes, " ");
                let a = render_attrs(map);
                push_str(&mut attributes, a.as_str());
                proof {
                    reveal_strlit(" ");
                }
            }
            let body = match render_children(terms, start) {
                Ok(b) => b,
                Err(e) => {
                    return Err(e);
                },
            };
            let mut out = String::new();
            push_str(&mut out, "<");
            push_str(&mut out, sym.as_str());
            push_str(&mut out, attributes.as_str());
            if body.as_str().unicode_len() == 0 && !str_eq(sym.as_str(), "script") {
                push_str(&mut out, " />");
            } else {
                push_str(&mut out, ">");
                push_str(&mut out, body.as_str());
                push_str(&mut out, "</");
                push_str(&mut out, sym.as_str());
                push_str(&mut out, ">");
            }
            proof {
                reveal_strlit("<");
                reveal_strlit(" />");
                reveal_strlit(">");
                reveal_strlit("</");
            }
            Ok(Expr::String(out))
        },
        Expr::Nothing => {
            proof {
                reveal_strlit("");
            }
            Ok(Expr::string(""))
        },
        Expr::Never => {
            proof {
                reveal_strlit("");
            }
            Ok(Expr::string(""))
        },
        _ => Ok(Expr::String(format_value(u))),
    }
}

/// `(html-from-expr expr)`: the HTML that the expression describes.
pub fn html_from_expr(args: &[Expr]) -> (r: Result<Expr, Error>)
    ensures
        args@.len() == 0 ==> (r matches Err(e) && is_render_error(e, "expected at least one argument"@)),
        args@.len() >= 1 ==> (rendered(args@[0].model()) matches Ok(h) ==> (r matches Ok(e)
            && e.model() == Value::String(h))),
        args@.len() >= 1 ==> (rendered(args@[0].model()) matches Err(m) ==> (r matches Err(e)
            && is_render_error(e, m))),
{
    if args.len() >= 1 {
        render_expr(&args[0])
    } else {
        Err(Error::invalid_arguments("expected at least one argument", None))
    }
}

/// The modules after `setup_lib_html`: the bindings it adds to the `html` module.
pub open spec fn lib_html(m: Modules) -> Modules {
    bound_foreign(m, "html"@, "html-from-expr"@, ForeignFn::HtmlFromExpr)
}

/// Binds the functions of this library in the `html` module.
pub fn setup_lib_html(context: &mut Context)
    requires
        old(context).wf(),
    ensures
        final(context).wf(),
        final(context).modules() == lib_html(old(context).modules()),
{
    let module = require_module("html", context);
    insert_foreign(context, module, "html-from-expr", ForeignFn::HtmlFromExpr);
    proof {
        lemma_bound_required(old(context).modules(), "html"@, "html-from-expr"@, Value::ForeignFunc(ForeignFn::HtmlFromExpr));
    }
}

/// The text `key="value"` of one attribute, spelled out.
proof fn lemma_attr_text_spelled(a: (Seq<char>, Value))
    ensures
        attr_text(a) == a.0 + seq!['=', '"'] + value_text(a.1) + seq!['"'],
{
    reveal_strlit("=\"");
    assert("=\""@ =~= seq!['=', '"']);
}

/// The attributes' texts, with one more attribute in front of at least one.
proof fn lemma_attrs_prepend(a: (Seq<char>, Value), s: Seq<(Seq<char>, Value)>)
    requires
        s.len() > 0,
    ensures
        attrs_text(seq![a] + s) == attr_text(a) + seq![' '] + attrs_text(s),
    decreases s.len(),
{
    let all = seq![a] + s;
    if s.len() == 1 {
        assert(all.drop_last() =~= seq![a]);
        assert(all.last() == s[0]);
        assert(attrs_text(all.drop_last()) == attr_text(a));
        assert(attrs_text(s) == attr_text(s[0]));
        assert(attrs_text(all) == attrs_text(all.drop_last()) + seq![' '] + attr_text(all.last()));
        assert(attrs_text(all) =~= attr_text(a) + seq![' '] + attrs_text(s));
    } else {
        assert(all.drop_last() =~= seq![a] + s.drop_last());
        assert(all.last() == s.last());
        lemma_attrs_prepend(a, s.drop_last());
        assert(attrs_text(all) =~= attr_text(a) + seq![' '] + attrs_text(s));
    }
}

/// A tag's attributes print as their `key="value"` texts with exactly one
/// space between each two of them, in order: an attribute after others
/// adds a space and its text at the end, and one before others adds its
/// text and a space at the front.
pub proof fn law_attributes_are_space_separated(s: Seq<(Seq<char>, Value)>, a: (Seq<char>, Value))
    ensures
        attrs_text(seq![a]) == a.0 + seq!['=', '"'] + value_text(a.1) + seq!['"'],
        s.len() > 0 ==> attrs_text(s.push(a)) == attrs_text(s) + seq![' '] + a.0 + seq!['=', '"'] + value_text(
            a.1,
        ) + seq!['"'],
        s.len() > 0 ==> attrs_text(seq![a] + s) == a.0 + seq!['=', '"'] + value_text(a.1) + seq!['"', ' ']
            + attrs_text(s),
{
    lemma_attr_text_spelled(a);
    assert(attrs_text(seq![a]) == attr_text(seq![a][0]));
    if s.len() > 0 {
        let p = s.push(a);
        assert(p.drop_last() =~= s);
        assert(p.last() == a);
        assert(attrs_text(p) =~= attrs_text(s) + seq![' '] + a.0 + seq!['=', '"'] + value_text(a.1) + seq!['"']);
        lemma_attrs_prepend(a, s);
        assert(attrs_text(seq![a] + s) =~= a.0 + seq!['=', '"'] + value_text(a.1) + seq!['"', ' '] + attrs_text(s));
    }
}

/// A tag with attributes and one text child renders as the opening tag
/// with a space and the attributes, the text, and the closing tag; a tag
/// with attributes and no child other than `script` closes itself.
pub proof fn law_tag_with_attributes(sym: Seq<char>, entries: Seq<(Seq<char>, Value)>, t: Seq<char>)
    requires
        sym != "!DOCTYPE"@,
        sym != "format"@,
        t.len() > 0,
    ensures
        rendered(Value::List(seq![Value::Symbol(sym), Value::Dict(entries), Value::String(t)])) == Ok::<
            Seq<char>,
            Seq<char>,
        >(seq!['<'] + sym + seq![' '] + attrs_text(entries) + seq!['>'] + t + seq!['<', '/'] + sym + seq!['>']),
        sym != "script"@ ==> rendered(Value::List(seq![Value::Symbol(sym), Value::Dict(entries)])) == Ok::<
            Seq<char>,
            Seq<char>,
        >(seq!['<'] + sym + seq![' '] + attrs_text(entries) + seq![' ', '/', '>']),
{
    reveal_strlit("</");
    reveal_strlit(" />");
    let items = seq![Value::Symbol(sym), Value::Dict(entries), Value::String(t)];
    let kids = items.skip(2);
    assert(kids =~= seq![Value::String(t)]);
    assert(kids.drop_last() =~= Seq::<Value>::empty());
    assert(rendered_children(kids.drop_last()) == Ok::<Seq<char>, Seq<char>>(Seq::empty()));
    assert(rendered_child(Value::String(t)) == Ok::<Seq<char>, Seq<char>>(t));
    assert(rendered_children(kids) == Ok::<Seq<char>, Seq<char>>(Seq::<char>::empty() + t));
    assert(Seq::<char>::empty() + t =~= t);
    let attrs = seq![' '] + attrs_text(entries);
    assert(tag_text(sym, attrs, t) =~= seq!['<'] + sym + seq![' '] + attrs_text(entries) + seq!['>'] + t + seq!['<', '/'] + sym
        + seq!['>']);
    let bare = seq![Value::Symbol(sym), Value::Dict(entries)];
    assert(bare.skip(2) =~= Seq::<Value>::empty());
    if sym != "script"@ {
        assert(tag_text(sym, attrs, Seq::empty()) =~= seq!['<'] + sym + seq![' '] + attrs_text(entries) + seq![' ', '/', '>']);
    }
}

} // verus!
