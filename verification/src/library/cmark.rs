//! CommonMark text.

use vstd::prelude::*;

use crate::context::{Context, Modules, bound_foreign, insert_foreign, lemma_bound_required, require_module};
use crate::error::{error_says, Error, ErrorKind};
use crate::expr::{dict_of, string_of, Expr, Value};
use crate::foreign::ForeignFn;
use crate::util::str_eq;

verus! {

/// Some entry of the dictionary has the key `k`.
pub open spec fn has_key(entries: Seq<(Seq<char>, Value)>, k: Seq<char>) -> bool {
    exists|i: int| 0 <= i < entries.len() && #[trigger] entries[i].0 == k
}

/// Whether some entry of the dictionary has the key `k`.
fn dict_has_key(entries: &Vec<(String, Expr)>, k: &str) -> (r: bool)
    ensures
        r == has_key(crate::expr::pair_models(entries@), k@),
{
    let ghost ms = crate::expr::pair_models(entries@);
    let mut i: usize = 0;
    while i < entries.len()
        invariant
            i <= entries@.len(),
            ms == crate::expr::pair_models(entries@),
            forall|j: int| 0 <= j < i ==> #[trigger] ms[j].0 != k@,
        decreases entries@.len() - i,
    {
        if str_eq(entries[i].0.as_str(), k) {
            assert(ms[i as int].0 == k@);
            return true;
        }
        i = i + 1;
    }
    false
}

/// Raw HTML is passed through where the options hold the key `unsafe`.
pub open spec fn wants_unsafe(args: Seq<Expr>) -> bool {
    args.len() >= 2 && has_key(dict_of(args[1].model())->0, "unsafe"@)
}

/// The arguments of `(to-html markup options?)`: the CommonMark text, and
/// whether raw HTML is to be passed through (the options dictionary holds
/// the key `unsafe`). The text is rendered with the strikethrough, table,
/// autolink, tasklist, superscript and footnotes extensions.
pub fn common_mark_arguments(args: &[Expr]) -> (r: Result<(String, bool), Error>)
    ensures
        args@.len() == 0 ==> (r matches Err(e) && error_says(e, ErrorKind::InvalidArguments, "expected at least one argument"@)),
        args@.len() >= 1 && string_of(args@[0].model()) is None ==> (r matches Err(e) && error_says(
            e,
            ErrorKind::InvalidArguments,
            "`markup` should be a String"@,
        )),
        args@.len() >= 2 && string_of(args@[0].model()) is Some && dict_of(args@[1].model()) is None
            ==> (r matches Err(e) && error_says(e, ErrorKind::InvalidArguments, "options argument should be a map"@)),
        args@.len() >= 1 && string_of(args@[0].model()) is Some && (args@.len() == 1 || dict_of(
            args@[1].model(),
        ) is Some) ==> (r matches Ok((markup, unsafe_html)) && markup@ == string_of(args@[0].model())->0
            && unsafe_html == wants_unsafe(args@)),
{
    if args.len() == 0 {
        return Err(Error::invalid_arguments("expected at least one argument", None));
    }
    let Some(markup) = args[0].as_string() else {
        return Err(Error::invalid_arguments("`markup` should be a String", None));
    };
    let mut unsafe_html = false;
    if args.len() >= 2 {
        let Some(options) = args[1].as_dict() else {
            return Err(Error::invalid_arguments("options argument should be a map", None));
        };
        unsafe_html = dict_has_key(options, "unsafe");
    }
    Ok((markup.clone(), unsafe_html))
}

/// The HTML that comrak's `markdown_to_html` gives for the CommonMark text,
/// with the strikethrough, table, autolink, tasklist, superscript and
/// footnotes extensions on, and raw HTML passed through where
/// `unsafe_html` holds.
pub uninterp spec fn common_mark_html(markup: Seq<char>, unsafe_html: bool) -> Seq<char>;

/// comrak's `markdown_to_html` on the text, with the six extensions of
/// `common_mark_html` on and the render option `unsafe` set to
/// `unsafe_html` (through the options builder, whose `maybe_unsafe` names
/// that option); the result is what comrak gives back for these arguments.
#[verifier::external_body]
fn render_common_mark(markup: &str, unsafe_html: bool) -> (r: String)
    ensures
        r@ == common_mark_html(markup@, unsafe_html),
{
    let mut options = comrak::Options::default();
    options.extension.strikethrough = true;
    options.extension.table = true;
    options.extension.autolink = true;
    options.extension.tasklist = true;
    options.extension.superscript = true;
    options.extension.footnotes = true;
    options.render = comrak::options::Render::builder().maybe_unsafe(Some(unsafe_html)).build();
    comrak::markdown_to_html(markup, &options)
}

/// `(to-html markup options?)`: the HTML of the CommonMark text, rendered
/// by comrak with the strikethrough, table, autolink, tasklist, superscript
/// and footnotes extensions; raw HTML is passed through where the options
/// dictionary holds the key `unsafe`.
pub fn html_from_common_mark(args: &[Expr], _context: &mut Context) -> (r: Result<Expr, Error>)
    ensures
        *final(_context) == *old(_context),
        args@.len() == 0 ==> (r matches Err(e) && error_says(e, ErrorKind::InvalidArguments, "expected at least one argument"@)),
        args@.len() >= 1 && string_of(args@[0].model()) is None ==> (r matches Err(e) && error_says(
            e,
            ErrorKind::InvalidArguments,
            "`markup` should be a String"@,
        )),
        args@.len() >= 2 && string_of(args@[0].model()) is Some && dict_of(args@[1].model()) is None
            ==> (r matches Err(e) && error_says(e, ErrorKind::InvalidArguments, "options argument should be a map"@)),
        args@.len() >= 1 && string_of(args@[0].model()) is Some && (args@.len() == 1 || dict_of(
            args@[1].model(),
        ) is Some) ==> (r matches Ok(e) && e.model() == Value::String(
            common_mark_html(string_of(args@[0].model())->0, wants_unsafe(args@)),
        )),
{
    let (markup, unsafe_html) = common_mark_arguments(args)?;
    let html = render_common_mark(markup.as_str(), unsafe_html);
    Ok(Expr::String(html))
}

/// The modules after `setup_lib_text_cmark`: the bindings it adds to the `text/cmark` module.
pub open spec fn lib_text_cmark(m: Modules) -> Modules {
    let m = bound_foreign(m, "text/cmark"@, "to-html"@, ForeignFn::HtmlFromCommonMark);
    m
}

/// Binds the functions of this library in the `text/cmark` module.
pub fn setup_lib_text_cmark(context: &mut Context)
    requires
        old(context).wf(),
    ensures
        final(context).wf(),
        final(context).modules() == lib_text_cmark(old(context).modules()),
{
    let module = require_module("text/cmark", context);
    insert_foreign(context, module, "to-html", ForeignFn::HtmlFromCommonMark);
    proof {
        lemma_bound_required(old(context).modules(), "text/cmark"@, "to-html"@, Value::ForeignFunc(ForeignFn::HtmlFromCommonMark));
    }
}

} // verus!
