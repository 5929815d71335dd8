//! Reading and writing text.

use vstd::prelude::*;

use crate::context::{Context, Modules, bound_foreign, insert_foreign, lemma_bound_required, require_module};
use crate::expr::{format_value, models, push_str, Expr, Value};
use crate::foreign::ForeignFn;
use crate::library::seq::{join_with, value_texts};
use crate::ops::string::concat_texts;
use crate::parser::util::chars_to_string;
use crate::util::to_chars;

verus! {

/// The text with each `\n` escape (a backslash followed by `n`) turned into
/// a line break.
pub open spec fn unescape_newlines(s: Seq<char>) -> Seq<char>
    decreases s.len(),
{
    if s.len() == 0 {
        Seq::empty()
    } else if s.len() >= 2 && s[0] == '\\' && s[1] == 'n' {
        seq!['\n'] + unescape_newlines(s.skip(2))
    } else {
        seq![s[0]] + unescape_newlines(s.skip(1))
    }
}

/// A text without backslashes is printed as it is.
pub proof fn law_unescape_keeps_plain_text(s: Seq<char>)
    requires
        !s.contains('\\'),
    ensures
        unescape_newlines(s) == s,
    decreases s.len(),
{
    if s.len() > 0 {
        assert(s[0] != '\\');
        let rest = s.skip(1);
        assert forall|i: int| 0 <= i < rest.len() implies rest[i] != '\\' by {
            assert(rest[i] == s[i + 1]);
        }
        law_unescape_keeps_plain_text(rest);
        assert(seq![s[0]] + rest =~= s);
    }
}

/// The text with each `\n` escape turned into a line break.
pub fn unescape_text(s: &str) -> (r: String)
    ensures
        r@ == unescape_newlines(s@),
{
    let chars = to_chars(s);
    let mut out: Vec<char> = Vec::new();
    let mut i: usize = 0;
    assert(chars@.skip(0) =~= chars@);
    assert(out@ + unescape_newlines(chars@) =~= unescape_newlines(chars@));
    while i < chars.len()
        invariant
            i <= chars@.len(),
            chars@ == s@,
            unescape_newlines(chars@) == out@ + unescape_newlines(chars@.skip(i as int)),
        decreases chars@.len() - i,
    {
        let ghost rest = chars@.skip(i as int);
        if i + 1 < chars.len() && chars[i] == '\\' && chars[i + 1] == 'n' {
            out.push('\n');
            assert(rest.skip(2) =~= chars@.skip(i + 2));
            assert(out@ + unescape_newlines(chars@.skip(i + 2)) =~= out@.drop_last() + unescape_newlines(rest));
            i = i + 2;
        } else {
            out.push(chars[i]);
            assert(rest.skip(1) =~= chars@.skip(i + 1));
            assert(out@ + unescape_newlines(chars@.skip(i + 1)) =~= out@.drop_last() + unescape_newlines(rest));
            i = i + 1;
        }
    }
    assert(chars@.skip(i as int) =~= Seq::<char>::empty());
    assert(out@ + Seq::<char>::empty() =~= out@);
    chars_to_string(&out)
}

/// The texts of the values, one after the other.
fn concat_value_texts(args: &[Expr]) -> (r: String)
    ensures
        r@ == concat_texts(models(args@)),
{
    let ghost items = models(args@);
    let mut out = String::new();
    let mut i: usize = 0;
    assert(items.take(0) =~= Seq::<Value>::empty());
    while i < args.len()
        invariant
            i <= args@.len(),
            items == models(args@),
            out@ == concat_texts(items.take(i as int)),
        decreases args@.len() - i,
    {
        let t = format_value(&args[i]);
        push_str(&mut out, t.as_str());
        assert(items.take(i + 1).drop_last() =~= items.take(i as int));
        i = i + 1;
    }
    assert(items.take(args@.len() as int) =~= items);
    out
}

/// What `(write x ...)` prints: the texts of the arguments, one after the
/// other, with each `\n` escape turned into a line break.
pub fn write_output(args: &[Expr]) -> (r: String)
    ensures
        r@ == unescape_newlines(concat_texts(models(args@))),
{
    let t = concat_value_texts(args);
    unescape_text(t.as_str())
}

/// What `(writeln x ...)` prints: what `write` prints, then a line break.
pub fn writeln_output(args: &[Expr]) -> (r: String)
    ensures
        r@ == unescape_newlines(concat_texts(models(args@))) + seq!['\n'],
{
    let mut out = write_output(args);
    push_str(&mut out, "\n");
    proof {
        reveal_strlit("\n");
    }
    out
}

/// What `(echo x ...)` prints: the texts of the arguments separated by
/// spaces and followed by a line break, with each `\n` escape turned into a
/// line break.
pub fn echo_output(args: &[Expr]) -> (r: String)
    ensures
        r@ == unescape_newlines(join_with(value_texts(models(args@)), " "@) + seq!['\n']),
{
    let ghost texts = value_texts(models(args@));
    let mut out = String::new();
    let mut i: usize = 0;
    assert(texts.take(0) =~= Seq::<Seq<char>>::empty());
    while i < args.len()
        invariant
            i <= args@.len(),
            texts == value_texts(models(args@)),
            out@ == join_with(texts.take(i as int), " "@),
        decreases args@.len() - i,
    {
        let t = format_value(&args[i]);
        if i > 0 {
            push_str(&mut out, " ");
        }
        push_str(&mut out, t.as_str());
        proof {
            let next = texts.take(i + 1);
            assert(next.drop_last() =~= texts.take(i as int));
            assert(next.last() == crate::expr::value_text(args@[i as int].model()));
            if i == 0 {
                assert(out@ =~= join_with(next, " "@));
            }
        }
        i = i + 1;
    }
    assert(texts.take(args@.len() as int) =~= texts);
    let ghost joined = out@;
    push_str(&mut out, "\n");
    proof {
        reveal_strlit("\n");
        assert(out@ =~= joined + seq!['\n']);
    }
    unescape_text(out.as_str())
}

/// The modules after `setup_lib_io`: the bindings it adds to the `prelude` module.
pub open spec fn lib_io(m: Modules) -> Modules {
    let m = bound_foreign(m, "prelude"@, "read"@, ForeignFn::ReadString);
    let m = bound_foreign(m, "prelude"@, "read$$String"@, ForeignFn::ReadString);
    let m = bound_foreign(m, "prelude"@, "read-string-all"@, ForeignFn::ReadStringAll);
    let m = bound_foreign(m, "prelude"@, "read-string-all$$String"@, ForeignFn::ReadStringAll);
    let m = bound_foreign(m, "prelude"@, "write"@, ForeignFn::Write);
    let m = bound_foreign(m, "prelude"@, "write$$String"@, ForeignFn::Write);
    let m = bound_foreign(m, "prelude"@, "writeln"@, ForeignFn::Writeln);
    let m = bound_foreign(m, "prelude"@, "writeln$$String"@, ForeignFn::Writeln);
    let m = bound_foreign(m, "prelude"@, "echo"@, ForeignFn::Echo);
    let m = bound_foreign(m, "prelude"@, "echo$$String"@, ForeignFn::Echo);
    m
}

/// Binds the functions of this library in the `prelude` module.
pub fn setup_lib_io(context: &mut Context)
    requires
        old(context).wf(),
    ensures
        final(context).wf(),
        final(context).modules() == lib_io(old(context).modules()),
{
    let module = require_module("prelude", context);
    insert_foreign(context, module, "read", ForeignFn::ReadString);
    proof {
        lemma_bound_required(old(context).modules(), "prelude"@, "read"@, Value::ForeignFunc(ForeignFn::ReadString));
    }
    insert_foreign(context, module, "read$$String", ForeignFn::ReadString);
    insert_foreign(context, module, "read-string-all", ForeignFn::ReadStringAll);
    insert_foreign(context, module, "read-string-all$$String", ForeignFn::ReadStringAll);
    insert_foreign(context, module, "write", ForeignFn::Write);
    insert_foreign(context, module, "write$$String", ForeignFn::Write);
    insert_foreign(context, module, "writeln", ForeignFn::Writeln);
    insert_foreign(context, module, "writeln$$String", ForeignFn::Writeln);
    insert_foreign(context, module, "echo", ForeignFn::Echo);
    insert_foreign(context, module, "echo$$String", ForeignFn::Echo);
}

/// Each `\n` escape becomes a line break and the text around it is kept:
/// a text without backslashes, then the escape, then any text, prints as
/// the first text, a line break and the rest printed.
pub proof fn law_unescape_turns_escape_into_line_break(a: Seq<char>, b: Seq<char>)
    requires
        !a.contains('\\'),
    ensures
        unescape_newlines(a + seq!['\\', 'n'] + b) == a + seq!['\n'] + unescape_newlines(b),
    decreases a.len(),
{
    let t = a + seq!['\\', 'n'] + b;
    if a.len() == 0 {
        assert(t =~= seq!['\\', 'n'] + b);
        assert(t.skip(2) =~= b);
        assert(a + seq!['\n'] + unescape_newlines(b) =~= seq!['\n'] + unescape_newlines(b));
    } else {
        assert(a[0] != '\\') by {
            if a[0] == '\\' {
                assert(a.contains('\\'));
            }
        }
        let a1 = a.skip(1);
        assert(!a1.contains('\\')) by {
            if a1.contains('\\') {
                let i = choose|i: int| 0 <= i < a1.len() && a1[i] == '\\';
                assert(a[i + 1] == '\\');
            }
        }
        assert(t.skip(1) =~= a1 + seq!['\\', 'n'] + b);
        assert(t[0] == a[0]);
        law_unescape_turns_escape_into_line_break(a1, b);
        assert(unescape_newlines(t) =~= a + seq!['\n'] + unescape_newlines(b));
    }
}

} // verus!
