//! Strings and characters.

use vstd::prelude::*;

use crate::args::one_arg_problem;
use crate::error::{error_says, Error, ErrorKind};
use crate::expr::{array_of, char_exprs, char_values, char_of, format_value, models, string_of, unpacked, value_text, Expr, Value};
use crate::util::{char_to_string, to_chars};

verus! {

/// The first character of the uppercase mapping of the character, as Unicode gives it.
pub uninterp spec fn unicode_uppercase_first(c: char) -> char;

/// `char::to_uppercase` followed by taking the first character of the mapping.
#[verifier::external_body]
fn uppercase_first(c: char) -> (r: char)
    ensures
        r == unicode_uppercase_first(c),
{
    c.to_uppercase().next().unwrap()
}

/// The characters of the items that are Chars, in order; other items are skipped.
pub open spec fn chars_of_items(items: Seq<Value>) -> Seq<char>
    decreases items.len(),
{
    if items.len() == 0 {
        Seq::empty()
    } else {
        chars_of_items(items.drop_last()) + match char_of(items.last()) {
            Some(c) => seq![c],
            None => Seq::empty(),
        }
    }
}

/// The texts of the values, one after the other.
pub open spec fn concat_texts(items: Seq<Value>) -> Seq<char>
    decreases items.len(),
{
    if items.len() == 0 {
        Seq::empty()
    } else {
        concat_texts(items.drop_last()) + value_text(items.last())
    }
}

/// `(chars s)`: the characters of the String, as an array of Chars.
pub fn string_chars(args: &[Expr]) -> (r: Result<Expr, Error>)
    ensures
        args@.len() == 1 && string_of(args@[0].model()) is Some ==> (r matches Ok(e) && e.model()
            == Value::Array(char_values(string_of(args@[0].model())->0))),
        match one_arg_problem(
            args@,
            string_of(args@[0].model()) is Some,
            "`chars` requires `this` argument"@,
            "`this` argument should be a String"@,
        ) {
            Some(m) => r matches Err(e) && error_says(e, ErrorKind::InvalidArguments, m),
            None => true,
        },
{
    if args.len() != 1 {
        return Err(Error::invalid_arguments("`chars` requires `this` argument", None));
    }
    let Some(this) = args[0].as_string() else {
        return Err(Error::invalid_arguments("`this` argument should be a String", None));
    };
    let chars = to_chars(this.as_str());
    let exprs = char_exprs(&chars);
    Ok(Expr::Array(exprs))
}

/// `(String chars)`: the String of the Chars of an array; items that are not
/// Chars are skipped.
pub fn string_constructor_from_chars(args: &[Expr]) -> (r: Result<Expr, Error>)
    ensures
        args@.len() == 1 && array_of(args@[0].model()) is Some ==> (r matches Ok(e) && e.model()
            == Value::String(chars_of_items(array_of(args@[0].model())->0))),
        match one_arg_problem(
            args@,
            array_of(args@[0].model()) is Some,
            "requires `chars` argument"@,
            "`chars` argument should be a (Array Char)"@,
        ) {
            Some(m) => r matches Err(e) && error_says(e, ErrorKind::InvalidArguments, m),
            None => true,
        },
{
    if args.len() != 1 {
        return Err(Error::invalid_arguments("requires `chars` argument", None));
    }
    let Some(exprs) = args[0].as_array() else {
        return Err(Error::invalid_arguments("`chars` argument should be a (Array Char)", None));
    };
    let ghost items = models(exprs@);
    let mut out = String::new();
    let mut i: usize = 0;
    assert(items.take(0) =~= Seq::<Value>::empty());
    while i < exprs.len()
        invariant
            i <= exprs@.len(),
            items == models(exprs@),
            out@ == chars_of_items(items.take(i as int)),
        decreases exprs@.len() - i,
    {
        if let Some(c) = exprs[i].as_char() {
            let s = char_to_string(c);
            out.append(s.as_str());
        }
        assert(items.take(i + 1).drop_last() =~= items.take(i as int));
        i = i + 1;
    }
    assert(items.take(exprs@.len() as int) =~= items);
    Ok(Expr::String(out))
}

/// `(uppercased c)`: the Char's uppercase form (the first character of its
/// uppercase mapping).
pub fn char_uppercased(args: &[Expr]) -> (r: Result<Expr, Error>)
    ensures
        args@.len() == 1 && char_of(args@[0].model()) is Some ==> (r matches Ok(e) && e.model()
            == Value::Char(unicode_uppercase_first(char_of(args@[0].model())->0))),
        match one_arg_problem(
            args@,
            char_of(args@[0].model()) is Some,
            "`uppercased` requires `this` argument"@,
            "`this` argument should be a Char"@,
        ) {
            Some(m) => r matches Err(e) && error_says(e, ErrorKind::InvalidArguments, m),
            None => true,
        },
{
    if args.len() != 1 {
        return Err(Error::invalid_arguments("`uppercased` requires `this` argument", None));
    }
    let Some(this) = args[0].as_char() else {
        return Err(Error::invalid_arguments("`this` argument should be a Char", None));
    };
    Ok(Expr::Char(uppercase_first(this)))
}

/// `(format x ...)`: the texts of the arguments, one after the other.
pub fn format(args: &[Expr]) -> (r: Result<Expr, Error>)
    ensures
        r matches Ok(e) && e.model() == Value::String(concat_texts(models(args@))),
{
    let ghost items = models(args@);
    let mut out = String::new();
    let mut i: usize = 0;
    assert(items.take(0) =~= Seq::<Value>::empty());
    while i < args.len()
        invariant
            i <= args@.len(),
            items == models(args@),
            out@ == concat_texts(items.take(i as int)),
        decreases args@.len() - i,
    {
        let t = format_value(&args[i]);
        out.append(t.as_str());
        assert(items.take(i + 1).drop_last() =~= items.take(i as int));
        i = i + 1;
    }
    assert(items.take(args@.len() as int) =~= items);
    Ok(Expr::String(out))
}

/// The texts of two runs of values, one after the other, are the texts of
/// the first run followed by those of the second; one value gives its own
/// text.
pub proof fn law_concat_texts_of_parts(x: Seq<Value>, y: Seq<Value>, v: Value)
    ensures
        concat_texts(seq![v]) == value_text(v),
        concat_texts(x + y) == concat_texts(x) + concat_texts(y),
    decreases y.len(),
{
    let one = seq![v];
    assert(one.drop_last() =~= Seq::<Value>::empty());
    assert(one.last() == v);
    assert(concat_texts(one.drop_last()) =~= Seq::<char>::empty());
    assert(concat_texts(one) == concat_texts(one.drop_last()) + value_text(one.last()));
    assert(concat_texts(one) =~= value_text(v));
    if y.len() == 0 {
        assert(x + y =~= x);
        assert(concat_texts(x) + concat_texts(y) =~= concat_texts(x));
    } else {
        assert((x + y).drop_last() =~= x + y.drop_last());
        assert((x + y).last() == y.last());
        law_concat_texts_of_parts(x, y.drop_last(), v);
        assert(concat_texts(x + y) =~= concat_texts(x) + concat_texts(y));
    }
}

/// The characters of two runs of items are those of the first run
/// followed by those of the second; a Char item gives its character and
/// any other item none.
pub proof fn law_chars_of_items_of_parts(x: Seq<Value>, y: Seq<Value>, v: Value)
    ensures
        chars_of_items(seq![v]) == match char_of(v) {
            Some(c) => seq![c],
            None => Seq::<char>::empty(),
        },
        chars_of_items(x + y) == chars_of_items(x) + chars_of_items(y),
    decreases y.len(),
{
    let one = seq![v];
    assert(one.drop_last() =~= Seq::<Value>::empty());
    assert(one.last() == v);
    assert(chars_of_items(one.drop_last()) =~= Seq::<char>::empty());
    assert(chars_of_items(one) =~= match char_of(v) {
        Some(c) => seq![c],
        None => Seq::<char>::empty(),
    });
    if y.len() == 0 {
        assert(x + y =~= x);
        assert(chars_of_items(x) + chars_of_items(y) =~= chars_of_items(x));
    } else {
        assert((x + y).drop_last() =~= x + y.drop_last());
        assert((x + y).last() == y.last());
        law_chars_of_items_of_parts(x, y.drop_last(), v);
        assert(chars_of_items(x + y) =~= chars_of_items(x) + chars_of_items(y));
    }
}

} // verus!
