//! Sequences: lists and arrays.

use vstd::prelude::*;

use crate::context::{Context, Modules, bound_foreign, insert_foreign, lemma_bound_required, require_module};
use crate::expr::{Value};
use crate::library::cmp::rust_ordering_from_tan_ordering;
use std::cmp::Ordering;
use crate::foreign::ForeignFn;
use crate::args::{array_problem, checked, first_problem, int_problem, unpack_array_arg, unpack_int_arg};
use crate::error::{error_says, Error, ErrorKind};
use crate::expr::{
    array_items, array_of, clone_exprs, format_value, int_of, join_array, list_of, models, split_array,
    stringable_of, unpacked, value_text, with_array_items, Expr,
};

verus! {

/// The modules after `setup_lib_seq`: the bindings it adds to the `prelude` module.
pub open spec fn lib_seq(m: Modules) -> Modules {
    let m = bound_foreign(m, "prelude"@, "cons"@, ForeignFn::ListCons);
    let m = bound_foreign(m, "prelude"@, "count"@, ForeignFn::ListCount);
    let m = bound_foreign(m, "prelude"@, "count$$List"@, ForeignFn::ListCount);
    let m = bound_foreign(m, "prelude"@, "push"@, ForeignFn::ArrayPush);
    let m = bound_foreign(m, "prelude"@, "concat!"@, ForeignFn::ArrayConcatMut);
    let m = bound_foreign(m, "prelude"@, "map"@, ForeignFn::ArrayMap);
    let m = bound_foreign(m, "prelude"@, "join"@, ForeignFn::ArrayJoin);
    let m = bound_foreign(m, "prelude"@, "skip"@, ForeignFn::ArraySkip);
    let m = bound_foreign(m, "prelude"@, "count"@, ForeignFn::ArrayCount);
    let m = bound_foreign(m, "prelude"@, "count$$Array"@, ForeignFn::ArrayCount);
    let m = bound_foreign(m, "prelude"@, "contains?"@, ForeignFn::ArrayContains);
    let m = bound_foreign(m, "prelude"@, "contains?$$Array$$Int"@, ForeignFn::ArrayContains);
    let m = bound_foreign(m, "prelude"@, "contains?$$Array$$String"@, ForeignFn::ArrayContains);
    let m = bound_foreign(m, "prelude"@, "is-empty?"@, ForeignFn::ArrayIsEmpty);
    let m = bound_foreign(m, "prelude"@, "sort!"@, ForeignFn::ArraySortMut);
    let m = bound_foreign(m, "prelude"@, "slice$$Array$$Int"@, ForeignFn::ArraySlice);
    let m = bound_foreign(m, "prelude"@, "slice$$Array$$Int$$Int"@, ForeignFn::ArraySlice);
    let m = bound_foreign(m, "prelude"@, "roll"@, ForeignFn::ArrayRoll);
    m
}

/// Binds the functions of this library in the `prelude` module.
pub fn setup_lib_seq(context: &mut Context)
    requires
        old(context).wf(),
    ensures
        final(context).wf(),
        final(context).modules() == lib_seq(old(context).modules()),
{
    let module = require_module("prelude", context);
    insert_foreign(context, module, "cons", ForeignFn::ListCons);
    proof {
        lemma_bound_required(old(context).modules(), "prelude"@, "cons"@, Value::ForeignFunc(ForeignFn::ListCons));
    }
    insert_foreign(context, module, "count", ForeignFn::ListCount);
    insert_foreign(context, module, "count$$List", ForeignFn::ListCount);
    insert_foreign(context, module, "push", ForeignFn::ArrayPush);
    insert_foreign(context, module, "concat!", ForeignFn::ArrayConcatMut);
    insert_foreign(context, module, "map", ForeignFn::ArrayMap);
    insert_foreign(context, module, "join", ForeignFn::ArrayJoin);
    insert_foreign(context, module, "skip", ForeignFn::ArraySkip);
    insert_foreign(context, module, "count", ForeignFn::ArrayCount);
    insert_foreign(context, module, "count$$Array", ForeignFn::ArrayCount);
    insert_foreign(context, module, "contains?", ForeignFn::ArrayContains);
    insert_foreign(context, module, "contains?$$Array$$Int", ForeignFn::ArrayContains);
    insert_foreign(context, module, "contains?$$Array$$String", ForeignFn::ArrayContains);
    insert_foreign(context, module, "is-empty?", ForeignFn::ArrayIsEmpty);
    insert_foreign(context, module, "sort!", ForeignFn::ArraySortMut);
    insert_foreign(context, module, "slice$$Array$$Int", ForeignFn::ArraySlice);
    insert_foreign(context, module, "slice$$Array$$Int$$Int", ForeignFn::ArraySlice);
    insert_foreign(context, module, "roll", ForeignFn::ArrayRoll);
}


/// The texts, with `sep` between each two of them.
pub open spec fn join_with(texts: Seq<Seq<char>>, sep: Seq<char>) -> Seq<char>
    decreases texts.len(),
{
    if texts.len() == 0 {
        Seq::empty()
    } else if texts.len() == 1 {
        texts[0]
    } else {
        join_with(texts.drop_last(), sep) + sep + texts.last()
    }
}

/// The texts of the values as the library shows them.
pub open spec fn value_texts(items: Seq<Value>) -> Seq<Seq<char>> {
    items.map_values(|v: Value| value_text(v))
}

/// How many items `(skip items n)` drops: `n` as an unsigned count, so a
/// negative `n` drops them all.
pub open spec fn skip_count(n: i64, len: int) -> int {
    if n < 0 || n >= len {
        len
    } else {
        n as int
    }
}

/// The index at which `(slice items start end)` stops; a negative end counts
/// from the end of the array.
pub open spec fn slice_end(len: int, end: Option<i64>) -> int {
    match end {
        Some(e) => if e < 0 {
            len + e
        } else {
            e as int
        },
        None => len,
    }
}

/// The windows of `w` consecutive items, in order.
pub open spec fn windows(items: Seq<Value>, w: int) -> Seq<Value> {
    if w <= 0 || w > items.len() {
        Seq::empty()
    } else {
        Seq::new((items.len() - w + 1) as nat, |i: int| Value::Array(items.subrange(i, i + w)))
    }
}

/// `(cons head tail)`: the list of `head` followed by the items of `tail`.
pub fn list_cons(args: &[Expr], _context: &mut Context) -> (r: Result<Expr, Error>)
    ensures
        *final(_context) == *old(_context),
        args@.len() == 2 && list_of(args@[1].model()) is Some ==> (r matches Ok(e) && e.model()
            == Value::List(seq![unpacked(args@[0].model())] + list_of(args@[1].model())->0)),
        match checked(
            args@.len() == 2,
            "requires `head` and `tail` arguments"@,
            checked(
                list_of(args@[1].model()) is Some,
                "`tail` argument should be a List"@,
                None,
            ),
        ) {
            Some(m) => r matches Err(e) && error_says(e, ErrorKind::InvalidArguments, m),
            None => true,
        },
{
    if args.len() != 2 {
        return Err(Error::invalid_arguments("requires `head` and `tail` arguments", None));
    }
    let Some(tail) = args[1].as_list() else {
        return Err(Error::invalid_arguments("`tail` argument should be a List", None));
    };
    let mut items: Vec<Expr> = Vec::new();
    items.push(args[0].unpack().deep_clone());
    let mut rest = clone_exprs(tail);
    let ghost first = items@;
    let ghost second = rest@;
    items.append(&mut rest);
    assert(items@ =~= first + second);
    assert(models(items@) =~= seq![unpacked(args@[0].model())] + models(tail@)) by {
        assert forall|j: int| 0 <= j < items@.len() implies #[trigger] models(items@)[j] == (seq![unpacked(args@[0].model())] + models(tail@))[j] by {
            if j > 0 {
                assert(items@[j] == second[j - 1]);
                assert(models(second)[j - 1] == models(tail@)[j - 1]);
            }
        }
    }
    Ok(Expr::List(items))
}

/// `(count list)`: the number of items of a list.
pub fn list_count(args: &[Expr], _context: &mut Context) -> (r: Result<Expr, Error>)
    ensures
        *final(_context) == *old(_context),
        args@.len() >= 1 && list_of(args@[0].model()) is Some ==> (r matches Ok(e) && e.model()
            == Value::Int(list_of(args@[0].model())->0.len() as i64)),
        match checked(
            args@.len() >= 1,
            "requires `list` argument"@,
            checked(
                list_of(args@[0].model()) is Some,
                "`list` argument should be a List"@,
                None,
            ),
        ) {
            Some(m) => r matches Err(e) && error_says(e, ErrorKind::InvalidArguments, m),
            None => true,
        },
{
    if args.len() < 1 {
        return Err(Error::invalid_arguments("requires `list` argument", None));
    }
    let Some(list) = args[0].as_list() else {
        return Err(Error::invalid_arguments("`list` argument should be a List", None));
    };
    Ok(Expr::Int(list.len() as i64))
}

/// `(count array)`: the number of items of an array.
pub fn array_count(args: &[Expr], _context: &mut Context) -> (r: Result<Expr, Error>)
    ensures
        *final(_context) == *old(_context),
        args@.len() >= 1 && array_of(args@[0].model()) is Some ==> (r matches Ok(e) && e.model()
            == Value::Int(array_of(args@[0].model())->0.len() as i64)),
        match checked(
            args@.len() >= 1,
            "requires `array` argument"@,
            checked(
                array_of(args@[0].model()) is Some,
                "`array` argument should be a Array"@,
                None,
            ),
        ) {
            Some(m) => r matches Err(e) && error_says(e, ErrorKind::InvalidArguments, m),
            None => true,
        },
{
    if args.len() < 1 {
        return Err(Error::invalid_arguments("requires `array` argument", None));
    }
    let Some(array) = args[0].as_array() else {
        return Err(Error::invalid_arguments("`array` argument should be a Array", None));
    };
    Ok(Expr::Int(array.len() as i64))
}

/// `(is-empty? array)`: whether an array has no items.
pub fn array_is_empty(args: &[Expr], _context: &mut Context) -> (r: Result<Expr, Error>)
    ensures
        *final(_context) == *old(_context),
        args@.len() >= 1 && array_of(args@[0].model()) is Some ==> (r matches Ok(e) && e.model()
            == Value::Bool(array_of(args@[0].model())->0.len() == 0)),
        match checked(
            args@.len() >= 1,
            "requires `array` argument"@,
            checked(
                array_of(args@[0].model()) is Some,
                "`array` argument should be a Array"@,
                None,
            ),
        ) {
            Some(m) => r matches Err(e) && error_says(e, ErrorKind::InvalidArguments, m),
            None => true,
        },
{
    if args.len() < 1 {
        return Err(Error::invalid_arguments("requires `array` argument", None));
    }
    let Some(array) = args[0].as_array() else {
        return Err(Error::invalid_arguments("`array` argument should be a Array", None));
    };
    Ok(Expr::Bool(array.len() == 0))
}

/// `(contains? array x)`: whether an item of the array equals `x`.
pub fn array_contains(args: &[Expr], _context: &mut Context) -> (r: Result<Expr, Error>)
    ensures
        *final(_context) == *old(_context),
        args@.len() == 2 && array_of(args@[0].model()) is Some ==> (r matches Ok(e) && e.model()
            == Value::Bool(array_of(args@[0].model())->0.contains(unpacked(args@[1].model())))),
        match checked(
            args@.len() == 2,
            "requires `this` and `element` argument"@,
            checked(
                array_of(args@[0].model()) is Some,
                "`array` argument should be a Array"@,
                None,
            ),
        ) {
            Some(m) => r matches Err(e) && error_says(e, ErrorKind::InvalidArguments, m),
            None => true,
        },
{
    if args.len() != 2 {
        return Err(Error::invalid_arguments("requires `this` and `element` argument", None));
    }
    let Some(elements) = args[0].as_array() else {
        return Err(Error::invalid_arguments("`array` argument should be a Array", None));
    };
    let element = args[1].unpack();
    let ghost items = models(elements@);
    let mut i: usize = 0;
    while i < elements.len()
        invariant
            i <= elements@.len(),
            items == models(elements@),
            args@.len() == 2,
            array_of(args@[0].model()) is Some,
            items == array_of(args@[0].model())->0,
            element.model() == unpacked(args@[1].model()),
            forall|j: int| 0 <= j < i ==> items[j] != element.model(),
        decreases elements@.len() - i,
    {
        if elements[i].equals(element) {
            assert(items[i as int] == element.model());
            return Ok(Expr::Bool(true));
        }
        i = i + 1;
    }
    Ok(Expr::Bool(false))
}

/// `(join array sep)`: the texts of the items with `sep` (by default nothing)
/// between them.
pub fn array_join(args: &[Expr], _context: &mut Context) -> (r: Result<Expr, Error>)
    ensures
        *final(_context) == *old(_context),
        args@.len() >= 1 && (args@.len() < 2 || stringable_of(args@[1].model()) is Some)
            && array_of(args@[0].model()) is Some ==> (r matches Ok(e) && e.model() == Value::String(
            join_with(
                value_texts(array_of(args@[0].model())->0),
                if args@.len() >= 2 {
                    stringable_of(args@[1].model())->0
                } else {
                    Seq::empty()
                },
            ),
        )),
        match checked(
            args@.len() >= 1,
            "requires `array` argument"@,
            checked(
                args@.len() < 2 || stringable_of(args@[1].model()) is Some,
                "the `separator` should be a Stringable"@,
                checked(
                    array_of(args@[0].model()) is Some,
                    "`array` argument should be a Array"@,
                    None,
                ),
            ),
        ) {
            Some(m) => r matches Err(e) && error_says(e, ErrorKind::InvalidArguments, m),
            None => true,
        },
{
    if args.len() < 1 {
        return Err(Error::invalid_arguments("requires `array` argument", None));
    }
    let mut separator = String::new();
    if args.len() >= 2 {
        let Some(s) = args[1].as_stringable() else {
            return Err(Error::invalid_arguments("the `separator` should be a Stringable", None));
        };
        separator = s.clone();
    }
    let Some(array) = args[0].as_array() else {
        return Err(Error::invalid_arguments("`array` argument should be a Array", None));
    };
    let ghost texts = value_texts(models(array@));
    let mut out = String::new();
    let mut i: usize = 0;
    assert(texts.take(0) =~= Seq::<Seq<char>>::empty());
    while i < array.len()
        invariant
            i <= array@.len(),
            texts == value_texts(models(array@)),
            out@ == join_with(texts.take(i as int), separator@),
        decreases array@.len() - i,
    {
        let t = format_value(&array[i]);
        if i > 0 {
            out.append(separator.as_str());
        }
        out.append(t.as_str());
        proof {
            let next = texts.take(i + 1);
            assert(next.drop_last() =~= texts.take(i as int));
            assert(next.last() == value_text(array@[i as int].model()));
        }
        i = i + 1;
    }
    assert(texts.take(array@.len() as int) =~= texts);
    Ok(Expr::String(out))
}

/// `(skip array n)`: the array without its first `n` items (by default one).
pub fn array_skip(args: &[Expr], _context: &mut Context) -> (r: Result<Expr, Error>)
    ensures
        *final(_context) == *old(_context),
        args@.len() >= 1 && (args@.len() < 2 || int_of(args@[1].model()) is Some) && array_of(
            args@[0].model(),
        ) is Some ==> (r matches Ok(e) && e.model() == Value::Array(
            array_of(args@[0].model())->0.skip(
                skip_count(
                    if args@.len() >= 2 {
                        int_of(args@[1].model())->0
                    } else {
                        1
                    },
                    array_of(args@[0].model())->0.len() as int,
                ),
            ),
        )),
        match checked(
            args@.len() >= 1,
            "requires `array` argument"@,
            checked(
                args@.len() < 2 || int_of(args@[1].model()) is Some,
                "`n` should be an Int"@,
                checked(
                    array_of(args@[0].model()) is Some,
                    "`array` argument should be a Array"@,
                    None,
                ),
            ),
        ) {
            Some(m) => r matches Err(e) && error_says(e, ErrorKind::InvalidArguments, m),
            None => true,
        },
{
    if args.len() < 1 {
        return Err(Error::invalid_arguments("requires `array` argument", None));
    }
    let mut n: i64 = 1;
    if args.len() >= 2 {
        let Some(k) = args[1].as_int() else {
            return Err(Error::invalid_arguments("`n` should be an Int", None));
        };
        n = k;
    }
    let Some(array) = args[0].as_array() else {
        return Err(Error::invalid_arguments("`array` argument should be a Array", None));
    };
    let start: usize = if n < 0 || n as u64 >= array.len() as u64 {
        array.len()
    } else {
        n as usize
    };
    let ghost items = models(array@);
    let mut out: Vec<Expr> = Vec::new();
    let mut i: usize = start;
    while i < array.len()
        invariant
            start <= i <= array@.len(),
            items == models(array@),
            models(out@) == items.subrange(start as int, i as int),
        decreases array@.len() - i,
    {
        let ghost before = out@;
        out.push(array[i].deep_clone());
        assert(models(out@) =~= models(before).push(items[i as int]));
        assert(items.subrange(start as int, i + 1) =~= items.subrange(start as int, i as int).push(items[i as int]));
        i = i + 1;
    }
    assert(items.skip(start as int) =~= items.subrange(start as int, array@.len() as int));
    Ok(Expr::array(out))
}

/// `(slice array start end)`: the items from index `start` up to `end` (by
/// default the end of the array; a negative end counts from the end).
pub fn array_slice(args: &[Expr], _context: &mut Context) -> (r: Result<Expr, Error>)
    requires
        args@.len() >= 2 && array_of(args@[0].model()) is Some && int_of(args@[1].model()) is Some
            && (args@.len() < 3 || int_of(args@[2].model()) is Some) ==> ({
            let len = array_of(args@[0].model())->0.len() as int;
            let start = int_of(args@[1].model())->0 as int;
            let end = slice_end(len, if args@.len() >= 3 { Some(int_of(args@[2].model())->0) } else { None });
            0 <= start <= end <= len
        }),
    ensures
        *final(_context) == *old(_context),
        args@.len() >= 2 && array_of(args@[0].model()) is Some && int_of(args@[1].model()) is Some
            && (args@.len() < 3 || int_of(args@[2].model()) is Some) ==> (r matches Ok(e) && e.model() == Value::Array(
            array_of(args@[0].model())->0.subrange(
                int_of(args@[1].model())->0 as int,
                slice_end(
                    array_of(args@[0].model())->0.len() as int,
                    if args@.len() >= 3 { Some(int_of(args@[2].model())->0) } else { None },
                ),
            ),
        )),
        match checked(
            args@.len() >= 2,
            "requires `this` and start arguments"@,
            checked(
                array_of(args@[0].model()) is Some,
                "`this` argument should be an Array"@,
                checked(
                    int_of(args@[1].model()) is Some,
                    "`start` argument should be an Int"@,
                    checked(
                        args@.len() < 3 || int_of(args@[2].model()) is Some,
                        "`end` argument should be an Int"@,
                        None,
                    ),
                ),
            ),
        ) {
            Some(m) => r matches Err(e) && error_says(e, ErrorKind::InvalidArguments, m),
            None => true,
        },
{
    if args.len() < 2 {
        return Err(Error::invalid_arguments("requires `this` and start arguments", None));
    }
    let Some(elements) = args[0].as_array() else {
        return Err(Error::invalid_arguments("`this` argument should be an Array", None));
    };
    let Some(start) = args[1].as_int() else {
        return Err(Error::invalid_arguments("`start` argument should be an Int", None));
    };
    let len = elements.len() as i128;
    let mut end: i128 = len;
    let mut given_end: Option<i64> = None;
    if args.len() >= 3 {
        let Some(e) = args[2].as_int() else {
            return Err(Error::invalid_arguments("`end` argument should be an Int", None));
        };
        end = if e < 0 {
            len + e as i128
        } else {
            e as i128
        };
        given_end = Some(e);
    }
    let ghost items = models(elements@);
    let ghost stop = slice_end(items.len() as int, given_end);
    assert(end == stop);
    let start = start as usize;
    let end = end as usize;
    let mut out: Vec<Expr> = Vec::new();
    let mut i: usize = start;
    while i < end
        invariant
            start <= i <= end <= elements@.len(),
            items == models(elements@),
            models(out@) == items.subrange(start as int, i as int),
        decreases end - i,
    {
        let ghost before = out@;
        out.push(elements[i].deep_clone());
        assert(models(out@) =~= models(before).push(items[i as int]));
        assert(items.subrange(start as int, i + 1) =~= items.subrange(start as int, i as int).push(items[i as int]));
        i = i + 1;
    }
    Ok(Expr::array(out))
}

/// `(roll size items)`: every window of `size` consecutive items, in order.
pub fn array_roll(args: &[Expr], _context: &mut Context) -> (r: Result<Expr, Error>)
    requires
        args@.len() >= 1 && int_of(args@[0].model()) is Some ==> int_of(args@[0].model())->0 != 0,
    ensures
        *final(_context) == *old(_context),
        args@.len() >= 2 && int_of(args@[0].model()) is Some && array_of(args@[1].model()) is Some
            ==> (r matches Ok(e) && e.model() == Value::Array(
            windows(array_of(args@[1].model())->0, int_of(args@[0].model())->0 as int),
        )),
        match first_problem(int_problem(args@, 0, "window-size"@), array_problem(args@, 1, "items"@)) {
            Some(m) => r matches Err(e) && error_says(e, ErrorKind::InvalidArguments, m),
            None => true,
        },
{
    let window_size = unpack_int_arg(args, 0, "window-size")?;
    let items = unpack_array_arg(args, 1, "items")?;
    let ghost ms = models(items@);
    let mut rolled: Vec<Expr> = Vec::new();
    if window_size <= 0 || window_size as u64 > items.len() as u64 {
        assert(windows(ms, window_size as int) =~= Seq::<Value>::empty());
        assert(models(rolled@) =~= Seq::<Value>::empty());
        return Ok(Expr::array(rolled));
    }
    let w = window_size as usize;
    assert(0 < w <= items@.len());
    let count: usize = items.len() - w + 1;
    let mut i: usize = 0;
    while i < count
        invariant
            0 < w <= items@.len(),
            count == items@.len() - w + 1,
            i <= count,
            ms == models(items@),
            models(rolled@) == windows(ms, w as int).take(i as int),
        decreases count - i,
    {
        let mut window: Vec<Expr> = Vec::new();
        assert(i + w <= items.len());
        let stop: usize = i + w;
        let mut k: usize = i;
        while k < stop
            invariant
                0 < w <= items@.len(),
                i + w <= items@.len(),
                stop == i + w,
                i <= k <= i + w,
                ms == models(items@),
                models(window@) == ms.subrange(i as int, k as int),
            decreases i + w - k,
        {
            let ghost before = window@;
            window.push(items[k].deep_clone());
            assert(models(window@) =~= models(before).push(ms[k as int]));
            assert(ms.subrange(i as int, k + 1) =~= ms.subrange(i as int, k as int).push(ms[k as int]));
            k = k + 1;
        }
        let ghost before = rolled@;
        rolled.push(Expr::array(window));
        assert(models(rolled@) =~= models(before).push(Value::Array(ms.subrange(i as int, i + w))));
        assert(windows(ms, w as int).take(i + 1) =~= windows(ms, w as int).take(i as int).push(
            Value::Array(ms.subrange(i as int, i + w)),
        ));
        i = i + 1;
    }
    assert(windows(ms, w as int).take(count as int) =~= windows(ms, w as int));
    Ok(Expr::array(rolled))
}

/// After `(push array x)`, the array holds its items followed by `x`: one
/// more item, the last of which is `x`.
pub proof fn law_push_appends_one_item(v: Value, x: Value)
    requires
        array_of(v) is Some,
    ensures
        array_of(with_array_items(v, array_of(v)->0.push(x))) == Some(array_of(v)->0.push(x)),
        array_of(with_array_items(v, array_of(v)->0.push(x)))->0.len() == array_of(v)->0.len() + 1,
        array_of(with_array_items(v, array_of(v)->0.push(x)))->0.last() == x,
{
}

/// `(skip array n)` gives what `(slice array n)` gives, for an `n` within
/// the array.
pub proof fn law_skip_is_slice_to_end(items: Seq<Value>, n: i64)
    requires
        0 <= n <= items.len(),
    ensures
        items.skip(skip_count(n, items.len() as int)) == items.subrange(n as int, slice_end(items.len() as int, None)),
{
    assert(items.skip(n as int) =~= items.subrange(n as int, items.len() as int));
}

/// `out` holds, item by item, a result that `invoke` gives back for `func`
/// and the item of `items` at the same place.
pub open spec fn mapped_by<F: Fn(&Expr, &Expr) -> Result<Expr, Error>>(
    invoke: F,
    func: Expr,
    items: Seq<Expr>,
    out: Seq<Expr>,
) -> bool {
    &&& out.len() == items.len()
    &&& forall|i: int| 0 <= i < items.len() ==> #[trigger] call_ensures(invoke, (&func, &items[i]), Ok::<Expr, Error>(out[i]))
}

/// `invoke` succeeds for `func` on each item before place `k`, and gives
/// back the error `e` on the item at place `k`.
pub open spec fn fails_at<F: Fn(&Expr, &Expr) -> Result<Expr, Error>>(
    invoke: F,
    func: Expr,
    items: Seq<Expr>,
    k: int,
    e: Error,
) -> bool {
    &&& 0 <= k < items.len()
    &&& forall|j: int| #![trigger items[j]] 0 <= j < k ==> exists|o: Expr| #[trigger] call_ensures(invoke, (&func, &items[j]), Ok::<Expr, Error>(o))
    &&& call_ensures(invoke, (&func, &items[k]), Err::<Expr, Error>(e))
}

/// `invoke` never fails for `func` on any of `items`.
pub open spec fn never_fails<F: Fn(&Expr, &Expr) -> Result<Expr, Error>>(invoke: F, func: Expr, items: Seq<Expr>) -> bool {
    forall|i: int, res: Result<Expr, Error>| 0 <= i < items.len() && #[trigger] call_ensures(invoke, (&func, &items[i]), res) ==> res is Ok
}

/// `(map func seq)`: the array of what the function gives back for each item
/// of the array `seq`, in order. `invoke` is the host's way of calling a
/// function value on one argument; the first error it gives back is the
/// result.
pub fn array_map<F: Fn(&Expr, &Expr) -> Result<Expr, Error>>(args: &[Expr], _context: &mut Context, invoke: F) -> (r: Result<Expr, Error>)
    requires
        forall|f: &Expr, x: &Expr| #[trigger] call_requires(invoke, (f, x)),
    ensures
        *final(_context) == *old(_context),
        args@.len() != 2 ==> (r matches Err(e) && error_says(e, ErrorKind::InvalidArguments, "requires `func` and `seq` arguments"@)),
        args@.len() == 2 && array_items(args@[1]) is None ==> (r matches Err(e) && error_says(
            e,
            ErrorKind::InvalidArguments,
            "`seq` must be an `Array`"@,
        )),
        args@.len() == 2 ==> (array_items(args@[1]) matches Some(items) ==> match r {
            Ok(e) => e matches Expr::Array(out) && mapped_by(invoke, args@[0], items, out@),
            Err(e) => exists|k: int| #[trigger] fails_at(invoke, args@[0], items, k, e),
        }),
        args@.len() == 2 ==> (array_items(args@[1]) matches Some(items) ==> (never_fails(invoke, args@[0], items) ==> r is Ok)),
{
    if args.len() != 2 {
        return Err(Error::invalid_arguments("requires `func` and `seq` arguments", None));
    }
    let Some(items) = args[1].as_array() else {
        return Err(Error::invalid_arguments("`seq` must be an `Array`", None));
    };
    let func = &args[0];
    let mut out: Vec<Expr> = Vec::new();
    let mut i: usize = 0;
    while i < items.len()
        invariant
            forall|f: &Expr, x: &Expr| #[trigger] call_requires(invoke, (f, x)),
            args@.len() == 2,
            *func == args@[0],
            array_items(args@[1]) == Some(items@),
            i <= items@.len(),
            out@.len() == i,
            forall|j: int| 0 <= j < i ==> #[trigger] call_ensures(invoke, (func, &items@[j]), Ok::<Expr, Error>(out@[j])),
        decreases items@.len() - i,
    {
        let y = invoke(func, &items[i]);
        match y {
            Ok(v) => {
                out.push(v);
            },
            Err(e) => {
                proof {
                    assert forall|j: int| #![trigger items@[j]] 0 <= j < i implies exists|o: Expr| #[trigger] call_ensures(invoke, (func, &items@[j]), Ok::<Expr, Error>(o)) by {
                        assert(call_ensures(invoke, (func, &items@[j]), Ok::<Expr, Error>(out@[j])));
                    }
                    assert(fails_at(invoke, args@[0], array_items(args@[1])->0, i as int, e));
                }
                return Err(e);
            },
        }
        i = i + 1;
    }
    Ok(Expr::Array(out))
}

/// The answer of a comparator is a negative Int: its first argument goes
/// first.
pub open spec fn negative_answer(res: Result<Expr, Error>) -> bool {
    res matches Ok(o) && int_of(o.model()) matches Some(n) && n < 0
}

/// `compare` puts `a` before `b`.
pub open spec fn goes_before<F: Fn(&Expr, &Expr) -> Result<Expr, Error>>(compare: F, a: Expr, b: Expr) -> bool {
    exists|res: Result<Expr, Error>| #[trigger] call_ensures(compare, (&a, &b), res) && negative_answer(res)
}

/// `compare` orders items: it answers every pair with an Int, it answers a
/// pair the same way each time as to which goes first, and it never puts
/// each of two items before the other. The language stops on an answer that
/// is no Int, and std's `sort_by`, which it sorts with, may panic on a
/// comparison that is no total order.
pub open spec fn is_comparator<F: Fn(&Expr, &Expr) -> Result<Expr, Error>>(compare: F) -> bool {
    &&& forall|a: Expr, b: Expr| #[trigger] call_requires(compare, (&a, &b))
    &&& forall|a: Expr, b: Expr, res: Result<Expr, Error>| #[trigger] call_ensures(compare, (&a, &b), res)
        ==> (res matches Ok(o) && int_of(o.model()) is Some)
    &&& forall|a: Expr, b: Expr, r1: Result<Expr, Error>, r2: Result<Expr, Error>|
        #![trigger call_ensures(compare, (&a, &b), r1), call_ensures(compare, (&a, &b), r2)]
        call_ensures(compare, (&a, &b), r1) && call_ensures(compare, (&a, &b), r2) ==> negative_answer(r1)
            == negative_answer(r2)
    &&& forall|a: Expr, b: Expr| #[trigger] goes_before(compare, a, b) ==> !goes_before(compare, b, a)
}

/// No item of `s` is put by `compare` before the item just before it.
pub open spec fn sorted_by<F: Fn(&Expr, &Expr) -> Result<Expr, Error>>(compare: F, s: Seq<Expr>) -> bool {
    forall|i: int, j: int| #![trigger s[i], s[j]] 0 <= i && j == i + 1 && j < s.len() ==> !goes_before(compare, s[j], s[i])
}

/// `after` is the array `before` with its items `items` put in the order of
/// `compare`, under the same annotations.
pub open spec fn sorted_array<F: Fn(&Expr, &Expr) -> Result<Expr, Error>>(compare: F, before: Expr, items: Seq<Expr>, after: Expr) -> bool {
    &&& array_items(after) is Some
    &&& array_items(after)->0.len() == items.len()
    &&& array_items(after)->0.to_multiset() == items.to_multiset()
    &&& sorted_by(compare, array_items(after)->0)
    &&& exists|p: Seq<int>| #[trigger] places_of(array_items(after)->0, items, p) && stable_by(compare, array_items(after)->0, p)
    &&& after.model() == with_array_items(before.model(), models(array_items(after)->0))
}

/// `p` tells, for each item of `s`, the place among the first `s.len()`
/// items of `items` that it came from, each place once.
pub open spec fn places_of(s: Seq<Expr>, items: Seq<Expr>, p: Seq<int>) -> bool {
    &&& p.len() == s.len()
    &&& s.len() <= items.len()
    &&& forall|i: int| 0 <= i < p.len() ==> 0 <= #[trigger] p[i] < s.len() && s[i] == items[p[i]]
    &&& forall|i: int, j: int| 0 <= i < j < p.len() ==> #[trigger] p[i] != #[trigger] p[j]
}

/// Two items of `s` stand the other way round from the places `p` they came
/// from only where `compare` puts the first before the second: items that
/// `compare` does not tell apart keep their order.
pub open spec fn stable_by<F: Fn(&Expr, &Expr) -> Result<Expr, Error>>(compare: F, s: Seq<Expr>, p: Seq<int>) -> bool {
    forall|i: int, j: int| 0 <= i < j < s.len() && #[trigger] p[i] > #[trigger] p[j] ==> goes_before(compare, s[i], s[j])
}

/// Putting `x` at place `j` of the items `placed`, sorted by `compare`,
/// keeps them sorted where `x` does not go before the item before it and
/// goes before each item from `j` on.
proof fn lemma_insert_sorted<F: Fn(&Expr, &Expr) -> Result<Expr, Error>>(compare: F, placed: Seq<Expr>, j: usize, x: Expr)
    requires
        is_comparator(compare),
        sorted_by(compare, placed),
        j <= placed.len(),
        j > 0 ==> !goes_before(compare, x, placed[j - 1]),
        forall|k: int| j <= k < placed.len() ==> #[trigger] goes_before(compare, x, placed[k]),
    ensures
        sorted_by(compare, placed.insert(j as int, x)),
        placed.insert(j as int, x).to_multiset() == placed.to_multiset().insert(x),
{
    broadcast use vstd::seq_lib::group_to_multiset_ensures;
    let s2 = placed.insert(j as int, x);
    assert(s2.remove(j as int) =~= placed);
    assert(s2[j as int] == x);
    assert(s2.to_multiset() =~= placed.to_multiset().insert(x)) by {
        assert(placed.to_multiset() == s2.to_multiset().remove(x));
        assert(s2.to_multiset().count(x) > 0);
    }
    assert forall|a: int, b: int| #![trigger s2[a], s2[b]] 0 <= a && b == a + 1 && b < s2.len() implies !goes_before(compare, s2[b], s2[a]) by {
        if b < j {
            assert(s2[a] == placed[a] && s2[b] == placed[b]);
        } else if b == j {
            assert(s2[a] == placed[a] && s2[b] == x);
        } else if a == j {
            assert(s2[a] == x && s2[b] == placed[a]);
            assert(goes_before(compare, x, placed[a]));
        } else {
            assert(s2[a] == placed[a - 1] && s2[b] == placed[a]);
        }
    }
}

/// Putting `x`, the item at place `placed.len()` of `orig`, at place `j` of
/// the items `placed`, taken from the places `idx` of `orig`, gives items
/// taken from the places of `idx` with `placed.len()` put at `j`.
proof fn lemma_insert_places(orig: Seq<Expr>, placed: Seq<Expr>, idx: Seq<int>, j: usize, x: Expr) -> (idx2: Seq<int>)
    requires
        j <= placed.len(),
        placed.len() < orig.len(),
        x == orig[placed.len() as int],
        places_of(placed, orig, idx),
    ensures
        idx2 == idx.insert(j as int, placed.len() as int),
        places_of(placed.insert(j as int, x), orig, idx2),
{
    let n = placed.len() as int;
    let s2 = placed.insert(j as int, x);
    let idx2 = idx.insert(j as int, n);
    assert forall|i: int| 0 <= i < idx2.len() implies 0 <= #[trigger] idx2[i] < s2.len() && s2[i] == orig[idx2[i]] by {
        if i > j {
            assert(idx2[i] == idx[i - 1] && s2[i] == placed[i - 1]);
        } else if i < j {
            assert(idx2[i] == idx[i] && s2[i] == placed[i]);
        }
    }
    assert forall|a: int, b: int| 0 <= a < b < idx2.len() implies #[trigger] idx2[a] != #[trigger] idx2[b] by {
        if a != j && b != j {
            let pa = if a < j { a } else { a - 1 };
            let pb = if b < j { b } else { b - 1 };
            assert(idx2[a] == idx[pa] && idx2[b] == idx[pb]);
            assert(idx[pa] != idx[pb]);
        } else if a == j {
            assert(idx2[b] == idx[b - 1] && idx[b - 1] < n);
        } else {
            assert(idx2[a] == idx[a] && idx[a] < n);
        }
    }
    idx2
}

/// The order stays stable when `x` comes from a later place than all of
/// `placed` and goes before each item from `j` on.
proof fn lemma_insert_stable<F: Fn(&Expr, &Expr) -> Result<Expr, Error>>(
    compare: F,
    orig: Seq<Expr>,
    placed: Seq<Expr>,
    idx: Seq<int>,
    j: usize,
    x: Expr,
)
    requires
        j <= placed.len(),
        forall|k: int| j <= k < placed.len() ==> #[trigger] goes_before(compare, x, placed[k]),
        places_of(placed, orig, idx),
        stable_by(compare, placed, idx),
    ensures
        stable_by(compare, placed.insert(j as int, x), idx.insert(j as int, placed.len() as int)),
{
    let n = placed.len() as int;
    let s2 = placed.insert(j as int, x);
    let idx2 = idx.insert(j as int, n);
    assert forall|a: int, b: int| 0 <= a < b < s2.len() && #[trigger] idx2[a] > #[trigger] idx2[b] implies goes_before(compare, s2[a], s2[b]) by {
        if b < j {
            assert(idx2[a] == idx[a] && idx2[b] == idx[b]);
        } else if b == j {
            assert(idx2[a] == idx[a] && idx2[b] == n && idx[a] < n);
        } else if a == j {
            assert(s2[a] == x && s2[b] == placed[b - 1]);
            assert(goes_before(compare, x, placed[b - 1]));
        } else if a < j {
            assert(idx2[a] == idx[a] && idx2[b] == idx[b - 1] && s2[a] == placed[a] && s2[b] == placed[b - 1]);
        } else {
            assert(idx2[a] == idx[a - 1] && idx2[b] == idx[b - 1] && s2[a] == placed[a - 1] && s2[b] == placed[b - 1]);
        }
    }
}

/// `(sort! array func)`: puts the items of the array in the order of the
/// comparator function, in place, and gives back the sorted array. The sort
/// is stable: items that the comparator does not tell apart keep their
/// order.
/// `compare` is the host's way of calling the comparator on two items.
pub fn array_sort_mut<F: Fn(&Expr, &Expr) -> Result<Expr, Error>>(args: &mut Vec<Expr>, _context: &mut Context, compare: F) -> (r: Result<Expr, Error>)
    requires
        is_comparator(compare),
    ensures
        *final(_context) == *old(_context),
        match checked(
            old(args)@.len() == 2,
            "requires `array` and `func` arguments"@,
            checked(
                array_items(old(args)@[0]) is Some,
                "`array` argument should be a Array"@,
                None,
            ),
        ) {
            Some(m) => r matches Err(e) && error_says(e, ErrorKind::InvalidArguments, m) && final(args)@ == old(args)@,
            None => r matches Ok(e) && final(args)@.len() == 2 && final(args)@[1] == old(args)@[1]
                && sorted_array(compare, old(args)@[0], array_items(old(args)@[0])->0, final(args)@[0])
                && e.model() == final(args)@[0].model(),
        },
{
    broadcast use vstd::seq_lib::group_to_multiset_ensures;
    if args.len() != 2 {
        return Err(Error::invalid_arguments("requires `array` and `func` arguments", None));
    }
    if args[0].as_array().is_none() {
        return Err(Error::invalid_arguments("`array` argument should be a Array", None));
    }
    let mut target = Expr::Nothing;
    core::mem::swap(&mut target, &mut args[0]);
    let ghost before = target;
    let (mut items, anns) = split_array(target);
    let ghost orig = items@;
    let mut sorted: Vec<Expr> = Vec::new();
    let ghost mut idx: Seq<int> = Seq::empty();
    assert(sorted@.to_multiset().add(items@.to_multiset()) =~= orig.to_multiset());
    while items.len() > 0
        invariant
            is_comparator(compare),
            sorted@.to_multiset().add(items@.to_multiset()) == orig.to_multiset(),
            sorted_by(compare, sorted@),
            sorted@.len() + items@.len() == orig.len(),
            forall|k: int| 0 <= k < items@.len() ==> #[trigger] items@[k] == orig[sorted@.len() + k],
            places_of(sorted@, orig, idx),
            stable_by(compare, sorted@, idx),
        decreases items@.len(),
    {
        let ghost pending = items@;
        let ghost placed = sorted@;
        let x = items.remove(0);
        proof {
            pending.to_multiset_ensures();
        }
        assert(pending.contains(pending[0]));
        assert(pending.to_multiset().count(x) > 0);
        assert(items@.to_multiset() == pending.remove(0).to_multiset());
        let mut j: usize = sorted.len();
        let mut going = true;
        while going && j > 0
            invariant
                is_comparator(compare),
                sorted@ == placed,
                j <= sorted@.len(),
                forall|k: int| j <= k < sorted@.len() ==> #[trigger] goes_before(compare, x, sorted@[k]),
                !going ==> j > 0 && !goes_before(compare, x, sorted@[j - 1]),
            decreases j + if going { 1int } else { 0int },
        {
            let answer = compare(&x, &sorted[j - 1]);
            let first = match &answer {
                Ok(o) => match rust_ordering_from_tan_ordering(o) {
                    Some(Ordering::Less) => true,
                    _ => false,
                },
                Err(_) => false,
            };
            proof {
                if first {
                    assert(negative_answer(answer));
                    assert(goes_before(compare, x, sorted@[j - 1]));
                } else {
                    assert(!negative_answer(answer));
                    if goes_before(compare, x, sorted@[j - 1]) {
                        let res = choose|res: Result<Expr, Error>| #[trigger] call_ensures(compare, (&x, &sorted@[j - 1]), res) && negative_answer(res);
                        assert(call_ensures(compare, (&x, &sorted@[j - 1]), answer));
                        assert(false);
                    }
                }
            }
            if first {
                j = j - 1;
            } else {
                going = false;
            }
        }
        let ghost xv = x;
        assert(xv == pending[0]);
        proof {
            lemma_insert_sorted(compare, placed, j, xv);
            lemma_insert_stable(compare, orig, placed, idx, j, xv);
            idx = lemma_insert_places(orig, placed, idx, j, xv);
        }
        sorted.insert(j, x);
        assert forall|k: int| 0 <= k < items@.len() implies #[trigger] items@[k] == orig[sorted@.len() + k] by {
            assert(items@[k] == pending[k + 1]);
        }
        assert(items@.to_multiset() == pending.to_multiset().remove(xv));
        assert(sorted@.to_multiset().add(items@.to_multiset()) =~= orig.to_multiset());
    }
    assert forall|y: Expr| #[trigger] sorted@.to_multiset().count(y) == orig.to_multiset().count(y) by {
        assert(!items@.contains(y));
    }
    assert(sorted@.to_multiset() =~= orig.to_multiset());
    assert(places_of(sorted@, orig, idx) && stable_by(compare, sorted@, idx));
    let ghost fin = sorted@;
    let result = join_array(sorted, anns);
    let copy = result.deep_clone();
    args.set(0, result);
    assert(array_items(args@[0]) == Some(fin));
    Ok(copy)
}

/// `(push array x)`: appends `x` to the array, in place.
pub fn array_push(args: &mut Vec<Expr>, _context: &mut Context) -> (r: Result<Expr, Error>)
    ensures
        *final(_context) == *old(_context),
        old(args)@.len() == 2 && array_of(old(args)@[0].model()) is Some ==> (r matches Ok(e)
            && e.model() == Value::Nothing && final(args)@.len() == 2
            && final(args)@[0].model() == with_array_items(
            old(args)@[0].model(),
            array_of(old(args)@[0].model())->0.push(unpacked(old(args)@[1].model())),
        ) && final(args)@[1] == old(args)@[1]),
        match checked(
            old(args)@.len() == 2,
            "requires `this` and `element` argument"@,
            checked(
                array_of(old(args)@[0].model()) is Some,
                "`array` argument should be a Array"@,
                None,
            ),
        ) {
            Some(m) => r matches Err(e) && error_says(e, ErrorKind::InvalidArguments, m) && final(args)@ == old(args)@,
            None => true,
        },
{
    if args.len() != 2 {
        return Err(Error::invalid_arguments("requires `this` and `element` argument", None));
    }
    if args[0].as_array().is_none() {
        return Err(Error::invalid_arguments("`array` argument should be a Array", None));
    }
    let element = args[1].unpack().deep_clone();
    let mut target = Expr::Nothing;
    core::mem::swap(&mut target, &mut args[0]);
    let ghost old_model = target.model();
    let (mut items, anns) = split_array(target);
    let ghost before = items@;
    let ghost em = element.model();
    items.push(element);
    assert(models(items@) =~= models(before).push(em));
    let rebuilt = join_array(items, anns);
    args.set(0, rebuilt);
    Ok(Expr::Nothing)
}

/// `(concat! a b)`: moves the items of the array `b` to the end of the array
/// `a`, in place; `b` is left empty.
pub fn array_concat_mut(args: &mut Vec<Expr>, _context: &mut Context) -> (r: Result<Expr, Error>)
    ensures
        *final(_context) == *old(_context),
        old(args)@.len() == 2 && array_of(old(args)@[0].model()) is Some && array_of(
            old(args)@[1].model(),
        ) is Some ==> (r matches Ok(e) && e.model() == Value::Nothing && final(args)@.len() == 2
            && final(args)@[0].model() == with_array_items(
            old(args)@[0].model(),
            array_of(old(args)@[0].model())->0 + array_of(old(args)@[1].model())->0,
        ) && final(args)@[1].model() == with_array_items(old(args)@[1].model(), Seq::empty())),
        match checked(
            old(args)@.len() == 2,
            "requires two arguments"@,
            checked(
                array_of(old(args)@[0].model()) is Some,
                "`array1` argument should be a Array"@,
                checked(
                    array_of(old(args)@[1].model()) is Some,
                    "`array2` argument should be a Array"@,
                    None,
                ),
            ),
        ) {
            Some(m) => r matches Err(e) && error_says(e, ErrorKind::InvalidArguments, m) && final(args)@ == old(args)@,
            None => true,
        },
{
    if args.len() != 2 {
        return Err(Error::invalid_arguments("requires two arguments", None));
    }
    if args[0].as_array().is_none() {
        return Err(Error::invalid_arguments("`array1` argument should be a Array", None));
    }
    if args[1].as_array().is_none() {
        return Err(Error::invalid_arguments("`array2` argument should be a Array", None));
    }
    let mut first = Expr::Nothing;
    core::mem::swap(&mut first, &mut args[0]);
    let mut second = Expr::Nothing;
    core::mem::swap(&mut second, &mut args[1]);
    let (mut items1, anns1) = split_array(first);
    let (mut items2, anns2) = split_array(second);
    let ghost a = items1@;
    let ghost b = items2@;
    items1.append(&mut items2);
    assert(models(items1@) =~= models(a) + models(b));
    assert(models(items2@) =~= Seq::<Value>::empty());
    let rebuilt1 = join_array(items1, anns1);
    let rebuilt2 = join_array(items2, anns2);
    args.set(0, rebuilt1);
    args.set(1, rebuilt2);
    Ok(Expr::Nothing)
}

/// `(slice items start end)` holds the items from `start` up to `end`; a
/// negative `end` counts from the end of the array, so the slice stops
/// before the last `-end` items, and those items after it make the slice
/// from `start` to the end.
pub proof fn law_slice_end_counts_from_the_end(items: Seq<Value>, start: i64, end: i64)
    requires
        0 <= start,
        end < 0 ==> start <= items.len() + end,
        end >= 0 ==> start <= end <= items.len(),
    ensures
        items.subrange(start as int, slice_end(items.len() as int, Some(end))).len() == if end < 0 {
            items.len() + end - start
        } else {
            end - start
        },
        end < 0 ==> items.subrange(start as int, slice_end(items.len() as int, Some(end))) + items.subrange(
            items.len() + end,
            items.len() as int,
        ) == items.subrange(start as int, slice_end(items.len() as int, None)),
{
    if end < 0 {
        assert(items.subrange(start as int, items.len() + end) + items.subrange(items.len() + end, items.len() as int)
            =~= items.subrange(start as int, items.len() as int));
    }
}

/// Joined texts hold each text once, in order, with the separator between
/// each two of them and nowhere else: one text is itself, and a text in
/// front of others is followed by the separator and the others joined.
pub proof fn law_join_puts_separator_between(a: Seq<char>, texts: Seq<Seq<char>>, sep: Seq<char>)
    ensures
        join_with(seq![a], sep) == a,
        texts.len() > 0 ==> join_with(seq![a] + texts, sep) == a + sep + join_with(texts, sep),
        texts.len() > 0 ==> join_with(texts.push(a), sep) == join_with(texts, sep) + sep + a,
    decreases texts.len(),
{
    let one = seq![a];
    assert(one[0] == a);
    if texts.len() > 0 {
        let all = seq![a] + texts;
        let p = texts.push(a);
        assert(p.drop_last() =~= texts);
        assert(p.last() == a);
        if texts.len() == 1 {
            assert(all.drop_last() =~= one);
            assert(all.last() == texts[0]);
            assert(join_with(all, sep) == join_with(all.drop_last(), sep) + sep + all.last());
            assert(join_with(texts, sep) == texts[0]);
        } else {
            assert(all.drop_last() =~= seq![a] + texts.drop_last());
            assert(all.last() == texts.last());
            law_join_puts_separator_between(a, texts.drop_last(), sep);
            assert(join_with(all, sep) =~= a + sep + join_with(texts, sep));
        }
    }
}

/// `(roll w items)` with `0 < w <= len` gives `len - w + 1` windows of `w`
/// consecutive items: the first holds the first `w` items, the last the
/// last `w` items, and each next window is the one before moved on by one
/// item.
pub proof fn law_roll_windows_slide_by_one(items: Seq<Value>, w: int)
    requires
        0 < w <= items.len(),
    ensures
        windows(items, w).len() == items.len() - w + 1,
        windows(items, w)[0] == Value::Array(items.take(w)),
        windows(items, w).last() == Value::Array(items.skip(items.len() - w)),
        forall|k: int| 0 <= k < items.len() - w ==> (#[trigger] windows(items, w)[k] matches Value::Array(a)
            && windows(items, w)[k + 1] == Value::Array(a.skip(1).push(items[k + w]))),
{
    let ws = windows(items, w);
    assert(items.subrange(0, w) =~= items.take(w));
    assert(items.subrange(items.len() - w, items.len() as int) =~= items.skip(items.len() - w));
    assert forall|k: int| 0 <= k < items.len() - w implies (#[trigger] ws[k] matches Value::Array(a) && ws[k + 1]
        == Value::Array(a.skip(1).push(items[k + w]))) by {
        assert(items.subrange(k, k + w).skip(1).push(items[k + w]) =~= items.subrange(k + 1, k + 1 + w));
    }
}

} // verus!
