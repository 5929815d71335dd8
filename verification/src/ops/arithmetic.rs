//! Arithmetic on Ints.

use vstd::prelude::*;

use crate::args::{error_about, two_arg_problem};
use crate::error::{error_says, Error, ErrorKind};
use crate::expr::{int_of, text_of, Expr, Value};

verus! {

/// The sum of the numbers.
pub open spec fn sum_of(xs: Seq<i64>) -> int
    decreases xs.len(),
{
    if xs.len() == 0 {
        0
    } else {
        sum_of(xs.drop_last()) + xs.last()
    }
}

/// The product of the numbers.
pub open spec fn product_of(xs: Seq<i64>) -> int
    decreases xs.len(),
{
    if xs.len() == 0 {
        1
    } else {
        product_of(xs.drop_last()) * xs.last()
    }
}

/// Every running sum, from the left, fits in an `i64`.
pub open spec fn sums_fit(xs: Seq<i64>) -> bool {
    forall|k: int| 0 <= k <= xs.len() ==> i64::MIN <= #[trigger] sum_of(xs.take(k)) <= i64::MAX
}

/// Every running product, from the left, fits in an `i64`.
pub open spec fn products_fit(xs: Seq<i64>) -> bool {
    forall|k: int| 0 <= k <= xs.len() ==> i64::MIN <= #[trigger] product_of(xs.take(k)) <= i64::MAX
}

/// Every argument is an Int.
pub open spec fn all_ints(args: Seq<Expr>) -> bool {
    forall|i: int| 0 <= i < args.len() ==> #[trigger] int_of(args[i].model()) is Some
}

/// The Ints of the arguments.
pub open spec fn ints_of(args: Seq<Expr>) -> Seq<i64> {
    Seq::new(args.len(), |i: int| int_of(args[i].model())->0)
}

/// The sum of the numbers.
pub fn add_int_impl(xs: Vec<i64>) -> (r: i64)
    requires
        sums_fit(xs@),
    ensures
        r == sum_of(xs@),
{
    let mut sum: i64 = 0;
    let mut i: usize = 0;
    assert(xs@.take(0) =~= Seq::<i64>::empty());
    while i < xs.len()
        invariant
            i <= xs@.len(),
            sums_fit(xs@),
            sum == sum_of(xs@.take(i as int)),
        decreases xs@.len() - i,
    {
        assert(xs@.take(i + 1).drop_last() =~= xs@.take(i as int));
        assert(i64::MIN <= sum_of(xs@.take(i + 1)) <= i64::MAX);
        sum = sum + xs[i];
        i = i + 1;
    }
    assert(xs@.take(xs@.len() as int) =~= xs@);
    sum
}

/// The message for the first argument that is not an Int, where there is one.
pub open spec fn non_int_problem(args: Seq<Expr>) -> Option<Seq<char>>
    decreases args.len(),
{
    if args.len() == 0 {
        None
    } else if int_of(args[0].model()) is None {
        Some(text_of(args[0].model()) + " is not an Int"@)
    } else {
        non_int_problem(args.drop_first())
    }
}

/// The Ints of the arguments, or the error for the first one that is not an Int.
fn collect_ints(args: &[Expr]) -> (r: Result<Vec<i64>, Error>)
    ensures
        all_ints(args@) ==> (r matches Ok(xs) && xs@ == ints_of(args@)),
        !all_ints(args@) ==> (non_int_problem(args@) is Some && (r matches Err(e) && error_says(
            e,
            ErrorKind::InvalidArguments,
            non_int_problem(args@)->0,
        ))),
{
    let mut xs: Vec<i64> = Vec::new();
    let mut i: usize = 0;
    assert(args@.skip(0) =~= args@);
    while i < args.len()
        invariant
            i <= args@.len(),
            forall|j: int| 0 <= j < i ==> #[trigger] int_of(args@[j].model()) is Some,
            xs@ =~= ints_of(args@).take(i as int),
            non_int_problem(args@) == non_int_problem(args@.skip(i as int)),
        decreases args@.len() - i,
    {
        let ghost rest = args@.skip(i as int);
        assert(rest[0] == args@[i as int]);
        assert(rest.drop_first() =~= args@.skip(i + 1));
        let Some(n) = args[i].as_int() else {
            proof {
                reveal_strlit("");
                reveal_strlit(" is not an Int");
                assert(""@ + text_of(args@[i as int].model()) + " is not an Int"@ =~= text_of(args@[i as int].model()) + " is not an Int"@);
            }
            return Err(error_about("", &args[i], " is not an Int"));
        };
        xs.push(n);
        i = i + 1;
    }
    assert(xs@ =~= ints_of(args@));
    Ok(xs)
}

/// `(+ a b ...)`: the sum of the Int arguments.
pub fn add_int(args: &[Expr]) -> (r: Result<Expr, Error>)
    requires
        all_ints(args@) ==> sums_fit(ints_of(args@)),
    ensures
        all_ints(args@) ==> (r matches Ok(e) && e.model() == Value::Int(sum_of(ints_of(args@)) as i64)),
        !all_ints(args@) ==> (non_int_problem(args@) is Some && (r matches Err(e) && error_says(
            e,
            ErrorKind::InvalidArguments,
            non_int_problem(args@)->0,
        ))),
{
    let xs = collect_ints(args)?;
    let sum = add_int_impl(xs);
    Ok(Expr::Int(sum))
}

/// `(* a b ...)`: the product of the Int arguments.
pub fn mul_int(args: &[Expr]) -> (r: Result<Expr, Error>)
    requires
        all_ints(args@) ==> products_fit(ints_of(args@)),
    ensures
        all_ints(args@) ==> (r matches Ok(e) && e.model() == Value::Int(product_of(ints_of(args@)) as i64)),
        !all_ints(args@) ==> (non_int_problem(args@) is Some && (r matches Err(e) && error_says(
            e,
            ErrorKind::InvalidArguments,
            non_int_problem(args@)->0,
        ))),
{
    let xs = collect_ints(args)?;
    let mut product: i64 = 1;
    let mut i: usize = 0;
    assert(xs@.take(0) =~= Seq::<i64>::empty());
    while i < xs.len()
        invariant
            i <= xs@.len(),
            products_fit(xs@),
            product == product_of(xs@.take(i as int)),
        decreases xs@.len() - i,
    {
        assert(xs@.take(i + 1).drop_last() =~= xs@.take(i as int));
        assert(i64::MIN <= product_of(xs@.take(i + 1)) <= i64::MAX);
        product = product * xs[i];
        i = i + 1;
    }
    assert(xs@.take(xs@.len() as int) =~= xs@);
    Ok(Expr::Int(product))
}

/// `(- a b)`: the difference of two Ints.
pub fn sub_int(args: &[Expr]) -> (r: Result<Expr, Error>)
    requires
        args@.len() == 2 && int_of(args@[0].model()) is Some && int_of(args@[1].model()) is Some
            ==> i64::MIN <= int_of(args@[0].model())->0 - int_of(args@[1].model())->0 <= i64::MAX,
    ensures
        args@.len() == 2 && int_of(args@[0].model()) is Some && int_of(args@[1].model()) is Some
            ==> (r matches Ok(e) && e.model() == Value::Int(
            (int_of(args@[0].model())->0 - int_of(args@[1].model())->0) as i64,
        )),
        match two_arg_problem(
            args@,
            int_of(args@[0].model()) is Some,
            int_of(args@[1].model()) is Some,
            "- requires at least two arguments"@,
            text_of(args@[0].model()) + " is not an Int"@,
            text_of(args@[1].model()) + " is not an Int"@,
        ) {
            Some(m) => r matches Err(e) && error_says(e, ErrorKind::InvalidArguments, m),
            None => true,
        },
{
    if args.len() != 2 {
        return Err(Error::invalid_arguments("- requires at least two arguments", None));
    }
    let Some(a) = args[0].as_int() else {
        proof {
            reveal_strlit("");
            reveal_strlit(" is not an Int");
            assert(""@ + text_of(args@[0].model()) + " is not an Int"@ =~= text_of(args@[0].model()) + " is not an Int"@);
        }
        return Err(error_about("", &args[0], " is not an Int"));
    };
    let Some(b) = args[1].as_int() else {
        proof {
            reveal_strlit("");
            reveal_strlit(" is not an Int");
            assert(""@ + text_of(args@[1].model()) + " is not an Int"@ =~= text_of(args@[1].model()) + " is not an Int"@);
        }
        return Err(error_about("", &args[1], " is not an Int"));
    };
    Ok(Expr::Int(a - b))
}

/// Adding one more number to a sum adds it to the result.
pub proof fn law_sum_push(xs: Seq<i64>, x: i64)
    ensures
        sum_of(xs.push(x)) == sum_of(xs) + x,
{
    assert(xs.push(x).drop_last() =~= xs);
}

/// The sum of two runs of numbers is the sum of the first plus the sum of
/// the second, and their product the product of the first times that of
/// the second; one number is its own sum and product.
pub proof fn law_sum_and_product_of_parts(xs: Seq<i64>, ys: Seq<i64>, x: i64)
    ensures
        sum_of(seq![x]) == x,
        product_of(seq![x]) == x,
        sum_of(xs + ys) == sum_of(xs) + sum_of(ys),
        product_of(xs + ys) == product_of(xs) * product_of(ys),
    decreases ys.len(),
{
    let one = seq![x];
    assert(one.drop_last() =~= Seq::<i64>::empty());
    assert(one.last() == x);
    assert(sum_of(one) == sum_of(one.drop_last()) + one.last());
    assert(product_of(one) == product_of(one.drop_last()) * one.last());
    if ys.len() == 0 {
        assert(xs + ys =~= xs);
    } else {
        assert((xs + ys).drop_last() =~= xs + ys.drop_last());
        assert((xs + ys).last() == ys.last());
        law_sum_and_product_of_parts(xs, ys.drop_last(), x);
        vstd::arithmetic::mul::lemma_mul_is_associative(
            product_of(xs),
            product_of(ys.drop_last()),
            ys.last() as int,
        );
    }
}

} // verus!
