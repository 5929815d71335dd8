//! Math, arithmetic, numerical operators.

use vstd::prelude::*;

use crate::error::{error_says, Error, ErrorKind};
use crate::expr::{Expr, Value};
use crate::ops::arithmetic::{sum_of, sums_fit};

verus! {

/// Every argument is an Int itself (not under annotations).
pub open spec fn all_plain_ints(args: Seq<Expr>) -> bool {
    forall|i: int| 0 <= i < args.len() ==> #[trigger] args[i].model() is Int
}

/// The Ints of the arguments.
pub open spec fn plain_ints_of(args: Seq<Expr>) -> Seq<i64> {
    Seq::new(args.len(), |i: int| args[i].model()->Int_0)
}

/// The first `k` arguments are Ints themselves.
pub open spec fn leading_plain_ints(args: Seq<Expr>, k: int) -> bool {
    forall|j: int| 0 <= j < k ==> #[trigger] args[j].model() is Int
}

/// `(+ a b ...)`: the sum of the arguments, which must all be Ints.
pub fn add(args: &[Expr]) -> (r: Result<Expr, Error>)
    requires
        forall|k: int|
            0 <= k <= args@.len() && leading_plain_ints(args@, k) ==> i64::MIN <= #[trigger] sum_of(
                plain_ints_of(args@).take(k),
            ) <= i64::MAX,
    ensures
        all_plain_ints(args@) ==> (r matches Ok(e) && e.model() == Value::Int(
            sum_of(plain_ints_of(args@)) as i64,
        )),
        !all_plain_ints(args@) ==> (r matches Err(e) && error_says(e, ErrorKind::General, "argument is not an Int"@)),
{
    let ghost xs = plain_ints_of(args@);
    let mut sum: i64 = 0;
    let mut i: usize = 0;
    assert(xs.take(0) =~= Seq::<i64>::empty());
    while i < args.len()
        invariant
            i <= args@.len(),
            xs == plain_ints_of(args@),
            forall|j: int| 0 <= j < i ==> #[trigger] args@[j].model() is Int,
            forall|k: int|
                0 <= k <= args@.len() && leading_plain_ints(args@, k) ==> i64::MIN <= #[trigger] sum_of(
                    xs.take(k),
                ) <= i64::MAX,
            sum == sum_of(xs.take(i as int)),
        decreases args@.len() - i,
    {
        let n = match &args[i] {
            Expr::Int(n) => *n,
            _ => {
                return Err(Error::general("argument is not an Int"));
            },
        };
        assert(args@[i as int].model() is Int);
        assert(leading_plain_ints(args@, i + 1));
        assert(xs.take(i + 1).drop_last() =~= xs.take(i as int));
        assert(i64::MIN <= sum_of(xs.take(i + 1)) <= i64::MAX);
        sum = sum + n;
        i = i + 1;
    }
    assert(xs.take(args@.len() as int) =~= xs);
    Ok(Expr::Int(sum))
}

} // verus!
