//! Reflection on the language itself.

use vstd::prelude::*;

use crate::args::{dict_problem, first_problem, present_problem, unpack_arg, unpack_dict_arg};
use crate::context::{Context, Modules, bound_foreign, insert_foreign, lemma_bound_required, require_module};
use crate::error::{error_says, Error, ErrorKind};
use crate::expr::{annotate, annotated_value, clone_exprs, clone_pairs, dict_of, models, pair_models, Expr, Value};
use crate::foreign::ForeignFn;

verus! {

/// `(with-ann annotations target)`: the target with the given annotations.
pub fn with_ann(args: &[Expr]) -> (r: Result<Expr, Error>)
    ensures
        args@.len() >= 2 && dict_of(args@[0].model()) is Some ==> (r matches Ok(e) && e.model() == Value::Annotated(
            Box::new(args@[1].model()),
            dict_of(args@[0].model())->0,
        )),
        match first_problem(dict_problem(args@, 0, "annotations"@), present_problem(args@, 1, "target"@)) {
            Some(m) => r matches Err(e) && error_says(e, ErrorKind::InvalidArguments, m),
            None => true,
        },
{
    let annotations = unpack_dict_arg(args, 0, "annotations")?;
    let target = unpack_arg(args, 1, "target")?;
    Ok(Expr::Annotated(Box::new(target.deep_clone()), clone_pairs(annotations)))
}

/// `(with-type type target)`: the target annotated with the type.
pub fn with_type(args: &[Expr]) -> (r: Result<Expr, Error>)
    ensures
        args@.len() >= 2 ==> (r matches Ok(e) && e.model() == annotated_value(
            args@[1].model(),
            "type"@,
            args@[0].model(),
        )),
        match first_problem(present_problem(args@, 0, "type"@), present_problem(args@, 1, "target"@)) {
            Some(m) => r matches Err(e) && error_says(e, ErrorKind::InvalidArguments, m),
            None => true,
        },
{
    let type_expr = unpack_arg(args, 0, "type")?;
    let target = unpack_arg(args, 1, "target")?;
    Ok(annotate(target.deep_clone(), "type", type_expr.deep_clone()))
}

/// The body of a function of the parameters, curried: the parameters after
/// the first become nested one-parameter functions. `None` for no parameters.
pub open spec fn curried(params: Seq<Value>, body: Seq<Value>) -> Option<(Seq<Value>, Seq<Value>)>
    decreases params.len(),
{
    if params.len() == 0 {
        None
    } else {
        let curried_body = match curried(params.skip(1), body) {
            Some((nested_params, nested_body)) => seq![
                Value::List(seq![Value::Type("Func"@), Value::Array(nested_params), nested_body[0]]),
            ],
            None => body,
        };
        Some((seq![params[0]], curried_body))
    }
}

/// Curries a function of the parameters with the body.
pub fn curry(params: &[Expr], body: &[Expr]) -> (r: Option<(Vec<Expr>, Vec<Expr>)>)
    requires
        params@.len() >= 2 ==> body@.len() >= 1,
    ensures
        curried(models(params@), models(body@)) is None ==> r is None,
        curried(models(params@), models(body@)) matches Some((p, b)) ==> (r matches Some((rp, rb)) && models(rp@) == p
            && models(rb@) == b),
        r matches Some((rp, rb)) ==> rb@.len() >= 1 || (params@.len() == 1 && body@.len() == 0),
    decreases params@.len(),
{
    if params.len() == 0 {
        return None;
    }
    let rest = slice_from(params, 1);
    assert forall|j: int| 0 <= j < rest@.len() implies models(rest@)[j] == models(params@).skip(1)[j] by {
        assert(rest@[j].model() == params@[1 + j].model());
    }
    assert(models(rest@) =~= models(params@).skip(1));
    let curried_body = match curry(rest.as_slice(), body) {
        Some((nested_params, nested_body)) => {
            let mut items: Vec<Expr> = Vec::new();
            items.push(Expr::Type("Func".to_owned()));
            items.push(Expr::Array(nested_params));
            items.push(nested_body[0].deep_clone());
            let mut out: Vec<Expr> = Vec::new();
            out.push(Expr::List(items));
            proof {
                assert(models(items@) =~= seq![Value::Type("Func"@), Value::Array(models(nested_params@)), models(nested_body@)[0]]);
            }
            out
        },
        None => {
            let mut out: Vec<Expr> = Vec::new();
            let mut i: usize = 0;
            while i < body.len()
                invariant
                    i <= body@.len(),
                    out@.len() == i,
                    forall|j: int| 0 <= j < i ==> #[trigger] out@[j].model() == body@[j].model(),
                decreases body@.len() - i,
            {
                out.push(body[i].deep_clone());
                i = i + 1;
            }
            assert forall|j: int| 0 <= j < out@.len() implies models(out@)[j] == models(body@)[j] by {
                assert(out@[j].model() == body@[j].model());
            }
            assert(models(out@) =~= models(body@));
            out
        },
    };
    let mut first: Vec<Expr> = Vec::new();
    first.push(params[0].deep_clone());
    assert(models(first@) =~= seq![models(params@)[0]]);
    Some((first, curried_body))
}

/// The expressions from index `from` on.
fn slice_from(v: &[Expr], from: usize) -> (r: Vec<Expr>)
    requires
        from <= v@.len(),
    ensures
        r@.len() == v@.len() - from,
        forall|j: int| 0 <= j < r@.len() ==> #[trigger] r@[j].model() == v@[from + j].model(),
{
    let mut out: Vec<Expr> = Vec::new();
    let mut i: usize = from;
    while i < v.len()
        invariant
            from <= i <= v@.len(),
            out@.len() == i - from,
            forall|j: int| 0 <= j < out@.len() ==> #[trigger] out@[j].model() == v@[from + j].model(),
        decreases v@.len() - i,
    {
        out.push(v[i].deep_clone());
        i = i + 1;
    }
    out
}

/// The modules after `setup_lib_lang`: the bindings it adds to the `prelude` module.
pub open spec fn lib_lang(m: Modules) -> Modules {
    let m = bound_foreign(m, "prelude"@, "ann"@, ForeignFn::Ann);
    let m = bound_foreign(m, "prelude"@, "with-ann"@, ForeignFn::WithAnn);
    let m = bound_foreign(m, "prelude"@, "with-type"@, ForeignFn::WithType);
    let m = bound_foreign(m, "prelude"@, "dbg!"@, ForeignFn::DebugExpr);
    let m = bound_foreign(m, "prelude"@, "type-of"@, ForeignFn::TypeOf);
    let m = bound_foreign(m, "prelude"@, "is-a?"@, ForeignFn::IsA);
    let m = bound_foreign(m, "prelude"@, "eval-string"@, ForeignFn::EvalString);
    let m = bound_foreign(m, "prelude"@, "eval-string$$String"@, ForeignFn::EvalString);
    let m = bound_foreign(m, "prelude"@, "load-file"@, ForeignFn::LoadFile);
    let m = bound_foreign(m, "prelude"@, "curry"@, ForeignFn::FuncCurry);
    let m = bound_foreign(m, "prelude"@, "link-foreign-dyn-lib"@, ForeignFn::LinkForeignDynLib);
    m
}

/// Binds the functions of this library in the `prelude` module.
pub fn setup_lib_lang(context: &mut Context)
    requires
        old(context).wf(),
    ensures
        final(context).wf(),
        final(context).modules() == lib_lang(old(context).modules()),
{
    let module = require_module("prelude", context);
    insert_foreign(context, module, "ann", ForeignFn::Ann);
    proof {
        lemma_bound_required(old(context).modules(), "prelude"@, "ann"@, Value::ForeignFunc(ForeignFn::Ann));
    }
    insert_foreign(context, module, "with-ann", ForeignFn::WithAnn);
    insert_foreign(context, module, "with-type", ForeignFn::WithType);
    insert_foreign(context, module, "dbg!", ForeignFn::DebugExpr);
    insert_foreign(context, module, "type-of", ForeignFn::TypeOf);
    insert_foreign(context, module, "is-a?", ForeignFn::IsA);
    insert_foreign(context, module, "eval-string", ForeignFn::EvalString);
    insert_foreign(context, module, "eval-string$$String", ForeignFn::EvalString);
    insert_foreign(context, module, "load-file", ForeignFn::LoadFile);
    insert_foreign(context, module, "curry", ForeignFn::FuncCurry);
    insert_foreign(context, module, "link-foreign-dyn-lib", ForeignFn::LinkForeignDynLib);
}

} // verus!
