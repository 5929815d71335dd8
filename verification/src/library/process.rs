//! The host process.

use vstd::prelude::*;

use crate::context::{Context, Modules, bound_foreign, insert_foreign, lemma_bound_required, require_module};
use crate::error::{error_says, Error, ErrorKind};
use crate::expr::{int_of, string_of, Expr, Value};
use crate::foreign::ForeignFn;

verus! {

/// The exit code that `(exit code)` asks for: the Int argument, or 0 where
/// there is none. The host ends the process with it.
pub fn exit_code(args: &[Expr]) -> (r: Result<i64, Error>)
    ensures
        args@.len() == 0 ==> r == Ok::<i64, Error>(0),
        args@.len() >= 1 && int_of(args@[0].model()) is Some ==> r == Ok::<i64, Error>(
            int_of(args@[0].model())->0,
        ),
        args@.len() >= 1 && int_of(args@[0].model()) is None ==> (r matches Err(e) && error_says(
            e,
            ErrorKind::InvalidArguments,
            "expected Int argument"@,
        )),
{
    if args.len() == 0 {
        return Ok(0);
    }
    match args[0].as_int() {
        Some(code) => Ok(code),
        None => Err(Error::invalid_arguments("expected Int argument", None)),
    }
}

/// The command of `(exec cmd)` and `(shell cmd)`: the one argument, which
/// should be a String. The host runs it with `sh -c`.
pub fn command_argument(args: &[Expr]) -> (r: Result<String, Error>)
    ensures
        args@.len() != 1 ==> (r matches Err(e) && error_says(e, ErrorKind::InvalidArguments, "`exec` requires `cmd` argument"@)),
        args@.len() == 1 && string_of(args@[0].model()) is None ==> (r matches Err(e) && error_says(
            e,
            ErrorKind::InvalidArguments,
            "`cmd` argument should be a String"@,
        )),
        args@.len() == 1 && string_of(args@[0].model()) is Some ==> (r matches Ok(t) && t@ == string_of(
            args@[0].model(),
        )->0),
{
    if args.len() != 1 {
        return Err(Error::invalid_arguments("`exec` requires `cmd` argument", None));
    }
    let Some(cmd) = args[0].as_string() else {
        return Err(Error::invalid_arguments("`cmd` argument should be a String", None));
    };
    Ok(cmd.clone())
}

/// The modules after `setup_lib_process`: the bindings it adds to the `process` module.
pub open spec fn lib_process(m: Modules) -> Modules {
    let m = bound_foreign(m, "process"@, "exit"@, ForeignFn::ProcessExit);
    let m = bound_foreign(m, "process"@, "exit$$"@, ForeignFn::ProcessExit);
    let m = bound_foreign(m, "process"@, "args"@, ForeignFn::ProcessArgs);
    let m = bound_foreign(m, "process"@, "args$$"@, ForeignFn::ProcessArgs);
    let m = bound_foreign(m, "process"@, "env-vars"@, ForeignFn::ProcessEnvVars);
    let m = bound_foreign(m, "process"@, "env-vars$$"@, ForeignFn::ProcessEnvVars);
    let m = bound_foreign(m, "process"@, "exec"@, ForeignFn::ProcessExec);
    let m = bound_foreign(m, "process"@, "exec$$String"@, ForeignFn::ProcessExec);
    let m = bound_foreign(m, "process"@, "shell"@, ForeignFn::ProcessShell);
    let m = bound_foreign(m, "process"@, "shell$$String"@, ForeignFn::ProcessShell);
    m
}

/// Binds the functions of this library in the `process` module.
pub fn setup_lib_process(context: &mut Context)
    requires
        old(context).wf(),
    ensures
        final(context).wf(),
        final(context).modules() == lib_process(old(context).modules()),
{
    let module = require_module("process", context);
    insert_foreign(context, module, "exit", ForeignFn::ProcessExit);
    proof {
        lemma_bound_required(old(context).modules(), "process"@, "exit"@, Value::ForeignFunc(ForeignFn::ProcessExit));
    }
    insert_foreign(context, module, "exit$$", ForeignFn::ProcessExit);
    insert_foreign(context, module, "args", ForeignFn::ProcessArgs);
    insert_foreign(context, module, "args$$", ForeignFn::ProcessArgs);
    insert_foreign(context, module, "env-vars", ForeignFn::ProcessEnvVars);
    insert_foreign(context, module, "env-vars$$", ForeignFn::ProcessEnvVars);
    insert_foreign(context, module, "exec", ForeignFn::ProcessExec);
    insert_foreign(context, module, "exec$$String", ForeignFn::ProcessExec);
    insert_foreign(context, module, "shell", ForeignFn::ProcessShell);
    insert_foreign(context, module, "shell$$String", ForeignFn::ProcessShell);
}

} // verus!
