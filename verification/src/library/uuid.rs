//! UUIDs.

use vstd::prelude::*;

use crate::context::{Context, Modules, bound_foreign, insert_foreign, lemma_bound_required, require_module};
use crate::error::Error;
use crate::expr::{Expr, Value};
use crate::foreign::ForeignFn;

verus! {

/// The text of a UUID in its hyphenated form: 36 characters, with hyphens
/// at indices 8, 13, 18 and 23.
pub open spec fn is_hyphenated_uuid(s: Seq<char>) -> bool {
    s.len() == 36 && s[8] == '-' && s[13] == '-' && s[18] == '-' && s[23] == '-'
}

/// A lowercase hexadecimal digit.
pub open spec fn is_lower_hex(c: char) -> bool {
    ('0' <= c <= '9') || ('a' <= c <= 'f')
}

/// The text of a random (version 4, RFC 4122 variant) UUID in its
/// hyphenated form: lowercase hex digits in groups of 8, 4, 4, 4 and 12,
/// the version digit `4` at index 14, and one of `8`, `9`, `a`, `b` at
/// index 19.
pub open spec fn is_v4_uuid_text(s: Seq<char>) -> bool {
    &&& is_hyphenated_uuid(s)
    &&& forall|i: int| 0 <= i < 36 && i != 8 && i != 13 && i != 18 && i != 23 ==> #[trigger] is_lower_hex(s[i])
    &&& s[14] == '4'
    &&& (s[19] == '8' || s[19] == '9' || s[19] == 'a' || s[19] == 'b')
}

/// `Uuid::new_v4()`, printed: a random version 4 UUID in its hyphenated
/// lowercase form (the version and variant bits are set by `new_v4`, the
/// digits printed by its `LowerHex`). Which one comes out is chance; only
/// its form is stated.
#[verifier::external_body]
fn new_v4_text() -> (r: String)
    ensures
        is_v4_uuid_text(r@),
{
    uuid::Uuid::new_v4().to_string()
}

/// `(make-v4-uuid)`: a new random UUID, as a String.
pub fn uuid_new_v4(args: &[Expr]) -> (r: Result<Expr, Error>)
    ensures
        r matches Ok(e) && e.model() matches Value::String(s) && is_v4_uuid_text(s),
{
    Ok(Expr::String(new_v4_text()))
}

/// The modules after `setup_lib_uuid`: the bindings it adds to the `uuid` module.
pub open spec fn lib_uuid(m: Modules) -> Modules {
    let m = bound_foreign(m, "uuid"@, "make-v4-uuid"@, ForeignFn::UuidNewV4);
    m
}

/// Binds the functions of this library in the `uuid` module.
pub fn setup_lib_uuid(context: &mut Context)
    requires
        old(context).wf(),
    ensures
        final(context).wf(),
        final(context).modules() == lib_uuid(old(context).modules()),
{
    let module = require_module("uuid", context);
    insert_foreign(context, module, "make-v4-uuid", ForeignFn::UuidNewV4);
    proof {
        lemma_bound_required(old(context).modules(), "uuid"@, "make-v4-uuid"@, Value::ForeignFunc(ForeignFn::UuidNewV4));
    }
}

} // verus!
