//! The standard library: every library that a new context starts with.

use vstd::prelude::*;

use crate::context::{Context, Modules};
use crate::library::cmark::{lib_text_cmark, setup_lib_text_cmark};
use crate::library::html::{lib_html, setup_lib_html};
use crate::library::json::{lib_codec_json, setup_lib_codec_json};
use crate::library::prelude::{lib_prelude, setup_lib_prelude};
use crate::library::process::{lib_process, setup_lib_process};
use crate::library::rng::{lib_rand, setup_lib_rand};

verus! {

/// The modules after `setup_std`.
pub open spec fn std_lib(m: Modules) -> Modules {
    let m = lib_process(m);
    let m = lib_rand(m);
    let m = lib_html(m);
    let m = lib_text_cmark(m);
    let m = lib_codec_json(m);
    let m = lib_prelude(m);
    m
}

/// Sets up the standard library.
pub fn setup_std(context: &mut Context)
    requires
        old(context).wf(),
    ensures
        final(context).wf(),
        final(context).modules() == std_lib(old(context).modules()),
{
    setup_lib_process(context);
    setup_lib_rand(context);
    setup_lib_html(context);
    setup_lib_text_cmark(context);
    setup_lib_codec_json(context);
    setup_lib_prelude(context);
}

} // verus!
