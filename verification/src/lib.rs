//! A command-line image editor's core: a registry that decodes each
//! referenced image exactly once, an executor that applies an ordered
//! list of transformation actions to the current image, a text-renderer
//! boundary that degrades gracefully on a bad font, and a resolver that
//! picks the output encoding.

pub mod actions;
pub mod codec;
pub mod engine;
pub mod format;
pub mod laws;
pub mod raster;
pub mod registry;

use vstd::prelude::*;

verus! {

/// Reports whether an optional flag entry is enabled; a missing entry
/// counts as disabled.
pub fn flag_is_enabled(v: Option<&bool>) -> (r: bool)
    ensures
        r == (v is Some && *v->Some_0),
{
    match v {
        Some(b) => *b,
        None => false,
    }
}

} // verus!
