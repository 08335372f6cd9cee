//! Lists the named command aliases of a JSON manifest: decoding, selection and rendering.
use vstd::prelude::*;

pub mod manifest;
pub mod order;
pub mod render;
pub mod run;
pub mod select;

verus! {

} // verus!
