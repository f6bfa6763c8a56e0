//! Verified core of an editor's docking panels, extension lifecycle and hot reload.

use vstd::prelude::*;

pub mod api;
pub mod editor;
pub mod keyed;
pub mod panels;
pub mod runtime;

verus! {

} // verus!
