//! Spreadsheet access across a language boundary: cells are reduced to
//! canonical text, sheets are flattened row by row, flattened sheets are
//! marshaled into length-tagged buffers with a paired release, and opened
//! workbooks live in a registry that hands out integer handles.
use vstd::prelude::*;

pub mod cell;
pub mod sheet;
pub mod marshal;
pub mod registry;
pub mod facade;

verus! {

/// Marker type for the library's side of the boundary.
pub struct RustImpl;

impl RustImpl {
    pub fn new() -> (r: Self)
        ensures
            r == (RustImpl),
    {
        RustImpl
    }
}

} // verus!
