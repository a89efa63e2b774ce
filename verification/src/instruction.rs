//! The instruction-layout document model: page setup enumerations and the
//! scalar helpers its serialized form is written with.

use vstd::prelude::*;

pub mod helpers;
pub mod page;
pub mod style;

verus! {

/// Unit the page dimensions are given in.
#[derive(Clone, Copy, PartialEq, Eq, Structural, Debug)]
pub enum LengthUnit {
    Inches,
    Millimeters,
    Pixels,
}

impl Default for LengthUnit {
    fn default() -> (r: Self)
        ensures
            r == LengthUnit::Pixels,
    {
        LengthUnit::Pixels
    }
}

/// Paper size of a page.
#[derive(Clone, Copy, PartialEq, Eq, Structural, Debug)]
pub enum PaperType {
    Letter,
    Legal,
    Tabloid,
    A2,
    A3,
    A4,
    Custom,
}

impl Default for PaperType {
    fn default() -> (r: Self)
        ensures
            r == PaperType::A4,
    {
        PaperType::A4
    }
}

} // verus!
