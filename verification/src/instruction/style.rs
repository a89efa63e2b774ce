//! Style enumerations of the instruction-layout document model.

use vstd::prelude::*;

verus! {

/// How an image is fitted into its box.
#[derive(Clone, Copy, PartialEq, Eq, Structural, Debug)]
pub enum ImageDisplay {
    Fill,
    Fit,
    Stretch,
    Center,
    Tile,
}

impl Default for ImageDisplay {
    fn default() -> (r: Self)
        ensures
            r == ImageDisplay::Center,
    {
        ImageDisplay::Center
    }
}

/// Kind of component a step layout slot snaps around.
#[derive(Clone, Copy, PartialEq, Eq, Structural, Debug)]
pub enum SnappableComponentType {
    StepNumber,
    PartsList,
    SubModelPreview,
    StepPreview,
}

impl Default for SnappableComponentType {
    fn default() -> (r: Self)
        ensures
            r == SnappableComponentType::StepNumber,
    {
        SnappableComponentType::StepNumber
    }
}

/// Weight and slant of a font.
#[derive(Clone, Copy, PartialEq, Eq, Structural, Debug)]
pub enum FontStyle {
    Normal,
    Bold,
    Italic,
    BoldAndItalic,
}

impl Default for FontStyle {
    fn default() -> (r: Self)
        ensures
            r == FontStyle::Normal,
    {
        FontStyle::Normal
    }
}

/// Marker drawn at an end of an arrow.
#[derive(Clone, Copy, PartialEq, Eq, Structural, Debug)]
pub enum Arrowhead {
    NoneStyle,
    NoHeads,
    TriangleEmpty,
    TriangleFilled,
    RectangleEmpty,
    RectangleFilled,
    CircleEmpty,
    CircleFilled,
    Line,
}

impl Default for Arrowhead {
    fn default() -> (r: Self)
        ensures
            r == Arrowhead::TriangleFilled,
    {
        Arrowhead::TriangleFilled
    }
}

} // verus!
