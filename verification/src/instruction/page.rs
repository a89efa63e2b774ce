//! Page-level enumerations and the resize-bar record of the
//! instruction-layout document model.

use vstd::prelude::*;

verus! {

/// Predefined slot arrangement of a page.
#[derive(Clone, Copy, PartialEq, Eq, Structural, Debug)]
pub enum PageTemplate {
    Custom,
    Empty,
    OneByOne,
    OneByTwo,
    TwoByOne,
    OneByThree,
    ThreeByOne,
    TwoByTwo,
    TwoByTwoCol,
    TwoByThree,
    ThreeByTwo,
}

impl Default for PageTemplate {
    fn default() -> (r: Self)
        ensures
            r == PageTemplate::OneByOne,
    {
        PageTemplate::OneByOne
    }
}

/// A draggable divider between two slots of a page.  The offset is the bit
/// pattern of a single-precision fraction.
#[derive(Clone, Copy, PartialEq, Eq, Structural, Debug, Default)]
pub struct ResizeBar {
    pub vertical: bool,
    pub ref_index_1: isize,
    pub ref_index_2: isize,
    pub offset: u32,
}

/// Horizontal alignment of text in its box.
#[derive(Clone, Copy, PartialEq, Eq, Structural, Debug)]
pub enum HorizontalAlign {
    Left,
    Center,
    Right,
    Justify,
}

impl Default for HorizontalAlign {
    fn default() -> (r: Self)
        ensures
            r == HorizontalAlign::Left,
    {
        HorizontalAlign::Left
    }
}

/// Vertical alignment of text in its box.
#[derive(Clone, Copy, PartialEq, Eq, Structural, Debug)]
pub enum VerticalAlign {
    Top,
    Center,
    Bottom,
}

impl Default for VerticalAlign {
    fn default() -> (r: Self)
        ensures
            r == VerticalAlign::Top,
    {
        VerticalAlign::Top
    }
}

/// Ordering of the parts in a bill of materials.
#[derive(Clone, Copy, PartialEq, Eq, Structural, Debug)]
pub enum BomOrder {
    ColorSizeAscending,
    ColorSizeDescending,
    PartSizeAscending,
    PartSizeDescending,
}

impl Default for BomOrder {
    fn default() -> (r: Self)
        ensures
            r == BomOrder::ColorSizeAscending,
    {
        BomOrder::ColorSizeAscending
    }
}

/// Background and border toggles of a bill-of-materials box.
#[derive(Clone, Copy, PartialEq, Eq, Structural, Debug, Default)]
pub struct BomColors {
    pub use_bg_color: bool,
    pub use_border: bool,
}

/// How a part is labelled in a bill of materials.
#[derive(Clone, Copy, PartialEq, Eq, Structural, Debug)]
pub enum BomIdStyle {
    ItemNoColorCode,
    ItemNoColorName,
    ElementId,
    DoNotShow,
}

impl Default for BomIdStyle {
    fn default() -> (r: Self)
        ensures
            r == BomIdStyle::ItemNoColorCode,
    {
        BomIdStyle::ItemNoColorCode
    }
}

/// Background and border toggles of a parts-list box.
#[derive(Clone, Copy, PartialEq, Eq, Structural, Debug, Default)]
pub struct PartListColors {
    pub use_bg_color: bool,
    pub use_border: bool,
}

} // verus!
