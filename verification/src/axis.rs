use vstd::prelude::*;

verus! {

/// The transform an output applies to its content.
#[derive(Clone, Copy, Debug, PartialEq, Eq, Structural)]
pub enum OutputTransform {
    Normal,
    Rotate90,
    Rotate180,
    Rotate270,
    Flipped,
    Flipped90,
    Flipped180,
    Flipped270,
}

impl OutputTransform {
    /// Quarter turns exchange the output's width and height.
    pub open spec fn spec_swaps_axes(self) -> bool {
        match self {
            OutputTransform::Rotate90 | OutputTransform::Rotate270 | OutputTransform::Flipped90
            | OutputTransform::Flipped270 => true,
            _ => false,
        }
    }

    pub fn swaps_axes(&self) -> (r: bool)
        ensures
            r == self.spec_swaps_axes(),
    {
        match self {
            OutputTransform::Rotate90 | OutputTransform::Rotate270 | OutputTransform::Flipped90
            | OutputTransform::Flipped270 => true,
            _ => false,
        }
    }
}

/// The main axis along which a scrolling layout advances.
#[derive(Clone, Copy, Debug, PartialEq, Eq, Structural)]
pub enum LayoutAxis {
    Horizontal,
    Vertical,
}

pub open spec fn spec_scrolling_layout_axis(transform: OutputTransform) -> LayoutAxis {
    if transform.spec_swaps_axes() {
        LayoutAxis::Vertical
    } else {
        LayoutAxis::Horizontal
    }
}

/// A scrolling layout follows the output's visible width: on a quarter-turned
/// output that is the physical vertical axis.
pub fn scrolling_layout_axis(transform: OutputTransform) -> (r: LayoutAxis)
    ensures
        r == spec_scrolling_layout_axis(transform),
        r == LayoutAxis::Vertical <==> transform.spec_swaps_axes(),
{
    if transform.swaps_axes() {
        LayoutAxis::Vertical
    } else {
        LayoutAxis::Horizontal
    }
}

} // verus!
