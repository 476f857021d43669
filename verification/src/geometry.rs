//! Sizes of the vertex buffers the bar geometry is built into.
use crate::config_model::BarShape;
use vstd::prelude::*;

verus! {

/// `max(segments, 8)`: a circle top has at least eight segments.
pub open spec fn circle_segments(segments: u32) -> int {
    if segments < 8 {
        8
    } else {
        segments as int
    }
}

/// Worst-case vertex count of one bar: two triangles for a rectangle or a
/// line, three for a triangle-topped bar, and a rectangle plus one triangle
/// per segment for a circle-topped bar.
pub open spec fn vertices_per_bar_spec(shape: BarShape, segments: u32) -> int {
    match shape {
        BarShape::Rectangle => 6,
        BarShape::Circle => 6 + 3 * circle_segments(segments),
        BarShape::Triangle => 9,
        BarShape::Line => 6,
    }
}

/// Worst-case vertex count per bar for a given shape, used to size buffers
/// before the bars are built.
pub fn vertices_per_bar(shape: BarShape, segments: u32) -> (r: usize)
    requires
        vertices_per_bar_spec(shape, segments) <= usize::MAX,
    ensures
        r == vertices_per_bar_spec(shape, segments),
{
    match shape {
        BarShape::Rectangle => 6,
        BarShape::Circle => {
            let s: u32 = if segments < 8 {
                8
            } else {
                segments
            };
            6 + 3 * (s as usize)
        },
        BarShape::Triangle => 9,
        BarShape::Line => 6,
    }
}

} // verus!
