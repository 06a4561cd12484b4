//! Diagrams of a Rubik's cube face: parsers for the OLL and PLL notations and
//! SVG renderers for what they describe.
use vstd::prelude::*;

pub mod error;
pub mod images;
pub mod ollrender;
pub mod ollspec;
pub mod path;
pub mod pllrender;
pub mod pllspec;
pub mod rendering;
pub mod svg;
pub mod table;
pub mod tags;
pub mod text;

verus! {

/// The sizes, in pixels, that a face diagram is drawn with.
#[derive(Clone, Copy, Debug, PartialEq, Eq)]
pub struct Specs {
    /// Edge of one of the nine inner squares.
    pub cubie_size: u32,
    /// Width of the frame around the grid.
    pub border_width: u32,
    /// Width of the gaps between the squares.
    pub gutter_size: u32,
    /// Thickness of an edge sticker.
    pub sticker_width: u32,
}

impl Specs {
    /// Whether the derived sizes are those that `with_cubie_size` computes.
    pub open spec fn derived_from_cubie(&self) -> bool {
        &&& self.border_width == 2
        &&& self.gutter_size == self.cubie_size / 10
        &&& self.sticker_width == self.cubie_size / 5
    }

    /// The sizes for inner squares of edge `cubie_size`: a border of 2, gutters of a
    /// tenth and stickers of a fifth of it.
    pub fn with_cubie_size(cubie_size: u32) -> (r: Specs)
        ensures
            r.cubie_size == cubie_size,
            r.border_width == 2,
            r.gutter_size == cubie_size / 10,
            r.sticker_width == cubie_size / 5,
            r.derived_from_cubie(),
    {
        Specs {
            cubie_size,
            border_width: 2,
            gutter_size: cubie_size / 10,
            sticker_width: cubie_size / 5,
        }
    }
}

/// The sizes that the renderers take.
pub type RenderOpts = Specs;

} // verus!
