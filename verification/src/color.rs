//! Display colors: an RGB triple, the default palette that seeded patterns
//! draw their lineage colors from, and the fixed background and fallback
//! colors.

use vstd::prelude::*;

verus! {

/// An RGB color with 8-bit channels.
#[derive(Clone, Copy, PartialEq, Eq, Structural, Debug)]
pub struct Rgb {
    pub r: u8,
    pub g: u8,
    pub b: u8,
}

/// The color of dead cells.
pub open spec fn background_color() -> Rgb {
    Rgb { r: 0, g: 0, b: 0 }
}

/// The color of a live cell that carries no tag; unreachable while the tag
/// invariant holds, but defined so that rendering is total.
pub open spec fn untagged_color() -> Rgb {
    Rgb { r: 255, g: 255, b: 255 }
}

/// The contents of the default palette: 13 visually distinct colors, in a
/// fixed order.
pub open spec fn default_palette_colors() -> Seq<Rgb> {
    seq![
        Rgb { r: 230, g: 41, b: 55 },
        Rgb { r: 255, g: 161, b: 0 },
        Rgb { r: 253, g: 249, b: 0 },
        Rgb { r: 0, g: 228, b: 48 },
        Rgb { r: 0, g: 121, b: 241 },
        Rgb { r: 200, g: 122, b: 255 },
        Rgb { r: 255, g: 109, b: 194 },
        Rgb { r: 0, g: 158, b: 47 },
        Rgb { r: 102, g: 191, b: 255 },
        Rgb { r: 135, g: 60, b: 190 },
        Rgb { r: 127, g: 106, b: 79 },
        Rgb { r: 255, g: 203, b: 0 },
        Rgb { r: 190, g: 33, b: 55 },
    ]
}

/// The default palette, an ordered list of 13 visually distinct colors.
/// Live cells are rendered with `palette[tag % palette.len()]`.
pub fn default_palette() -> (p: Vec<Rgb>)
    ensures
        p@ == default_palette_colors(),
        p@.len() == 13,
{
    let p: Vec<Rgb> = vec![
        Rgb { r: 230, g: 41, b: 55 },
        Rgb { r: 255, g: 161, b: 0 },
        Rgb { r: 253, g: 249, b: 0 },
        Rgb { r: 0, g: 228, b: 48 },
        Rgb { r: 0, g: 121, b: 241 },
        Rgb { r: 200, g: 122, b: 255 },
        Rgb { r: 255, g: 109, b: 194 },
        Rgb { r: 0, g: 158, b: 47 },
        Rgb { r: 102, g: 191, b: 255 },
        Rgb { r: 135, g: 60, b: 190 },
        Rgb { r: 127, g: 106, b: 79 },
        Rgb { r: 255, g: 203, b: 0 },
        Rgb { r: 190, g: 33, b: 55 },
    ];
    proof {
        assert(p@ =~= default_palette_colors());
    }
    p
}

} // verus!
