//! The single entry point that drives one renderer over one image.

use vstd::prelude::*;

use crate::img::PixtImg;
use crate::output::{render_chars, ColorType, OutputType};
use crate::raster::Raster;
use crate::PixtError;

verus! {

/// Renders `img` through `p`, returning the whole document as characters.
pub fn render(p: &PixtImg, img: &Raster) -> (r: Result<Vec<char>, PixtError>)
    requires
        p.wf(),
        img.wf(),
    ensures
        match r {
            Ok(v) => p.spec_out_type().supported() && v@ == render_chars(
                p.spec_out_type(),
                p.grid(),
                *img,
            ),
            Err(e) => !p.spec_out_type().supported() && e == PixtError::Unsupported,
        },
{
    p.print(img)
}

/// Rendering is deterministic: with an uncolored output type, rendering the
/// same image with the same palette twice yields byte-identical output.
pub proof fn lemma_render_deterministic(
    o: OutputType,
    grid: Seq<Seq<char>>,
    img: Raster,
    r1: Seq<char>,
    r2: Seq<char>,
)
    requires
        o.color_of() == ColorType::NoColor,
        r1 == render_chars(o, grid, img),
        r2 == render_chars(o, grid, img),
    ensures
        r1 == r2,
{
}

} // verus!
