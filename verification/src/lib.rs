mod cli;
mod img;
mod output;
mod raster;
mod render;
mod style;
mod text;

pub use cli::{palette_from_text, resize_plan, Cli, ResizePlan, StyleOps};
pub use img::{glyph_at, grid_is_wf, lemma_cell_count, spec_cells, wf_grid, IntoPixtData, Pixel,
    PixtData, PixtImg};
pub use output::{avg_color, cell_chars, header_chars, lemma_html_framing, occurs_at, render_chars,
    ColorType, OutputType};
pub use render::{lemma_render_deterministic, render};
pub use style::ImgStyle;
pub use raster::Raster;
pub use text::rgb_to_css_hex;

use vstd::prelude::*;

verus! {

/// Errors this library reports instead of panicking or emitting wrong output.
#[derive(Debug, Clone, Copy, PartialEq, Eq, Structural)]
pub enum PixtError {
    /// The requested output format and color mode combination is not implemented.
    Unsupported,
    /// A custom palette held no usable characters.
    EmptyPalette,
    /// A palette argument was given but no image path followed it.
    MissingImagePath,
}

} // verus!
