//! The named glyph palettes: fixed ramps and grids a caller can pick by name.

use vstd::prelude::*;

use crate::img::{vecs_view, IntoPixtData};

verus! {

/// The built-in palette presets.
#[derive(Debug, Clone, Copy, PartialEq, Eq, Structural)]
pub enum ImgStyle {
    Ascii,
    Block,
    Pixel,
    Braills,
    Dots,
}

/// The character ramp of the Ascii preset, darkest glyph last.
pub open spec fn ascii_rows() -> Seq<Seq<char>> {
    seq![seq![' ', '.', '-', '~', '+', '*', '%', '#', '@']]
}

/// The character ramp of the Block preset.
pub open spec fn block_rows() -> Seq<Seq<char>> {
    seq![seq![' ', '░', '▒', '▓']]
}

/// The character ramp of the Pixel preset, used when uncolored.
pub open spec fn pixel_rows() -> Seq<Seq<char>> {
    seq![seq![' ', '▀', '▞', '▟', '█']]
}

/// The five-by-five glyph grid of the Braills preset.
pub open spec fn braills_rows() -> Seq<Seq<char>> {
    seq![
        seq![' ', '⠁', '⠉', '⠓', '⠛'],
        seq!['⠄', '⠅', '⠩', '⠝', '⠟'],
        seq!['⠤', '⠥', '⠭', '⠯', '⠽'],
        seq!['⠴', '⠵', '⠽', '⠾', '⠿'],
        seq!['⠶', '⠾', '⠾', '⠿', '⠿'],
    ]
}

/// The character ramp of the Dots preset.
pub open spec fn dots_rows() -> Seq<Seq<char>> {
    seq![seq![' ', '⠂', '⠒', '⠕', '⠞', '⠟', '⠿']]
}

impl IntoPixtData for ImgStyle {
    open spec fn pixt_rows(&self) -> Seq<Seq<char>> {
        match *self {
            ImgStyle::Ascii => ascii_rows(),
            ImgStyle::Block => block_rows(),
            ImgStyle::Pixel => pixel_rows(),
            ImgStyle::Braills => braills_rows(),
            ImgStyle::Dots => dots_rows(),
        }
    }

    fn into_pixt_data(self) -> (r: Vec<Vec<char>>) {
        let ghost rows = self.pixt_rows();
        let mut v: Vec<Vec<char>> = Vec::new();
        match self {
            ImgStyle::Ascii => {
                let mut row: Vec<char> = Vec::new();
                row.push(' ');
                row.push('.');
                row.push('-');
                row.push('~');
                row.push('+');
                row.push('*');
                row.push('%');
                row.push('#');
                row.push('@');
                proof {
                    assert(row@ =~= ascii_rows()[0]);
                }
                v.push(row);
            },
            ImgStyle::Block => {
                let mut row: Vec<char> = Vec::new();
                row.push(' ');
                row.push('░');
                row.push('▒');
                row.push('▓');
                proof {
                    assert(row@ =~= block_rows()[0]);
                }
                v.push(row);
            },
            ImgStyle::Pixel => {
                let mut row: Vec<char> = Vec::new();
                row.push(' ');
                row.push('▀');
                row.push('▞');
                row.push('▟');
                row.push('█');
                proof {
                    assert(row@ =~= pixel_rows()[0]);
                }
                v.push(row);
            },
            ImgStyle::Braills => {
                let mut r0: Vec<char> = Vec::new();
                r0.push(' ');
                r0.push('⠁');
                r0.push('⠉');
                r0.push('⠓');
                r0.push('⠛');
                proof {
                    assert(r0@ =~= braills_rows()[0]);
                }
                v.push(r0);
                let mut r1: Vec<char> = Vec::new();
                r1.push('⠄');
                r1.push('⠅');
                r1.push('⠩');
                r1.push('⠝');
                r1.push('⠟');
                proof {
                    assert(r1@ =~= braills_rows()[1]);
                }
                v.push(r1);
                let mut r2: Vec<char> = Vec::new();
                r2.push('⠤');
                r2.push('⠥');
                r2.push('⠭');
                r2.push('⠯');
                r2.push('⠽');
                proof {
                    assert(r2@ =~= braills_rows()[2]);
                }
                v.push(r2);
                let mut r3: Vec<char> = Vec::new();
                r3.push('⠴');
                r3.push('⠵');
                r3.push('⠽');
                r3.push('⠾');
                r3.push('⠿');
                proof {
                    assert(r3@ =~= braills_rows()[3]);
                }
                v.push(r3);
                let mut r4: Vec<char> = Vec::new();
                r4.push('⠶');
                r4.push('⠾');
                r4.push('⠾');
                r4.push('⠿');
                r4.push('⠿');
                proof {
                    assert(r4@ =~= braills_rows()[4]);
                }
                v.push(r4);
            },
            ImgStyle::Dots => {
                let mut row: Vec<char> = Vec::new();
                row.push(' ');
                row.push('⠂');
                row.push('⠒');
                row.push('⠕');
                row.push('⠞');
                row.push('⠟');
                row.push('⠿');
                proof {
                    assert(row@ =~= dots_rows()[0]);
                }
                v.push(row);
            },
        }
        proof {
            assert(vecs_view(v@) =~= rows);
        }
        v
    }
}

} // verus!
