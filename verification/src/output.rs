//! The output sinks: for every combination of output format and color mode,
//! how a document opens, how one glyph cell is written with its colors, how a
//! line ends, and how the document closes. Terminal color uses true-color
//! escape sequences; HTML color uses inline-styled spans.

use vstd::prelude::*;

use crate::img::{spec_cells, Pixel};
use crate::raster::Raster;
use crate::text::{
    append_str, dec_chars, escaped_char, hex_chars, push_dec, push_escaped, push_hex_color,
};
use crate::PixtError;

verus! {

/// Output color type
#[derive(Debug, Clone, Copy, PartialEq, Eq, Structural)]
pub enum ColorType {
    /// Avg of upper and lower applied as foreground (font) color
    AvgFgOnly,
    /// Avg of upper and lower applied as background color
    AvgBgOnly,
    /// upper pixel color as foreground, lower pixel color as background
    FgTopBgDown,
    /// upper pixel color as background, lower pixel color as foreground
    BgTopFgDown,
    /// default color
    NoColor,
}

impl Default for ColorType {
    fn default() -> (r: Self)
        ensures
            r == ColorType::NoColor,
    {
        ColorType::NoColor
    }
}

/// Output type
#[derive(Debug, Clone, Copy, PartialEq, Eq, Structural)]
pub enum OutputType {
    Text(ColorType),
    Term(ColorType),
    Html(ColorType),
    Svg(ColorType),
}

impl Default for OutputType {
    fn default() -> (r: Self)
        ensures
            r == OutputType::Term(ColorType::NoColor),
    {
        OutputType::Term(ColorType::NoColor)
    }
}

/// Averages two colors channel by channel, truncating.
pub open spec fn avg_spec(c1: (u8, u8, u8), c2: (u8, u8, u8)) -> (u8, u8, u8) {
    (((c1.0 + c2.0) / 2) as u8, ((c1.1 + c2.1) / 2) as u8, ((c1.2 + c2.2) / 2) as u8)
}

/// Averages two colors channel by channel, truncating.
pub fn avg_color(c1: (u8, u8, u8), c2: (u8, u8, u8)) -> (r: (u8, u8, u8))
    ensures
        r == avg_spec(c1, c2),
{
    let r = ((c1.0 as u16 + c2.0 as u16) / 2) as u8;
    let g = ((c1.1 as u16 + c2.1 as u16) / 2) as u8;
    let b = ((c1.2 as u16 + c2.2 as u16) / 2) as u8;
    (r, g, b)
}

/// The true-color escape that sets the terminal foreground color.
pub open spec fn fg_escape(c: (u8, u8, u8)) -> Seq<char> {
    "\u{1b}[38;2;"@ + dec_chars(c.0 as int) + ";"@ + dec_chars(c.1 as int) + ";"@ + dec_chars(
        c.2 as int,
    ) + "m"@
}

/// The true-color escape that sets the terminal background color.
pub open spec fn bg_escape(c: (u8, u8, u8)) -> Seq<char> {
    "\u{1b}[48;2;"@ + dec_chars(c.0 as int) + ";"@ + dec_chars(c.1 as int) + ";"@ + dec_chars(
        c.2 as int,
    ) + "m"@
}

fn push_fg_escape(out: &mut Vec<char>, c: (u8, u8, u8))
    ensures
        final(out)@ == old(out)@ + fg_escape(c),
{
    append_str(out, "\u{1b}[38;2;");
    push_dec(out, c.0);
    append_str(out, ";");
    push_dec(out, c.1);
    append_str(out, ";");
    push_dec(out, c.2);
    append_str(out, "m");
    proof {
        assert(out@ =~= old(out)@ + fg_escape(c));
    }
}

fn push_bg_escape(out: &mut Vec<char>, c: (u8, u8, u8))
    ensures
        final(out)@ == old(out)@ + bg_escape(c),
{
    append_str(out, "\u{1b}[48;2;");
    push_dec(out, c.0);
    append_str(out, ";");
    push_dec(out, c.1);
    append_str(out, ";");
    push_dec(out, c.2);
    append_str(out, "m");
    proof {
        assert(out@ =~= old(out)@ + bg_escape(c));
    }
}

/// An HTML span wrapping a glyph, with an inline style for its colors.
pub open spec fn span_chars(style: Seq<char>, glyph: char) -> Seq<char> {
    "<span style=\""@ + style + "\">"@ + escaped_char(glyph) + "</span>"@
}

/// The characters one glyph cell contributes to the output, by format and
/// color mode.
pub open spec fn cell_chars(o: OutputType, cell: (char, Pixel, Pixel)) -> Seq<char> {
    let ch = cell.0;
    let c1 = cell.1.color;
    let c2 = cell.2.color;
    match o {
        OutputType::Text(_) => seq![ch],
        OutputType::Term(ColorType::NoColor) => seq![ch],
        OutputType::Term(ColorType::AvgFgOnly) => fg_escape(avg_spec(c1, c2)) + seq![ch],
        OutputType::Term(ColorType::AvgBgOnly) => bg_escape(avg_spec(c1, c2)) + seq![ch],
        OutputType::Term(ColorType::FgTopBgDown) => bg_escape(c2) + fg_escape(c1) + seq![ch],
        OutputType::Term(ColorType::BgTopFgDown) => bg_escape(c1) + fg_escape(c2) + seq![ch],
        OutputType::Html(ColorType::NoColor) => escaped_char(ch),
        OutputType::Html(ColorType::AvgFgOnly) => span_chars(
            "color:"@ + hex_chars(avg_spec(c1, c2)) + ";"@,
            ch,
        ),
        OutputType::Html(ColorType::AvgBgOnly) => span_chars(
            "background-color:"@ + hex_chars(avg_spec(c1, c2)) + ";"@,
            ch,
        ),
        OutputType::Html(ColorType::FgTopBgDown) => span_chars(
            "color:"@ + hex_chars(c1) + ";background-color:"@ + hex_chars(c2) + ";"@,
            ch,
        ),
        OutputType::Html(ColorType::BgTopFgDown) => span_chars(
            "color:"@ + hex_chars(c2) + ";background-color:"@ + hex_chars(c1) + ";"@,
            ch,
        ),
        OutputType::Svg(_) => Seq::empty(),
    }
}

/// The characters that end one output line, by format and color mode.
pub open spec fn line_end_chars(o: OutputType) -> Seq<char> {
    match o {
        OutputType::Text(_) => seq!['\n'],
        OutputType::Term(ColorType::NoColor) => seq!['\n'],
        OutputType::Term(_) => "\u{1b}[0m\n"@,
        OutputType::Html(ColorType::NoColor) => seq!['\n'],
        OutputType::Html(_) => "<br />\n"@,
        OutputType::Svg(_) => Seq::empty(),
    }
}

/// The HTML prologue for uncolored output: glyphs at full line height.
pub open spec fn html_header_none() -> Seq<char> {
    "<!DOCTYPE html>
<html lang=\"en\">
  <head>
    <meta charset=\"UTF-8\">
    <meta name=\"viewport\" content=\"width=device-width, initial-scale=1\">
    <style>
    * {
        color: #fff;
        background-color: #191919;
        font-family: monospace;
    }
    pre {
        line-height: 1.2;
        margin: 0;
        padding: 0;
        font-size: 10px;
    }
    </style>
  </head>
  <body>
    <pre>"@
}

/// The HTML prologue for colored output: line height halved so that stacked
/// colored rows touch.
pub open spec fn html_header_colored() -> Seq<char> {
    "<!DOCTYPE html>
<html lang=\"en\">
  <head>
    <meta charset=\"UTF-8\">
    <meta name=\"viewport\" content=\"width=device-width, initial-scale=1\">
    <style>
    * {
        color: #fff;
        background-color: #191919;
        font-family: monospace;
    }
    pre {
        line-height: 0.6;
        margin: 0;
        padding: 0;
        font-size: 10px;
    }
    </style>
  </head>
  <body>
    <pre>"@
}

/// The framing prologue of a document, by format and color mode.
pub open spec fn header_chars(o: OutputType) -> Seq<char> {
    match o {
        OutputType::Html(ColorType::NoColor) => html_header_none(),
        OutputType::Html(_) => html_header_colored(),
        _ => Seq::empty(),
    }
}

/// The framing epilogue of a document, by format.
pub open spec fn footer_chars(o: OutputType) -> Seq<char> {
    match o {
        OutputType::Html(_) => "    </pre>\n  </body>\n</html>\n"@,
        _ => Seq::empty(),
    }
}

impl OutputType {
    /// Whether this format renders at all: every SVG combination is an
    /// explicit gap and is refused rather than approximated.
    pub open spec fn supported(&self) -> bool {
        !(self is Svg)
    }

    /// The color mode carried by this output type.
    pub open spec fn color_of(&self) -> ColorType {
        match *self {
            OutputType::Text(c) => c,
            OutputType::Term(c) => c,
            OutputType::Html(c) => c,
            OutputType::Svg(c) => c,
        }
    }

    /// This output type with its color mode replaced.
    pub open spec fn with_color(&self, color: ColorType) -> OutputType {
        match *self {
            OutputType::Text(_) => OutputType::Text(color),
            OutputType::Term(_) => OutputType::Term(color),
            OutputType::Html(_) => OutputType::Html(color),
            OutputType::Svg(_) => OutputType::Svg(color),
        }
    }

    /// Plain text output, uncolored.
    pub fn text() -> (r: Self)
        ensures
            r == OutputType::Text(ColorType::NoColor),
    {
        OutputType::Text(ColorType::NoColor)
    }

    /// Terminal output with the default color mode.
    pub fn term() -> (r: Self)
        ensures
            r == OutputType::Term(ColorType::NoColor),
    {
        OutputType::Term(ColorType::NoColor)
    }

    /// HTML output with the default color mode.
    pub fn html() -> (r: Self)
        ensures
            r == OutputType::Html(ColorType::NoColor),
    {
        OutputType::Html(ColorType::NoColor)
    }

    /// SVG output with the default color mode.
    pub fn svg() -> (r: Self)
        ensures
            r == OutputType::Svg(ColorType::NoColor),
    {
        OutputType::Svg(ColorType::NoColor)
    }

    /// Consumes this output type, keeping the format and taking `color`.
    pub fn color(self, color: ColorType) -> (r: Self)
        ensures
            r == self.with_color(color),
    {
        match self {
            OutputType::Text(_) => OutputType::Text(color),
            OutputType::Term(_) => OutputType::Term(color),
            OutputType::Html(_) => OutputType::Html(color),
            OutputType::Svg(_) => OutputType::Svg(color),
        }
    }

    /// Returns this output type with the format kept and `color` taken.
    pub fn set_color(&self, color: ColorType) -> (r: Self)
        ensures
            r == self.with_color(color),
    {
        match *self {
            OutputType::Text(_) => OutputType::Text(color),
            OutputType::Term(_) => OutputType::Term(color),
            OutputType::Html(_) => OutputType::Html(color),
            OutputType::Svg(_) => OutputType::Svg(color),
        }
    }

    /// Emits the document prologue.
    pub fn write_header(&self, _width: u32, _height: u32, out: &mut Vec<char>) -> (r: Result<
        (),
        PixtError,
    >)
        ensures
            match r {
                Ok(()) => self.supported() && final(out)@ == old(out)@ + header_chars(*self),
                Err(e) => !self.supported() && e == PixtError::Unsupported && final(out)@ == old(
                    out,
                )@,
            },
    {
        match *self {
            OutputType::Html(color) => {
                match color {
                    ColorType::NoColor => append_str(
                        out,
                        "<!DOCTYPE html>
<html lang=\"en\">
  <head>
    <meta charset=\"UTF-8\">
    <meta name=\"viewport\" content=\"width=device-width, initial-scale=1\">
    <style>
    * {
        color: #fff;
        background-color: #191919;
        font-family: monospace;
    }
    pre {
        line-height: 1.2;
        margin: 0;
        padding: 0;
        font-size: 10px;
    }
    </style>
  </head>
  <body>
    <pre>",
                    ),
                    _ => append_str(
                        out,
                        "<!DOCTYPE html>
<html lang=\"en\">
  <head>
    <meta charset=\"UTF-8\">
    <meta name=\"viewport\" content=\"width=device-width, initial-scale=1\">
    <style>
    * {
        color: #fff;
        background-color: #191919;
        font-family: monospace;
    }
    pre {
        line-height: 0.6;
        margin: 0;
        padding: 0;
        font-size: 10px;
    }
    </style>
  </head>
  <body>
    <pre>",
                    ),
                }
                Ok(())
            },
            OutputType::Svg(_) => Err(PixtError::Unsupported),
            _ => Ok(()),
        }
    }

    /// Emits the document epilogue.
    pub fn write_footer(&self, out: &mut Vec<char>) -> (r: Result<(), PixtError>)
        ensures
            match r {
                Ok(()) => self.supported() && final(out)@ == old(out)@ + footer_chars(*self),
                Err(e) => !self.supported() && e == PixtError::Unsupported && final(out)@ == old(
                    out,
                )@,
            },
    {
        match *self {
            OutputType::Html(_) => {
                append_str(out, "    </pre>\n  </body>\n</html>\n");
                Ok(())
            },
            OutputType::Svg(_) => Err(PixtError::Unsupported),
            _ => Ok(()),
        }
    }

    /// Emits one glyph cell with its colors.
    #[verifier::rlimit(50)]
    pub fn print_pixel(&self, out: &mut Vec<char>, cell: (char, Pixel, Pixel)) -> (r: Result<
        (),
        PixtError,
    >)
        ensures
            match r {
                Ok(()) => self.supported() && final(out)@ == old(out)@ + cell_chars(*self, cell),
                Err(e) => !self.supported() && e == PixtError::Unsupported && final(out)@ == old(
                    out,
                )@,
            },
    {
        let (ch, p1, p2) = cell;
        let c1 = p1.color;
        let c2 = p2.color;
        match *self {
            OutputType::Text(_) => {
                out.push(ch);
                proof {
                    assert(out@ =~= old(out)@ + cell_chars(*self, cell));
                }
                Ok(())
            },
            OutputType::Term(color) => {
                match color {
                    ColorType::NoColor => out.push(ch),
                    ColorType::AvgFgOnly => {
                        push_fg_escape(out, avg_color(c1, c2));
                        out.push(ch);
                    },
                    ColorType::AvgBgOnly => {
                        push_bg_escape(out, avg_color(c1, c2));
                        out.push(ch);
                    },
                    ColorType::FgTopBgDown => {
                        push_bg_escape(out, c2);
                        push_fg_escape(out, c1);
                        out.push(ch);
                    },
                    ColorType::BgTopFgDown => {
                        push_bg_escape(out, c1);
                        push_fg_escape(out, c2);
                        out.push(ch);
                    },
                }
                proof {
                    assert(out@ =~= old(out)@ + cell_chars(*self, cell));
                }
                Ok(())
            },
            OutputType::Html(color) => {
                match color {
                    ColorType::NoColor => push_escaped(out, ch),
                    ColorType::AvgFgOnly => {
                        append_str(out, "<span style=\"");
                        append_str(out, "color:");
                        push_hex_color(out, avg_color(c1, c2));
                        append_str(out, ";");
                        append_str(out, "\">");
                        push_escaped(out, ch);
                        append_str(out, "</span>");
                    },
                    ColorType::AvgBgOnly => {
                        append_str(out, "<span style=\"");
                        append_str(out, "background-color:");
                        push_hex_color(out, avg_color(c1, c2));
                        append_str(out, ";");
                        append_str(out, "\">");
                        push_escaped(out, ch);
                        append_str(out, "</span>");
                    },
                    ColorType::FgTopBgDown => {
                        append_str(out, "<span style=\"");
                        append_str(out, "color:");
                        push_hex_color(out, c1);
                        append_str(out, ";background-color:");
                        push_hex_color(out, c2);
                        append_str(out, ";");
                        append_str(out, "\">");
                        push_escaped(out, ch);
                        append_str(out, "</span>");
                    },
                    ColorType::BgTopFgDown => {
                        append_str(out, "<span style=\"");
                        append_str(out, "color:");
                        push_hex_color(out, c2);
                        append_str(out, ";background-color:");
                        push_hex_color(out, c1);
                        append_str(out, ";");
                        append_str(out, "\">");
                        push_escaped(out, ch);
                        append_str(out, "</span>");
                    },
                }
                proof {
                    assert(out@ =~= old(out)@ + cell_chars(*self, cell));
                }
                Ok(())
            },
            OutputType::Svg(_) => Err(PixtError::Unsupported),
        }
    }

    /// Emits a line terminator.
    pub fn print_line(&self, out: &mut Vec<char>) -> (r: Result<(), PixtError>)
        ensures
            match r {
                Ok(()) => self.supported() && final(out)@ == old(out)@ + line_end_chars(*self),
                Err(e) => !self.supported() && e == PixtError::Unsupported && final(out)@ == old(
                    out,
                )@,
            },
    {
        match *self {
            OutputType::Text(_) => {
                out.push('\n');
            },
            OutputType::Term(color) => {
                match color {
                    ColorType::NoColor => out.push('\n'),
                    _ => append_str(out, "\u{1b}[0m\n"),
                }
            },
            OutputType::Html(color) => {
                match color {
                    ColorType::NoColor => out.push('\n'),
                    _ => append_str(out, "<br />\n"),
                }
            },
            OutputType::Svg(_) => {
                return Err(PixtError::Unsupported);
            },
        }
        proof {
            assert(out@ =~= old(out)@ + line_end_chars(*self));
        }
        Ok(())
    }
}


/// The characters one row of glyph cells contributes, cell by cell.
pub open spec fn row_chars(o: OutputType, row: Seq<(char, Pixel, Pixel)>) -> Seq<char>
    decreases row.len(),
{
    if row.len() == 0 {
        Seq::empty()
    } else {
        row_chars(o, row.drop_last()) + cell_chars(o, row.last())
    }
}

/// The characters all rows contribute, each row closed by a line terminator.
pub open spec fn rows_chars(o: OutputType, rows: Seq<Seq<(char, Pixel, Pixel)>>) -> Seq<char>
    decreases rows.len(),
{
    if rows.len() == 0 {
        Seq::empty()
    } else {
        rows_chars(o, rows.drop_last()) + row_chars(o, rows.last()) + line_end_chars(o)
    }
}

/// The whole rendered document for one image and palette: prologue, then one
/// line per sampled row pair, then the epilogue.
pub open spec fn render_chars(o: OutputType, grid: Seq<Seq<char>>, img: Raster) -> Seq<char> {
    header_chars(o) + rows_chars(o, spec_cells(grid, img)) + footer_chars(o)
}


/// The extension of a path, as `Path::extension` reads it: the part of the
/// file name after its last dot, where the file name is what follows the
/// last separator and the dot neither starts the file name nor ends a
/// directory. A name with no such dot has no extension.
pub open spec fn ext_of(s: Seq<char>) -> Option<Seq<char>>
    decreases s.len(),
{
    if s.len() == 0 {
        Option::None
    } else if s.last() == '/' {
        Option::None
    } else if s.last() == '.' {
        if s.len() >= 2 && s[s.len() - 2] != '/' {
            Option::Some(Seq::empty())
        } else {
            Option::None
        }
    } else {
        match ext_of(s.drop_last()) {
            Option::Some(e) => Option::Some(e.push(s.last())),
            Option::None => Option::None,
        }
    }
}

/// Whether `s` spells `pat` up to ASCII case, where `pat` is lowercase.
pub open spec fn matches_ic(s: Seq<char>, pat: Seq<char>) -> bool {
    s.len() == pat.len() && forall|k: int|
        #![trigger s[k]]
        0 <= k < s.len() ==> s[k] == pat[k] || s[k] as int == pat[k] as int - 32
}

/// The output type a destination path implies: `.html` and `.htm` name HTML,
/// `.svg` names SVG, anything else renders to the terminal, all with the
/// default color mode. Extensions are read without regard to ASCII case.
pub open spec fn spec_from_path(s: Seq<char>) -> OutputType {
    match ext_of(s) {
        Option::Some(e) => {
            if matches_ic(e, seq!['h', 't', 'm', 'l']) || matches_ic(e, seq!['h', 't', 'm']) {
                OutputType::Html(ColorType::NoColor)
            } else if matches_ic(e, seq!['s', 'v', 'g']) {
                OutputType::Svg(ColorType::NoColor)
            } else {
                OutputType::Term(ColorType::NoColor)
            }
        },
        Option::None => OutputType::Term(ColorType::NoColor),
    }
}

fn ic_eq(c: char, lower: char) -> (r: bool)
    ensures
        r == (c == lower || c as int == lower as int - 32),
{
    c == lower || (c as u32) + 32 == (lower as u32)
}

impl OutputType {
    /// The output type implied by a destination path's extension.
    #[verifier::loop_isolation(false)]
    pub fn from_path(path: &str) -> (r: OutputType)
        ensures
            r == spec_from_path(path@),
    {
        let n = path.unicode_len();
        let mut j: usize = n;
        proof {
            assert(path@.subrange(0, n as int) =~= path@);
            assert(path@.subrange(n as int, n as int) =~= Seq::<char>::empty());
            if ext_of(path@.subrange(0, j as int)) is Some {
                let e = ext_of(path@.subrange(0, j as int)).unwrap();
                assert(e + path@.subrange(j as int, n as int) =~= e);
            }
        }
        while j > 0
            invariant
                j <= n,
                n == path@.len(),
                ext_of(path@) == match ext_of(path@.subrange(0, j as int)) {
                    Option::Some(e) => Option::Some(e + path@.subrange(j as int, n as int)),
                    Option::None => Option::<Seq<char>>::None,
                },
            decreases j,
        {
            let c = path.get_char(j - 1);
            let ghost pre = path@.subrange(0, j as int);
            proof {
                assert(pre.drop_last() =~= path@.subrange(0, j - 1));
                assert(pre.last() == path@[j - 1]);
            }
            if c == '/' {
                return OutputType::Term(ColorType::NoColor);
            } else if c == '.' {
                if j >= 2 && !(path.get_char(j - 2) == '/') {
                    proof {
                        assert(pre[pre.len() - 2] == path@[j - 2]);
                        assert(ext_of(pre) == Option::Some(Seq::<char>::empty()));
                        assert(Seq::<char>::empty() + path@.subrange(j as int, n as int)
                            =~= path@.subrange(j as int, n as int));
                    }
                    let ghost ext = path@.subrange(j as int, n as int);
                    let m = n - j;
                    let is_html = if m == 4 {
                        ic_eq(path.get_char(j), 'h') && ic_eq(path.get_char(j + 1), 't')
                            && ic_eq(path.get_char(j + 2), 'm') && ic_eq(
                            path.get_char(j + 3),
                            'l',
                        )
                    } else if m == 3 {
                        ic_eq(path.get_char(j), 'h') && ic_eq(path.get_char(j + 1), 't')
                            && ic_eq(path.get_char(j + 2), 'm')
                    } else {
                        false
                    };
                    if is_html {
                        proof {
                            assert(forall|k: int|
                                0 <= k < ext.len() ==> #[trigger] ext[k] == path@[j + k]);
                            if m == 4 {
                                assert(matches_ic(ext, seq!['h', 't', 'm', 'l']));
                            } else {
                                assert(matches_ic(ext, seq!['h', 't', 'm']));
                            }
                        }
                        return OutputType::Html(ColorType::NoColor);
                    }
                    let is_svg = m == 3 && ic_eq(path.get_char(j), 's') && ic_eq(
                        path.get_char(j + 1),
                        'v',
                    ) && ic_eq(path.get_char(j + 2), 'g');
                    proof {
                        assert(forall|k: int|
                            0 <= k < ext.len() ==> #[trigger] ext[k] == path@[j + k]);
                        if matches_ic(ext, seq!['h', 't', 'm', 'l']) {
                            assert(ext[0] == 'h' || ext[0] as int == 'h' as int - 32);
                            assert(ext[1] == 't' || ext[1] as int == 't' as int - 32);
                            assert(ext[2] == 'm' || ext[2] as int == 'm' as int - 32);
                            assert(ext[3] == 'l' || ext[3] as int == 'l' as int - 32);
                            assert(false);
                        }
                        if matches_ic(ext, seq!['h', 't', 'm']) {
                            assert(ext[0] == 'h' || ext[0] as int == 'h' as int - 32);
                            assert(ext[1] == 't' || ext[1] as int == 't' as int - 32);
                            assert(ext[2] == 'm' || ext[2] as int == 'm' as int - 32);
                            assert(false);
                        }
                        if is_svg {
                            assert(matches_ic(ext, seq!['s', 'v', 'g']));
                        } else if matches_ic(ext, seq!['s', 'v', 'g']) {
                            assert(ext[0] == 's' || ext[0] as int == 's' as int - 32);
                            assert(ext[1] == 'v' || ext[1] as int == 'v' as int - 32);
                            assert(ext[2] == 'g' || ext[2] as int == 'g' as int - 32);
                            assert(false);
                        }
                    }
                    if is_svg {
                        return OutputType::Svg(ColorType::NoColor);
                    }
                    return OutputType::Term(ColorType::NoColor);
                } else {
                    return OutputType::Term(ColorType::NoColor);
                }
            } else {
                j = j - 1;
                proof {
                    let post = path@.subrange(j as int, n as int);
                    match ext_of(path@.subrange(0, j as int)) {
                        Option::Some(e) => {
                            assert(ext_of(pre) == Option::Some(e.push(c)));
                            assert(e.push(c) + path@.subrange(j + 1, n as int) =~= e + post);
                        },
                        Option::None => {},
                    }
                }
            }
        }
        proof {
            assert(path@.subrange(0, 0) =~= Seq::<char>::empty());
        }
        OutputType::Term(ColorType::NoColor)
    }
}


/// `pat` occurs in `s` at position `i`.
pub open spec fn occurs_at(s: Seq<char>, pat: Seq<char>, i: int) -> bool {
    0 <= i && i + pat.len() <= s.len() && s.subrange(i, i + pat.len()) == pat
}

/// No `<` at all in this piece of output.
spec fn no_lt(s: Seq<char>) -> bool {
    forall|i: int| 0 <= i < s.len() ==> s[i] != '<'
}

/// Every `<` in this piece of output opens a span, a break, or a span
/// close, with the telling characters inside the piece. Such a piece can
/// hold no `<pre>` and no `</pre>`, not even across a concatenation.
spec fn body_clean(s: Seq<char>) -> bool {
    forall|i: int|
        #![trigger s[i]]
        0 <= i < s.len() && s[i] == '<' ==> i + 2 < s.len() && (s[i + 1] == 's' || s[i + 1] == 'b'
            || (s[i + 1] == '/' && s[i + 2] == 's'))
}

proof fn lemma_no_lt_clean(s: Seq<char>)
    requires
        no_lt(s),
    ensures
        body_clean(s),
{
}

proof fn lemma_no_lt_concat(a: Seq<char>, b: Seq<char>)
    requires
        no_lt(a),
        no_lt(b),
    ensures
        no_lt(a + b),
{
    assert forall|i: int| 0 <= i < (a + b).len() implies (a + b)[i] != '<' by {
        if i < a.len() {
            assert((a + b)[i] == a[i]);
        } else {
            assert((a + b)[i] == b[i - a.len()]);
        }
    }
}

proof fn lemma_clean_concat(a: Seq<char>, b: Seq<char>)
    requires
        body_clean(a),
        body_clean(b),
    ensures
        body_clean(a + b),
{
    assert forall|i: int|
        #![trigger (a + b)[i]]
        0 <= i < (a + b).len() && (a + b)[i] == '<' implies i + 2 < (a + b).len() && ((a + b)[i
        + 1] == 's' || (a + b)[i + 1] == 'b' || ((a + b)[i + 1] == '/' && (a + b)[i + 2]
        == 's')) by {
        if i < a.len() {
            assert((a + b)[i] == a[i]);
            assert(a[i + 1] == (a + b)[i + 1]);
            assert(a[i + 2] == (a + b)[i + 2]);
        } else {
            let k = i - a.len();
            assert((a + b)[i] == b[k]);
            assert((a + b)[i + 1] == b[k + 1]);
            assert((a + b)[i + 2] == b[k + 2]);
        }
    }
}

proof fn lemma_hex_no_lt(c: (u8, u8, u8))
    ensures
        no_lt(hex_chars(c)),
{
    assert forall|i: int| 0 <= i < hex_chars(c).len() implies hex_chars(c)[i] != '<' by {
        assert(hex_chars(c).len() == 7);
    }
}

proof fn lemma_escaped_no_lt(ch: char)
    ensures
        no_lt(escaped_char(ch)),
{
}

proof fn lemma_span_clean(style: Seq<char>, glyph: char)
    requires
        no_lt(style),
    ensures
        body_clean(span_chars(style, glyph)),
{
    reveal_strlit("<span style=\"");
    reveal_strlit("\">");
    reveal_strlit("</span>");
    let a = "<span style=\""@;
    let b = "\">"@;
    let d = "</span>"@;
    assert(body_clean(a));
    lemma_no_lt_concat(style, b);
    lemma_no_lt_concat(style + b, escaped_char(glyph));
    lemma_no_lt_clean(style + b + escaped_char(glyph));
    assert(body_clean(d));
    lemma_clean_concat(style + b + escaped_char(glyph), d);
    lemma_clean_concat(a, style + b + escaped_char(glyph) + d);
    assert(span_chars(style, glyph) =~= a + (style + b + escaped_char(glyph) + d));
}

proof fn lemma_cell_clean(o: OutputType, cell: (char, Pixel, Pixel))
    requires
        o is Html,
    ensures
        body_clean(cell_chars(o, cell)),
{
    let ch = cell.0;
    let c1 = cell.1.color;
    let c2 = cell.2.color;
    reveal_strlit("color:");
    reveal_strlit("background-color:");
    reveal_strlit(";");
    reveal_strlit(";background-color:");
    lemma_escaped_no_lt(ch);
    match o {
        OutputType::Html(color) => match color {
            ColorType::NoColor => {
                lemma_no_lt_clean(escaped_char(ch));
            },
            ColorType::AvgFgOnly => {
                lemma_hex_no_lt(avg_spec(c1, c2));
                lemma_no_lt_concat("color:"@, hex_chars(avg_spec(c1, c2)));
                lemma_no_lt_concat("color:"@ + hex_chars(avg_spec(c1, c2)), ";"@);
                lemma_span_clean("color:"@ + hex_chars(avg_spec(c1, c2)) + ";"@, ch);
            },
            ColorType::AvgBgOnly => {
                lemma_hex_no_lt(avg_spec(c1, c2));
                lemma_no_lt_concat("background-color:"@, hex_chars(avg_spec(c1, c2)));
                lemma_no_lt_concat("background-color:"@ + hex_chars(avg_spec(c1, c2)), ";"@);
                lemma_span_clean("background-color:"@ + hex_chars(avg_spec(c1, c2)) + ";"@, ch);
            },
            ColorType::FgTopBgDown => {
                lemma_hex_no_lt(c1);
                lemma_hex_no_lt(c2);
                lemma_no_lt_concat("color:"@, hex_chars(c1));
                lemma_no_lt_concat("color:"@ + hex_chars(c1), ";background-color:"@);
                lemma_no_lt_concat("color:"@ + hex_chars(c1) + ";background-color:"@, hex_chars(c2));
                lemma_no_lt_concat(
                    "color:"@ + hex_chars(c1) + ";background-color:"@ + hex_chars(c2),
                    ";"@,
                );
                lemma_span_clean(
                    "color:"@ + hex_chars(c1) + ";background-color:"@ + hex_chars(c2) + ";"@,
                    ch,
                );
            },
            ColorType::BgTopFgDown => {
                lemma_hex_no_lt(c1);
                lemma_hex_no_lt(c2);
                lemma_no_lt_concat("color:"@, hex_chars(c2));
                lemma_no_lt_concat("color:"@ + hex_chars(c2), ";background-color:"@);
                lemma_no_lt_concat("color:"@ + hex_chars(c2) + ";background-color:"@, hex_chars(c1));
                lemma_no_lt_concat(
                    "color:"@ + hex_chars(c2) + ";background-color:"@ + hex_chars(c1),
                    ";"@,
                );
                lemma_span_clean(
                    "color:"@ + hex_chars(c2) + ";background-color:"@ + hex_chars(c1) + ";"@,
                    ch,
                );
            },
        },
        _ => {},
    }
}

proof fn lemma_line_end_clean(o: OutputType)
    requires
        o is Html,
    ensures
        body_clean(line_end_chars(o)),
{
    reveal_strlit("<br />\n");
}

proof fn lemma_row_clean(o: OutputType, row: Seq<(char, Pixel, Pixel)>)
    requires
        o is Html,
    ensures
        body_clean(row_chars(o, row)),
    decreases row.len(),
{
    if row.len() == 0 {
    } else {
        lemma_row_clean(o, row.drop_last());
        lemma_cell_clean(o, row.last());
        lemma_clean_concat(row_chars(o, row.drop_last()), cell_chars(o, row.last()));
    }
}

proof fn lemma_rows_clean(o: OutputType, rows: Seq<Seq<(char, Pixel, Pixel)>>)
    requires
        o is Html,
    ensures
        body_clean(rows_chars(o, rows)),
    decreases rows.len(),
{
    if rows.len() == 0 {
    } else {
        lemma_rows_clean(o, rows.drop_last());
        lemma_row_clean(o, rows.last());
        lemma_line_end_clean(o);
        lemma_clean_concat(rows_chars(o, rows.drop_last()), row_chars(o, rows.last()));
        lemma_clean_concat(
            rows_chars(o, rows.drop_last()) + row_chars(o, rows.last()),
            line_end_chars(o),
        );
    }
}


proof fn lemma_header_facts(o: OutputType)
    requires
        o is Html,
    ensures
        ({
            let h = header_chars(o);
            &&& h.len() >= 20
            &&& h.subrange(0, 15) == "<!DOCTYPE html>"@
            &&& h.subrange(h.len() - 5, h.len() as int) == "<pre>"@
            &&& forall|i: int|
                #![trigger h[i]]
                0 <= i < h.len() - 1 && h[i] == '<' && h[i + 1] == 'p' ==> i == h.len() - 5
            &&& forall|i: int|
                #![trigger h[i]]
                0 <= i < h.len() - 2 && h[i] == '<' && h[i + 1] == '/' ==> h[i + 2] != 'p'
        }),
{
    reveal_strlit("<!DOCTYPE html>");
    reveal_strlit("<pre>");
    let h = header_chars(o);
    if h == html_header_none() {
        reveal_strlit("<!DOCTYPE html>\n<html lang=\"en\">\n  <head>\n    <meta charset=\"UTF-8\">\n    <meta name=\"viewport\" content=\"width=device-width, initial-scale=1\">\n    <style>\n    * {\n        color: #fff;\n        background-color: #191919;\n        font-family: monospace;\n    }\n    pre {\n        line-height: 1.2;\n        margin: 0;\n        padding: 0;\n        font-size: 10px;\n    }\n    </style>\n  </head>\n  <body>\n    <pre>");
        assert(h.subrange(0, 15) =~= "<!DOCTYPE html>"@);
        assert(h.subrange(h.len() - 5, h.len() as int) =~= "<pre>"@);
    } else {
        reveal_strlit("<!DOCTYPE html>\n<html lang=\"en\">\n  <head>\n    <meta charset=\"UTF-8\">\n    <meta name=\"viewport\" content=\"width=device-width, initial-scale=1\">\n    <style>\n    * {\n        color: #fff;\n        background-color: #191919;\n        font-family: monospace;\n    }\n    pre {\n        line-height: 0.6;\n        margin: 0;\n        padding: 0;\n        font-size: 10px;\n    }\n    </style>\n  </head>\n  <body>\n    <pre>");
        assert(h.subrange(0, 15) =~= "<!DOCTYPE html>"@);
        assert(h.subrange(h.len() - 5, h.len() as int) =~= "<pre>"@);
    }
}

proof fn lemma_footer_facts(o: OutputType)
    requires
        o is Html,
    ensures
        ({
            let f = footer_chars(o);
            &&& f.len() == 29
            &&& f.subrange(4, 10) == "</pre>"@
            &&& f.subrange(21, 29) == "</html>\n"@
            &&& forall|i: int|
                #![trigger f[i]]
                0 <= i < 28 && f[i] == '<' ==> f[i + 1] != 'p'
            &&& forall|i: int|
                #![trigger f[i]]
                0 <= i < 27 && f[i] == '<' && f[i + 1] == '/' && f[i + 2] == 'p' ==> i == 4
        }),
{
    reveal_strlit("    </pre>\n  </body>\n</html>\n");
    reveal_strlit("</pre>");
    reveal_strlit("</html>\n");
    let f = footer_chars(o);
    assert(f.subrange(4, 10) =~= "</pre>"@);
    assert(f.subrange(21, 29) =~= "</html>\n"@);
}

/// An HTML document is always correctly framed: whatever the image and the
/// palette, the output starts with the doctype, ends with the closing html
/// tag and a final newline, and holds exactly one `<pre>` and one `</pre>`.
#[verifier::rlimit(100)]
pub proof fn lemma_html_framing(o: OutputType, grid: Seq<Seq<char>>, img: Raster)
    requires
        o is Html,
    ensures
        ({
            let out = render_chars(o, grid, img);
            &&& out.len() >= 49
            &&& out.subrange(0, 15) == "<!DOCTYPE html>"@
            &&& out.subrange(out.len() - 8, out.len() as int) == "</html>\n"@
            &&& occurs_at(out, "<pre>"@, header_chars(o).len() - 5)
            &&& forall|i: int|
                occurs_at(out, "<pre>"@, i) ==> i == header_chars(o).len() - 5
            &&& occurs_at(out, "</pre>"@, out.len() - 25)
            &&& forall|i: int| occurs_at(out, "</pre>"@, i) ==> i == out.len() - 25
        }),
{
    lemma_header_facts(o);
    lemma_footer_facts(o);
    lemma_rows_clean(o, spec_cells(grid, img));
    reveal_strlit("<pre>");
    reveal_strlit("</pre>");
    reveal_strlit("</html>\n");
    let h = header_chars(o);
    let b = rows_chars(o, spec_cells(grid, img));
    let f = footer_chars(o);
    let out = render_chars(o, grid, img);
    let n = out.len() as int;
    let pre = "<pre>"@;
    let clo = "</pre>"@;
    assert(out == (h + b) + f);
    assert(n == h.len() + b.len() + 29);
    let hl = h.len() as int;
    let hb = hl + b.len() as int;
    assert(forall|i: int| 0 <= i < hl ==> out[i] == h[i]);
    assert(forall|i: int| hl <= i < hb ==> out[i] == b[i - hl]);
    assert(forall|i: int| hb <= i < n ==> out[i] == f[i - hb]);

    assert(out.subrange(0, 15) =~= "<!DOCTYPE html>"@);
    assert(out.subrange(n - 8, n) =~= f.subrange(21, 29));

    assert(out.subrange(hl - 5, hl) =~= h.subrange(hl - 5, hl));
    assert(occurs_at(out, pre, hl - 5));
    assert(out.subrange(n - 25, n - 19) =~= f.subrange(4, 10));
    assert(occurs_at(out, clo, n - 25));

    assert(h[hl - 1] == '>') by {
        assert(h.subrange(hl - 5, hl)[4] == h[hl - 1]);
    }

    assert forall|i: int| occurs_at(out, pre, i) implies i == hl - 5 by {
        assert(out.subrange(i, i + 5)[0] == out[i]);
        assert(out.subrange(i, i + 5)[1] == out[i + 1]);
        assert(out[i] == '<');
        assert(out[i + 1] == 'p');
        if i < hl - 1 {
            assert(h[i] == '<' && h[i + 1] == 'p');
        } else if i == hl - 1 {
            assert(out[i] == h[hl - 1]);
            assert(false);
        } else if i < hb {
            let k = i - hl;
            assert(b[k] == '<');
            assert(k + 2 < b.len());
            assert(out[i + 1] == b[k + 1]);
            assert(false);
        } else {
            let k = i - hb;
            assert(f[k] == '<');
            assert(k + 5 <= 29);
            assert(out[i + 1] == f[k + 1]);
            assert(false);
        }
    }

    assert forall|i: int| occurs_at(out, clo, i) implies i == n - 25 by {
        assert(out.subrange(i, i + 6)[0] == out[i]);
        assert(out.subrange(i, i + 6)[1] == out[i + 1]);
        assert(out.subrange(i, i + 6)[2] == out[i + 2]);
        assert(out[i] == '<');
        assert(out[i + 1] == '/');
        assert(out[i + 2] == 'p');
        if i < hl - 2 {
            assert(h[i] == '<' && h[i + 1] == '/');
            assert(h[i + 2] != 'p');
            assert(false);
        } else if i == hl - 2 {
            assert(out[i] == h[hl - 2]);
            assert(h.subrange(hl - 5, hl)[3] == h[hl - 2]);
            assert(false);
        } else if i == hl - 1 {
            assert(out[i] == h[hl - 1]);
            assert(false);
        } else if i < hb {
            let k = i - hl;
            assert(b[k] == '<');
            assert(k + 2 < b.len());
            assert(out[i + 1] == b[k + 1]);
            assert(out[i + 2] == b[k + 2]);
            assert(false);
        } else {
            let k = i - hb;
            assert(f[k] == '<');
            assert(k + 6 <= 29);
            assert(f[k + 1] == '/');
            assert(f[k + 2] == 'p');
            assert(k == 4);
        }
    }
}

} // verus!
