//! The command-line surface as data, and the decisions taken on it: which
//! color mode a style renders with, which file arguments name images, and
//! how a palette file's text becomes palette rows. Reading files, parsing
//! flags and detecting the terminal size stay outside the library.

use vstd::prelude::*;
use vstd::string::StrSliceExecFns;

use crate::img::vecs_view;
use crate::output::ColorType;
use crate::PixtError;

verus! {

/// The palette selection offered on the command line.
#[derive(Debug, Clone, Copy, PartialEq, Eq, Structural)]
pub enum StyleOps {
    Pixel,
    Ascii,
    Block,
    Braills,
    Dots,
    Custom,
    FromFile,
}

impl Default for StyleOps {
    fn default() -> (r: Self)
        ensures
            r == StyleOps::Pixel,
    {
        StyleOps::Pixel
    }
}

/// Whether a style reads its palette from the first file argument.
pub open spec fn takes_palette_arg(s: StyleOps) -> bool {
    s == StyleOps::Custom || s == StyleOps::FromFile
}

/// The color mode a style renders with: colored output averages the pixel
/// pair into the foreground, except the Pixel preset, whose glyph carries
/// the pair in its two color channels; palette files always render colored.
pub open spec fn spec_color_type(s: StyleOps, colored: bool) -> ColorType {
    if colored {
        match s {
            StyleOps::Pixel => ColorType::FgTopBgDown,
            _ => ColorType::AvgFgOnly,
        }
    } else {
        match s {
            StyleOps::FromFile => ColorType::AvgFgOnly,
            _ => ColorType::NoColor,
        }
    }
}

impl StyleOps {
    /// The color mode this style renders with.
    pub fn color_type(&self, colored: bool) -> (r: ColorType)
        ensures
            r == spec_color_type(*self, colored),
    {
        if colored {
            match *self {
                StyleOps::Pixel => ColorType::FgTopBgDown,
                _ => ColorType::AvgFgOnly,
            }
        } else {
            match *self {
                StyleOps::FromFile => ColorType::AvgFgOnly,
                _ => ColorType::NoColor,
            }
        }
    }
}

/// The parsed command line.
#[derive(Debug, Clone)]
pub struct Cli {
    /// Output width in terminal characters
    pub width: Option<u32>,
    /// Output height in terminal characters
    pub height: Option<u32>,
    /// Enable colored output
    pub colored: bool,
    /// Style of Output Image
    pub style: StyleOps,
    /// Output path, ending in `.txt`, `.html` or `.svg`
    pub output: Option<String>,
    /// Input file paths
    pub files: Vec<String>,
}

impl Cli {
    /// The file arguments that name images: a style whose palette rides in
    /// the first argument skips it, and at least one image path must remain.
    pub fn image_args(&self) -> (r: Result<Vec<String>, PixtError>)
        ensures
            match r {
                Ok(v) => {
                    &&& !(takes_palette_arg(self.style) && self.files@.len() < 2)
                    &&& v.deep_view() == if takes_palette_arg(self.style) {
                        self.files.deep_view().subrange(1, self.files@.len() as int)
                    } else {
                        self.files.deep_view()
                    }
                },
                Err(e) => {
                    &&& e == PixtError::MissingImagePath
                    &&& takes_palette_arg(self.style)
                    &&& self.files@.len() < 2
                },
            },
    {
        let takes = self.style == StyleOps::Custom || self.style == StyleOps::FromFile;
        if takes && self.files.len() < 2 {
            return Err(PixtError::MissingImagePath);
        }
        let start: usize = if takes {
            1
        } else {
            0
        };
        let mut v: Vec<String> = Vec::new();
        let mut i: usize = start;
        while i < self.files.len()
            invariant
                start <= i <= self.files@.len(),
                v@.len() == i - start,
                forall|j: int| 0 <= j < v@.len() ==> v@[j] == self.files@[start + j],
            decreases self.files@.len() - i,
        {
            let s = self.files[i].clone();
            v.push(s);
            i = i + 1;
        }
        proof {
            let dv = v.deep_view();
            let fdv = self.files.deep_view();
            assert(forall|j: int| 0 <= j < v@.len() ==> #[trigger] dv[j] == v@[j].deep_view());
            assert(forall|j: int|
                0 <= j < self.files@.len() ==> #[trigger] fdv[j] == self.files@[j].deep_view());
            assert(dv =~= fdv.subrange(start as int, self.files@.len() as int));
            if !takes {
                assert(fdv.subrange(0, self.files@.len() as int) =~= fdv);
            }
        }
        Ok(v)
    }
}

/// A character the palette-file reader strips from line ends.
pub open spec fn is_blankc(c: char) -> bool {
    c == ' ' || c == '\t' || c == '\r'
}

/// How many blank characters a line starts with.
pub open spec fn leading_blanks(s: Seq<char>) -> int
    decreases s.len(),
{
    if s.len() == 0 {
        0
    } else if !is_blankc(s[0]) {
        0
    } else {
        1 + leading_blanks(s.drop_first())
    }
}

/// How many blank characters a line ends with.
pub open spec fn trailing_blanks(s: Seq<char>) -> int
    decreases s.len(),
{
    if s.len() == 0 {
        0
    } else if !is_blankc(s.last()) {
        0
    } else {
        1 + trailing_blanks(s.drop_last())
    }
}

/// A line with its leading and trailing blanks stripped.
pub open spec fn trim_seq(s: Seq<char>) -> Seq<char> {
    if leading_blanks(s) == s.len() {
        Seq::empty()
    } else {
        s.subrange(leading_blanks(s), s.len() - trailing_blanks(s))
    }
}

/// The segments of a text between newline characters, in order. A trailing
/// newline contributes a final empty segment, which the palette reader
/// drops anyway.
pub open spec fn split_nl(s: Seq<char>) -> Seq<Seq<char>>
    decreases s.len(),
{
    if s.len() == 0 {
        seq![Seq::<char>::empty()]
    } else if s.last() == '\n' {
        split_nl(s.drop_last()).push(Seq::empty())
    } else {
        let r = split_nl(s.drop_last());
        r.update(r.len() - 1, r.last().push(s.last()))
    }
}

/// Trims every segment and keeps the non-empty ones: the palette rows a
/// text stands for.
pub open spec fn clean_lines(ls: Seq<Seq<char>>) -> Seq<Seq<char>> {
    ls.map_values(|l: Seq<char>| trim_seq(l)).filter(|l: Seq<char>| l.len() > 0)
}

/// The palette rows a text stands for: one row per line that still holds a
/// character once trimmed.
pub open spec fn spec_palette_lines(s: Seq<char>) -> Seq<Seq<char>> {
    clean_lines(split_nl(s))
}

proof fn lemma_leading_blanks(s: Seq<char>, j: int)
    requires
        0 <= j <= s.len(),
        forall|k: int| 0 <= k < j ==> is_blankc(s[k]),
        j == s.len() || !is_blankc(s[j]),
    ensures
        leading_blanks(s) == j,
    decreases s.len(),
{
    if s.len() == 0 {
    } else if !is_blankc(s[0]) {
    } else {
        assert(j >= 1);
        lemma_leading_blanks(s.drop_first(), j - 1);
    }
}

proof fn lemma_trailing_blanks(s: Seq<char>, j: int)
    requires
        0 <= j <= s.len(),
        forall|k: int| s.len() - j <= k < s.len() ==> is_blankc(s[k]),
        j == s.len() || !is_blankc(s[s.len() - j - 1]),
    ensures
        trailing_blanks(s) == j,
    decreases s.len(),
{
    if s.len() == 0 {
    } else if !is_blankc(s.last()) {
        assert(j == 0);
    } else {
        assert(j >= 1);
        lemma_trailing_blanks(s.drop_last(), j - 1);
    }
}

/// Strips leading and trailing blanks from a line of characters.
#[verifier::loop_isolation(false)]
fn trim_chars(v: &Vec<char>) -> (r: Vec<char>)
    ensures
        r@ == trim_seq(v@),
{
    let n = v.len();
    let mut a: usize = 0;
    while a < n && is_blank_char(v[a])
        invariant
            a <= n,
            forall|k: int| 0 <= k < a ==> is_blankc(v@[k]),
        decreases n - a,
    {
        a = a + 1;
    }
    proof {
        lemma_leading_blanks(v@, a as int);
    }
    if a == n {
        let r: Vec<char> = Vec::new();
        proof {
            assert(r@ =~= trim_seq(v@));
        }
        return r;
    }
    let mut b: usize = n;
    while b > a + 1 && is_blank_char(v[b - 1])
        invariant
            a < b <= n,
            forall|k: int| b <= k < n ==> is_blankc(v@[k]),
        decreases b,
    {
        b = b - 1;
    }
    proof {
        assert(!is_blankc(v@[a as int]));
        if is_blankc(v@[b - 1]) {
            assert(b == a + 1);
            assert(false);
        }
        lemma_trailing_blanks(v@, n - b);
    }
    let mut r: Vec<char> = Vec::new();
    let mut i: usize = a;
    proof {
        assert(r@ =~= v@.subrange(a as int, a as int));
    }
    while i < b
        invariant
            a <= i <= b,
            r@ == v@.subrange(a as int, i as int),
        decreases b - i,
    {
        r.push(v[i]);
        i = i + 1;
        proof {
            assert(r@ =~= v@.subrange(a as int, i as int));
        }
    }
    proof {
        assert(r@ =~= trim_seq(v@));
    }
    r
}

fn is_blank_char(c: char) -> (r: bool)
    ensures
        r == is_blankc(c),
{
    c == ' ' || c == '\t' || c == '\r'
}

proof fn lemma_clean_push(ls: Seq<Seq<char>>, x: Seq<char>)
    ensures
        clean_lines(ls.push(x)) == clean_lines(ls) + if trim_seq(x).len() > 0 {
            seq![trim_seq(x)]
        } else {
            Seq::<Seq<char>>::empty()
        },
{
    let f = |l: Seq<char>| trim_seq(l);
    let p = |l: Seq<char>| l.len() > 0;
    assert(ls.push(x).map_values(f) =~= ls.map_values(f).push(f(x)));
    let m = ls.map_values(f);
    assert(m.push(f(x)).drop_last() =~= m);
    reveal_with_fuel(Seq::filter, 1);
    if p(f(x)) {
        assert(clean_lines(ls.push(x)) =~= clean_lines(ls) + seq![trim_seq(x)]);
    } else {
        assert(clean_lines(ls.push(x)) =~= clean_lines(ls));
        assert(clean_lines(ls.push(x)) =~= clean_lines(ls) + Seq::<Seq<char>>::empty());
    }
}

/// Reads palette rows from free-form text: one row per line, line ends
/// trimmed, blank lines dropped. A text with no usable line is refused.
#[verifier::loop_isolation(false)]
pub fn palette_from_text(text: &str) -> (r: Result<Vec<Vec<char>>, PixtError>)
    ensures
        match r {
            Ok(v) => {
                &&& vecs_view(v@) == spec_palette_lines(text@)
                &&& spec_palette_lines(text@).len() > 0
            },
            Err(e) => {
                &&& e == PixtError::EmptyPalette
                &&& spec_palette_lines(text@).len() == 0
            },
        },
{
    let n = text.unicode_len();
    let mut out: Vec<Vec<char>> = Vec::new();
    let mut cur: Vec<char> = Vec::new();
    let mut i: usize = 0;
    proof {
        assert(text@.subrange(0, 0) =~= Seq::<char>::empty());
        assert(split_nl(Seq::<char>::empty()).drop_last()
            =~= Seq::<Seq<char>>::empty());
        assert(vecs_view(out@) =~= clean_lines(Seq::<Seq<char>>::empty()));
    }
    while i < n
        invariant
            i <= n,
            n == text@.len(),
            split_nl(text@.subrange(0, i as int)).len() >= 1,
            cur@ == split_nl(text@.subrange(0, i as int)).last(),
            vecs_view(out@) == clean_lines(split_nl(text@.subrange(0, i as int)).drop_last()),
        decreases n - i,
    {
        let ghost prefix = text@.subrange(0, i as int);
        let ghost sl = split_nl(prefix);
        let c = text.get_char(i);
        i = i + 1;
        proof {
            assert(text@.subrange(0, i as int).drop_last() =~= prefix);
            assert(text@.subrange(0, i as int).last() == c);
        }
        if c == '\n' {
            let line = trim_chars(&cur);
            if line.len() > 0 {
                out.push(line);
            }
            cur = Vec::new();
            proof {
                let sl2 = split_nl(text@.subrange(0, i as int));
                assert(sl2 =~= sl.push(Seq::<char>::empty()));
                assert(sl2.drop_last() =~= sl);
                assert(sl =~= sl.drop_last().push(sl.last()));
                lemma_clean_push(sl.drop_last(), sl.last());
                assert(vecs_view(out@) =~= clean_lines(sl2.drop_last()));
            }
        } else {
            cur.push(c);
            proof {
                let sl2 = split_nl(text@.subrange(0, i as int));
                assert(sl2 =~= sl.update(sl.len() - 1, sl.last().push(c)));
                assert(sl2.drop_last() =~= sl.drop_last());
                assert(sl2.last() == sl.last().push(c));
            }
        }
    }
    proof {
        assert(text@.subrange(0, n as int) =~= text@);
    }
    let ghost sl = split_nl(text@);
    let line = trim_chars(&cur);
    if line.len() > 0 {
        out.push(line);
    }
    proof {
        assert(sl =~= sl.drop_last().push(sl.last()));
        lemma_clean_push(sl.drop_last(), sl.last());
        assert(vecs_view(out@) =~= clean_lines(sl));
        assert(vecs_view(out@).len() == out@.len());
    }
    if out.len() == 0 {
        Err(PixtError::EmptyPalette)
    } else {
        Ok(out)
    }
}


/// How the decoded image is to be resized before rendering.
#[derive(Debug, Clone, Copy, PartialEq, Eq, Structural)]
pub enum ResizePlan {
    /// Resize to exactly this width and height, ignoring aspect ratio.
    Exact(u32, u32),
    /// Resize to fit within this width and height, keeping aspect ratio.
    Fit(u32, u32),
}

/// The resize target for an image: both dimensions given resize exactly;
/// one given computes the other from the aspect ratio, a given height
/// capping the width at the terminal's; neither given fits the terminal
/// width.
pub open spec fn spec_resize_plan(
    width: Option<u32>,
    height: Option<u32>,
    img_w: int,
    img_h: int,
    term_w: int,
) -> ResizePlan {
    match (width, height) {
        (Option::Some(w), Option::Some(h)) => ResizePlan::Exact(w, h),
        (Option::Some(w), Option::None) => ResizePlan::Fit(w, ((w * img_h) / img_w) as u32),
        (Option::None, Option::Some(h)) => ResizePlan::Fit(
            (
            if (h * img_w) / img_h < term_w {
                (h * img_w) / img_h
            } else {
                term_w
            }
            ) as u32,
            h,
        ),
        (Option::None, Option::None) => ResizePlan::Fit(
            term_w as u32,
            ((term_w * img_h) / img_w) as u32,
        ),
    }
}

/// Picks the resize target from the command-line dimensions, the image's
/// own dimensions and the terminal width.
pub fn resize_plan(
    width: Option<u32>,
    height: Option<u32>,
    img_w: u32,
    img_h: u32,
    term_w: u16,
) -> (r: ResizePlan)
    requires
        width is Some && height is None ==> img_w > 0 && width.unwrap() * img_h <= u32::MAX,
        width is None && height is Some ==> img_h > 0 && height.unwrap() * img_w <= u32::MAX,
        width is None && height is None ==> img_w > 0 && term_w * img_h <= u32::MAX,
    ensures
        r == spec_resize_plan(width, height, img_w as int, img_h as int, term_w as int),
{
    match (width, height) {
        (Some(w), Some(h)) => ResizePlan::Exact(w, h),
        (Some(w), None) => {
            let h2 = ((w as u64 * img_h as u64) / img_w as u64) as u32;
            ResizePlan::Fit(w, h2)
        },
        (None, Some(h)) => {
            let w2 = (h as u64 * img_w as u64) / img_h as u64;
            let w3 = if w2 < term_w as u64 {
                w2 as u32
            } else {
                term_w as u32
            };
            ResizePlan::Fit(w3, h)
        },
        (None, None) => {
            let h2 = ((term_w as u64 * img_h as u64) / img_w as u64) as u32;
            ResizePlan::Fit(term_w as u32, h2)
        },
    }
}

} // verus!
