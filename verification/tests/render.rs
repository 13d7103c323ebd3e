use pixt::{render, ColorType, ImgStyle, OutputType, PixtData, PixtError, PixtImg, Raster};

fn solid(w: u32, h: u32, color: (u8, u8, u8)) -> Raster {
    Raster::new(w, h, vec![color; (w * h) as usize])
}

fn to_string(v: Vec<char>) -> String {
    v.into_iter().collect()
}

#[test]
fn cell_count_even_height() {
    let pd = PixtData::new(ImgStyle::Ascii);
    let img = solid(3, 4, (0, 0, 0));
    let rows = pd.chars(&img);
    assert_eq!(rows.len(), 2);
    assert!(rows.iter().all(|r| r.len() == 3));
    assert_eq!(rows.iter().map(|r| r.len()).sum::<usize>(), 3 * (4 / 2));
}

#[test]
fn cell_count_odd_height_drops_last_row() {
    let pd = PixtData::new(ImgStyle::Ascii);
    let img = solid(3, 5, (0, 0, 0));
    let rows = pd.chars(&img);
    assert_eq!(rows.len(), 2);
    assert_eq!(rows.iter().map(|r| r.len()).sum::<usize>(), 3 * ((5 - 1) / 2));
}

#[test]
fn single_column_pair_gives_one_cell() {
    let pd = PixtData::new(ImgStyle::Ascii);
    let img = solid(1, 2, (0, 0, 0));
    let rows = pd.chars(&img);
    assert_eq!(rows.len(), 1);
    assert_eq!(rows[0].len(), 1);
}

#[test]
fn single_pixel_gives_no_cell() {
    let pd = PixtData::new(ImgStyle::Ascii);
    let img = solid(1, 1, (0, 0, 0));
    let rows = pd.chars(&img);
    assert_eq!(rows.len(), 0);
}

#[test]
fn sampled_pixels_carry_their_coordinates_and_colors() {
    let pd = PixtData::new(ImgStyle::Ascii);
    let img = Raster::new(1, 2, vec![(9, 9, 9), (20, 20, 20)]);
    let rows = pd.chars(&img);
    let (_, top, bottom) = rows[0][0];
    assert_eq!((top.x, top.y, top.color), (0, 0, (9, 9, 9)));
    assert_eq!((bottom.x, bottom.y, bottom.color), (0, 1, (20, 20, 20)));
}

#[test]
fn black_square_renders_as_lightest_ramp_chars() {
    let pi = PixtImg::new(ImgStyle::Ascii, OutputType::term());
    let img = solid(2, 2, (0, 0, 0));
    let out = pi.print(&img).unwrap();
    assert_eq!(to_string(out), "  \n");
}

#[test]
fn black_column_renders_one_glyph_and_a_terminator() {
    let pi = PixtImg::new(ImgStyle::Ascii, OutputType::term());
    let img = solid(1, 2, (0, 0, 0));
    let out = pi.print(&img).unwrap();
    assert_eq!(to_string(out), " \n");
}

#[test]
fn rendering_twice_is_byte_identical() {
    let img = Raster::new(2, 2, vec![(0, 0, 0), (80, 90, 100), (200, 10, 0), (255, 255, 255)]);
    let pi = PixtImg::new(ImgStyle::Braills, OutputType::term());
    let first = pi.print(&img).unwrap();
    let second = pi.print(&img).unwrap();
    assert_eq!(first, second);
    let ph = PixtImg::new(ImgStyle::Braills, OutputType::html());
    assert_eq!(ph.print(&img).unwrap(), ph.print(&img).unwrap());
}

#[test]
fn terminal_avg_foreground_escapes() {
    let pi = PixtImg::new(ImgStyle::Ascii, OutputType::term().color(ColorType::AvgFgOnly));
    let img = Raster::new(1, 2, vec![(1, 2, 3), (5, 6, 7)]);
    let out = to_string(pi.print(&img).unwrap());
    assert_eq!(out, "\u{1b}[38;2;3;4;5m \u{1b}[0m\n");
}

#[test]
fn terminal_split_colors_set_background_then_foreground() {
    let pi = PixtImg::new(ImgStyle::Ascii, OutputType::term().color(ColorType::FgTopBgDown));
    let img = Raster::new(1, 2, vec![(1, 2, 3), (5, 6, 7)]);
    let out = to_string(pi.print(&img).unwrap());
    assert_eq!(out, "\u{1b}[48;2;5;6;7m\u{1b}[38;2;1;2;3m \u{1b}[0m\n");
}

#[test]
fn svg_output_is_refused() {
    let pi = PixtImg::new(ImgStyle::Ascii, OutputType::svg());
    let img = solid(2, 2, (0, 0, 0));
    assert_eq!(pi.print(&img), Err(PixtError::Unsupported));
}

#[test]
fn render_goes_through_the_renderer() {
    let pi = PixtImg::new(ImgStyle::Ascii, OutputType::text());
    let img = solid(2, 2, (255, 255, 255));
    let out = render(&pi, &img).unwrap();
    assert_eq!(to_string(out), "@@\n");
}
