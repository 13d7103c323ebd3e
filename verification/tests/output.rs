use pixt::{
    avg_color, rgb_to_css_hex, ColorType, ImgStyle, OutputType, Pixel, PixtError, PixtImg, Raster,
};

fn to_string(v: Vec<char>) -> String {
    v.into_iter().collect()
}

fn px(color: (u8, u8, u8)) -> Pixel {
    Pixel { x: 0, y: 0, color }
}

fn count(haystack: &str, needle: &str) -> usize {
    haystack.matches(needle).count()
}

#[test]
fn html_document_framing() {
    let img = Raster::new(2, 2, vec![(0, 0, 0), (80, 90, 100), (200, 10, 0), (255, 255, 255)]);
    for color in [ColorType::NoColor, ColorType::AvgFgOnly, ColorType::FgTopBgDown] {
        let pi = PixtImg::new(ImgStyle::Ascii, OutputType::html().color(color));
        let out = to_string(pi.print(&img).unwrap());
        assert!(out.starts_with("<!DOCTYPE html>"));
        assert!(out.ends_with("</html>\n"));
        assert_eq!(count(&out, "<pre>"), 1);
        assert_eq!(count(&out, "</pre>"), 1);
    }
}

#[test]
fn html_header_line_height_depends_on_color_mode() {
    let mut plain = Vec::new();
    OutputType::html().write_header(2, 2, &mut plain).unwrap();
    assert!(to_string(plain).contains("line-height: 1.2;"));
    let mut colored = Vec::new();
    OutputType::html()
        .color(ColorType::AvgFgOnly)
        .write_header(2, 2, &mut colored)
        .unwrap();
    assert!(to_string(colored).contains("line-height: 0.6;"));
}

#[test]
fn terminal_header_and_footer_are_empty() {
    let mut out = Vec::new();
    OutputType::term().write_header(10, 10, &mut out).unwrap();
    OutputType::term().write_footer(&mut out).unwrap();
    assert!(out.is_empty());
}

#[test]
fn svg_header_and_footer_are_refused() {
    let mut out = Vec::new();
    assert_eq!(
        OutputType::svg().write_header(10, 10, &mut out),
        Err(PixtError::Unsupported)
    );
    assert_eq!(OutputType::svg().write_footer(&mut out), Err(PixtError::Unsupported));
    assert!(out.is_empty());
}

#[test]
fn html_span_for_averaged_foreground() {
    let mut out = Vec::new();
    OutputType::html()
        .color(ColorType::AvgFgOnly)
        .print_pixel(&mut out, ('x', px((255, 0, 10)), px((0, 0, 4))))
        .unwrap();
    assert_eq!(to_string(out), "<span style=\"color:#7F0007;\">x</span>");
}

#[test]
fn html_span_for_split_colors() {
    let mut out = Vec::new();
    OutputType::html()
        .color(ColorType::BgTopFgDown)
        .print_pixel(&mut out, ('x', px((1, 2, 3)), px((4, 5, 6))))
        .unwrap();
    assert_eq!(
        to_string(out),
        "<span style=\"color:#040506;background-color:#010203;\">x</span>"
    );
}

#[test]
fn html_escapes_markup_glyphs() {
    for (glyph, expected) in [('<', "&lt;"), ('>', "&gt;"), ('&', "&amp;"), ('x', "x")] {
        let mut out = Vec::new();
        OutputType::html()
            .print_pixel(&mut out, (glyph, px((0, 0, 0)), px((0, 0, 0))))
            .unwrap();
        assert_eq!(to_string(out), expected);
    }
}

#[test]
fn line_terminators() {
    let cases = [
        (OutputType::term(), "\n"),
        (OutputType::term().color(ColorType::AvgFgOnly), "\u{1b}[0m\n"),
        (OutputType::html(), "\n"),
        (OutputType::html().color(ColorType::AvgBgOnly), "<br />\n"),
        (OutputType::text().color(ColorType::AvgFgOnly), "\n"),
    ];
    for (o, expected) in cases {
        let mut out = Vec::new();
        o.print_line(&mut out).unwrap();
        assert_eq!(to_string(out), expected);
    }
}

#[test]
fn css_hex_is_uppercase_and_zero_padded() {
    assert_eq!(rgb_to_css_hex((255, 0, 10)), "#FF000A");
    assert_eq!(rgb_to_css_hex((0, 0, 0)), "#000000");
    assert_eq!(rgb_to_css_hex((18, 52, 86)), "#123456");
}

#[test]
fn channel_averaging_truncates() {
    assert_eq!(avg_color((1, 1, 1), (2, 2, 2)), (1, 1, 1));
    assert_eq!(avg_color((255, 0, 3), (0, 0, 4)), (127, 0, 3));
    assert_eq!(avg_color((255, 255, 255), (255, 255, 255)), (255, 255, 255));
}

#[test]
fn defaults() {
    assert_eq!(OutputType::default(), OutputType::Term(ColorType::NoColor));
    assert_eq!(ColorType::default(), ColorType::NoColor);
}

#[test]
fn constructors_and_color_switch() {
    assert_eq!(OutputType::text(), OutputType::Text(ColorType::NoColor));
    assert_eq!(OutputType::term(), OutputType::Term(ColorType::NoColor));
    assert_eq!(OutputType::html(), OutputType::Html(ColorType::NoColor));
    assert_eq!(OutputType::svg(), OutputType::Svg(ColorType::NoColor));
    assert_eq!(
        OutputType::html().color(ColorType::AvgBgOnly),
        OutputType::Html(ColorType::AvgBgOnly)
    );
    assert_eq!(
        OutputType::term().set_color(ColorType::BgTopFgDown),
        OutputType::Term(ColorType::BgTopFgDown)
    );
}

#[test]
fn output_type_from_path_extension() {
    let term = OutputType::Term(ColorType::NoColor);
    assert_eq!(OutputType::from_path("out.html"), OutputType::Html(ColorType::NoColor));
    assert_eq!(OutputType::from_path("out.HTML"), OutputType::Html(ColorType::NoColor));
    assert_eq!(OutputType::from_path("a.htm"), OutputType::Html(ColorType::NoColor));
    assert_eq!(OutputType::from_path("b.svg"), OutputType::Svg(ColorType::NoColor));
    assert_eq!(OutputType::from_path("b.SvG"), OutputType::Svg(ColorType::NoColor));
    assert_eq!(OutputType::from_path("plain.txt"), term);
    assert_eq!(OutputType::from_path("noext"), term);
    assert_eq!(OutputType::from_path("dir.d/file"), term);
    assert_eq!(OutputType::from_path(".html"), term);
    assert_eq!(OutputType::from_path(""), term);
}
