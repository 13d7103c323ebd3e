use pixt::{grid_is_wf, palette_from_text, ImgStyle, PixtData, PixtError};

fn braills() -> PixtData {
    PixtData::new(ImgStyle::Braills)
}

#[test]
fn grid_lookup_black_black_is_top_left() {
    assert_eq!(braills().get_char((0, 0, 0), (0, 0, 0)), ' ');
}

#[test]
fn grid_lookup_white_top_is_last_column_of_first_row() {
    assert_eq!(braills().get_char((255, 255, 255), (0, 0, 0)), '⠛');
}

#[test]
fn grid_lookup_white_bottom_is_first_column_of_last_row() {
    assert_eq!(braills().get_char((0, 0, 0), (255, 255, 255)), '⠶');
}

#[test]
fn grid_lookup_mid_gray_is_center_cell() {
    assert_eq!(braills().get_char((127, 127, 127), (127, 127, 127)), '⠭');
}

#[test]
fn ramp_lookup_black_is_first_char() {
    let pd = PixtData::new(ImgStyle::Ascii);
    assert_eq!(pd.get_char_single_raw((0, 0, 0), (0, 0, 0)), ' ');
}

#[test]
fn ramp_lookup_white_is_last_char() {
    let pd = PixtData::new(ImgStyle::Ascii);
    assert_eq!(pd.get_char_single_raw((255, 255, 255), (255, 255, 255)), '@');
}

#[test]
fn ramp_lookup_mid_gray() {
    let pd = PixtData::new(ImgStyle::Ascii);
    // average intensity 127 over a nine-character ramp: 127 * 9 / 256 = 4
    assert_eq!(pd.get_char_single_raw((127, 127, 127), (127, 127, 127)), '+');
}

#[test]
fn ramp_lookup_254_and_255_share_the_last_bucket() {
    let pd = PixtData::new(ImgStyle::Ascii);
    assert_eq!(
        pd.get_char_single_raw((254, 254, 254), (254, 254, 254)),
        pd.get_char_single_raw((255, 255, 255), (255, 255, 255))
    );
}

#[test]
fn set_pixel_data_replaces_the_palette() {
    let mut pd = PixtData::new(ImgStyle::Ascii);
    pd.set_pixel_data(vec!['a', 'b']);
    assert_eq!(pd.get_char_single_raw((0, 0, 0), (0, 0, 0)), 'a');
    assert_eq!(pd.get_char_single_raw((255, 255, 255), (255, 255, 255)), 'b');
}

#[test]
fn custom_ramp_from_chars() {
    let pd = PixtData::new("xy".chars().collect::<Vec<char>>());
    assert_eq!(pd.get_char_single_raw((0, 0, 0), (0, 0, 0)), 'x');
}

#[test]
fn array_ramp_and_grid_palettes() {
    let pd = PixtData::new([' ', 'x']);
    assert_eq!(pd.get_char_single_raw((255, 255, 255), (255, 255, 255)), 'x');
    let pd = PixtData::new([['a', 'b'], ['c', 'd']]);
    assert_eq!(pd.get_char((0, 0, 0), (0, 0, 0)), 'a');
    assert_eq!(pd.get_char((255, 255, 255), (0, 0, 0)), 'b');
    assert_eq!(pd.get_char((0, 0, 0), (255, 255, 255)), 'c');
    assert_eq!(pd.get_char((255, 255, 255), (255, 255, 255)), 'd');
}

#[test]
fn palette_text_trims_and_drops_blank_lines() {
    let rows = palette_from_text("ab\n cd \n\n").unwrap();
    assert_eq!(rows, vec![vec!['a', 'b'], vec!['c', 'd']]);
}

#[test]
fn palette_text_handles_crlf() {
    let rows = palette_from_text("ab\r\ncd\r\n").unwrap();
    assert_eq!(rows, vec![vec!['a', 'b'], vec!['c', 'd']]);
}

#[test]
fn palette_text_with_no_usable_line_is_refused() {
    assert_eq!(palette_from_text("\n  \n\t\n"), Err(PixtError::EmptyPalette));
    assert_eq!(palette_from_text(""), Err(PixtError::EmptyPalette));
}

#[test]
fn grid_checks() {
    assert!(!grid_is_wf(&vec![]));
    assert!(!grid_is_wf(&vec![vec![]]));
    assert!(grid_is_wf(&vec![vec!['a']]));
    assert!(!grid_is_wf(&vec![vec!['a', 'b'], vec!['c']]));
    assert!(grid_is_wf(&vec![vec!['a'], vec!['b', 'c']]));
}
