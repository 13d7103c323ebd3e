use pixt::{ImgStyle, PixtData};

/// The smallest intensity that lands in bucket `k` of `n`: scanning from a
/// gray pixel pair, `v * n / 256 == k` first holds at these values.
fn bucket_probe(k: usize, n: usize) -> (u8, u8, u8) {
    let mut v = 0u16;
    while (v as usize * n) / 256 < k {
        v += 1;
    }
    (v as u8, v as u8, v as u8)
}

fn ramp_of(style: ImgStyle, n: usize) -> Vec<char> {
    let pd = PixtData::new(style);
    (0..n)
        .map(|k| {
            let p = bucket_probe(k, n);
            pd.get_char_single_raw(p, p)
        })
        .collect()
}

#[test]
fn ascii_ramp_verbatim() {
    assert_eq!(ramp_of(ImgStyle::Ascii, 9), vec![
        ' ', '.', '-', '~', '+', '*', '%', '#', '@'
    ]);
}

#[test]
fn block_ramp_verbatim() {
    assert_eq!(ramp_of(ImgStyle::Block, 4), vec![' ', '░', '▒', '▓']);
}

#[test]
fn pixel_ramp_verbatim() {
    assert_eq!(ramp_of(ImgStyle::Pixel, 5), vec![' ', '▀', '▞', '▟', '█']);
}

#[test]
fn dots_ramp_verbatim() {
    assert_eq!(ramp_of(ImgStyle::Dots, 7), vec![' ', '⠂', '⠒', '⠕', '⠞', '⠟', '⠿']);
}

#[test]
fn braills_grid_verbatim() {
    let expected = [
        [' ', '⠁', '⠉', '⠓', '⠛'],
        ['⠄', '⠅', '⠩', '⠝', '⠟'],
        ['⠤', '⠥', '⠭', '⠯', '⠽'],
        ['⠴', '⠵', '⠽', '⠾', '⠿'],
        ['⠶', '⠾', '⠾', '⠿', '⠿'],
    ];
    let pd = PixtData::new(ImgStyle::Braills);
    for (r, row) in expected.iter().enumerate() {
        for (c, want) in row.iter().enumerate() {
            let top = bucket_probe(c, 5);
            let bottom = bucket_probe(r, 5);
            assert_eq!(pd.get_char(top, bottom), *want, "row {} column {}", r, c);
        }
    }
}
