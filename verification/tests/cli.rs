use pixt::{resize_plan, Cli, ColorType, PixtError, ResizePlan, StyleOps};

fn cli_with(style: StyleOps, files: Vec<&str>) -> Cli {
    Cli {
        width: None,
        height: None,
        colored: false,
        style,
        output: None,
        files: files.into_iter().map(str::to_owned).collect(),
    }
}

#[test]
fn color_mode_per_style() {
    assert_eq!(StyleOps::Ascii.color_type(false), ColorType::NoColor);
    assert_eq!(StyleOps::Ascii.color_type(true), ColorType::AvgFgOnly);
    assert_eq!(StyleOps::Block.color_type(true), ColorType::AvgFgOnly);
    assert_eq!(StyleOps::Pixel.color_type(false), ColorType::NoColor);
    assert_eq!(StyleOps::Pixel.color_type(true), ColorType::FgTopBgDown);
    assert_eq!(StyleOps::Braills.color_type(true), ColorType::AvgFgOnly);
    assert_eq!(StyleOps::Dots.color_type(false), ColorType::NoColor);
    assert_eq!(StyleOps::Custom.color_type(true), ColorType::AvgFgOnly);
    assert_eq!(StyleOps::FromFile.color_type(false), ColorType::AvgFgOnly);
    assert_eq!(StyleOps::FromFile.color_type(true), ColorType::AvgFgOnly);
    assert_eq!(StyleOps::default(), StyleOps::Pixel);
}

#[test]
fn image_args_keeps_all_files_for_preset_styles() {
    let cli = cli_with(StyleOps::Ascii, vec!["a.png", "b.png"]);
    assert_eq!(cli.image_args().unwrap(), vec!["a.png", "b.png"]);
}

#[test]
fn image_args_skips_the_palette_argument() {
    let cli = cli_with(StyleOps::Custom, vec![" .:#", "a.png", "b.png"]);
    assert_eq!(cli.image_args().unwrap(), vec!["a.png", "b.png"]);
    let cli = cli_with(StyleOps::FromFile, vec!["palette.txt", "a.png"]);
    assert_eq!(cli.image_args().unwrap(), vec!["a.png"]);
}

#[test]
fn image_args_requires_an_image_after_the_palette() {
    let cli = cli_with(StyleOps::Custom, vec![" .:#"]);
    assert_eq!(cli.image_args(), Err(PixtError::MissingImagePath));
    let cli = cli_with(StyleOps::FromFile, vec![]);
    assert_eq!(cli.image_args(), Err(PixtError::MissingImagePath));
}

#[test]
fn resize_exact_when_both_dimensions_given() {
    assert_eq!(
        resize_plan(Some(10), Some(20), 100, 50, 80),
        ResizePlan::Exact(10, 20)
    );
}

#[test]
fn resize_keeps_aspect_from_width() {
    assert_eq!(resize_plan(Some(10), None, 100, 50, 80), ResizePlan::Fit(10, 5));
}

#[test]
fn resize_from_height_caps_width_at_terminal() {
    assert_eq!(resize_plan(None, Some(10), 100, 50, 80), ResizePlan::Fit(20, 10));
    assert_eq!(resize_plan(None, Some(50), 200, 50, 80), ResizePlan::Fit(80, 50));
}

#[test]
fn resize_fits_terminal_width_by_default() {
    assert_eq!(resize_plan(None, None, 100, 50, 80), ResizePlan::Fit(80, 40));
}
