use mage_core::config::snap_dimension;
use mage_core::{
    load_font_image, Config, Font, MageError, ResizeAction, ResizeTracker, WindowSize,
    WindowSizeData, MIN_WINDOW_SIZE,
};

fn png_bytes(width: u32, height: u32) -> Vec<u8> {
    let mut img = image::RgbaImage::new(width, height);
    img.put_pixel(0, 0, image::Rgba([1, 2, 3, 4]));
    img.put_pixel(width - 1, height - 1, image::Rgba([0x10, 0x20, 0x30, 0x40]));
    let mut out = Vec::new();
    img.write_to(&mut std::io::Cursor::new(&mut out), image::ImageFormat::Png)
        .unwrap();
    out
}

#[test]
fn fixed_cell_size_aligns_down() {
    let data = WindowSize::FixedCellSize(323, 241).data(8, 8).unwrap();
    assert_eq!(data.inner_size, (320, 240));
    assert_eq!(data.scale, 1);
    assert_eq!(data.snap_size, (8, 8));
    assert_eq!(data.cell_size, (40, 30));
    assert_eq!(data.min_size, (160, 160));
}

#[test]
fn fixed_cell_size_raised_to_minimum() {
    let data = WindowSize::FixedCellSize(50, 400).data(8, 16).unwrap();
    assert_eq!(data.inner_size, (160, 400));
    assert_eq!(data.min_size, (MIN_WINDOW_SIZE.0 * 8, MIN_WINDOW_SIZE.1 * 16));
}

#[test]
fn fixed_cell_dimensions_mode() {
    let data = WindowSize::FixedCellDimensions(40, 25).data(8, 8).unwrap();
    assert_eq!(
        data,
        WindowSizeData {
            inner_size: (320, 200),
            cell_size: (40, 25),
            snap_size: (320, 200),
            scale: 1,
            min_size: (160, 160),
        }
    );
}

#[test]
fn fixed_window_size_mode() {
    let data = WindowSize::FixedWindowSize(40, 25, 3).data(8, 8).unwrap();
    assert_eq!(
        data,
        WindowSizeData {
            inner_size: (960, 600),
            cell_size: (40, 25),
            snap_size: (0, 0),
            scale: 3,
            min_size: (960, 600),
        }
    );
}

#[test]
fn window_size_invalid_or_overflowing() {
    assert_eq!(WindowSize::FixedWindowSize(40, 25, 0).data(8, 8), None);
    assert_eq!(WindowSize::FixedCellDimensions(u32::MAX, 2).data(8, 8), None);
    assert_eq!(WindowSize::FixedWindowSize(1 << 20, 1, 1 << 10).data(8, 8), None);
    assert_eq!(WindowSize::FixedCellSize(100, 100).data(u32::MAX, 8), None);
}

#[test]
fn resize_snaps_and_re_requests() {
    let mut tracker = ResizeTracker::new((8, 8));
    assert_eq!(tracker.on_resized(320, 240), ResizeAction::Ignore);
    assert_eq!(tracker.on_resized(325, 240), ResizeAction::Request(320, 240));
    assert_eq!(tracker.on_resized(320, 240), ResizeAction::Accept(320, 240));
}

#[test]
fn first_resize_is_ignored() {
    let mut tracker = ResizeTracker::new((8, 8));
    assert!(!tracker.seen_first);
    assert_eq!(tracker.on_resized(400, 400), ResizeAction::Ignore);
    assert!(tracker.seen_first);
    assert_eq!(tracker.on_resized(400, 400), ResizeAction::Accept(400, 400));
}

#[test]
fn fixed_window_ignores_resizes() {
    let mut tracker = ResizeTracker::new((0, 0));
    tracker.on_resized(10, 10);
    assert_eq!(tracker.on_resized(333, 222), ResizeAction::Ignore);
}

#[test]
fn snap_dimension_values() {
    assert_eq!(snap_dimension(325, 8), 320);
    assert_eq!(snap_dimension(320, 8), 320);
    assert_eq!(snap_dimension(5, 8), 8);
    assert_eq!(snap_dimension(77, 0), 77);
    assert_eq!(snap_dimension(2000, 640), 1920);
}

#[test]
fn config_default() {
    let config = Config::default();
    assert!(config.title.is_none());
    assert_eq!(config.window_size, WindowSize::FixedCellSize(800, 600));
    assert!(matches!(config.font, Font::Default));
}

#[test]
fn load_font_image_valid() {
    let font = load_font_image(&png_bytes(32, 48)).unwrap();
    assert_eq!(font.char_width, 2);
    assert_eq!(font.char_height, 3);
    assert_eq!(font.data.len(), 32 * 48);
    assert_eq!(font.data[0], 0x0403_0201);
    assert_eq!(font.data[32 * 48 - 1], 0x4030_2010);
    assert_eq!(font.data[1], 0);
}

#[test]
fn load_font_image_bad_dimensions() {
    assert_eq!(
        load_font_image(&png_bytes(33, 48)).unwrap_err(),
        MageError::InvalidFontImage
    );
    assert_eq!(
        load_font_image(&png_bytes(8, 8)).unwrap_err(),
        MageError::InvalidFontImage
    );
}

#[test]
fn load_font_image_undecodable() {
    assert_eq!(
        load_font_image(&[1, 2, 3, 4, 5]).unwrap_err(),
        MageError::BadFont
    );
}

#[test]
fn error_messages() {
    assert_eq!(MageError::InvalidFontImage.message(), "font image is invalid");
    assert_eq!(MageError::BadFont.message(), "unable to load font");
    assert_eq!(MageError::BadAdapter.message(), "unable to create GPU adapter");
}
