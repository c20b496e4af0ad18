use apparatus::color::css;
use apparatus::color::Color;
use apparatus::engine::apparatus::ApparatusSettings;
use apparatus::engine::clock::Clock;
use apparatus::engine::renderer::Renderer as GameRenderer;
use apparatus::engine::sprite::Sprite;
use apparatus::errors::ApparatusError;
use apparatus::font::RasterizedFont;
use apparatus::platform::framebuffer::FrameBuffer;
use apparatus::renderer::renderer2d::Renderer2d;
use apparatus::renderer::software_2d::Renderer;
use apparatus::util::{after_sleep, sleep_budget, SleepError, TOLERANCE_STEP};

fn renderer(width: usize, height: usize, pixel_width: usize, pixel_height: usize) -> Renderer {
    let buffer = FrameBuffer::new(width, height);
    let mut renderer = Renderer::new(width, height, pixel_width, pixel_height, buffer);
    renderer.clear(css::black());
    renderer
}

fn png_of(width: u32, height: u32, rgba: Vec<u8>) -> Vec<u8> {
    let picture = image::RgbaImage::from_raw(width, height, rgba).unwrap();
    let mut bytes = std::io::Cursor::new(Vec::new());
    picture
        .write_to(&mut bytes, image::ImageOutputFormat::Png)
        .unwrap();
    bytes.into_inner()
}

#[test]
fn settings_default_to_a_screen_of_1280_by_720() {
    let settings = ApparatusSettings::default();
    assert_eq!(settings.screen_width(), 1280);
    assert_eq!(settings.screen_height(), 720);
    assert_eq!(settings.pixel_width(), 1);
    assert_eq!(settings.pixel_height(), 1);
}

#[test]
fn settings_take_sizes() {
    let settings = ApparatusSettings::default()
        .with_pixel_size(4, 3)
        .with_screen_size(320, 200);
    assert_eq!(settings.screen_width(), 320);
    assert_eq!(settings.screen_height(), 200);
    assert_eq!(settings.pixel_width(), 4);
    assert_eq!(settings.pixel_height(), 3);
    assert_eq!(settings.window_width(), Some(1280));
    assert_eq!(settings.window_height(), Some(600));
}

#[test]
fn settings_know_a_window_that_is_too_large() {
    let settings = ApparatusSettings::default()
        .with_pixel_size(2, 1)
        .with_screen_size(usize::MAX, usize::MAX);
    assert_eq!(settings.window_width(), None);
    assert_eq!(settings.window_height(), Some(usize::MAX));
}

#[test]
fn clock_measures_between_ticks() {
    let mut clock = Clock::default();
    assert_eq!(clock.delta(), 0);
    assert_eq!(clock.elapsed(500), 0);
    clock.tick(1_000);
    assert_eq!(clock.delta(), 0);
    assert_eq!(clock.elapsed(1_250), 250);
    clock.tick(1_600);
    assert_eq!(clock.delta(), 600);
    assert_eq!(clock.elapsed(1_600), 0);
    // A time before the last tick counts as no time.
    assert_eq!(clock.elapsed(1_000), 0);
    clock.tick(1_500);
    assert_eq!(clock.delta(), 0);
}

#[test]
fn sleep_budget_leaves_the_tolerance_out() {
    assert_eq!(sleep_budget(16_000_000, 100_000), Some(15_900_000));
    assert_eq!(sleep_budget(16_000_000, 0), Some(16_000_000));
    assert_eq!(sleep_budget(100_000, 100_000), None);
    assert_eq!(sleep_budget(100_000, 200_000), None);
}

#[test]
fn after_sleep_in_time_goes_on() {
    assert_eq!(after_sleep(16_000_000, 200_000, 15_900_000), (200_000, Ok(())));
    assert_eq!(after_sleep(16_000_000, 200_000, 16_000_000), (200_000, Ok(())));
}

#[test]
fn after_sleep_too_late_fails_and_raises_the_tolerance() {
    assert_eq!(TOLERANCE_STEP, 100_000);
    let (tolerance, outcome) = after_sleep(16_000_000, 200_000, 16_500_000);
    assert_eq!(tolerance, 300_000);
    assert_eq!(outcome, Err(SleepError::TargetDurationExceeded(500_000)));
    assert_eq!(outcome.unwrap_err().overrun(), 500_000);
    let (tolerance, _) = after_sleep(1, u128::MAX - 5, 2);
    assert_eq!(tolerance, u128::MAX);
}

#[test]
fn errors_say_what_kind_they_are() {
    let inner = String::from("no display");
    assert_eq!(ApparatusError::Game(inner.clone()).message(), "error running game");
    assert_eq!(
        ApparatusError::Initialisation(inner.clone()).message(),
        "error initialising engine"
    );
    assert_eq!(ApparatusError::Logger(inner.clone()).message(), "logger error");
    assert_eq!(ApparatusError::Window(inner.clone()).message(), "window error");
    assert_eq!(ApparatusError::Window(inner.clone()).source(), "no display");
}

#[test]
fn sprite_from_rgba_wants_four_bytes_for_each_pixel() {
    let sprite = Sprite::from_rgba(2, 1, vec![1, 2, 3, 4, 5, 6, 7, 8]).unwrap();
    assert_eq!(sprite.width(), 2);
    assert_eq!(sprite.height(), 1);
    assert_eq!(sprite.data(), &vec![1, 2, 3, 4, 5, 6, 7, 8]);
    assert!(Sprite::from_rgba(2, 1, vec![1, 2, 3, 4, 5, 6, 7]).is_none());
    assert!(Sprite::from_rgba(2, 2, vec![1, 2, 3, 4, 5, 6, 7, 8]).is_none());
    assert!(Sprite::from_rgba(0, 7, vec![]).is_some());
    assert!(Sprite::from_rgba(u32::MAX, u32::MAX, vec![]).is_none());
}

#[test]
fn sprite_from_bytes_decodes_a_png() {
    let pixels = vec![
        255, 0, 0, 255, 0, 255, 0, 128, //
        0, 0, 255, 0, 10, 20, 30, 40,
    ];
    let sprite = Sprite::from_bytes(&png_of(2, 2, pixels.clone())).unwrap();
    assert_eq!(sprite.width(), 2);
    assert_eq!(sprite.height(), 2);
    assert_eq!(sprite.data(), &pixels);
}

#[test]
fn sprite_from_bytes_knows_what_is_no_image() {
    assert!(Sprite::from_bytes(&[]).is_none());
    assert!(Sprite::from_bytes(b"not an image at all").is_none());
    let mut cut = png_of(2, 2, vec![9; 16]);
    cut.truncate(20);
    assert!(Sprite::from_bytes(&cut).is_none());
}

#[test]
fn draw_sprite_puts_the_top_row_highest() {
    let red = [255, 0, 0, 255];
    let green = [0, 255, 0, 255];
    let blue = [0, 0, 255, 255];
    let white = [255, 255, 255, 255];
    let data = [red, green, blue, white].concat();
    let sprite = Sprite::from_rgba(2, 2, data).unwrap();
    let mut r = renderer(4, 4, 1, 1);
    r.draw_sprite(1, 0, &sprite);
    let data = r.buffer().data();
    // The top row of the sprite at the height 0 + 2, the row 2 of the store.
    assert_eq!(data[2 * 4 + 1], 0xFFFF0000);
    assert_eq!(data[2 * 4 + 2], 0xFF00FF00);
    assert_eq!(data[3 * 4 + 1], 0xFF0000FF);
    assert_eq!(data[3 * 4 + 2], 0xFFFFFFFF);
    assert_eq!(data.iter().filter(|w| **w == 0xFF000000).count(), 12);
}

#[test]
fn draw_sprite_blends_with_the_alpha_of_each_pixel() {
    let sprite = Sprite::from_rgba(2, 1, vec![255, 0, 0, 128, 255, 0, 0, 0]).unwrap();
    let mut r = renderer(2, 2, 1, 1);
    r.clear(css::blue());
    r.draw_sprite(0, 0, &sprite);
    let data = r.buffer().data();
    assert_eq!(data[2], 0xFF80007F);
    assert_eq!(data[3], 0xFF0000FF);
}

#[test]
fn draw_sprite_scales_with_the_pixel_size() {
    let sprite = Sprite::from_rgba(1, 1, vec![255, 255, 255, 255]).unwrap();
    let mut r = renderer(4, 4, 2, 2);
    r.draw_sprite(0, 0, &sprite);
    // One logical pixel at (0, 1): columns 0 and 1, heights 2 and 3.
    let white: Vec<usize> = r
        .buffer()
        .data()
        .iter()
        .enumerate()
        .filter(|(_, w)| **w == 0xFFFFFFFF)
        .map(|(i, _)| i)
        .collect();
    assert_eq!(white, vec![4, 5, 8, 9]);
}

fn glyph(width: usize, height: usize, xmin: i32, ymin: i32, advance: i32, data: Vec<u8>) -> RasterizedFont {
    RasterizedFont {
        width,
        height,
        xmin,
        ymin,
        advance_width: advance,
        data,
    }
}

#[test]
fn glyphs_know_whether_they_are_whole() {
    assert!(glyph(2, 2, 0, 0, 3, vec![0; 4]).is_wf());
    assert!(!glyph(2, 2, 0, 0, 3, vec![0; 3]).is_wf());
    assert!(!glyph(usize::MAX, 2, 0, 0, 3, vec![0; 3]).is_wf());
    assert!(glyph(0, 5, 0, 0, 3, vec![]).is_wf());
}

#[test]
fn draw_string_composites_coverage_as_alpha() {
    let mut r = renderer(6, 4, 1, 1);
    r.clear(css::blue());
    let text = vec![
        glyph(2, 2, 0, 0, 3, vec![255, 0, 128, 255]),
        glyph(1, 1, 1, 1, 2, vec![255]),
    ];
    r.draw_string(&text, 0, 0, css::red());
    let data = r.buffer().data();
    // First glyph: rows of the bitmap at the heights 2 and 1 (rows 2 and 3).
    assert_eq!(data[2 * 6], 0xFFFF0000);
    assert_eq!(data[2 * 6 + 1], 0xFF0000FF);
    assert_eq!(data[3 * 6], 0xFF80007F);
    assert_eq!(data[3 * 6 + 1], 0xFFFF0000);
    // Second glyph: pen at 3, xmin 1, ymin 1, height 1: the cell (4, 2).
    assert_eq!(data[2 * 6 + 4], 0xFFFF0000);
    assert_eq!(data.iter().filter(|w| **w == 0xFF0000FF).count(), 24 - 4);
}

#[test]
fn draw_string_ignores_the_pixel_size() {
    let mut r = renderer(4, 4, 2, 2);
    r.draw_string(&vec![glyph(1, 1, 0, 0, 1, vec![255])], 1, 1, css::white());
    let white: Vec<usize> = r
        .buffer()
        .data()
        .iter()
        .enumerate()
        .filter(|(_, w)| **w == 0xFFFFFFFF)
        .map(|(i, _)| i)
        .collect();
    // The one cell (1, 2), which is the row 2 of the store.
    assert_eq!(white, vec![2 * 4 + 1]);
}

#[test]
fn draw_string_of_nothing_draws_nothing() {
    let mut r = renderer(4, 4, 1, 1);
    r.draw_string(&vec![], 1, 1, css::white());
    assert!(r.buffer().data().iter().all(|w| *w == 0xFF000000));
}

#[test]
fn renderer2d_draws_as_the_software_renderer_does() {
    let mut a = Renderer2d::new((6, 6), 2, 2, FrameBuffer::new(6, 6));
    a.clear(css::blue());
    a.draw((1, 1), Color::rgba(255, 0, 0, 128));
    a.fill_rect((4, 5), (5, 4), css::white());
    let mut b = renderer(6, 6, 2, 2);
    b.clear(css::blue());
    b.draw(1, 1, Color::rgba(255, 0, 0, 128));
    b.draw_filled_rectangle_unscaled(4, 4, 1, 1, css::white());
    assert_eq!(a.buffer().data(), b.buffer().data());
    assert_eq!((a.width(), a.height()), (6, 6));
    assert_eq!(a.buffer().data()[6 + 4], 0xFFFFFFFF);
    assert_eq!(a.buffer().data()[3 * 6 + 2], 0xFF80007F);
}

#[test]
fn renderer2d_fill_rect_moves_corners_into_the_buffer() {
    let mut a = Renderer2d::new((3, 3), 1, 1, FrameBuffer::new(3, 3));
    a.fill_rect((-4, -4), (9, 9), css::white());
    assert!(a.buffer().data().iter().all(|w| *w == 0xFFFFFFFF));
}

#[test]
fn renderer2d_draws_text_and_sprites() {
    let sprite = Sprite::from_rgba(1, 1, vec![0, 255, 0, 255]).unwrap();
    let mut a = Renderer2d::new((4, 4), 1, 1, FrameBuffer::new(4, 4));
    a.draw_sprite(&sprite, (1, 1));
    a.draw_string(&vec![glyph(1, 1, 0, 0, 1, vec![255])], (3, 0), css::red());
    let data = a.buffer().data();
    assert_eq!(data[2 * 4 + 1], 0xFF00FF00);
    assert_eq!(data[3 * 4 + 3], 0xFFFF0000);
}
