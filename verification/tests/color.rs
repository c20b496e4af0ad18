use apparatus::color::css;
use apparatus::color::Color;

#[test]
fn color_has_rgba_components() {
    let color = Color::rgba(50, 100, 150, 200);

    assert_eq!(50, color.r());
    assert_eq!(100, color.g());
    assert_eq!(150, color.b());
    assert_eq!(200, color.a());
}

#[test]
fn color_can_be_represented_in_argb_by_u32() {
    let color = Color::rgba(64, 128, 192, 255);
    let expected = (255 << 24) | (64 << 16) | (128 << 8) | 192;

    assert_eq!(expected, Into::<u32>::into(color));
}

#[test]
fn linear_blend_red_color_full_opacity_onto_blue_color_is_red() {
    let red = css::red();
    let blue = css::blue();

    assert_eq!(Color::linear_blend(red, blue), red);
}

#[test]
fn linear_blend_red_color_full_transparency_onto_blue_color_is_blue() {
    let red = Color::rgba(255, 0, 0, 0);
    let blue = css::blue();

    assert_eq!(Color::linear_blend(red, blue), blue);
}

#[test]
fn linear_blend_weighs_by_the_alpha_of_the_source() {
    let src = Color::rgba(10, 20, 30, 128);
    let dst = Color::rgba(200, 100, 50, 255);
    // (200 * 127 + 10 * 128) / 255 = 104.6, (100 * 127 + 20 * 128) / 255 = 59.8,
    // (50 * 127 + 30 * 128) / 255 = 39.96, each rounded down.
    assert_eq!(Color::linear_blend(src, dst), Color::rgba(104, 59, 39, 255));
}

#[test]
fn linear_blend_is_opaque_whatever_the_destination() {
    let src = Color::rgba(10, 20, 30, 0);
    let dst = Color::rgba(200, 100, 50, 7);
    assert_eq!(Color::linear_blend(src, dst), Color::rgba(200, 100, 50, 255));
    let src = Color::rgba(10, 20, 30, 255);
    assert_eq!(Color::linear_blend(src, dst), Color::rgba(10, 20, 30, 255));
}

#[test]
fn linear_blend_with_full_alpha_is_the_source_for_every_channel_value() {
    for v in 0..=255u8 {
        let src = Color::rgba(v, 255 - v, v / 2, 255);
        let dst = Color::rgba(255 - v, v, 77, 255);
        assert_eq!(Color::linear_blend(src, dst), src);
        let clear = Color::rgba(v, 255 - v, v / 2, 0);
        assert_eq!(Color::linear_blend(clear, dst), dst);
    }
}

#[test]
fn colors_pack_and_unpack() {
    let color = Color::rgba(0x12, 0x34, 0x56, 0x78);
    assert_eq!(color.to_argb(), 0x78123456);
    assert_eq!(Color::from_argb(0x78123456), color);
    assert_eq!(Color::from_argb(0), Color::rgba(0, 0, 0, 0));
    assert_eq!(Color::from_argb(u32::MAX), Color::rgba(255, 255, 255, 255));
    assert_eq!(u32::from(css::white()), u32::MAX);
}

#[test]
fn colors_say_what_they_are() {
    assert_eq!(
        Color::rgba(50, 100, 150, 200).to_string(),
        "Color{r=50  g=100 b=150 a=200}"
    );
    assert_eq!(Color::rgba(0, 9, 10, 255).to_string(), "Color{r=0   g=9   b=10  a=255}");
}

#[test]
fn named_colors_are_opaque() {
    assert_eq!(css::red(), Color::rgba(255, 0, 0, 255));
    assert_eq!(css::silver(), Color::rgba(192, 192, 192, 255));
    assert_eq!(css::aliceblue(), Color::rgba(240, 248, 255, 255));
    assert_eq!(css::yellowgreen().a(), 255);
}
