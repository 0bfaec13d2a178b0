use alarm_at_game_end::theme::{
    accent_color, color_from_windows_argb, error_text_color, gray, input_colors, main_text_color,
    muted_text_color, style_colors, Color,
};

fn rgb(red: u8, green: u8, blue: u8) -> Color {
    Color { red, green, blue }
}

#[test]
fn windows_argb_color_uses_rgb_channels() {
    assert_eq!(
        color_from_windows_argb(0xff_12_34_56),
        rgb(0x12, 0x34, 0x56)
    );
}

#[test]
fn accent_falls_back() {
    assert_eq!(accent_color(None), rgb(75, 125, 245));
    assert_eq!(accent_color(Some(0x00_01_02_03)), rgb(1, 2, 3));
    assert_eq!(gray(9), rgb(9, 9, 9));
}

#[test]
fn text_goes_by_the_theme() {
    assert_eq!(muted_text_color(true), gray(205));
    assert_eq!(muted_text_color(false), gray(70));
    assert_eq!(main_text_color(true), gray(235));
    assert_eq!(main_text_color(false), gray(30));
    assert_eq!(error_text_color(true), rgb(245, 115, 105));
    assert_eq!(error_text_color(false), rgb(170, 40, 35));
}

#[test]
fn style_goes_by_the_theme_and_the_accent() {
    let accent = rgb(1, 2, 3);
    let dark = style_colors(true, accent);
    let light = style_colors(false, accent);

    assert_eq!(dark.text, gray(235));
    assert_eq!(dark.hovered_text, gray(255));
    assert_eq!(dark.weak_text, gray(205));
    assert_eq!(light.text, gray(30));
    assert_eq!(light.hovered_text, gray(0));
    assert_eq!(light.weak_text, gray(70));
    for colors in [dark, light] {
        assert_eq!(colors.selection, accent);
        assert_eq!(colors.hyperlink, accent);
        assert_eq!(colors.hovered_outline, accent);
    }
    assert_ne!(input_colors(true), input_colors(false));
}
