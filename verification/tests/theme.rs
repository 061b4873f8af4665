use dodeca::theme::{http_status_color, http_status_style, Palette};

#[test]
fn status_colors_by_class() {
    assert_eq!(http_status_color(503), Palette::Red);
    assert_eq!(http_status_color(404), Palette::Yellow);
    assert_eq!(http_status_color(301), Palette::Cyan);
    assert_eq!(http_status_color(200), Palette::Green);
    assert_eq!(http_status_color(101), Palette::Blue);
    assert_eq!(http_status_color(0), Palette::FgDark);
    assert_eq!(http_status_color(600), Palette::FgDark);
}

#[test]
fn status_styles_by_class() {
    assert_eq!(http_status_style(500), ("⚠", Palette::Red));
    assert_eq!(http_status_style(418), ("✗", Palette::Yellow));
    assert_eq!(http_status_style(304), ("↪", Palette::Cyan));
    assert_eq!(http_status_style(204), ("→", Palette::Green));
    assert_eq!(http_status_style(100), ("•", Palette::FgDark));
}

#[test]
fn palette_components() {
    assert_eq!(Palette::Red.rgb(), (0xf7, 0x76, 0x8e));
    assert_eq!(Palette::FgDark.rgb(), (0x56, 0x5f, 0x89));
}
