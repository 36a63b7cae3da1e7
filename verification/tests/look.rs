use record_native::look::{
    button_paint, button_text_color, checkbox_colors, dark_theme, light_theme, rgb, transparent,
    white, ButtonTone,
};

#[test]
fn button_colours_follow_tone() {
    let theme = light_theme();
    assert_eq!(button_text_color(theme, ButtonTone::Primary, false), white());
    assert_eq!(button_text_color(theme, ButtonTone::Quiet, true), theme.accent);
    assert_eq!(button_text_color(theme, ButtonTone::Quiet, false), theme.text);
    assert_eq!(button_text_color(theme, ButtonTone::Danger, false), theme.danger);
    assert_eq!(
        button_paint(theme, ButtonTone::Primary, false, true),
        (theme.accent_hover, transparent(), white())
    );
    assert_eq!(
        button_paint(theme, ButtonTone::Quiet, false, false),
        (transparent(), theme.border, theme.muted)
    );
    assert_eq!(
        button_paint(theme, ButtonTone::Danger, false, true),
        (theme.danger_soft, theme.danger_border, theme.danger)
    );
    assert_eq!(checkbox_colors(theme, true, true), (theme.accent, theme.accent));
    assert_eq!(checkbox_colors(theme, false, true), (theme.row_hover, theme.border));
    assert_eq!(checkbox_colors(theme, false, false), (theme.panel, theme.border));
}

#[test]
fn themes_hold_their_colours() {
    assert_eq!(light_theme().accent, rgb(14, 165, 233));
    assert_eq!(dark_theme().accent, rgb(56, 189, 248));
    assert_eq!(dark_theme().background, rgb(17, 20, 21));
    assert_eq!(transparent().a, 0);
}
