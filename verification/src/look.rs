use vstd::prelude::*;

verus! {

/// A colour: red, green, blue and opacity.
#[derive(Debug, Clone, Copy, PartialEq, Eq, Structural)]
pub struct Rgba {
    pub r: u8,
    pub g: u8,
    pub b: u8,
    pub a: u8,
}

/// The opaque colour with these components.
pub open spec fn opaque(r: u8, g: u8, b: u8) -> Rgba {
    Rgba { r, g, b, a: 255 }
}

/// An opaque colour.
pub fn rgb(r: u8, g: u8, b: u8) -> (c: Rgba)
    ensures
        c == opaque(r, g, b),
{
    Rgba { r, g, b, a: 255 }
}

/// No colour at all.
pub fn transparent() -> (c: Rgba)
    ensures
        c == (Rgba { r: 0, g: 0, b: 0, a: 0 }),
{
    Rgba { r: 0, g: 0, b: 0, a: 0 }
}

/// Opaque white.
pub fn white() -> (c: Rgba)
    ensures
        c == (Rgba { r: 255, g: 255, b: 255, a: 255 }),
{
    rgb(255, 255, 255)
}

/// The colours of the panel.
#[derive(Debug, Clone, Copy)]
pub struct Theme {
    pub background: Rgba,
    pub header: Rgba,
    pub panel: Rgba,
    pub row_hover: Rgba,
    pub border: Rgba,
    pub divider: Rgba,
    pub text: Rgba,
    pub muted: Rgba,
    pub subtle: Rgba,
    pub accent: Rgba,
    pub accent_hover: Rgba,
    pub accent_soft: Rgba,
    pub danger: Rgba,
    pub danger_soft: Rgba,
    pub danger_border: Rgba,
}

/// The colours on a light background.
pub open spec fn light_palette() -> Theme {
    Theme {
        background: opaque(243, 245, 247),
        header: opaque(255, 255, 255),
        panel: opaque(255, 255, 255),
        row_hover: opaque(247, 250, 252),
        border: opaque(216, 224, 229),
        divider: opaque(235, 240, 243),
        text: opaque(17, 22, 26),
        muted: opaque(101, 112, 122),
        subtle: opaque(155, 166, 174),
        accent: opaque(14, 165, 233),
        accent_hover: opaque(2, 132, 199),
        accent_soft: opaque(230, 246, 253),
        danger: opaque(220, 38, 38),
        danger_soft: opaque(255, 241, 242),
        danger_border: opaque(248, 204, 209),
    }
}

/// The colours on a light background.
pub fn light_theme() -> (theme: Theme)
    ensures
        theme == light_palette(),
{
    Theme {
        background: rgb(243, 245, 247),
        header: rgb(255, 255, 255),
        panel: rgb(255, 255, 255),
        row_hover: rgb(247, 250, 252),
        border: rgb(216, 224, 229),
        divider: rgb(235, 240, 243),
        text: rgb(17, 22, 26),
        muted: rgb(101, 112, 122),
        subtle: rgb(155, 166, 174),
        accent: rgb(14, 165, 233),
        accent_hover: rgb(2, 132, 199),
        accent_soft: rgb(230, 246, 253),
        danger: rgb(220, 38, 38),
        danger_soft: rgb(255, 241, 242),
        danger_border: rgb(248, 204, 209),
    }
}

/// The colours on a dark background.
pub open spec fn dark_palette() -> Theme {
    Theme {
        background: opaque(17, 20, 21),
        header: opaque(23, 27, 28),
        panel: opaque(23, 27, 28),
        row_hover: opaque(31, 37, 38),
        border: opaque(49, 55, 56),
        divider: opaque(39, 45, 46),
        text: opaque(242, 245, 246),
        muted: opaque(154, 164, 170),
        subtle: opaque(104, 114, 121),
        accent: opaque(56, 189, 248),
        accent_hover: opaque(14, 165, 233),
        accent_soft: opaque(19, 50, 61),
        danger: opaque(248, 113, 113),
        danger_soft: opaque(45, 25, 28),
        danger_border: opaque(91, 49, 55),
    }
}

/// The colours on a dark background.
pub fn dark_theme() -> (theme: Theme)
    ensures
        theme == dark_palette(),
{
    Theme {
        background: rgb(17, 20, 21),
        header: rgb(23, 27, 28),
        panel: rgb(23, 27, 28),
        row_hover: rgb(31, 37, 38),
        border: rgb(49, 55, 56),
        divider: rgb(39, 45, 46),
        text: rgb(242, 245, 246),
        muted: rgb(154, 164, 170),
        subtle: rgb(104, 114, 121),
        accent: rgb(56, 189, 248),
        accent_hover: rgb(14, 165, 233),
        accent_soft: rgb(19, 50, 61),
        danger: rgb(248, 113, 113),
        danger_soft: rgb(45, 25, 28),
        danger_border: rgb(91, 49, 55),
    }
}

/// The kinds of button.
#[derive(Debug, Clone, Copy, PartialEq, Eq, Structural)]
pub enum ButtonTone {
    Primary,
    Quiet,
    Danger,
}

/// The colour of a button's label.
pub open spec fn text_color_of(theme: Theme, tone: ButtonTone, selected: bool) -> Rgba {
    match tone {
        ButtonTone::Primary => Rgba { r: 255, g: 255, b: 255, a: 255 },
        ButtonTone::Quiet => if selected {
            theme.accent
        } else {
            theme.text
        },
        ButtonTone::Danger => theme.danger,
    }
}

/// A button's fill, border and icon colour.
pub open spec fn paint_of(theme: Theme, tone: ButtonTone, selected: bool, hovered: bool) -> (
    Rgba,
    Rgba,
    Rgba,
) {
    let none = Rgba { r: 0, g: 0, b: 0, a: 0 };
    match tone {
        ButtonTone::Primary => (
            if hovered {
                theme.accent_hover
            } else {
                theme.accent
            },
            none,
            Rgba { r: 255, g: 255, b: 255, a: 255 },
        ),
        ButtonTone::Quiet => (
            if selected || hovered {
                theme.accent_soft
            } else {
                none
            },
            if selected {
                theme.accent
            } else {
                theme.border
            },
            if selected {
                theme.accent
            } else {
                theme.muted
            },
        ),
        ButtonTone::Danger => (
            if hovered {
                theme.danger_soft
            } else {
                none
            },
            if hovered {
                theme.danger_border
            } else {
                none
            },
            theme.danger,
        ),
    }
}

/// The colour of a button's label: white on a primary button, the accent on
/// a selected quiet one, the text colour on another quiet one, and the danger
/// colour on a danger button.
pub fn button_text_color(theme: Theme, tone: ButtonTone, selected: bool) -> (c: Rgba)
    ensures
        c == text_color_of(theme, tone, selected),
{
    match tone {
        ButtonTone::Primary => white(),
        ButtonTone::Quiet => if selected {
            theme.accent
        } else {
            theme.text
        },
        ButtonTone::Danger => theme.danger,
    }
}

/// A button's fill, border and icon colour, by kind, selection and hover.
pub fn button_paint(theme: Theme, tone: ButtonTone, selected: bool, hovered: bool) -> (paint: (
    Rgba,
    Rgba,
    Rgba,
))
    ensures
        paint == paint_of(theme, tone, selected, hovered),
{
    match tone {
        ButtonTone::Primary => (
            if hovered {
                theme.accent_hover
            } else {
                theme.accent
            },
            transparent(),
            white(),
        ),
        ButtonTone::Quiet => (
            if selected || hovered {
                theme.accent_soft
            } else {
                transparent()
            },
            if selected {
                theme.accent
            } else {
                theme.border
            },
            if selected {
                theme.accent
            } else {
                theme.muted
            },
        ),
        ButtonTone::Danger => (
            if hovered {
                theme.danger_soft
            } else {
                transparent()
            },
            if hovered {
                theme.danger_border
            } else {
                transparent()
            },
            theme.danger,
        ),
    }
}

/// A checkbox's fill and border: the accent when checked, else the hover or
/// panel colour inside the border colour.
pub fn checkbox_colors(theme: Theme, checked: bool, hovered: bool) -> (colors: (Rgba, Rgba))
    ensures
        colors.0 == (if checked {
            theme.accent
        } else if hovered {
            theme.row_hover
        } else {
            theme.panel
        }),
        colors.1 == (if checked {
            theme.accent
        } else {
            theme.border
        }),
{
    let fill = if checked {
        theme.accent
    } else if hovered {
        theme.row_hover
    } else {
        theme.panel
    };
    let stroke = if checked {
        theme.accent
    } else {
        theme.border
    };
    (fill, stroke)
}

} // verus!
