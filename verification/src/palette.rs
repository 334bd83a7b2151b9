//! The colours of the window that shows a code.

use vstd::prelude::*;

verus! {

/// A colour: red, green and blue, and how opaque it is.
#[derive(Clone, Copy, Debug, PartialEq, Eq, Structural)]
pub struct Rgba {
    pub r: u8,
    pub g: u8,
    pub b: u8,
    pub a: u8,
}

/// The colours of the card with the code on it.
#[derive(Clone, Copy, Debug, PartialEq, Eq, Structural)]
pub struct CardColors {
    /// The card.
    pub fill: Rgba,
    /// The code.
    pub code: Rgba,
    /// The line that says where the code came from.
    pub source: Rgba,
    /// The line that says what a click does.
    pub hint: Rgba,
}

/// An opaque grey.
pub open spec fn opaque_grey(level: u8) -> Rgba {
    Rgba { r: level, g: level, b: level, a: 255 }
}

/// A grey that lets through what is behind it.
pub open spec fn veil(level: u8, a: u8) -> Rgba {
    Rgba { r: level, g: level, b: level, a }
}

/// The colours of the card. It shows that the pointer is over it until the button goes down.
pub open spec fn colors_of_card(dark_mode: bool, pressed: bool, hovered: bool) -> CardColors {
    let raised = hovered && !pressed;
    if dark_mode {
        CardColors {
            fill: opaque_grey(if raised { 0x45 } else { 0x3c }),
            code: opaque_grey(255),
            source: veil(210, 135),
            hint: veil(220, 160),
        }
    } else {
        CardColors {
            fill: opaque_grey(if raised { 0xd8 } else { 0xe6 }),
            code: opaque_grey(0),
            source: veil(78, 150),
            hint: veil(90, 180),
        }
    }
}

fn grey(level: u8, a: u8) -> (color: Rgba)
    ensures
        color == veil(level, a),
{
    Rgba { r: level, g: level, b: level, a }
}

/// The colours of the card.
pub fn card_colors(dark_mode: bool, pressed: bool, hovered: bool) -> (colors: CardColors)
    ensures
        colors == colors_of_card(dark_mode, pressed, hovered),
{
    let fill: u8 = if pressed {
        if dark_mode {
            0x3c
        } else {
            0xe6
        }
    } else if hovered {
        if dark_mode {
            0x45
        } else {
            0xd8
        }
    } else if dark_mode {
        0x3c
    } else {
        0xe6
    };
    if dark_mode {
        CardColors {
            fill: grey(fill, 255),
            code: grey(255, 255),
            source: grey(210, 135),
            hint: grey(220, 160),
        }
    } else {
        CardColors {
            fill: grey(fill, 255),
            code: grey(0, 255),
            source: grey(78, 150),
            hint: grey(90, 180),
        }
    }
}

/// The colour of the button that closes the window.
pub open spec fn color_of_close_button(pressed: bool) -> Rgba {
    if pressed {
        Rgba { r: 220, g: 90, b: 80, a: 255 }
    } else {
        Rgba { r: 237, g: 106, b: 94, a: 255 }
    }
}

/// The colour of the button that closes the window.
pub fn close_button_color(pressed: bool) -> (color: Rgba)
    ensures
        color == if pressed {
            (Rgba { r: 220, g: 90, b: 80, a: 255 })
        } else {
            (Rgba { r: 237, g: 106, b: 94, a: 255 })
        },
        color == color_of_close_button(pressed),
{
    if pressed {
        Rgba { r: 220, g: 90, b: 80, a: 255 }
    } else {
        Rgba { r: 237, g: 106, b: 94, a: 255 }
    }
}

/// The card shows that the pointer is over it only until the button goes down: a pressed card
/// looks like one at rest. Dark or light, it is an opaque grey.
pub proof fn pressed_cards_look_at_rest(dark_mode: bool, pressed: bool, hovered: bool)
    ensures
        colors_of_card(dark_mode, true, hovered) == colors_of_card(dark_mode, false, false),
        colors_of_card(dark_mode, pressed, false) == colors_of_card(dark_mode, false, false),
        ({
            let fill = colors_of_card(dark_mode, pressed, hovered).fill;
            let level = if dark_mode {
                if hovered && !pressed {
                    69u8
                } else {
                    60u8
                }
            } else {
                if hovered && !pressed {
                    216u8
                } else {
                    230u8
                }
            };
            fill.r == level && fill.g == level && fill.b == level && fill.a == 255
        }),
{
}

/// What is written on the card keeps its colours whatever the pointer does: white or black for
/// the code, and paler greys for the lines above and below it.
pub proof fn writing_keeps_its_colors(dark_mode: bool, pressed: bool, hovered: bool)
    ensures
        ({
            let colors = colors_of_card(dark_mode, pressed, hovered);
            &&& dark_mode ==> colors.code == (Rgba { r: 255, g: 255, b: 255, a: 255 })
            &&& dark_mode ==> colors.source == (Rgba { r: 210, g: 210, b: 210, a: 135 })
            &&& dark_mode ==> colors.hint == (Rgba { r: 220, g: 220, b: 220, a: 160 })
            &&& !dark_mode ==> colors.code == (Rgba { r: 0, g: 0, b: 0, a: 255 })
            &&& !dark_mode ==> colors.source == (Rgba { r: 78, g: 78, b: 78, a: 150 })
            &&& !dark_mode ==> colors.hint == (Rgba { r: 90, g: 90, b: 90, a: 180 })
        }),
{
}

/// The button that closes the window is an opaque red, and darker while it is pressed.
pub proof fn pressed_buttons_are_darker(pressed: bool)
    ensures
        ({
            let color = color_of_close_button(pressed);
            let rest = color_of_close_button(false);
            &&& rest.r == 237 && rest.g == 106 && rest.b == 94
            &&& color.a == 255
            &&& pressed ==> color.r == rest.r - 17 && color.g == rest.g - 16 && color.b == rest.b
                - 14
        }),
{
}

} // verus!
