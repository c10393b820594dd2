//! The window's colors: the palette, and which colors each kind of row,
//! pill and button takes in each state. Colors are `0xRRGGBB` values.

use vstd::prelude::*;

verus! {

pub const FACE: u32 = 0x2E2E2E;
pub const PANEL: u32 = 0x242424;
pub const BORDER: u32 = 0x4A4A4A;
pub const BORDER_DK: u32 = 0x171717;
pub const TEXT: u32 = 0xE6E6E6;
pub const TEXT_DIM: u32 = 0xA8A8A8;
pub const SEL: u32 = 0x3E5D7A;
pub const SEL_BORDER: u32 = 0x7EA4C8;
pub const HOVER: u32 = 0x39424A;
pub const GRID_ALT: u32 = 0x2B2B2B;
pub const GROUP_BG: u32 = 0x303840;
pub const GROUP_BD: u32 = 0x4B5966;
pub const ACCENT: u32 = 0x8AB4E0;
pub const ACCENT_2: u32 = 0xB1D0F0;
pub const PLAYING: u32 = 0x2F4A63;

/// The red, green and blue bytes of a `0xRRGGBB` color.
pub open spec fn channels(hex: u32) -> (u8, u8, u8) {
    (((hex >> 16u32) & 0xFFu32) as u8, ((hex >> 8u32) & 0xFFu32) as u8, (hex & 0xFFu32) as u8)
}

/// The red, green and blue bytes of a `0xRRGGBB` color.
pub fn rgb_channels(hex: u32) -> (r: (u8, u8, u8))
    ensures
        r == channels(hex),
{
    (((hex >> 16u32) & 0xFFu32) as u8, ((hex >> 8u32) & 0xFFu32) as u8, (hex & 0xFFu32) as u8)
}

/// How a surface is painted.
#[derive(PartialEq, Eq, Structural)]
pub enum Fill {
    /// One color.
    Solid(u32),
    /// A vertical gradient from the first color to the second.
    Gradient(u32, u32),
    /// White at 8% opacity over what is below.
    Tint,
    /// Nothing.
    Clear,
}

/// A color for text or a border, or none.
#[derive(PartialEq, Eq, Structural)]
pub enum Ink {
    Color(u32),
    Clear,
}

/// What the pointer does to a button.
#[derive(PartialEq, Eq, Structural)]
pub enum Pointer {
    Idle,
    Hovered,
    Pressed,
    Disabled,
}

/// The colors of a button.
#[derive(PartialEq, Eq, Structural)]
pub struct ButtonColors {
    pub background: Fill,
    pub text: Ink,
    pub border: Ink,
}

/// A track row's background and border, and whether the border is drawn,
/// by the row's role: the selected row is 2, the playing one 3, an odd row
/// 1, and any other value an even row.
pub open spec fn row_colors_of(kind: u8) -> (u32, u32, bool) {
    if kind == 2 {
        (SEL, SEL_BORDER, true)
    } else if kind == 3 {
        (PLAYING, SEL_BORDER, true)
    } else if kind == 1 {
        (GRID_ALT, GRID_ALT, false)
    } else {
        (FACE, FACE, kind >= 2)
    }
}

/// A track row's colors.
pub fn row_colors(kind: u8) -> (r: (u32, u32, bool))
    ensures
        r == row_colors_of(kind),
{
    let framed = kind >= 2;
    match kind {
        2 => (SEL, SEL_BORDER, framed),
        3 => (PLAYING, SEL_BORDER, framed),
        1 => (GRID_ALT, GRID_ALT, framed),
        _ => (FACE, FACE, framed),
    }
}

/// The connection pill's background, text and border: red while
/// disconnected, amber with an error, green otherwise.
pub open spec fn pill_colors_of(connected: bool, error: bool) -> (u32, u32, u32) {
    if !connected {
        (0x3A2420, 0xFFD3C8, 0x5A241D)
    } else if error {
        (0x3A3420, 0xF0E6C8, 0x5A4D1D)
    } else {
        (0x223322, 0xC8F0C8, 0x2C4A2C)
    }
}

/// The connection pill's colors.
pub fn pill_colors(connected: bool, error: bool) -> (r: (u32, u32, u32))
    ensures
        r == pill_colors_of(connected, error),
{
    if !connected {
        (0x3A2420, 0xFFD3C8, 0x5A241D)
    } else if error {
        (0x3A3420, 0xF0E6C8, 0x5A4D1D)
    } else {
        (0x223322, 0xC8F0C8, 0x2C4A2C)
    }
}

/// The pointer is over the button, pressing or not.
pub open spec fn engaged(p: Pointer) -> bool {
    p == Pointer::Hovered || p == Pointer::Pressed
}

fn is_engaged(p: &Pointer) -> (r: bool)
    ensures
        r == engaged(*p),
{
    match p {
        Pointer::Hovered | Pointer::Pressed => true,
        _ => false,
    }
}

/// A navigation tab: the active one framed in the accent color on the
/// panel; another is tinted and framed only while hovered.
pub open spec fn nav_tab_colors_of(p: Pointer, active: bool, accent: u32) -> ButtonColors {
    if active {
        ButtonColors { background: Fill::Solid(PANEL), text: Ink::Color(accent), border: Ink::Color(accent) }
    } else if p == Pointer::Hovered {
        ButtonColors { background: Fill::Tint, text: Ink::Color(0xE8E8E8), border: Ink::Color(BORDER) }
    } else {
        ButtonColors { background: Fill::Clear, text: Ink::Color(0xE8E8E8), border: Ink::Clear }
    }
}

/// A navigation tab's colors.
pub fn nav_tab_colors(p: Pointer, active: bool, accent: u32) -> (r: ButtonColors)
    ensures
        r == nav_tab_colors_of(p, active, accent),
{
    if active {
        ButtonColors { background: Fill::Solid(PANEL), text: Ink::Color(accent), border: Ink::Color(accent) }
    } else if p == Pointer::Hovered {
        ButtonColors { background: Fill::Tint, text: Ink::Color(0xE8E8E8), border: Ink::Color(BORDER) }
    } else {
        ButtonColors { background: Fill::Clear, text: Ink::Color(0xE8E8E8), border: Ink::Clear }
    }
}

/// A toolbar button: lit while active or engaged, accent text while active.
pub open spec fn toolbar_colors_of(p: Pointer, active: bool) -> ButtonColors {
    let lit = active || engaged(p);
    ButtonColors {
        background: if lit {
            Fill::Gradient(0x565656, 0x3C4650)
        } else {
            Fill::Gradient(0x4C4C4C, 0x343434)
        },
        text: Ink::Color(
            if active {
                ACCENT_2
            } else {
                TEXT
            },
        ),
        border: Ink::Color(
            if lit {
                0x6E8193
            } else {
                BORDER_DK
            },
        ),
    }
}

/// A toolbar button's colors.
pub fn toolbar_colors(p: Pointer, active: bool) -> (r: ButtonColors)
    ensures
        r == toolbar_colors_of(p, active),
{
    let lit = active || is_engaged(&p);
    ButtonColors {
        background: if lit {
            Fill::Gradient(0x565656, 0x3C4650)
        } else {
            Fill::Gradient(0x4C4C4C, 0x343434)
        },
        text: Ink::Color(
            if active {
                ACCENT_2
            } else {
                TEXT
            },
        ),
        border: Ink::Color(
            if lit {
                0x6E8193
            } else {
                BORDER_DK
            },
        ),
    }
}

/// A transport button: the primary (play) one in blue, the others lit
/// while engaged.
pub open spec fn transport_colors_of(p: Pointer, primary: bool) -> ButtonColors {
    ButtonColors {
        background: if primary {
            Fill::Gradient(0x5A6E86, 0x39506A)
        } else if engaged(p) {
            Fill::Gradient(0x565656, 0x3C4650)
        } else {
            Fill::Gradient(0x474747, 0x303030)
        },
        text: Ink::Color(
            if primary {
                0xFFFFFF
            } else {
                0xECECEC
            },
        ),
        border: Ink::Color(
            if primary {
                SEL_BORDER
            } else {
                BORDER_DK
            },
        ),
    }
}

/// A transport button's colors.
pub fn transport_colors(p: Pointer, primary: bool) -> (r: ButtonColors)
    ensures
        r == transport_colors_of(p, primary),
{
    ButtonColors {
        background: if primary {
            Fill::Gradient(0x5A6E86, 0x39506A)
        } else if is_engaged(&p) {
            Fill::Gradient(0x565656, 0x3C4650)
        } else {
            Fill::Gradient(0x474747, 0x303030)
        },
        text: Ink::Color(
            if primary {
                0xFFFFFF
            } else {
                0xECECEC
            },
        ),
        border: Ink::Color(
            if primary {
                SEL_BORDER
            } else {
                BORDER_DK
            },
        ),
    }
}

/// A toggle (shuffle, repeat): blue while on, lit while engaged.
pub open spec fn toggle_colors_of(p: Pointer, active: bool) -> ButtonColors {
    ButtonColors {
        background: if active {
            Fill::Gradient(0x39506A, 0x2A3C4F)
        } else if engaged(p) {
            Fill::Gradient(0x4A4A4A, 0x333333)
        } else {
            Fill::Gradient(0x3C3C3C, 0x2A2A2A)
        },
        text: Ink::Color(
            if active {
                ACCENT_2
            } else {
                TEXT_DIM
            },
        ),
        border: Ink::Color(
            if active {
                SEL_BORDER
            } else {
                BORDER_DK
            },
        ),
    }
}

/// A toggle's colors.
pub fn toggle_colors(p: Pointer, active: bool) -> (r: ButtonColors)
    ensures
        r == toggle_colors_of(p, active),
{
    ButtonColors {
        background: if active {
            Fill::Gradient(0x39506A, 0x2A3C4F)
        } else if is_engaged(&p) {
            Fill::Gradient(0x4A4A4A, 0x333333)
        } else {
            Fill::Gradient(0x3C3C3C, 0x2A2A2A)
        },
        text: Ink::Color(
            if active {
                ACCENT_2
            } else {
                TEXT_DIM
            },
        ),
        border: Ink::Color(
            if active {
                SEL_BORDER
            } else {
                BORDER_DK
            },
        ),
    }
}

/// A window button: red (close) or slate while engaged, clear otherwise.
pub open spec fn window_colors_of(p: Pointer, close: bool) -> ButtonColors {
    ButtonColors {
        background: if engaged(p) {
            if close {
                Fill::Solid(0xC42B1C)
            } else {
                Fill::Solid(0x4B5966)
            }
        } else {
            Fill::Clear
        },
        text: Ink::Color(0xECECEC),
        border: Ink::Clear,
    }
}

/// A window button's colors.
pub fn window_colors(p: Pointer, close: bool) -> (r: ButtonColors)
    ensures
        r == window_colors_of(p, close),
{
    ButtonColors {
        background: if is_engaged(&p) {
            if close {
                Fill::Solid(0xC42B1C)
            } else {
                Fill::Solid(0x4B5966)
            }
        } else {
            Fill::Clear
        },
        text: Ink::Color(0xECECEC),
        border: Ink::Clear,
    }
}

/// A sidebar list item: highlighted while selected, shaded while engaged.
pub open spec fn list_item_colors_of(p: Pointer, selected: bool) -> ButtonColors {
    ButtonColors {
        background: if selected {
            Fill::Solid(SEL)
        } else if engaged(p) {
            Fill::Solid(HOVER)
        } else {
            Fill::Clear
        },
        text: Ink::Color(
            if selected {
                0xFFFFFF
            } else {
                TEXT
            },
        ),
        border: if selected {
            Ink::Color(SEL_BORDER)
        } else if engaged(p) {
            Ink::Color(0x586572)
        } else {
            Ink::Clear
        },
    }
}

/// A sidebar list item's colors.
pub fn list_item_colors(p: Pointer, selected: bool) -> (r: ButtonColors)
    ensures
        r == list_item_colors_of(p, selected),
{
    let engaged = is_engaged(&p);
    ButtonColors {
        background: if selected {
            Fill::Solid(SEL)
        } else if engaged {
            Fill::Solid(HOVER)
        } else {
            Fill::Clear
        },
        text: Ink::Color(
            if selected {
                0xFFFFFF
            } else {
                TEXT
            },
        ),
        border: if selected {
            Ink::Color(SEL_BORDER)
        } else if engaged {
            Ink::Color(0x586572)
        } else {
            Ink::Clear
        },
    }
}

/// The search field's border: the accent while focused.
pub fn search_border(focused: bool) -> (r: u32)
    ensures
        r == if focused {
            ACCENT
        } else {
            BORDER_DK
        },
{
    if focused {
        ACCENT
    } else {
        BORDER_DK
    }
}

} // verus!
