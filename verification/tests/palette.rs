use musicbee_iced::palette::{
    list_item_colors, nav_tab_colors, pill_colors, rgb_channels, row_colors, search_border,
    toggle_colors, toolbar_colors, transport_colors, window_colors, ButtonColors, Fill, Ink,
    Pointer, ACCENT, ACCENT_2, BORDER, BORDER_DK, FACE, GRID_ALT, HOVER, PANEL, PLAYING, SEL,
    SEL_BORDER, TEXT, TEXT_DIM,
};

fn colors(c: ButtonColors) -> (Fill, Ink, Ink) {
    (c.background, c.text, c.border)
}

#[test]
fn channels_of_hex() {
    assert_eq!(rgb_channels(0x3E5D7A), (0x3E, 0x5D, 0x7A));
    assert_eq!(rgb_channels(0xFF123456), (0x12, 0x34, 0x56));
    assert_eq!(rgb_channels(0), (0, 0, 0));
}

#[test]
fn rows_and_pills() {
    assert!(row_colors(0) == (FACE, FACE, false));
    assert!(row_colors(1) == (GRID_ALT, GRID_ALT, false));
    assert!(row_colors(2) == (SEL, SEL_BORDER, true));
    assert!(row_colors(3) == (PLAYING, SEL_BORDER, true));
    assert!(row_colors(9) == (FACE, FACE, true));
    assert_eq!(pill_colors(false, true), (0x3A2420, 0xFFD3C8, 0x5A241D));
    assert_eq!(pill_colors(true, true), (0x3A3420, 0xF0E6C8, 0x5A4D1D));
    assert_eq!(pill_colors(true, false), (0x223322, 0xC8F0C8, 0x2C4A2C));
}

#[test]
fn buttons() {
    assert!(colors(nav_tab_colors(Pointer::Idle, true, 0x123456)) == (Fill::Solid(PANEL), Ink::Color(0x123456), Ink::Color(0x123456)));
    assert!(colors(nav_tab_colors(Pointer::Hovered, false, 0)) == (Fill::Tint, Ink::Color(0xE8E8E8), Ink::Color(BORDER)));
    assert!(colors(nav_tab_colors(Pointer::Pressed, false, 0)) == (Fill::Clear, Ink::Color(0xE8E8E8), Ink::Clear));
    assert!(colors(toolbar_colors(Pointer::Pressed, false)) == (Fill::Gradient(0x565656, 0x3C4650), Ink::Color(TEXT), Ink::Color(0x6E8193)));
    assert!(colors(toolbar_colors(Pointer::Idle, true)) == (Fill::Gradient(0x565656, 0x3C4650), Ink::Color(ACCENT_2), Ink::Color(0x6E8193)));
    assert!(colors(toolbar_colors(Pointer::Disabled, false)) == (Fill::Gradient(0x4C4C4C, 0x343434), Ink::Color(TEXT), Ink::Color(BORDER_DK)));
    assert!(colors(transport_colors(Pointer::Idle, true)) == (Fill::Gradient(0x5A6E86, 0x39506A), Ink::Color(0xFFFFFF), Ink::Color(SEL_BORDER)));
    assert!(colors(transport_colors(Pointer::Hovered, false)) == (Fill::Gradient(0x565656, 0x3C4650), Ink::Color(0xECECEC), Ink::Color(BORDER_DK)));
    assert!(colors(toggle_colors(Pointer::Idle, true)) == (Fill::Gradient(0x39506A, 0x2A3C4F), Ink::Color(ACCENT_2), Ink::Color(SEL_BORDER)));
    assert!(colors(toggle_colors(Pointer::Idle, false)) == (Fill::Gradient(0x3C3C3C, 0x2A2A2A), Ink::Color(TEXT_DIM), Ink::Color(BORDER_DK)));
    assert!(colors(window_colors(Pointer::Hovered, true)) == (Fill::Solid(0xC42B1C), Ink::Color(0xECECEC), Ink::Clear));
    assert!(colors(window_colors(Pointer::Pressed, false)) == (Fill::Solid(0x4B5966), Ink::Color(0xECECEC), Ink::Clear));
    assert!(colors(window_colors(Pointer::Idle, true)) == (Fill::Clear, Ink::Color(0xECECEC), Ink::Clear));
    assert!(colors(list_item_colors(Pointer::Hovered, false)) == (Fill::Solid(HOVER), Ink::Color(TEXT), Ink::Color(0x586572)));
    assert!(colors(list_item_colors(Pointer::Hovered, true)) == (Fill::Solid(SEL), Ink::Color(0xFFFFFF), Ink::Color(SEL_BORDER)));
    assert_eq!(search_border(true), ACCENT);
    assert_eq!(search_border(false), BORDER_DK);
}
