//! Color settings of the classic 16 color terminal scheme.
use vstd::prelude::*;

verus! {

/// Color numbers of the 16 color terminal.
pub const BLACK: u8 = 0;
pub const YELLOW: u8 = 3;
pub const BLUE: u8 = 4;
pub const CYAN: u8 = 6;
pub const WHITE: u8 = 7;
/// Offset of the light variants.
pub const LIGHT: u8 = 8;

/// Editor settings.
pub struct Settings {
    pub colors: ColorScheme,
}

impl Settings {
    /// Settings with the 16 color scheme.
    pub fn default() -> (r: Self)
        ensures
            r.colors == default16_scheme(),
    {
        Settings { colors: ColorScheme::default16() }
    }
}

/// Color scheme.
#[derive(Clone, Copy, Debug)]
pub struct ColorScheme {
    pub active_fg: u8,
    pub passive_fg: u8,
    pub modified_fg: u8,
    pub common_bg: u8,
    pub highlight_bg: u8,
    pub statusbar_fg: u8,
    pub statusbar_bg: u8,
    pub keybarid_fg: u8,
    pub keybarid_bg: u8,
    pub keybartitle_fg: u8,
    pub keybartitle_bg: u8,
    pub dialog_fg: u8,
    pub dialog_bg: u8,
    pub shadow_fg: u8,
    pub shadow_bg: u8,
    pub button_fg: u8,
    pub button_disabled_fg: u8,
    pub button_bg: u8,
    pub buttonfocused_fg: u8,
    pub buttonfocused_bg: u8,
    pub edit_fg: u8,
    pub edit_bg: u8,
    pub editfocused_fg: u8,
}

/// The 16 color scheme.
pub open spec fn default16_scheme() -> ColorScheme {
    ColorScheme {
        active_fg: WHITE,
        passive_fg: (LIGHT + BLUE) as u8,
        modified_fg: (LIGHT + YELLOW) as u8,
        common_bg: BLUE,
        highlight_bg: (LIGHT + BLACK) as u8,
        statusbar_fg: BLACK,
        statusbar_bg: CYAN,
        keybarid_fg: WHITE,
        keybarid_bg: BLACK,
        keybartitle_fg: BLACK,
        keybartitle_bg: CYAN,
        dialog_fg: BLACK,
        dialog_bg: WHITE,
        shadow_fg: (LIGHT + BLACK) as u8,
        shadow_bg: BLACK,
        button_fg: BLACK,
        button_disabled_fg: (LIGHT + BLACK) as u8,
        button_bg: WHITE,
        buttonfocused_fg: BLACK,
        buttonfocused_bg: CYAN,
        edit_fg: (LIGHT + BLACK) as u8,
        edit_bg: CYAN,
        editfocused_fg: BLACK,
    }
}

impl ColorScheme {
    /// 16 colors scheme.
    pub fn default16() -> (r: Self)
        ensures
            r == default16_scheme(),
    {
        ColorScheme {
            active_fg: WHITE,
            passive_fg: LIGHT + BLUE,
            modified_fg: LIGHT + YELLOW,
            common_bg: BLUE,
            highlight_bg: LIGHT + BLACK,
            statusbar_fg: BLACK,
            statusbar_bg: CYAN,
            keybarid_fg: WHITE,
            keybarid_bg: BLACK,
            keybartitle_fg: BLACK,
            keybartitle_bg: CYAN,
            dialog_fg: BLACK,
            dialog_bg: WHITE,
            shadow_fg: LIGHT + BLACK,
            shadow_bg: BLACK,
            button_fg: BLACK,
            button_disabled_fg: LIGHT + BLACK,
            button_bg: WHITE,
            buttonfocused_fg: BLACK,
            buttonfocused_bg: CYAN,
            edit_fg: LIGHT + BLACK,
            edit_bg: CYAN,
            editfocused_fg: BLACK,
        }
    }
}

} // verus!
