//! Colour themes for the windowing layer, in the spirit of Plan 9's rio.

use vstd::prelude::*;
use crate::gui::Color;

verus! {

/// Theme configuration
#[derive(Clone, Copy, Debug, PartialEq, Eq, Structural)]
pub struct Theme {
    /// Desktop background colour
    pub desktop_bg: Color,
    /// Window background colour
    pub window_bg: Color,
    /// Window title bar colour (active)
    pub title_active: Color,
    /// Window title bar colour (inactive)
    pub title_inactive: Color,
    /// Title text colour (active)
    pub title_text_active: Color,
    /// Title text colour (inactive)
    pub title_text_inactive: Color,
    /// Window border colour
    pub border: Color,
    /// Text colour
    pub text: Color,
    /// Selection/highlight colour
    pub selection: Color,
    /// Scrollbar colour
    pub scrollbar: Color,
    /// Button face colour
    pub button_face: Color,
}

/// The default teal-and-yellow theme, used wherever no other is chosen.
pub open spec fn spec_plan9() -> Theme {
    Theme {
        desktop_bg: Color { r: 85, g: 170, b: 170 },
        window_bg: Color { r: 255, g: 255, b: 224 },
        title_active: Color { r: 85, g: 170, b: 170 },
        title_inactive: Color { r: 153, g: 153, b: 153 },
        title_text_active: Color { r: 0, g: 0, b: 0 },
        title_text_inactive: Color { r: 255, g: 255, b: 255 },
        border: Color { r: 153, g: 153, b: 153 },
        text: Color { r: 0, g: 0, b: 0 },
        selection: Color { r: 0, g: 0, b: 170 },
        scrollbar: Color { r: 204, g: 204, b: 153 },
        button_face: Color { r: 192, g: 192, b: 192 },
    }
}

impl Theme {
    /// Default Plan 9-style theme
    pub fn plan9() -> (r: Theme)
        ensures
            r == spec_plan9(),
    {
        Theme {
            desktop_bg: Color { r: 85, g: 170, b: 170 },
            window_bg: Color { r: 255, g: 255, b: 224 },
            title_active: Color { r: 85, g: 170, b: 170 },
            title_inactive: Color { r: 153, g: 153, b: 153 },
            title_text_active: Color { r: 0, g: 0, b: 0 },
            title_text_inactive: Color { r: 255, g: 255, b: 255 },
            border: Color { r: 153, g: 153, b: 153 },
            text: Color { r: 0, g: 0, b: 0 },
            selection: Color { r: 0, g: 0, b: 170 },
            scrollbar: Color { r: 204, g: 204, b: 153 },
            button_face: Color { r: 192, g: 192, b: 192 },
        }
    }

    /// Dark theme
    pub fn dark() -> (r: Theme)
        ensures
            r.desktop_bg == (Color { r: 32, g: 32, b: 32 }),
            r.window_bg == (Color { r: 48, g: 48, b: 48 }),
            r.text == (Color { r: 224, g: 224, b: 224 }),
    {
        Theme {
            desktop_bg: Color { r: 32, g: 32, b: 32 },
            window_bg: Color { r: 48, g: 48, b: 48 },
            title_active: Color { r: 64, g: 96, b: 128 },
            title_inactive: Color { r: 64, g: 64, b: 64 },
            title_text_active: Color { r: 255, g: 255, b: 255 },
            title_text_inactive: Color { r: 160, g: 160, b: 160 },
            border: Color { r: 96, g: 96, b: 96 },
            text: Color { r: 224, g: 224, b: 224 },
            selection: Color { r: 64, g: 128, b: 192 },
            scrollbar: Color { r: 80, g: 80, b: 80 },
            button_face: Color { r: 64, g: 64, b: 64 },
        }
    }

    /// Light theme
    pub fn light() -> (r: Theme)
        ensures
            r.desktop_bg == (Color { r: 192, g: 192, b: 192 }),
            r.window_bg == (Color { r: 255, g: 255, b: 255 }),
            r.text == (Color { r: 0, g: 0, b: 0 }),
    {
        Theme {
            desktop_bg: Color { r: 192, g: 192, b: 192 },
            window_bg: Color { r: 255, g: 255, b: 255 },
            title_active: Color { r: 0, g: 0, b: 128 },
            title_inactive: Color { r: 128, g: 128, b: 128 },
            title_text_active: Color { r: 255, g: 255, b: 255 },
            title_text_inactive: Color { r: 192, g: 192, b: 192 },
            border: Color { r: 64, g: 64, b: 64 },
            text: Color { r: 0, g: 0, b: 0 },
            selection: Color { r: 0, g: 0, b: 128 },
            scrollbar: Color { r: 192, g: 192, b: 192 },
            button_face: Color { r: 192, g: 192, b: 192 },
        }
    }
}

} // verus!
