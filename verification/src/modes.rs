//! The private modes that an application switches.

use vstd::prelude::*;

verus! {

/// Which mouse events the application wants to hear of.
#[derive(Clone, Copy, PartialEq, Eq, Debug, Default, Structural)]
pub enum MouseProto {
    #[default]
    Off,
    /// Mode 1000: presses and releases.
    Normal,
    /// Mode 1002: also movement with a button held.
    ButtonEvent,
    /// Mode 1003: all movement.
    AnyEvent,
}

/// The modes set and reset by `CSI ? Pm h` and `CSI ? Pm l`, and by `ESC =` and
/// `ESC >`.
#[derive(Clone, Copy, PartialEq, Eq, Debug, Structural)]
pub struct Modes {
    /// Mode 25.
    pub cursor_visible: bool,
    /// Mode 7.
    pub autowrap: bool,
    /// Mode 1.
    pub app_cursor_keys: bool,
    /// `ESC =` and `ESC >`.
    pub app_keypad: bool,
    /// Mode 2004.
    pub bracketed_paste: bool,
    /// Mode 1004.
    pub focus_event: bool,
    /// Mode 2026: the screen is not redrawn while it is set.
    pub sync_output: bool,
    /// Modes 1000, 1002 and 1003.
    pub mouse_proto: MouseProto,
    /// Mode 1006.
    pub mouse_sgr: bool,
}

/// The modes of a terminal that has just been switched on.
pub open spec fn initial_modes() -> Modes {
    Modes {
        cursor_visible: true,
        autowrap: true,
        app_cursor_keys: false,
        app_keypad: false,
        bracketed_paste: false,
        focus_event: false,
        sync_output: false,
        mouse_proto: MouseProto::Off,
        mouse_sgr: false,
    }
}

impl Default for Modes {
    fn default() -> (modes: Modes)
        ensures
            modes == initial_modes(),
    {
        Modes {
            cursor_visible: true,
            autowrap: true,
            app_cursor_keys: false,
            app_keypad: false,
            bracketed_paste: false,
            focus_event: false,
            sync_output: false,
            mouse_proto: MouseProto::Off,
            mouse_sgr: false,
        }
    }
}

} // verus!
