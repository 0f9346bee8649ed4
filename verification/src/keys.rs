//! Physical key events and the static binding table that maps them to
//! commands.  The table is fixed for the lifetime of the process.

use vstd::prelude::*;

verus! {

/// The key codes the binding table distinguishes.
#[derive(Clone, Copy, PartialEq, Eq, Structural, Debug)]
pub enum KeyCode {
    Left,
    Right,
    Up,
    Down,
    Char(char),
}

/// The modifier keys held together with a key press.
#[derive(Clone, Copy, PartialEq, Eq, Structural, Debug)]
pub struct KeyMods {
    pub shift: bool,
    pub control: bool,
    pub alt: bool,
}

impl KeyMods {
    /// No modifier held.
    pub fn none() -> (r: KeyMods)
        ensures
            r == (KeyMods { shift: false, control: false, alt: false }),
    {
        KeyMods { shift: false, control: false, alt: false }
    }
}

/// A physical key event: a key code plus the modifier set held with it.
#[derive(Clone, Copy, PartialEq, Eq, Structural, Debug)]
pub struct KeyEvent {
    pub code: KeyCode,
    pub modifiers: KeyMods,
}

/// The binding table: one key event per recognized command.
#[derive(Clone, Copy, PartialEq, Eq, Structural, Debug)]
pub struct KeyConfig {
    /// Change the focused pane in the direction of the arrow key pressed.
    pub focus_left: KeyEvent,
    pub focus_right: KeyEvent,
    pub focus_up: KeyEvent,
    pub focus_down: KeyEvent,
    /// Create a new pane to the right of the focused one.
    pub new_plugin: KeyEvent,
    /// Remove the focused pane.
    pub remove_plugin: KeyEvent,
    /// Move a pane in a certain direction; reserved, not yet dispatched.
    pub move_left: KeyEvent,
    /// Switch to the tab on the right.
    pub tab_right: KeyEvent,
    /// Switch to the tab on the left.
    pub tab_left: KeyEvent,
    /// Quit the application.
    pub quit: KeyEvent,
}

/// The default binding table: bare arrows move focus, control-n and
/// control-r edit panes, shifted arrows switch tabs, control-q quits.
pub open spec fn default_key_config() -> KeyConfig {
    KeyConfig {
        focus_left: KeyEvent {
            code: KeyCode::Left,
            modifiers: KeyMods { shift: false, control: false, alt: false },
        },
        focus_right: KeyEvent {
            code: KeyCode::Right,
            modifiers: KeyMods { shift: false, control: false, alt: false },
        },
        focus_up: KeyEvent {
            code: KeyCode::Up,
            modifiers: KeyMods { shift: false, control: false, alt: false },
        },
        focus_down: KeyEvent {
            code: KeyCode::Down,
            modifiers: KeyMods { shift: false, control: false, alt: false },
        },
        new_plugin: KeyEvent {
            code: KeyCode::Char('n'),
            modifiers: KeyMods { shift: false, control: true, alt: false },
        },
        remove_plugin: KeyEvent {
            code: KeyCode::Char('r'),
            modifiers: KeyMods { shift: false, control: true, alt: false },
        },
        move_left: KeyEvent {
            code: KeyCode::Left,
            modifiers: KeyMods { shift: false, control: true, alt: false },
        },
        tab_right: KeyEvent {
            code: KeyCode::Right,
            modifiers: KeyMods { shift: true, control: false, alt: false },
        },
        tab_left: KeyEvent {
            code: KeyCode::Left,
            modifiers: KeyMods { shift: true, control: false, alt: false },
        },
        quit: KeyEvent {
            code: KeyCode::Char('q'),
            modifiers: KeyMods { shift: false, control: true, alt: false },
        },
    }
}

impl Default for KeyConfig {
    /// The default binding table, exactly `default_key_config`.
    fn default() -> (r: KeyConfig)
        ensures
            r == default_key_config(),
    {
        KeyConfig {
            focus_left: KeyEvent { code: KeyCode::Left, modifiers: KeyMods::none() },
            focus_right: KeyEvent { code: KeyCode::Right, modifiers: KeyMods::none() },
            focus_up: KeyEvent { code: KeyCode::Up, modifiers: KeyMods::none() },
            focus_down: KeyEvent { code: KeyCode::Down, modifiers: KeyMods::none() },
            new_plugin: KeyEvent {
                code: KeyCode::Char('n'),
                modifiers: KeyMods { shift: false, control: true, alt: false },
            },
            remove_plugin: KeyEvent {
                code: KeyCode::Char('r'),
                modifiers: KeyMods { shift: false, control: true, alt: false },
            },
            move_left: KeyEvent {
                code: KeyCode::Left,
                modifiers: KeyMods { shift: false, control: true, alt: false },
            },
            tab_right: KeyEvent {
                code: KeyCode::Right,
                modifiers: KeyMods { shift: true, control: false, alt: false },
            },
            tab_left: KeyEvent {
                code: KeyCode::Left,
                modifiers: KeyMods { shift: true, control: false, alt: false },
            },
            quit: KeyEvent {
                code: KeyCode::Char('q'),
                modifiers: KeyMods { shift: false, control: true, alt: false },
            },
        }
    }
}

impl KeyConfig {
    /// Initializes the binding table with the default bindings.
    pub fn init() -> (r: KeyConfig)
        ensures
            r == default_key_config(),
    {
        KeyConfig::default()
    }
}

} // verus!
