//! What a click on the tray icon or on an item of its menu asks for.
//!
//! The host owns the window and the tray. It reports what the user did, in
//! plain values, and carries out the command that comes back.

use vstd::prelude::*;
use vstd::string::StringSliceAdditionalSpecFns;
use vstd::utf8::encode_utf8_decode_utf8;

verus! {

/// Label of the window that the tray controls.
pub const MAIN_WINDOW: &'static str = "main";

/// Identifier of the menu item that brings the window back.
pub const SHOW_ITEM: &'static str = "show";

/// Identifier of the menu item that ends the program.
pub const QUIT_ITEM: &'static str = "quit";

/// A button of the pointing device.
#[derive(Clone, Copy, Debug, PartialEq, Eq, Structural)]
pub enum MouseButton {
    Left,
    Right,
    Middle,
}

/// Where a button is at the moment of the event.
#[derive(Clone, Copy, Debug, PartialEq, Eq, Structural)]
pub enum ButtonState {
    Up,
    Down,
}

/// What the host is to do.
#[derive(Clone, Copy, Debug, PartialEq, Eq, Structural)]
pub enum Command {
    /// Leave everything as it is.
    Nothing,
    /// Show the window and give it the focus.
    ShowWindow,
    /// Hide the window; the program stays in the tray.
    HideWindow,
    /// End the program.
    Quit,
}

/// The command behind the menu item `id`.
pub open spec fn menu_command_of(id: Seq<char>) -> Command {
    if id == SHOW_ITEM@ {
        Command::ShowWindow
    } else if id == QUIT_ITEM@ {
        Command::Quit
    } else {
        Command::Nothing
    }
}

/// The command behind a click on the tray icon: letting go of the left button
/// shows a hidden window and hides a shown one. `visible` is `None` where the
/// host could not tell, which counts as hidden.
pub open spec fn tray_click_command_of(
    button: MouseButton,
    state: ButtonState,
    visible: Option<bool>,
) -> Command {
    if button == MouseButton::Left && state == ButtonState::Up {
        if visible == Some(true) {
            Command::HideWindow
        } else {
            Command::ShowWindow
        }
    } else {
        Command::Nothing
    }
}

/// Whether two strings hold the same text.
fn same_text(left: &str, right: &str) -> (same: bool)
    ensures
        same == (left@ == right@),
{
    let a = left.as_bytes();
    let b = right.as_bytes();
    proof {
        encode_utf8_decode_utf8(left@);
        encode_utf8_decode_utf8(right@);
    }
    if a.len() != b.len() {
        return false;
    }
    let mut at: usize = 0;
    while at < a.len()
        invariant
            at <= a.len(),
            a.len() == b.len(),
            forall|k: int| 0 <= k < at ==> a@[k] == b@[k],
            a@ == left.spec_bytes(),
            b@ == right.spec_bytes(),
        decreases a.len() - at,
    {
        if a[at] != b[at] {
            return false;
        }
        at = at + 1;
    }
    assert(a@ =~= b@);
    true
}

/// The command behind the menu item `id`: one item shows the window, one ends
/// the program, and any other identifier asks for nothing.
pub fn menu_command(id: &str) -> (command: Command)
    ensures
        command == menu_command_of(id@),
{
    if same_text(id, SHOW_ITEM) {
        Command::ShowWindow
    } else if same_text(id, QUIT_ITEM) {
        Command::Quit
    } else {
        Command::Nothing
    }
}

/// The command behind a click on the tray icon.
pub fn tray_click_command(button: MouseButton, state: ButtonState, visible: Option<bool>) -> (command:
    Command)
    ensures
        command == tray_click_command_of(button, state, visible),
{
    match (button, state) {
        (MouseButton::Left, ButtonState::Up) => match visible {
            Some(true) => Command::HideWindow,
            _ => Command::ShowWindow,
        },
        _ => Command::Nothing,
    }
}

} // verus!
