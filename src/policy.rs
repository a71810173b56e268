use vstd::prelude::*;
use crate::keypad::{Color, KeyEvent};
use crate::usb::KeyboardReport;

verus! {

/// What the device does in answer to a key event.
#[derive(Clone, Copy, PartialEq, Eq, Debug)]
pub enum Action {
    /// Send the splash screen to the display.
    ShowSplash,
    /// Give every key this active color.
    SetPressedColor(Color),
    /// Restart into the bootloader, ready to be reflashed.
    ResetToBootloader,
    /// Send this report to the USB host.
    SendKeyboard(KeyboardReport),
}

/// The report sent when the shortcut key goes down: Ctrl and Alt with `T`.
pub open spec fn shortcut_report() -> KeyboardReport {
    KeyboardReport { modifier: 0x05, reserved: 0, leds: 0, keycodes: [0x17, 0, 0, 0, 0, 0] }
}

/// The report with no key down.
pub open spec fn empty_report() -> KeyboardReport {
    KeyboardReport { modifier: 0, reserved: 0, leds: 0, keycodes: [0, 0, 0, 0, 0, 0] }
}

/// The action for key `id` giving `event`.
pub open spec fn action_spec(id: u8, event: KeyEvent) -> Option<Action> {
    match event {
        KeyEvent::Pressed => if id == 0 {
            Some(Action::ShowSplash)
        } else if id == 15 {
            Some(Action::SendKeyboard(shortcut_report()))
        } else {
            None
        },
        KeyEvent::Held => if id == 0 {
            Some(Action::SetPressedColor(Color { r: 255, g: 0, b: 0 }))
        } else if id == 1 {
            Some(Action::SetPressedColor(Color { r: 0, g: 255, b: 0 }))
        } else if id == 2 {
            Some(Action::SetPressedColor(Color { r: 0, g: 0, b: 255 }))
        } else if id == 3 {
            Some(Action::ResetToBootloader)
        } else {
            None
        },
        KeyEvent::Released => Some(Action::SendKeyboard(empty_report())),
    }
}

/// Maps a key event to the action it triggers, if any: key 0 shows the
/// splash when pressed; holding key 0, 1 or 2 makes every key light red,
/// green or blue when pressed; holding key 3 restarts into the bootloader;
/// pressing key 15 sends its shortcut to the host; releasing any key sends
/// the empty report.
pub fn action_for(id: u8, event: KeyEvent) -> (a: Option<Action>)
    ensures
        a == action_spec(id, event),
{
    match event {
        KeyEvent::Pressed => if id == 0 {
            Some(Action::ShowSplash)
        } else if id == 15 {
            Some(Action::SendKeyboard(KeyboardReport {
                modifier: 0x05,
                reserved: 0,
                leds: 0,
                keycodes: [0x17, 0, 0, 0, 0, 0],
            }))
        } else {
            None
        },
        KeyEvent::Held => if id == 0 {
            Some(Action::SetPressedColor(Color::new(255, 0, 0)))
        } else if id == 1 {
            Some(Action::SetPressedColor(Color::new(0, 255, 0)))
        } else if id == 2 {
            Some(Action::SetPressedColor(Color::new(0, 0, 255)))
        } else if id == 3 {
            Some(Action::ResetToBootloader)
        } else {
            None
        },
        KeyEvent::Released => Some(Action::SendKeyboard(KeyboardReport {
            modifier: 0,
            reserved: 0,
            leds: 0,
            keycodes: [0, 0, 0, 0, 0, 0],
        })),
    }
}

} // verus!
