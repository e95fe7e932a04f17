//! SGR (DECSET `1006`) mouse reporting: whether a mouse event is reported
//! under the tracking mode a program requested, and the escape sequence
//! `ESC [ < Cb ; Cx ; Cy M` (press and motion) or `... m` (release) that
//! reports it.
//!
//! The button code `Cb` is the button's base code (`0`/`1`/`2` for
//! left/middle/right, `64..=67` for the wheel directions, `3` for motion
//! with no button held), plus `4`/`8`/`16` for shift/alt/ctrl and `32` for
//! a motion event. `Cx`/`Cy` are 1-based; the cells handed in are 0-based.
use vstd::prelude::*;
use crate::text::{decimal, ascii_bytes, all_ascii, ascii_to_bytes, push_ascii, push_decimal_ascii};

verus! {

/// The mouse tracking mode a program requested (DECSET `9`, `1000`,
/// `1002`, `1003`).
#[derive(Debug, Clone, Copy, PartialEq, Eq, Structural)]
pub enum MouseTracking {
    Off,
    X10,
    Normal,
    Button,
    Any,
}

impl MouseTracking {
    /// Whether any tracking mode is on.
    pub fn is_active(self) -> (r: bool)
        ensures
            r == (self != MouseTracking::Off),
    {
        match self {
            MouseTracking::Off => false,
            _ => true,
        }
    }
}

/// A pane's mouse mode: its tracking mode and whether SGR encoding
/// (DECSET `1006`) is on.
#[derive(Debug, Clone, Copy, PartialEq, Eq, Structural)]
pub struct MouseMode {
    pub tracking: MouseTracking,
    pub sgr: bool,
}

impl MouseMode {
    /// No tracking, no SGR.
    pub fn off() -> (r: MouseMode)
        ensures
            r == (MouseMode { tracking: MouseTracking::Off, sgr: false }),
    {
        MouseMode { tracking: MouseTracking::Off, sgr: false }
    }
}

/// A mouse action.
#[derive(Clone, Copy, Debug, PartialEq, Eq, Structural)]
pub enum MouseAction {
    Press,
    Release,
    /// The cursor moved: with a button held a drag, without one a hover.
    Motion,
}

/// A mouse button or wheel direction.
#[derive(Clone, Copy, Debug, PartialEq, Eq, Structural)]
pub enum MouseButtonKind {
    Left,
    Middle,
    Right,
    WheelUp,
    WheelDown,
    WheelLeft,
    WheelRight,
}

/// The SGR base code of each button.
pub open spec fn base_code_of(b: MouseButtonKind) -> u8 {
    match b {
        MouseButtonKind::Left => 0,
        MouseButtonKind::Middle => 1,
        MouseButtonKind::Right => 2,
        MouseButtonKind::WheelUp => 64,
        MouseButtonKind::WheelDown => 65,
        MouseButtonKind::WheelLeft => 66,
        MouseButtonKind::WheelRight => 67,
    }
}

impl MouseButtonKind {
    /// The SGR button code before modifier and motion bits.
    pub fn base_code(self) -> (r: u8)
        ensures
            r == base_code_of(self),
    {
        match self {
            MouseButtonKind::Left => 0,
            MouseButtonKind::Middle => 1,
            MouseButtonKind::Right => 2,
            MouseButtonKind::WheelUp => 64,
            MouseButtonKind::WheelDown => 65,
            MouseButtonKind::WheelLeft => 66,
            MouseButtonKind::WheelRight => 67,
        }
    }
}

/// The modifiers held during a mouse event that SGR encodes.
#[derive(Clone, Copy, Debug, PartialEq, Eq, Default, Structural)]
pub struct MouseMods {
    pub shift: bool,
    pub alt: bool,
    pub ctrl: bool,
}

/// Whether an event is reported under `tracking`: never when off; X10
/// reports only presses of left, middle or right; normal tracking reports
/// presses and releases but no motion; button tracking reports whatever
/// happens with a button held; any-event tracking reports everything.
pub open spec fn reported(tracking: MouseTracking, action: MouseAction, button: Option<MouseButtonKind>) -> bool {
    match tracking {
        MouseTracking::Off => false,
        MouseTracking::X10 => action == MouseAction::Press && (button == Some(MouseButtonKind::Left)
            || button == Some(MouseButtonKind::Middle) || button == Some(MouseButtonKind::Right)),
        MouseTracking::Normal => action != MouseAction::Motion,
        MouseTracking::Button => button is Some,
        MouseTracking::Any => true,
    }
}

/// Whether an event should be reported under `tracking`.
pub fn should_report(tracking: MouseTracking, action: MouseAction, button: Option<MouseButtonKind>) -> (r: bool)
    ensures
        r == reported(tracking, action, button),
{
    match tracking {
        MouseTracking::Off => false,
        MouseTracking::X10 => action == MouseAction::Press && match button {
            Some(MouseButtonKind::Left) => true,
            Some(MouseButtonKind::Middle) => true,
            Some(MouseButtonKind::Right) => true,
            _ => false,
        },
        MouseTracking::Normal => action != MouseAction::Motion,
        MouseTracking::Button => button.is_some(),
        MouseTracking::Any => true,
    }
}

/// The SGR button code `Cb` of an event.
pub open spec fn sgr_code(action: MouseAction, button: Option<MouseButtonKind>, mods: MouseMods) -> nat {
    (match button {
        Some(b) => base_code_of(b) as nat,
        None => 3,
    }) + (if mods.shift { 4nat } else { 0 }) + (if mods.alt { 8nat } else { 0 }) + (if mods.ctrl { 16nat } else { 0 })
        + (if action == MouseAction::Motion { 32nat } else { 0 })
}

/// The characters of the SGR report of an event at 0-based cell
/// (`col`, `row`).
pub open spec fn sgr_chars(action: MouseAction, button: Option<MouseButtonKind>, mods: MouseMods, col: u16, row: u16) -> Seq<char> {
    seq!['\x1b', '[', '<'] + decimal(sgr_code(action, button, mods)) + seq![';'] + decimal(col as nat + 1)
        + seq![';'] + decimal(row as nat + 1) + seq![
        if action == MouseAction::Release {
            'm'
        } else {
            'M'
        },
    ]
}

/// Encodes one SGR mouse event at 0-based cell (`col`, `row`); `None` when
/// the event is not reported under `tracking`.
pub fn encode_sgr(
    tracking: MouseTracking,
    action: MouseAction,
    button: Option<MouseButtonKind>,
    mods: MouseMods,
    col: u16,
    row: u16,
) -> (r: Option<Vec<u8>>)
    ensures
        match r {
            Some(bytes) => reported(tracking, action, button) && bytes@ == ascii_bytes(
                sgr_chars(action, button, mods, col, row),
            ),
            None => !reported(tracking, action, button),
        },
{
    if !should_report(tracking, action, button) {
        return None;
    }
    let mut code: u16 = match button {
        Some(b) => b.base_code() as u16,
        None => 3,
    };
    if mods.shift {
        code += 4;
    }
    if mods.alt {
        code += 8;
    }
    if mods.ctrl {
        code += 16;
    }
    if action == MouseAction::Motion {
        code += 32;
    }
    assert(code as nat == sgr_code(action, button, mods));
    let terminator = if action == MouseAction::Release {
        'm'
    } else {
        'M'
    };
    let mut out: Vec<char> = Vec::new();
    push_ascii(&mut out, '\x1b');
    push_ascii(&mut out, '[');
    push_ascii(&mut out, '<');
    push_decimal_ascii(&mut out, code as u64);
    push_ascii(&mut out, ';');
    push_decimal_ascii(&mut out, col as u64 + 1);
    push_ascii(&mut out, ';');
    push_decimal_ascii(&mut out, row as u64 + 1);
    push_ascii(&mut out, terminator);
    assert(out@ =~= sgr_chars(action, button, mods, col, row));
    Some(ascii_to_bytes(&out))
}

/// Whether a click or drag goes to the program as an SGR report rather than
/// to local selection: tracking is on, SGR is on, and Shift is not held.
pub fn is_click_reporting_active(mouse_mode: MouseMode, shift_held: bool) -> (r: bool)
    ensures
        r == (mouse_mode.tracking != MouseTracking::Off && mouse_mode.sgr && !shift_held),
{
    mouse_mode.tracking.is_active() && mouse_mode.sgr && !shift_held
}

/// Whether a scroll goes to the program as an SGR report rather than to
/// local scrollback: tracking is on and SGR is on (Shift does not matter).
pub fn is_scroll_reporting_active(mouse_mode: MouseMode) -> (r: bool)
    ensures
        r == (mouse_mode.tracking != MouseTracking::Off && mouse_mode.sgr),
{
    mouse_mode.tracking.is_active() && mouse_mode.sgr
}

/// A release reports the same button and cell as a press, told apart only
/// by its lowercase terminator.
pub proof fn law_release_differs_from_press_only_in_terminator(
    button: Option<MouseButtonKind>,
    mods: MouseMods,
    col: u16,
    row: u16,
)
    ensures
        sgr_chars(MouseAction::Release, button, mods, col, row).drop_last() == sgr_chars(
            MouseAction::Press,
            button,
            mods,
            col,
            row,
        ).drop_last(),
        sgr_chars(MouseAction::Release, button, mods, col, row).last() == 'm',
        sgr_chars(MouseAction::Press, button, mods, col, row).last() == 'M',
{
    assert(sgr_chars(MouseAction::Release, button, mods, col, row).drop_last() =~= sgr_chars(
        MouseAction::Press,
        button,
        mods,
        col,
        row,
    ).drop_last());
}

/// The SGR report of an event is `ESC [ <`, the button code in decimal,
/// `;`, the 1-based column, `;`, the 1-based row, and `M` (`m` for a
/// release). The button code is the button's number (left 0, middle 1,
/// right 2, wheel up, down, left and right 64 to 67, no button 3) plus 4
/// with Shift, 8 with Alt, 16 with Ctrl, and 32 for a motion.
pub proof fn law_sgr_report_layout(
    action: MouseAction,
    button: Option<MouseButtonKind>,
    mods: MouseMods,
    col: u16,
    row: u16,
)
    ensures
        sgr_chars(action, button, mods, col, row) == seq!['\x1b', '[', '<'] + decimal(
            (match button {
                None => 3nat,
                Some(MouseButtonKind::Left) => 0nat,
                Some(MouseButtonKind::Middle) => 1nat,
                Some(MouseButtonKind::Right) => 2nat,
                Some(MouseButtonKind::WheelUp) => 64nat,
                Some(MouseButtonKind::WheelDown) => 65nat,
                Some(MouseButtonKind::WheelLeft) => 66nat,
                Some(MouseButtonKind::WheelRight) => 67nat,
            }) + (if mods.shift { 4nat } else { 0nat }) + (if mods.alt { 8nat } else { 0nat }) + (if mods.ctrl {
                16nat
            } else {
                0nat
            }) + (if action == MouseAction::Motion { 32nat } else { 0nat }),
        ) + seq![';'] + decimal(col as nat + 1) + seq![';'] + decimal(row as nat + 1) + seq![
            if action == MouseAction::Release {
                'm'
            } else {
                'M'
            },
        ],
{
}

} // verus!
