//! The bytes a terminal expects on its input for the keys that never go
//! through the text-input (IME) path: Enter, Backspace, Tab, Escape, the
//! arrow keys, and Ctrl+letter. Printable text, space and bare modifiers
//! are left to text input (`None`); Cmd/Super combinations are reserved for
//! the application (`None`).
//!
//! Legacy encoding: Enter `\r`, Backspace `0x7f`, Tab `\t`, Escape `0x1b`,
//! Ctrl+letter its C0 code (Ctrl-A is `0x01`), arrows `CSI A`..`CSI D`, or
//! `CSI 1;m X` with a modifier held.
//!
//! With the Kitty keyboard protocol's "disambiguate" flag on, Escape is
//! always `CSI 27 u` (`CSI 27;m u` with a modifier), a modified Enter/Tab is
//! `CSI 13;m u`/`CSI 9;m u` (unmodified they stay legacy), and Ctrl+letter
//! (with or without Alt) is `CSI code;m u` with the lowercase letter's code
//! point. The modifier field `m` is 1 plus shift 1, alt 2, ctrl 4.
use vstd::prelude::*;
use vstd::string::*;
use crate::text::{chars_of, str_is, decimal, ascii_bytes, all_ascii, ascii_to_bytes, push_ascii, push_decimal_ascii};

verus! {

/// The modifier keys held during a keystroke.
#[derive(Debug, Clone, Copy, PartialEq, Eq, Default, Structural)]
pub struct Modifiers {
    pub control: bool,
    pub alt: bool,
    pub shift: bool,
    /// Cmd on macOS, Super elsewhere.
    pub platform: bool,
    pub function: bool,
}

impl Modifiers {
    /// No modifier held.
    pub fn none() -> (r: Modifiers)
        ensures
            !r.control && !r.alt && !r.shift && !r.platform && !r.function,
    {
        Modifiers { control: false, alt: false, shift: false, platform: false, function: false }
    }
}

/// One key-down event: the key's name (`"a"`, `"enter"`, `"up"`, ...), the
/// text it would type, if any, and the modifiers held.
#[derive(Debug, Clone)]
pub struct Keystroke {
    pub modifiers: Modifiers,
    pub key: String,
    pub key_char: Option<String>,
}

/// The Kitty modifier field: 1 plus shift 1, alt 2, ctrl 4; `None` when
/// none of these is held.
pub open spec fn kitty_mod(m: Modifiers) -> Option<u8> {
    if !(m.shift || m.alt || m.control) {
        None
    } else {
        Some((1 + (if m.shift { 1int } else { 0 }) + (if m.alt { 2int } else { 0 }) + (if m.control { 4int } else { 0 })) as u8)
    }
}

/// The Kitty modifier field of `modifiers`.
pub fn kitty_modifier(modifiers: &Modifiers) -> (r: Option<u8>)
    ensures
        r == kitty_mod(*modifiers),
{
    if !(modifiers.shift || modifiers.alt || modifiers.control) {
        return None;
    }
    let mut value: u8 = 1;
    if modifiers.shift {
        value += 1;
    }
    if modifiers.alt {
        value += 2;
    }
    if modifiers.control {
        value += 4;
    }
    Some(value)
}

/// Whether `c` is an ASCII letter.
pub open spec fn is_ascii_letter(c: char) -> bool {
    ('a' <= c <= 'z') || ('A' <= c <= 'Z')
}

/// The letter a key name is, when it is exactly one ASCII letter.
pub open spec fn letter_of(key: Seq<char>) -> Option<char> {
    if key.len() == 1 && is_ascii_letter(key[0]) {
        Some(key[0])
    } else {
        None
    }
}

/// The key name's letter, when it is exactly one ASCII letter.
pub fn single_ascii_letter(key: &str) -> (r: Option<char>)
    ensures
        r == letter_of(key@),
{
    if key.unicode_len() != 1 {
        return None;
    }
    let c = key.get_char(0);
    if ('a' <= c && c <= 'z') || ('A' <= c && c <= 'Z') {
        Some(c)
    } else {
        None
    }
}

/// The code point of the lowercase of an ASCII letter.
pub open spec fn lower_code(c: char) -> nat {
    if 'A' <= c <= 'Z' {
        (c as u32 + 32) as nat
    } else {
        c as u32 as nat
    }
}

/// `ESC [` followed by `body`.
pub open spec fn csi(body: Seq<char>) -> Seq<char> {
    seq!['\x1b', '['] + body
}

/// The Kitty `CSI u` encoding of a keystroke, for the keys it re-encodes.
pub open spec fn kitty_chars(key: Seq<char>, m: Modifiers) -> Option<Seq<char>> {
    if key == "escape"@ {
        Some(
            match kitty_mod(m) {
                Some(v) => csi(seq!['2', '7', ';'] + decimal(v as nat) + seq!['u']),
                None => csi(seq!['2', '7', 'u']),
            },
        )
    } else if key == "enter"@ || key == "tab"@ {
        let code: nat = if key == "enter"@ {
            13
        } else {
            9
        };
        match kitty_mod(m) {
            Some(v) => Some(csi(decimal(code) + seq![';'] + decimal(v as nat) + seq!['u'])),
            None => None,
        }
    } else if m.control && letter_of(key) is Some {
        match kitty_mod(m) {
            Some(v) => Some(
                csi(decimal(lower_code(letter_of(key).unwrap())) + seq![';'] + decimal(v as nat) + seq!['u']),
            ),
            None => None,
        }
    } else {
        None
    }
}

/// The arrow key encoding: `CSI X` unmodified, `CSI 1;m X` with a
/// modifier held.
pub open spec fn cursor_chars(letter: char, m: Modifiers) -> Seq<char> {
    match kitty_mod(m) {
        None => csi(seq![letter]),
        Some(v) => csi(seq!['1', ';'] + decimal(v as nat) + seq![letter]),
    }
}

/// The bytes a keystroke sends to the terminal, if any.
pub open spec fn key_bytes(key: Seq<char>, m: Modifiers, kitty_disambiguate: bool) -> Option<Seq<u8>> {
    if m.platform {
        None
    } else if kitty_disambiguate && kitty_chars(key, m) is Some {
        Some(ascii_bytes(kitty_chars(key, m).unwrap()))
    } else if key == "enter"@ {
        Some(seq![13u8])
    } else if key == "backspace"@ {
        Some(seq![0x7fu8])
    } else if key == "tab"@ {
        Some(seq![9u8])
    } else if key == "escape"@ {
        Some(seq![0x1bu8])
    } else if key == "up"@ {
        Some(ascii_bytes(cursor_chars('A', m)))
    } else if key == "down"@ {
        Some(ascii_bytes(cursor_chars('B', m)))
    } else if key == "right"@ {
        Some(ascii_bytes(cursor_chars('C', m)))
    } else if key == "left"@ {
        Some(ascii_bytes(cursor_chars('D', m)))
    } else if m.control && !m.alt && letter_of(key) is Some {
        Some(seq![(lower_code(letter_of(key).unwrap()) - 96) as u8])
    } else {
        None
    }
}

fn csi_start() -> (r: Vec<char>)
    ensures
        r@ == seq!['\x1b', '['],
        all_ascii(r@),
{
    let mut out: Vec<char> = Vec::new();
    push_ascii(&mut out, '\x1b');
    push_ascii(&mut out, '[');
    assert(out@ =~= seq!['\x1b', '[']);
    out
}

fn kitty_disambiguated_bytes(keystroke: &Keystroke) -> (r: Option<Vec<u8>>)
    ensures
        match r {
            Some(b) => kitty_chars(keystroke.key@, keystroke.modifiers) matches Some(c) && b@ == ascii_bytes(c),
            None => kitty_chars(keystroke.key@, keystroke.modifiers) is None,
        },
{
    let key = keystroke.key.as_str();
    let m = keystroke.modifiers;
    if str_is(key, "escape") {
        let mut out = csi_start();
        push_ascii(&mut out, '2');
        push_ascii(&mut out, '7');
        match kitty_modifier(&m) {
            Some(v) => {
                push_ascii(&mut out, ';');
                push_decimal_ascii(&mut out, v as u64);
                push_ascii(&mut out, 'u');
                assert(out@ =~= csi(seq!['2', '7', ';'] + decimal(v as nat) + seq!['u']));
            },
            None => {
                push_ascii(&mut out, 'u');
                assert(out@ =~= csi(seq!['2', '7', 'u']));
            },
        }
        return Some(ascii_to_bytes(&out));
    }
    let is_enter = str_is(key, "enter");
    if is_enter || str_is(key, "tab") {
        let code: u64 = if is_enter {
            13
        } else {
            9
        };
        match kitty_modifier(&m) {
            Some(v) => {
                let mut out = csi_start();
                push_decimal_ascii(&mut out, code);
                push_ascii(&mut out, ';');
                push_decimal_ascii(&mut out, v as u64);
                push_ascii(&mut out, 'u');
                assert(out@ =~= csi(decimal(code as nat) + seq![';'] + decimal(v as nat) + seq!['u']));
                return Some(ascii_to_bytes(&out));
            },
            None => {
                return None;
            },
        }
    }
    if m.control {
        if let Some(letter) = single_ascii_letter(key) {
            let codepoint: u32 = if 'A' <= letter && letter <= 'Z' {
                letter as u32 + 32
            } else {
                letter as u32
            };
            match kitty_modifier(&m) {
                Some(v) => {
                    let mut out = csi_start();
                    push_decimal_ascii(&mut out, codepoint as u64);
                    push_ascii(&mut out, ';');
                    push_decimal_ascii(&mut out, v as u64);
                    push_ascii(&mut out, 'u');
                    assert(out@ =~= csi(decimal(lower_code(letter)) + seq![';'] + decimal(v as nat) + seq!['u']));
                    return Some(ascii_to_bytes(&out));
                },
                None => {
                    return None;
                },
            }
        }
    }
    None
}

/// The arrow key encoding for `letter` (`A`/`B`/`C`/`D` for
/// up/down/right/left) under `modifiers`.
fn cursor_key_bytes(letter: char, modifiers: &Modifiers) -> (r: Vec<u8>)
    requires
        letter == 'A' || letter == 'B' || letter == 'C' || letter == 'D',
    ensures
        r@ == ascii_bytes(cursor_chars(letter, *modifiers)),
{
    let mut out = csi_start();
    match kitty_modifier(modifiers) {
        None => {
            push_ascii(&mut out, letter);
            assert(out@ =~= csi(seq![letter]));
        },
        Some(m) => {
            push_ascii(&mut out, '1');
            push_ascii(&mut out, ';');
            push_decimal_ascii(&mut out, m as u64);
            push_ascii(&mut out, letter);
            assert(out@ =~= csi(seq!['1', ';'] + decimal(m as nat) + seq![letter]));
        },
    }
    ascii_to_bytes(&out)
}

/// The bytes a keystroke sends to the terminal, or `None` when it has no
/// direct terminal meaning here (text input, a bare modifier, or a
/// Cmd/Super shortcut). `kitty_disambiguate` is whether the program asked
/// for the Kitty "disambiguate" flag.
pub fn keystroke_to_bytes(keystroke: &Keystroke, kitty_disambiguate: bool) -> (r: Option<Vec<u8>>)
    ensures
        match r {
            Some(b) => key_bytes(keystroke.key@, keystroke.modifiers, kitty_disambiguate) == Some(b@),
            None => key_bytes(keystroke.key@, keystroke.modifiers, kitty_disambiguate) is None,
        },
{
    if keystroke.modifiers.platform {
        return None;
    }
    if kitty_disambiguate {
        if let Some(bytes) = kitty_disambiguated_bytes(keystroke) {
            return Some(bytes);
        }
    }
    let key = keystroke.key.as_str();
    let m = keystroke.modifiers;
    if str_is(key, "enter") {
        return Some(vec![13u8]);
    }
    if str_is(key, "backspace") {
        return Some(vec![0x7fu8]);
    }
    if str_is(key, "tab") {
        return Some(vec![9u8]);
    }
    if str_is(key, "escape") {
        return Some(vec![0x1bu8]);
    }
    if str_is(key, "up") {
        return Some(cursor_key_bytes('A', &m));
    }
    if str_is(key, "down") {
        return Some(cursor_key_bytes('B', &m));
    }
    if str_is(key, "right") {
        return Some(cursor_key_bytes('C', &m));
    }
    if str_is(key, "left") {
        return Some(cursor_key_bytes('D', &m));
    }
    if m.control && !m.alt {
        if let Some(letter) = single_ascii_letter(key) {
            let lc: u32 = if 'A' <= letter && letter <= 'Z' {
                letter as u32 + 32
            } else {
                letter as u32
            };
            let code: u8 = (lc - 96) as u8;
            return Some(vec![code]);
        }
    }
    None
}

/// Cmd/Super combinations never reach the terminal.
pub proof fn law_platform_shortcuts_never_reach_the_terminal(key: Seq<char>, m: Modifiers, kitty_disambiguate: bool)
    requires
        m.platform,
    ensures
        key_bytes(key, m, kitty_disambiguate) is None,
{
}

/// With the disambiguate flag off, a keystroke sends its legacy bytes: no
/// `CSI u` sequence ever appears.
pub proof fn law_kitty_off_is_legacy(key: Seq<char>, m: Modifiers)
    ensures
        key == "enter"@ && !m.platform ==> key_bytes(key, m, false) == Some(seq![13u8]),
        key == "tab"@ && !m.platform ==> key_bytes(key, m, false) == Some(seq![9u8]),
        key == "escape"@ && !m.platform ==> key_bytes(key, m, false) == Some(seq![0x1bu8]),
{
    reveal_strlit("enter");
    reveal_strlit("backspace");
    reveal_strlit("tab");
    reveal_strlit("escape");
    assert("enter"@.len() == 5 && "backspace"@.len() == 9 && "tab"@.len() == 3 && "escape"@.len() == 6);
    assert("tab"@ != "enter"@ && "tab"@ != "backspace"@);
    assert("escape"@ != "enter"@ && "escape"@ != "backspace"@ && "escape"@ != "tab"@);
}

/// With the disambiguate flag on, an unmodified Enter or Tab still sends
/// its legacy byte, and a modified one sends a sequence different from it.
pub proof fn law_kitty_unmodified_enter_tab_stay_legacy(key: Seq<char>, m: Modifiers)
    requires
        key == "enter"@ || key == "tab"@,
        !m.platform,
    ensures
        kitty_mod(m) is None ==> key_bytes(key, m, true) == key_bytes(key, m, false),
        kitty_mod(m) is Some ==> key_bytes(key, m, true) != key_bytes(key, m, false),
{
    reveal_strlit("enter");
    reveal_strlit("backspace");
    reveal_strlit("tab");
    reveal_strlit("escape");
    assert("enter"@.len() == 5 && "backspace"@.len() == 9 && "tab"@.len() == 3 && "escape"@.len() == 6);
    assert("tab"@ != "enter"@ && "tab"@ != "escape"@ && "enter"@ != "escape"@);
    if kitty_mod(m) is Some {
        let c = kitty_chars(key, m).unwrap();
        assert(ascii_bytes(c).len() == c.len());
        assert(c.len() >= 2);
    }
}

} // verus!
