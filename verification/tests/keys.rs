use labolabo_app::keys::{keystroke_to_bytes, kitty_modifier, single_ascii_letter, Keystroke, Modifiers};

fn keystroke(key: &str, key_char: Option<&str>, modifiers: Modifiers) -> Keystroke {
    Keystroke {
        modifiers,
        key: key.to_string(),
        key_char: key_char.map(|s| s.to_string()),
    }
}

#[test]
fn printable_character_is_left_to_the_input_handler() {
    // No key_char-carrying, unmodified (or shift-only) keystroke is
    // handled here anymore -- see this module's doc comment: it must
    // reach the platform's IME/text-input machinery instead, both so a
    // composition can start and so it isn't double-sent once one does.
    let ks = keystroke("a", Some("a"), Modifiers::none());
    assert_eq!(keystroke_to_bytes(&ks, false), None);
}

#[test]
fn shifted_character_is_left_to_the_input_handler() {
    let ks = keystroke(
        "a",
        Some("A"),
        Modifiers {
            shift: true,
            ..Modifiers::none()
        },
    );
    assert_eq!(keystroke_to_bytes(&ks, false), None);
}

#[test]
fn space_is_left_to_the_input_handler() {
    let ks = keystroke("space", Some(" "), Modifiers::none());
    assert_eq!(keystroke_to_bytes(&ks, false), None);
}

#[test]
fn enter_backspace_tab_escape() {
    assert_eq!(
        keystroke_to_bytes(&keystroke("enter", None, Modifiers::none()), false),
        Some(vec![b'\r'])
    );
    assert_eq!(
        keystroke_to_bytes(&keystroke("backspace", None, Modifiers::none()), false),
        Some(vec![0x7f])
    );
    assert_eq!(
        keystroke_to_bytes(&keystroke("tab", None, Modifiers::none()), false),
        Some(vec![b'\t'])
    );
    assert_eq!(
        keystroke_to_bytes(&keystroke("escape", None, Modifiers::none()), false),
        Some(vec![0x1b])
    );
}

#[test]
fn arrow_keys_send_csi_sequences() {
    assert_eq!(
        keystroke_to_bytes(&keystroke("up", None, Modifiers::none()), false),
        Some(b"\x1b[A".to_vec())
    );
    assert_eq!(
        keystroke_to_bytes(&keystroke("down", None, Modifiers::none()), false),
        Some(b"\x1b[B".to_vec())
    );
    assert_eq!(
        keystroke_to_bytes(&keystroke("right", None, Modifiers::none()), false),
        Some(b"\x1b[C".to_vec())
    );
    assert_eq!(
        keystroke_to_bytes(&keystroke("left", None, Modifiers::none()), false),
        Some(b"\x1b[D".to_vec())
    );
}

#[test]
fn ctrl_letter_sends_control_code() {
    let ctrl = Modifiers {
        control: true,
        ..Modifiers::none()
    };
    assert_eq!(
        keystroke_to_bytes(&keystroke("a", Some("a"), ctrl), false),
        Some(vec![0x01])
    );
    assert_eq!(
        keystroke_to_bytes(&keystroke("c", Some("c"), ctrl), false),
        Some(vec![0x03])
    );
    assert_eq!(
        keystroke_to_bytes(&keystroke("z", Some("z"), ctrl), false),
        Some(vec![0x1a])
    );
}

#[test]
fn ctrl_alt_letter_is_not_treated_as_a_control_code() {
    let ctrl_alt = Modifiers {
        control: true,
        alt: true,
        ..Modifiers::none()
    };
    // Not a bare control code, and (like any other key_char-carrying
    // keystroke this function doesn't special-case) left to the input
    // handler rather than falling back to key_char here -- e.g.
    // option-a on macOS types "\u{e5}" via the same text-input path a
    // plain letter would.
    let ks = keystroke("a", Some("\u{e5}"), ctrl_alt);
    assert_eq!(keystroke_to_bytes(&ks, false), None);
}

#[test]
fn cmd_combination_is_not_forwarded_to_the_terminal() {
    let cmd = Modifiers {
        platform: true,
        ..Modifiers::none()
    };
    assert_eq!(
        keystroke_to_bytes(&keystroke("t", Some("t"), cmd), false),
        None
    );
}

#[test]
fn bare_modifier_with_no_key_char_produces_nothing() {
    let ks = keystroke(
        "shift",
        None,
        Modifiers {
            shift: true,
            ..Modifiers::none()
        },
    );
    assert_eq!(keystroke_to_bytes(&ks, false), None);
}

// -- Kitty keyboard protocol (`kitty_disambiguate: true`) --------------

#[test]
fn kitty_off_leaves_every_keystroke_unchanged() {
    // With the flag off (the default -- no program has requested it),
    // behavior must be byte-for-byte identical to every test above,
    // even for a keystroke `kitty_disambiguated_bytes` *would* re-encode
    // if asked. Spot-checked here with Shift+Enter, which is exactly
    // the keystroke this feature exists to change when the flag is on.
    let shift_enter = keystroke(
        "enter",
        None,
        Modifiers {
            shift: true,
            ..Modifiers::none()
        },
    );
    assert_eq!(
        keystroke_to_bytes(&shift_enter, false),
        Some(vec![b'\r']),
        "shift+enter must still be plain \\r when kitty_disambiguate is off"
    );
}

#[test]
fn kitty_on_unmodified_enter_and_tab_stay_legacy() {
    // The Kitty spec's own documented exception: even with disambiguate
    // on, an unmodified Enter/Tab keeps sending its plain legacy byte
    // (so `reset<Enter>` still works in a shell after a crashed program
    // leaves the mode enabled) -- see this module's doc comment.
    assert_eq!(
        keystroke_to_bytes(&keystroke("enter", None, Modifiers::none()), true),
        Some(vec![b'\r'])
    );
    assert_eq!(
        keystroke_to_bytes(&keystroke("tab", None, Modifiers::none()), true),
        Some(vec![b'\t'])
    );
}

#[test]
fn kitty_on_shift_enter_sends_csi_u() {
    // The motivating case: a TUI distinguishes Shift+Enter
    // (insert a newline) from a plain Enter (submit) via exactly this
    // sequence once it has pushed the disambiguate flag.
    let shift_enter = keystroke(
        "enter",
        None,
        Modifiers {
            shift: true,
            ..Modifiers::none()
        },
    );
    assert_eq!(
        keystroke_to_bytes(&shift_enter, true),
        Some(b"\x1b[13;2u".to_vec())
    );
}

/// Real macOS keystrokes for Enter carry `key_char: Some("\n")`
/// unconditionally, not `None` as the other tests here construct them;
/// the encoding never inspects `key_char` for a named key, so the result
/// must be the same, with the flag off (legacy `\r`) and on (the Kitty
/// `CSI u` encoding).
#[test]
fn real_macos_enter_key_char_does_not_change_the_result() {
    let shift_enter_real_key_char = keystroke(
        "enter",
        Some("\n"),
        Modifiers {
            shift: true,
            ..Modifiers::none()
        },
    );
    assert_eq!(
        keystroke_to_bytes(&shift_enter_real_key_char, false),
        Some(vec![b'\r']),
        "kitty off: identical to the key_char: None case"
    );
    assert_eq!(
        keystroke_to_bytes(&shift_enter_real_key_char, true),
        Some(b"\x1b[13;2u".to_vec()),
        "kitty on: identical to the key_char: None case"
    );

    let plain_enter_real_key_char = keystroke("enter", Some("\n"), Modifiers::none());
    assert_eq!(
        keystroke_to_bytes(&plain_enter_real_key_char, true),
        Some(vec![b'\r']),
        "kitty on, unmodified: still legacy \\r regardless of key_char"
    );
}

#[test]
fn kitty_on_alt_and_ctrl_enter_send_csi_u_with_correct_modifier() {
    let alt_enter = keystroke(
        "enter",
        None,
        Modifiers {
            alt: true,
            ..Modifiers::none()
        },
    );
    assert_eq!(
        keystroke_to_bytes(&alt_enter, true),
        Some(b"\x1b[13;3u".to_vec()),
        "alt+enter: modifier = 1 + alt(2) = 3"
    );

    let ctrl_enter = keystroke(
        "enter",
        None,
        Modifiers {
            control: true,
            ..Modifiers::none()
        },
    );
    assert_eq!(
        keystroke_to_bytes(&ctrl_enter, true),
        Some(b"\x1b[13;5u".to_vec()),
        "ctrl+enter: modifier = 1 + ctrl(4) = 5"
    );

    let ctrl_shift_alt_enter = keystroke(
        "enter",
        None,
        Modifiers {
            shift: true,
            alt: true,
            control: true,
            ..Modifiers::none()
        },
    );
    assert_eq!(
        keystroke_to_bytes(&ctrl_shift_alt_enter, true),
        Some(b"\x1b[13;8u".to_vec()),
        "ctrl+alt+shift+enter: modifier = 1 + shift(1) + alt(2) + ctrl(4) = 8"
    );
}

#[test]
fn kitty_on_shift_tab_sends_csi_u() {
    // Shift+Tab ("backtab") -- TUIs use it to cycle modes;
    // legacy `\t` alone can't be told apart from a plain Tab.
    let shift_tab = keystroke(
        "tab",
        None,
        Modifiers {
            shift: true,
            ..Modifiers::none()
        },
    );
    assert_eq!(
        keystroke_to_bytes(&shift_tab, true),
        Some(b"\x1b[9;2u".to_vec())
    );
}

#[test]
fn kitty_on_cmd_combination_still_not_forwarded() {
    // The Cmd/Super early-return above `kitty_disambiguated_bytes` in
    // `keystroke_to_bytes` still wins even when the flag is on --
    // Cmd+Enter (if bound to anything) must never reach the terminal.
    let cmd_enter = keystroke(
        "enter",
        None,
        Modifiers {
            platform: true,
            ..Modifiers::none()
        },
    );
    assert_eq!(keystroke_to_bytes(&cmd_enter, true), None);
}

#[test]
fn kitty_on_backspace_and_unmodified_arrows_unaffected() {
    // Backspace (any modifiers -- out of scope, see the module doc
    // comment) and an *unmodified* arrow key (handled by
    // `cursor_key_bytes`, not `kitty_disambiguated_bytes` -- see below)
    // are the only keys this module handles that stay byte-for-byte
    // unchanged whether the flag is on or off. Escape and Ctrl+<letter>
    // are *not* in this set any more -- see
    // `kitty_on_escape_unmodified_sends_csi_27u` and
    // `kitty_on_ctrl_letter_sends_csi_u_with_codepoint` below.
    assert_eq!(
        keystroke_to_bytes(&keystroke("backspace", None, Modifiers::none()), true),
        Some(vec![0x7f])
    );
    assert_eq!(
        keystroke_to_bytes(&keystroke("up", None, Modifiers::none()), true),
        Some(b"\x1b[A".to_vec())
    );
}

// -- Kitty keyboard protocol (`kitty_disambiguate: true`) -- Escape ----

#[test]
fn kitty_on_escape_unmodified_sends_csi_27u() {
    // Unlike Enter/Tab, Escape has no legacy-byte exemption at all once
    // disambiguate is on -- see the module doc comment.
    assert_eq!(
        keystroke_to_bytes(&keystroke("escape", None, Modifiers::none()), true),
        Some(b"\x1b[27u".to_vec())
    );
}

#[test]
fn kitty_on_escape_modified_sends_csi_27_with_modifier() {
    let shift_escape = keystroke(
        "escape",
        None,
        Modifiers {
            shift: true,
            ..Modifiers::none()
        },
    );
    assert_eq!(
        keystroke_to_bytes(&shift_escape, true),
        Some(b"\x1b[27;2u".to_vec())
    );

    let ctrl_escape = keystroke(
        "escape",
        None,
        Modifiers {
            control: true,
            ..Modifiers::none()
        },
    );
    assert_eq!(
        keystroke_to_bytes(&ctrl_escape, true),
        Some(b"\x1b[27;5u".to_vec())
    );
}

#[test]
fn kitty_off_escape_stays_legacy_even_with_modifiers() {
    // With the flag off, Escape is not disambiguated at all.
    let shift_escape = keystroke(
        "escape",
        None,
        Modifiers {
            shift: true,
            ..Modifiers::none()
        },
    );
    assert_eq!(keystroke_to_bytes(&shift_escape, false), Some(vec![0x1b]));
}

// -- Kitty keyboard protocol (`kitty_disambiguate: true`) -- Ctrl+letter

#[test]
fn kitty_on_ctrl_letter_sends_csi_u_with_codepoint() {
    let ctrl = Modifiers {
        control: true,
        ..Modifiers::none()
    };
    assert_eq!(
        keystroke_to_bytes(&keystroke("c", Some("c"), ctrl), true),
        Some(b"\x1b[99;5u".to_vec()),
        "ctrl+c: codepoint 99 ('c'), modifier = 1 + ctrl(4) = 5"
    );
}

#[test]
fn kitty_on_ctrl_alt_letter_sends_csi_u_with_combined_modifier() {
    let ctrl_alt = Modifiers {
        control: true,
        alt: true,
        ..Modifiers::none()
    };
    assert_eq!(
        keystroke_to_bytes(&keystroke("c", Some("\u{e7}"), ctrl_alt), true),
        Some(b"\x1b[99;7u".to_vec()),
        "ctrl+alt+c: modifier = 1 + alt(2) + ctrl(4) = 7"
    );
}

#[test]
fn kitty_on_ctrl_shift_letter_sends_csi_u_with_combined_modifier() {
    // gpui reports `key` as the lowercase, unshifted key even while
    // Shift is held alongside Ctrl (see `single_ascii_letter`'s use
    // above, and the doc comment on the plain Ctrl+<letter> match arm
    // further down) -- so this is exactly the same codepoint as the
    // bare-Ctrl case above, just with the shift bit folded into the
    // modifier field too.
    let ctrl_shift = Modifiers {
        control: true,
        shift: true,
        ..Modifiers::none()
    };
    assert_eq!(
        keystroke_to_bytes(&keystroke("c", Some("C"), ctrl_shift), true),
        Some(b"\x1b[99;6u".to_vec()),
        "ctrl+shift+c: modifier = 1 + shift(1) + ctrl(4) = 6"
    );
}

#[test]
fn kitty_off_ctrl_letter_stays_legacy_c0() {
    // With the flag off, the C0 fallback of `keystroke_to_bytes` owns
    // this case.
    let ctrl = Modifiers {
        control: true,
        ..Modifiers::none()
    };
    assert_eq!(
        keystroke_to_bytes(&keystroke("c", Some("c"), ctrl), false),
        Some(vec![0x03])
    );
}

// -- Modified arrow keys (unconditional -- not gated on kitty_disambiguate)

#[test]
fn modified_arrow_keys_send_csi_1_modifier_letter() {
    // xterm's legacy modified-cursor-key encoding -- applies regardless
    // of the Kitty flag (see the module doc comment); exercised here
    // with `kitty_disambiguate: false` specifically: a held modifier
    // must not be dropped from an arrow key.
    let shift = Modifiers {
        shift: true,
        ..Modifiers::none()
    };
    assert_eq!(
        keystroke_to_bytes(&keystroke("up", None, shift), false),
        Some(b"\x1b[1;2A".to_vec())
    );
    let ctrl = Modifiers {
        control: true,
        ..Modifiers::none()
    };
    assert_eq!(
        keystroke_to_bytes(&keystroke("down", None, ctrl), false),
        Some(b"\x1b[1;5B".to_vec())
    );
    let alt = Modifiers {
        alt: true,
        ..Modifiers::none()
    };
    assert_eq!(
        keystroke_to_bytes(&keystroke("right", None, alt), false),
        Some(b"\x1b[1;3C".to_vec())
    );
    let ctrl_shift = Modifiers {
        control: true,
        shift: true,
        ..Modifiers::none()
    };
    assert_eq!(
        keystroke_to_bytes(&keystroke("left", None, ctrl_shift), false),
        Some(b"\x1b[1;6D".to_vec())
    );
}

#[test]
fn modified_arrow_keys_identical_with_kitty_disambiguate_on() {
    // Not a Kitty-specific enhancement -- identical whether the flag is
    // on or off (see `cursor_key_bytes`'s doc comment).
    let shift = Modifiers {
        shift: true,
        ..Modifiers::none()
    };
    assert_eq!(
        keystroke_to_bytes(&keystroke("up", None, shift), true),
        Some(b"\x1b[1;2A".to_vec())
    );
}

#[test]
fn kitty_modifier_matches_spec_formula() {
    assert_eq!(kitty_modifier(&Modifiers::none()), None);
    assert_eq!(
        kitty_modifier(&Modifiers {
            shift: true,
            ..Modifiers::none()
        }),
        Some(2)
    );
    assert_eq!(
        kitty_modifier(&Modifiers {
            alt: true,
            ..Modifiers::none()
        }),
        Some(3)
    );
    assert_eq!(
        kitty_modifier(&Modifiers {
            control: true,
            ..Modifiers::none()
        }),
        Some(5)
    );
    assert_eq!(
        kitty_modifier(&Modifiers {
            shift: true,
            alt: true,
            control: true,
            ..Modifiers::none()
        }),
        Some(8)
    );
}

#[test]
fn single_ascii_letter_accepts_exactly_one_letter() {
    assert_eq!(single_ascii_letter("a"), Some('a'));
    assert_eq!(single_ascii_letter("Z"), Some('Z'));
    assert_eq!(single_ascii_letter("a1"), None);
    assert_eq!(single_ascii_letter("tab"), None);
    assert_eq!(single_ascii_letter("1"), None);
    assert_eq!(single_ascii_letter(""), None);
    assert_eq!(single_ascii_letter("é"), None);
}

#[test]
fn kitty_on_uppercase_ctrl_letter_uses_the_lowercase_codepoint() {
    let ctrl = Modifiers {
        control: true,
        ..Modifiers::none()
    };
    assert_eq!(
        keystroke_to_bytes(&keystroke("C", Some("C"), ctrl), true),
        Some(b"\x1b[99;5u".to_vec())
    );
    assert_eq!(
        keystroke_to_bytes(&keystroke("C", Some("C"), ctrl), false),
        Some(vec![0x03])
    );
}
