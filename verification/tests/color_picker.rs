use labolabo_app::color_picker::{normalize_hex_color, parse_hex_rgb, preset_colors};

#[test]
fn normalize_accepts_hash_prefixed_and_bare_six_digit_hex() {
    assert_eq!(
        normalize_hex_color("#D0FF00").as_deref(),
        Some("#d0ff00"),
        "uppercase is lowercased"
    );
    assert_eq!(normalize_hex_color("5e9eff").as_deref(), Some("#5e9eff"));
    assert_eq!(
        normalize_hex_color("  #30d158  ").as_deref(),
        Some("#30d158"),
        "surrounding whitespace is tolerated"
    );
}

#[test]
fn normalize_rejects_everything_else() {
    for bad in [
        "",
        "#",
        "#fff",
        "fff",
        "#d0ff0",
        "#d0ff000",
        "#d0ff0g",
        "red",
        "#d0 f00",
        "#d0ff00aa",
    ] {
        assert_eq!(normalize_hex_color(bad), None, "should reject {bad:?}");
    }
}

#[test]
fn normalized_output_always_parses() {
    let normalized = normalize_hex_color("#D0FF00").unwrap();
    assert_eq!(parse_hex_rgb(&normalized), Some(0xd0ff00));
}

#[test]
fn parse_hex_rgb_decodes_the_persisted_format() {
    assert_eq!(parse_hex_rgb("#d0ff00"), Some(0xd0ff00));
    assert_eq!(parse_hex_rgb("#8e8e93"), Some(0x8e8e93));
    assert_eq!(parse_hex_rgb("#000000"), Some(0x000000));
}

#[test]
fn parse_hex_rgb_degrades_to_none_on_foreign_text() {
    for bad in ["", "d0ff00", "#fff", "#zzzzzz", "not-a-color", "#d0ff00aa"] {
        assert_eq!(parse_hex_rgb(bad), None, "should reject {bad:?}");
    }
}

#[test]
fn preset_table_hex_strings_match_their_u32_values() {
    let presets = preset_colors();
    assert_eq!(presets.len(), 8);
    for (hex, value) in presets.iter().copied() {
        assert_eq!(parse_hex_rgb(hex), Some(value), "{hex} mismatch");
        assert_eq!(
            normalize_hex_color(hex).as_deref(),
            Some(hex),
            "{hex} should already be in normalized form"
        );
    }
    assert_eq!(presets[0].1, 0xd0ff00, "the first preset is the brand lime");
}

#[test]
fn normalizing_twice_changes_nothing_and_mixed_case_reads_back() {
    let once = normalize_hex_color("\u{3000}#AbCdEf\n").unwrap();
    assert_eq!(once, "#abcdef");
    assert_eq!(normalize_hex_color(&once), Some(once.clone()));
    assert_eq!(parse_hex_rgb(&once), Some(0xabcdef));
    assert_eq!(parse_hex_rgb("#ABCDEF"), Some(0xabcdef));
}

#[test]
fn preset_table_lists_the_eight_swatches_in_menu_order() {
    let expected: Vec<(&str, u32)> = vec![
        ("#d0ff00", 0xd0ff00),
        ("#5e9eff", 0x5e9eff),
        ("#30d158", 0x30d158),
        ("#ffd60a", 0xffd60a),
        ("#ff9f0a", 0xff9f0a),
        ("#ff6b6b", 0xff6b6b),
        ("#bf5af2", 0xbf5af2),
        ("#8e8e93", 0x8e8e93),
    ];
    assert_eq!(preset_colors(), expected);
}
