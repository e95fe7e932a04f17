use labolabo_app::ghostty_color::{
    parse_color, parse_palette_entry, parse_palette_index, merge_colors, ColorScheme, Rgb,
};
use labolabo_app::ghostty_config::{
    config_text_readable, default_config_paths, parse_include_value, parse_line,
    parse_theme_value, resolve_include_path, strip_bom, theme_colors_from_text, theme_path_candidates,
    theme_search_dirs, windows_config_paths, IncludeRef, IncludeWalk, Loader,
};

// --- parse_line -------------------------------------------------------

#[test]
fn blank_and_comment_lines_are_skipped() {
    assert_eq!(parse_line(""), None);
    assert_eq!(parse_line("   \t "), None);
    assert_eq!(parse_line("# a comment"), None);
    assert_eq!(parse_line("  \t# indented comment"), None);
}

#[test]
fn trailing_comments_are_not_a_thing() {
    let line = parse_line("font-family = Menlo # not a comment").unwrap();
    assert_eq!(line.key, "font-family");
    assert_eq!(line.value, Some("Menlo # not a comment"));
}

#[test]
fn key_and_value_are_trimmed_and_split_at_the_first_equals() {
    let line = parse_line("  font-size\t=  13.5  ").unwrap();
    assert_eq!(line.key, "font-size");
    assert_eq!(line.value, Some("13.5"));

    let line = parse_line("key = a = b").unwrap();
    assert_eq!(line.key, "key");
    assert_eq!(line.value, Some("a = b"));
}

#[test]
fn one_quote_layer_is_stripped_from_the_value() {
    let line = parse_line("font-family = \"Fira Code\"").unwrap();
    assert_eq!(line.value, Some("Fira Code"));

    let line = parse_line("font-family = \"\"").unwrap();
    assert_eq!(line.value, Some(""));

    let line = parse_line("font-family = \"").unwrap();
    assert_eq!(line.value, Some("\""));

    let line = parse_line("key = \"\"double\"\"").unwrap();
    assert_eq!(line.value, Some("\"double\""));
}

#[test]
fn a_line_without_equals_has_no_value() {
    let line = parse_line("some-flag").unwrap();
    assert_eq!(line.key, "some-flag");
    assert_eq!(line.value, None);
}

#[test]
fn crlf_line_endings_are_trimmed() {
    let line = parse_line("font-size = 14\r").unwrap();
    assert_eq!(line.value, Some("14"));
}

// --- parse_include_value / resolve_include_path ------------------------

#[test]
fn include_value_parses_optional_prefix_and_quotes() {
    assert_eq!(
        parse_include_value("extra.conf"),
        Some(IncludeRef {
            path: "extra.conf".into(),
            optional: false
        })
    );
    assert_eq!(
        parse_include_value("?missing.conf"),
        Some(IncludeRef {
            path: "missing.conf".into(),
            optional: true
        })
    );
    assert_eq!(
        parse_include_value("?\"quoted.conf\""),
        Some(IncludeRef {
            path: "quoted.conf".into(),
            optional: true
        })
    );
    assert_eq!(parse_include_value(""), None);
    assert_eq!(parse_include_value("?"), None);
    assert_eq!(parse_include_value("\"\""), None);
}

#[test]
fn include_paths_resolve_relative_tilde_and_absolute() {
    let base = "/base/dir";
    let home = "/home/u";
    assert_eq!(resolve_include_path("sub/x.conf", base, home), "/base/dir/sub/x.conf");
    assert_eq!(resolve_include_path("~/x.conf", base, home), "/home/u/x.conf");
    assert_eq!(resolve_include_path("/abs/x.conf", base, home), "/abs/x.conf");
    assert_eq!(resolve_include_path("~other/x.conf", base, home), "/base/dir/~other/x.conf");
}

// --- default_config_paths ----------------------------------------------

#[test]
fn default_paths_use_xdg_config_home_when_set() {
    let paths = default_config_paths("/home/u", Some("/xdg"), false);
    assert_eq!(
        paths,
        vec!["/xdg/ghostty/config".to_string(), "/xdg/ghostty/config.ghostty".to_string()]
    );
}

#[test]
fn default_paths_fall_back_to_dot_config_and_add_app_support_on_macos() {
    let paths = default_config_paths("/home/u", None, true);
    assert_eq!(
        paths,
        vec![
            "/home/u/.config/ghostty/config".to_string(),
            "/home/u/.config/ghostty/config.ghostty".to_string(),
            "/home/u/Library/Application Support/com.mitchellh.ghostty/config".to_string(),
            "/home/u/Library/Application Support/com.mitchellh.ghostty/config.ghostty".to_string(),
        ]
    );
}

#[test]
fn empty_xdg_config_home_is_treated_as_unset() {
    let paths = default_config_paths("/home/u", Some(""), false);
    assert_eq!(paths[0], "/home/u/.config/ghostty/config");
}

#[test]
fn windows_paths_are_rooted_at_appdata_ghostty() {
    let paths = windows_config_paths(r"C:\Users\u\AppData\Roaming");
    assert_eq!(
        paths,
        vec![
            r"C:\Users\u\AppData\Roaming\ghostty\config".to_string(),
            r"C:\Users\u\AppData\Roaming\ghostty\config.ghostty".to_string(),
        ]
    );
}

// --- parse_color ---------------------------------------------------------

#[test]
fn parse_color_accepts_hashed_and_bare_hex_short_and_long_forms() {
    assert_eq!(parse_color("#000000"), Some(Rgb::new(0, 0, 0)));
    assert_eq!(parse_color("#0A0B0C"), Some(Rgb::new(10, 11, 12)));
    assert_eq!(parse_color("0A0B0C"), Some(Rgb::new(10, 11, 12)));
    assert_eq!(parse_color("FFFFFF"), Some(Rgb::new(255, 255, 255)));
    assert_eq!(parse_color("1A202C"), Some(Rgb::new(0x1A, 0x20, 0x2C)));
    assert_eq!(parse_color("FFF"), Some(Rgb::new(255, 255, 255)));
    assert_eq!(parse_color("#345"), Some(Rgb::new(0x33, 0x44, 0x55)));
    assert_eq!(parse_color("  #AABBCC   "), Some(Rgb::new(0xAA, 0xBB, 0xCC)));
}

#[test]
fn parse_color_rejects_unsupported_forms() {
    assert_eq!(parse_color("black"), None);
    assert_eq!(parse_color("rgb:12/34/56"), None);
    assert_eq!(parse_color("rgbi:0.1/0.2/0.3"), None);
    assert_eq!(parse_color("#123456789"), None);
    assert_eq!(parse_color("#GGGGGG"), None);
    assert_eq!(parse_color(""), None);
    assert_eq!(parse_color("#1234"), None);
}

#[test]
fn parse_color_reads_each_channel_like_from_str_radix() {
    // A channel may carry a leading `+`, as `u8::from_str_radix` allows.
    assert_eq!(parse_color("+F0000"), Some(Rgb::new(15, 0, 0)));
    // Two-byte characters that are no hex digits give no color.
    assert_eq!(parse_color("ééé"), None);
}

#[test]
fn color_values_that_would_split_a_character_are_not_readable() {
    assert!(!config_text_readable("background = aé"));
    assert!(config_text_readable("background = gé"));
    assert!(config_text_readable("font-family = aé"));
}

// --- parse_palette_index / parse_palette_entry ----------------------------

#[test]
fn palette_index_parses_decimal_and_prefixed_radixes() {
    assert_eq!(parse_palette_index("5"), Some(5));
    assert_eq!(parse_palette_index("0x0F"), Some(15));
    assert_eq!(parse_palette_index("0o17"), Some(15));
    assert_eq!(parse_palette_index("0b1111"), Some(15));
    assert_eq!(parse_palette_index("256"), None);
    assert_eq!(parse_palette_index("not-a-number"), None);
}

#[test]
fn palette_entry_splits_at_first_equals_and_trims_whitespace() {
    assert_eq!(parse_palette_entry("0=#AABBCC"), Some((0, Rgb::new(0xAA, 0xBB, 0xCC))));
    assert_eq!(parse_palette_entry(" 1 = #DDEEFF "), Some((1, Rgb::new(0xDD, 0xEE, 0xFF))));
    assert_eq!(parse_palette_entry("no-equals-sign"), None);
    assert_eq!(parse_palette_entry("1=notacolor"), None);
    assert_eq!(parse_palette_entry("999=#ffffff"), None);
}

// --- parse_theme_value -----------------------------------------------------

#[test]
fn theme_value_bare_name_is_used_for_both_appearances() {
    assert_eq!(parse_theme_value("catppuccin-mocha"), Some("catppuccin-mocha".to_string()));
    assert_eq!(parse_theme_value("  spaced  "), Some("spaced".to_string()));
    assert_eq!(parse_theme_value(""), None);
}

#[test]
fn theme_value_light_dark_pair_keeps_only_the_light_side() {
    assert_eq!(parse_theme_value("light:foo,dark:bar"), Some("foo".to_string()));
    assert_eq!(parse_theme_value(" dark : bar , light:foo "), Some("foo".to_string()));
    assert_eq!(parse_theme_value("dark:bar"), None);
    assert_eq!(parse_theme_value("light: ,dark:bar"), None);
}

// --- themes, loader, includes ---------------------------------------------

#[test]
fn theme_names_resolve_to_candidate_files_in_search_order() {
    assert_eq!(
        theme_search_dirs("/home/u", None, Some("/res/themes")),
        vec!["/home/u/.config/ghostty/themes".to_string(), "/res/themes".to_string()]
    );
    assert_eq!(
        theme_path_candidates("nord", "/home/u", Some("/xdg"), Some("/res/themes")),
        vec!["/xdg/ghostty/themes/nord".to_string(), "/res/themes/nord".to_string()]
    );
    assert_eq!(
        theme_path_candidates("/abs/theme", "/home/u", None, Some("/res")),
        vec!["/abs/theme".to_string()]
    );
    assert!(theme_path_candidates("sub/theme", "/home/u", None, None).is_empty());
}

#[test]
fn loader_applies_families_sizes_colors_theme_and_includes() {
    let mut loader = Loader::new();
    let text = "font-family = A\nfont-family = B\nfont-family =\nfont-family = C\n\
                font-size = 13.5\nfont-size = big\nbackground = #101214\n\
                background = bogus\npalette = 1=#AABBCC\ntheme = light:day,dark:night\n\
                config-file = ?extra.conf\nconfig-file = ~/home.conf\n";
    assert!(config_text_readable(text));
    loader.load_text(text, "/cfg", "/home/u");
    assert_eq!(loader.families, vec!["C".to_string()]);
    assert_eq!(loader.font_sizes, vec!["13.5".to_string(), "big".to_string()]);
    assert_eq!(loader.colors.background, Some(Rgb::new(0x10, 0x12, 0x14)));
    assert_eq!(loader.colors.palette, vec![(1, Rgb::new(0xAA, 0xBB, 0xCC))]);
    assert_eq!(loader.theme, Some("day".to_string()));
    assert_eq!(
        loader.includes,
        vec![("/cfg/extra.conf".to_string(), true), ("/home/u/home.conf".to_string(), false)]
    );
}

#[test]
fn include_walk_visits_each_path_once() {
    let queue = vec![
        ("/a.conf".to_string(), false),
        ("/b.conf".to_string(), true),
        ("/a.conf".to_string(), false),
    ];
    let mut walk = IncludeWalk::new();
    assert_eq!(walk.next_include(&queue), Some(("/a.conf".to_string(), false)));
    assert_eq!(walk.next_include(&queue), Some(("/b.conf".to_string(), true)));
    assert_eq!(walk.next_include(&queue), None);
    let mut grown = queue.clone();
    grown.push(("/c.conf".to_string(), false));
    assert_eq!(walk.next_include(&grown), Some(("/c.conf".to_string(), false)));
}

#[test]
fn theme_colors_are_merged_under_the_users_own_explicit_colors() {
    let theme = theme_colors_from_text(
        "background = #111111\nforeground = #222222\ncursor-color = #DDDDDD\n\
         palette = 1=#FF0000\npalette = 2=#0000FF\ntheme = other\n",
    );
    let mut user = Loader::new();
    user.load_text("foreground = #CCCCCC\npalette = 1=#00FF00\n", "/", "/");
    let colors = merge_colors(theme, user.colors);
    assert_eq!(colors.background, Some(Rgb::new(0x11, 0x11, 0x11)));
    assert_eq!(colors.cursor, Some(Rgb::new(0xDD, 0xDD, 0xDD)));
    assert_eq!(colors.foreground, Some(Rgb::new(0xCC, 0xCC, 0xCC)));
    let resolved = colors.apply_palette([Rgb::new(0, 0, 0); 256]);
    assert_eq!(resolved[1], Rgb::new(0x00, 0xFF, 0x00));
    assert_eq!(resolved[2], Rgb::new(0x00, 0x00, 0xFF));
    assert_eq!(resolved[3], Rgb::new(0, 0, 0));
    assert_eq!(ColorScheme::default().palette.len(), 0);
}

#[test]
fn a_leading_byte_order_mark_is_stripped_and_nothing_else() {
    let with_bom = [&[0xef, 0xbb, 0xbf][..], b"font-size = 14\n"].concat();
    assert_eq!(strip_bom(with_bom), b"font-size = 14\n".to_vec());
    assert_eq!(strip_bom(b"font-size = 14".to_vec()), b"font-size = 14".to_vec());
    assert_eq!(strip_bom(vec![0xef, 0xbb]), vec![0xef, 0xbb]);
    let inner = [b"a".to_vec(), vec![0xef, 0xbb, 0xbf]].concat();
    assert_eq!(strip_bom(inner.clone()), inner);
}
