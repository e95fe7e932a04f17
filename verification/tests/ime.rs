use labolabo_app::ime::{layout_cells, layout_preedit, try_layout_preedit, utf16_len, utf16_slice, PreeditCell};

#[test]
fn narrow_ascii_preedit_starts_at_cursor() {
    let cells = layout_preedit("a", 2, 10);
    assert_eq!(cells, vec![PreeditCell { ch: 'a', col: 2 }]);
}

#[test]
fn wide_character_occupies_its_own_column_but_advances_two() {
    let cells = layout_preedit("\u{AC00}", 2, 10);
    assert_eq!(cells, vec![PreeditCell { ch: '\u{AC00}', col: 2 }]);
}

#[test]
fn multi_char_ascii_preedit_lays_out_left_to_right() {
    let cells = layout_preedit("ab", 0, 10);
    assert_eq!(
        cells,
        vec![PreeditCell { ch: 'a', col: 0 }, PreeditCell { ch: 'b', col: 1 }]
    );
}

#[test]
fn wide_character_at_the_right_edge_shifts_left_to_fit() {
    let cells = layout_preedit("\u{AC00}", 9, 10);
    assert_eq!(cells, vec![PreeditCell { ch: '\u{AC00}', col: 8 }]);
}

#[test]
fn composition_wider_than_the_grid_drops_leading_characters() {
    let text = "\u{3042}\u{3044}\u{3046}";
    let cells = layout_preedit(text, 0, 4);
    assert_eq!(
        cells,
        vec![
            PreeditCell { ch: '\u{3044}', col: 0 },
            PreeditCell { ch: '\u{3046}', col: 2 },
        ]
    );
}

#[test]
fn zero_width_grid_yields_no_cells() {
    assert_eq!(layout_preedit("a", 0, 0), Vec::new());
}

#[test]
fn empty_text_yields_no_cells() {
    assert_eq!(layout_preedit("", 0, 10), Vec::new());
}

#[test]
fn cursor_past_the_grid_is_clamped_to_the_last_column() {
    assert_eq!(layout_preedit("a", 50, 10), vec![PreeditCell { ch: 'a', col: 9 }]);
}

#[test]
fn control_characters_take_one_cell() {
    assert_eq!(
        layout_preedit("\u{7}b", 0, 10),
        vec![PreeditCell { ch: '\u{7}', col: 0 }, PreeditCell { ch: 'b', col: 1 }]
    );
}

#[test]
fn utf16_len_counts_surrogate_pairs_as_two() {
    assert_eq!(utf16_len("a"), 1);
    assert_eq!(utf16_len("\u{3042}"), 1);
    assert_eq!(utf16_len("\u{1F600}"), 2);
}

#[test]
fn utf16_slice_round_trips_ascii() {
    assert_eq!(utf16_slice("hello", 1..3), "el");
}

#[test]
fn utf16_slice_handles_bmp_multibyte_characters() {
    assert_eq!(utf16_slice("\u{3042}\u{3044}\u{3046}", 1..2), "\u{3044}");
}

#[test]
fn utf16_slice_clamps_an_out_of_bounds_range() {
    assert_eq!(utf16_slice("hi", 0..100), "hi");
    assert_eq!(utf16_slice("hi", 5..10), "");
}

#[test]
fn utf16_slice_cutting_a_surrogate_pair_yields_replacement_characters() {
    assert_eq!(utf16_slice("a\u{1F600}b", 0..2), "a\u{FFFD}");
    assert_eq!(utf16_slice("a\u{1F600}b", 2..4), "\u{FFFD}b");
    assert_eq!(utf16_slice("a\u{1F600}b", 1..3), "\u{1F600}");
}

#[test]
fn utf16_whole_range_round_trips() {
    let s = "x\u{1F600}\u{3042}y";
    assert_eq!(utf16_slice(s, 0..utf16_len(s)), s);
}

#[test]
fn checked_layout_matches_the_plain_layout_when_the_width_fits() {
    assert_eq!(
        try_layout_preedit("a\u{3042}b", 2, 10),
        Some(layout_preedit("a\u{3042}b", 2, 10))
    );
    assert_eq!(try_layout_preedit("", 0, 10), Some(Vec::new()));
}

#[test]
fn checked_layout_refuses_a_text_wider_than_a_u16() {
    let wide = "\u{3042}".repeat(40_000);
    assert_eq!(try_layout_preedit(&wide, 0, 80), None);
}

#[test]
fn adjacent_slices_at_character_boundaries_concatenate() {
    let s = "a\u{1F600}b\u{3042}";
    let whole = utf16_slice(s, 0..utf16_len(s));
    assert_eq!(whole, s);
    let left = utf16_slice(s, 0..3);
    let right = utf16_slice(s, 3..5);
    assert_eq!(left.clone() + &right, utf16_slice(s, 0..5));
    assert_eq!(left, "a\u{1F600}");
    assert_eq!(right, "b\u{3042}");
}

#[test]
fn layout_cells_places_given_widths() {
    let chars = vec!['a', 'b', 'c'];
    // A run of width 5 from column 8 on a 10-wide grid shifts left to 5.
    let cells = layout_cells(&chars, &vec![1, 2, 2], 8, 10);
    assert_eq!(
        cells,
        vec![
            PreeditCell { ch: 'a', col: 5 },
            PreeditCell { ch: 'b', col: 6 },
            PreeditCell { ch: 'c', col: 8 },
        ]
    );
    // Wider than the grid: the leading characters go.
    let cells = layout_cells(&chars, &vec![2, 2, 2], 0, 4);
    assert_eq!(
        cells,
        vec![PreeditCell { ch: 'b', col: 0 }, PreeditCell { ch: 'c', col: 2 }]
    );
    assert_eq!(layout_cells(&chars, &vec![1, 1, 1], 0, 0), Vec::new());
}
