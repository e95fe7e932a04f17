use labolabo_app::focus::{adjacent_pane, nth_tab, resolve_close_focus, TabGroup};

fn group(id: u64, panes: &[u64], selected_index: usize) -> TabGroup {
    TabGroup {
        id,
        panes: panes.to_vec(),
        selected_index,
    }
}

/// A single terminal pane: one leaf with one tab.
fn single_pane() -> Vec<TabGroup> {
    vec![group(1, &[10], 0)]
}

/// Three leaves in depth-first order A, B, C.
fn three_panes() -> Vec<TabGroup> {
    vec![group(1, &[10], 0), group(2, &[20], 0), group(3, &[30], 0)]
}

// MARK: - resolve_close_focus

#[test]
fn resolve_close_focus_uses_revealed_when_present() {
    let leaves = single_pane();
    assert_eq!(resolve_close_focus(&leaves, Some(10)), Some(10));
}

#[test]
fn resolve_close_focus_falls_back_to_first_leafs_selected_tab() {
    let leaves = vec![group(1, &[10], 0), group(2, &[20], 0)];
    assert_eq!(resolve_close_focus(&leaves, None), Some(10));
}

#[test]
fn resolve_close_focus_fallback_uses_the_selected_tab_not_index_zero() {
    let leaves = vec![group(1, &[10, 11], 1), group(2, &[20], 0)];
    assert_eq!(resolve_close_focus(&leaves, None), Some(11));
}

// MARK: - adjacent_pane

#[test]
fn adjacent_pane_forward_cycles_dfs_order_with_wraparound() {
    let leaves = three_panes();
    assert_eq!(adjacent_pane(&leaves, 10, true), Some(20));
    assert_eq!(adjacent_pane(&leaves, 20, true), Some(30));
    assert_eq!(adjacent_pane(&leaves, 30, true), Some(10), "wraps back to the first leaf");
}

#[test]
fn adjacent_pane_backward_cycles_dfs_order_with_wraparound() {
    let leaves = three_panes();
    assert_eq!(adjacent_pane(&leaves, 10, false), Some(30), "wraps back to the last leaf");
    assert_eq!(adjacent_pane(&leaves, 30, false), Some(20));
    assert_eq!(adjacent_pane(&leaves, 20, false), Some(10));
}

#[test]
fn adjacent_pane_single_leaf_returns_itself() {
    let leaves = single_pane();
    assert_eq!(adjacent_pane(&leaves, 10, true), Some(10));
    assert_eq!(adjacent_pane(&leaves, 10, false), Some(10));
}

#[test]
fn adjacent_pane_targets_the_leafs_selected_tab_not_its_first_tab() {
    let leaves = vec![group(1, &[10, 11], 1), group(2, &[20], 0), group(3, &[30], 0)];
    assert_eq!(adjacent_pane(&leaves, 20, false), Some(11));
}

#[test]
fn adjacent_pane_unknown_anchor_returns_none() {
    let leaves = single_pane();
    assert_eq!(adjacent_pane(&leaves, 99, true), None);
}

// MARK: - nth_tab

#[test]
fn nth_tab_returns_pane_at_index_within_anchors_group() {
    let leaves = vec![group(1, &[10, 11, 12], 2)];
    assert_eq!(nth_tab(&leaves, 10, 0), Some(10));
    assert_eq!(nth_tab(&leaves, 10, 1), Some(11));
    assert_eq!(nth_tab(&leaves, 10, 2), Some(12));
}

#[test]
fn nth_tab_out_of_range_returns_none() {
    let leaves = single_pane();
    assert_eq!(nth_tab(&leaves, 10, 1), None, "only one tab exists (index 0)");
}

#[test]
fn nth_tab_unknown_anchor_returns_none() {
    let leaves = single_pane();
    assert_eq!(nth_tab(&leaves, 99, 0), None);
}

#[test]
fn moving_forward_then_back_returns_to_the_start() {
    let leaves = vec![group(1, &[10, 11], 1), group(2, &[20], 0), group(3, &[30, 31], 0)];
    for start in [11, 20, 30] {
        let next = adjacent_pane(&leaves, start, true).unwrap();
        assert_eq!(adjacent_pane(&leaves, next, false), Some(start));
    }
}
