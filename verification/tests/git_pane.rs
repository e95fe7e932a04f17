use std::collections::HashSet;

use labolabo_app::git_pane::{
    ahead_behind_marks, branch_label, build_changed_items, changed_paths, ChangedFileItem, EntryKind, FileSection, FileViewMode,
    GitFileEntry, GitPaneState, GitSnapshot, NumstatEntry,
};

fn entry(kind: EntryKind, path: &str) -> GitFileEntry {
    GitFileEntry {
        kind,
        path: path.to_string(),
        original_path: None,
    }
}

fn numstat(path: &str, additions: i64, deletions: i64) -> NumstatEntry {
    NumstatEntry {
        additions: Some(additions),
        deletions: Some(deletions),
        path: path.to_string(),
    }
}

fn set(paths: &[&str]) -> HashSet<String> {
    paths.iter().map(|p| p.to_string()).collect()
}

// MARK: - build_changed_items

#[test]
fn staged_unstaged_untracked_are_grouped_in_order() {
    let staged = vec![entry(EntryKind::Ordinary, "staged.txt")];
    let unstaged = vec![entry(EntryKind::Ordinary, "unstaged.txt")];
    let untracked = vec![entry(EntryKind::Untracked, "new.txt")];
    let items = build_changed_items(&staged, &unstaged, &untracked, &[], &[]);
    assert_eq!(
        items
            .iter()
            .map(|i| (i.path.as_str(), i.section))
            .collect::<Vec<_>>(),
        vec![
            ("staged.txt", FileSection::Staged),
            ("unstaged.txt", FileSection::Unstaged),
            ("new.txt", FileSection::Untracked),
        ]
    );
}

#[test]
fn numstat_counts_are_matched_by_path_per_section() {
    let staged = vec![entry(EntryKind::Ordinary, "a.txt")];
    let unstaged = vec![entry(EntryKind::Ordinary, "a.txt")];
    let staged_counts = vec![numstat("a.txt", 3, 1)];
    let unstaged_counts = vec![numstat("a.txt", 7, 2)];
    let items = build_changed_items(&staged, &unstaged, &[], &staged_counts, &unstaged_counts);

    let staged_item = items
        .iter()
        .find(|i| i.section == FileSection::Staged)
        .unwrap();
    assert_eq!((staged_item.adds, staged_item.dels), (Some(3), Some(1)));

    let unstaged_item = items
        .iter()
        .find(|i| i.section == FileSection::Unstaged)
        .unwrap();
    assert_eq!((unstaged_item.adds, unstaged_item.dels), (Some(7), Some(2)));
}

#[test]
fn unmerged_entries_are_excluded_from_the_unstaged_list() {
    let unstaged = vec![entry(EntryKind::Unmerged, "conflict.txt")];
    let items = build_changed_items(&[], &unstaged, &[], &[], &[]);
    assert!(items.is_empty(), "unmerged entries must not appear: {items:?}");
}

#[test]
fn untracked_entries_never_get_numstat_counts() {
    let untracked = vec![entry(EntryKind::Untracked, "new.txt")];
    let items = build_changed_items(&[], &[], &untracked, &[numstat("new.txt", 5, 5)], &[]);
    assert_eq!(items[0].adds, None);
    assert_eq!(items[0].dels, None);
}

#[test]
fn no_entries_yields_no_items() {
    assert!(build_changed_items(&[], &[], &[], &[], &[]).is_empty());
}

#[test]
fn the_last_numstat_line_for_a_path_wins_and_a_missing_one_gives_no_counts() {
    let staged = vec![entry(EntryKind::Ordinary, "a.txt"), entry(EntryKind::Ordinary, "b.txt")];
    let counts = vec![numstat("a.txt", 1, 1), numstat("a.txt", 4, 2)];
    let items = build_changed_items(&staged, &[], &[], &counts, &[]);
    assert_eq!((items[0].adds, items[0].dels), (Some(4), Some(2)));
    assert_eq!((items[1].adds, items[1].dels), (None, None));
}

// MARK: - changed_paths

#[test]
fn changed_paths_collects_staged_unstaged_and_untracked() {
    let entries = vec![
        entry(EntryKind::Ordinary, "staged.txt"),
        entry(EntryKind::Ordinary, "unstaged.txt"),
        entry(EntryKind::Untracked, "new.txt"),
    ];
    let paths: HashSet<String> = changed_paths(&entries).into_iter().collect();
    assert_eq!(paths, set(&["staged.txt", "unstaged.txt", "new.txt"]));
}

#[test]
fn changed_paths_excludes_ignored_entries() {
    let entries = vec![entry(EntryKind::Ignored, "target/")];
    assert!(changed_paths(&entries).is_empty());
}

#[test]
fn changed_paths_includes_unmerged_entries_unlike_build_changed_items() {
    let entries = vec![entry(EntryKind::Unmerged, "conflict.txt")];
    let paths: HashSet<String> = changed_paths(&entries).into_iter().collect();
    assert_eq!(paths, set(&["conflict.txt"]));
}

#[test]
fn changed_paths_includes_both_sides_of_a_rename() {
    let mut renamed = entry(EntryKind::RenamedOrCopied, "new_name.txt");
    renamed.original_path = Some("old_name.txt".to_string());
    let paths: HashSet<String> = changed_paths(&[renamed]).into_iter().collect();
    assert_eq!(paths, set(&["new_name.txt", "old_name.txt"]));
}

#[test]
fn changed_paths_of_empty_status_is_empty() {
    assert!(changed_paths(&[]).is_empty());
}

#[test]
fn changed_paths_lists_each_path_once() {
    let entries = vec![
        entry(EntryKind::Ordinary, "a.txt"),
        entry(EntryKind::Ordinary, "a.txt"),
    ];
    assert_eq!(changed_paths(&entries), vec!["a.txt".to_string()]);
}

// MARK: - GitPaneState::select

fn state_with_items(items: Vec<ChangedFileItem>) -> GitPaneState {
    let mut state = GitPaneState::new();
    state.items = items;
    state
}

#[test]
fn selecting_a_changed_tracked_file_defaults_to_diff_mode() {
    let mut state = state_with_items(vec![ChangedFileItem {
        path: "a.txt".into(),
        section: FileSection::Unstaged,
        adds: Some(1),
        dels: Some(1),
    }]);
    state.view_mode = FileViewMode::Whole;
    state.select("a.txt".to_string());
    assert_eq!(state.view_mode, FileViewMode::Diff);
    assert_eq!(state.selected_path.as_deref(), Some("a.txt"));
}

#[test]
fn selecting_an_untracked_file_defaults_to_whole_mode() {
    let mut state = state_with_items(vec![ChangedFileItem {
        path: "new.txt".into(),
        section: FileSection::Untracked,
        adds: None,
        dels: None,
    }]);
    state.view_mode = FileViewMode::Diff;
    state.select("new.txt".to_string());
    assert_eq!(state.view_mode, FileViewMode::Whole);
}

#[test]
fn selecting_a_path_not_in_items_defaults_to_whole_mode() {
    let mut state = GitPaneState::new();
    state.view_mode = FileViewMode::Diff;
    state.select("unknown.txt".to_string());
    assert_eq!(state.view_mode, FileViewMode::Whole);
}

// MARK: - refresh coalescing state machine

#[test]
fn first_begin_refresh_starts_immediately() {
    let mut state = GitPaneState::new();
    assert!(state.begin_refresh());
}

#[test]
fn a_second_begin_refresh_while_in_flight_is_coalesced_not_started() {
    let mut state = GitPaneState::new();
    assert!(state.begin_refresh());
    assert!(!state.begin_refresh(), "second call must not start a new one");
    assert!(!state.begin_refresh(), "third call stays coalesced too");
}

#[test]
fn finish_refresh_with_no_pending_trigger_leaves_the_pane_idle() {
    let mut state = GitPaneState::new();
    state.begin_refresh();
    assert!(!state.finish_refresh());
    assert!(state.begin_refresh());
}

#[test]
fn finish_refresh_with_a_pending_trigger_starts_exactly_one_more() {
    let mut state = GitPaneState::new();
    state.begin_refresh();
    state.begin_refresh();
    state.begin_refresh();
    assert!(state.finish_refresh(), "a pending trigger must start one more refresh");
    assert!(!state.finish_refresh());
    assert!(state.begin_refresh());
}

// MARK: - apply

#[test]
fn apply_sets_all_snapshot_fields() {
    let mut state = GitPaneState::new();
    let snapshot = GitSnapshot {
        items: vec![ChangedFileItem {
            path: "a.txt".into(),
            section: FileSection::Staged,
            adds: Some(1),
            dels: Some(0),
        }],
        whole_text: Some("hello".to_string()),
        load_error: None,
    };
    state.apply(snapshot);
    assert_eq!(state.items.len(), 1);
    assert_eq!(state.whole_text.as_deref(), Some("hello"));
    assert!(state.load_error.is_none());
}

#[test]
fn apply_with_a_load_error_clears_stale_content() {
    let mut state = GitPaneState::new();
    state.items = vec![ChangedFileItem {
        path: "a.txt".into(),
        section: FileSection::Staged,
        adds: None,
        dels: None,
    }];
    state.apply(GitSnapshot {
        items: Vec::new(),
        whole_text: None,
        load_error: Some("not a git repository".to_string()),
    });
    assert!(state.items.is_empty());
    assert_eq!(state.load_error.as_deref(), Some("not a git repository"));
}

#[test]
fn branch_bar_shows_the_branch_or_a_dash_and_nonzero_counts() {
    assert_eq!(branch_label(Some("main".to_string())), "main");
    assert_eq!(branch_label(None), "-");
    assert_eq!(
        ahead_behind_marks(3, 0),
        (Some("\u{2191}3".to_string()), None)
    );
    assert_eq!(
        ahead_behind_marks(0, 12),
        (None, Some("\u{2193}12".to_string()))
    );
    assert_eq!(ahead_behind_marks(0, 0), (None, None));
}
