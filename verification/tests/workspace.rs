use labolabo_app::workspace::{initial_selection, pane_startup_command};

fn ids(list: &[&str]) -> Vec<String> {
    list.iter().map(|s| s.to_string()).collect()
}

#[test]
fn the_persisted_selection_is_kept_while_its_task_exists() {
    let tasks = ids(&["a", "b", "c"]);
    assert_eq!(initial_selection(Some("b".to_string()), &tasks), Some("b".to_string()));
}

#[test]
fn a_stale_or_missing_selection_falls_back_to_the_first_task() {
    let tasks = ids(&["a", "b"]);
    assert_eq!(initial_selection(Some("gone".to_string()), &tasks), Some("a".to_string()));
    assert_eq!(initial_selection(None, &tasks), Some("a".to_string()));
    assert_eq!(initial_selection(Some("a".to_string()), &Vec::new()), None);
}

#[test]
fn an_explicit_command_wins_over_resuming() {
    assert_eq!(
        pane_startup_command(Some("htop".to_string()), true, Some("resume".to_string())),
        Some("htop".to_string())
    );
}

#[test]
fn resume_only_with_auto_resume_on_and_a_session_to_resume() {
    assert_eq!(
        pane_startup_command(None, true, Some("resume".to_string())),
        Some("resume".to_string())
    );
    assert_eq!(pane_startup_command(None, false, Some("resume".to_string())), None);
    assert_eq!(pane_startup_command(None, true, None), None);
}
