use labolabo_app::hooks::{
    injection_paths, needs_backup, restore_action, InjectedDir, InjectionLedger, PaneRoutes, RestoreAction,
};

#[test]
fn resolve_pane_returns_none_for_an_unregistered_uuid() {
    let routes = PaneRoutes::new();
    assert!(routes.resolve_pane("no-such-uuid").is_none());
}

#[test]
fn register_then_resolve_pane_round_trips() {
    let mut routes = PaneRoutes::new();
    routes.register_pane("uuid-1".to_string(), "task-1".to_string(), 7);
    let route = routes.resolve_pane("uuid-1").expect("registered");
    assert_eq!(route.task_id, "task-1");
    assert_eq!(route.pane_id, 7);
}

#[test]
fn unregister_pane_removes_the_route() {
    let mut routes = PaneRoutes::new();
    routes.register_pane("uuid-1".to_string(), "task-1".to_string(), 7);
    routes.unregister_pane("uuid-1");
    assert!(routes.resolve_pane("uuid-1").is_none());
}

#[test]
fn registering_the_same_uuid_twice_overwrites_the_route() {
    let mut routes = PaneRoutes::new();
    routes.register_pane("uuid-1".to_string(), "task-1".to_string(), 7);
    routes.register_pane("uuid-1".to_string(), "task-2".to_string(), 8);
    let route = routes.resolve_pane("uuid-1").unwrap();
    assert_eq!(route.task_id, "task-2");
    assert_eq!(route.pane_id, 8);
}

#[test]
fn other_routes_survive_registering_and_unregistering_one() {
    let mut routes = PaneRoutes::new();
    routes.register_pane("a".to_string(), "t".to_string(), 1);
    routes.register_pane("b".to_string(), "t".to_string(), 2);
    routes.register_pane("a".to_string(), "u".to_string(), 3);
    routes.unregister_pane("missing");
    assert_eq!(routes.resolve_pane("b").unwrap().pane_id, 2);
    routes.unregister_pane("a");
    assert!(routes.resolve_pane("a").is_none());
    assert_eq!(routes.resolve_pane("b").unwrap().pane_id, 2);
}

#[test]
fn restore_decisions_follow_backup_then_creation() {
    assert_eq!(restore_action(true, true), RestoreAction::RestoreBackup);
    assert_eq!(restore_action(true, false), RestoreAction::RestoreBackup);
    assert_eq!(restore_action(false, true), RestoreAction::RemoveCreated);
    assert_eq!(restore_action(false, false), RestoreAction::LeaveAlone);
    assert!(needs_backup(false, true));
    assert!(!needs_backup(true, true));
    assert!(!needs_backup(false, false));
}

#[test]
fn settings_file_and_backup_live_in_the_agent_settings_directory() {
    let (dir, settings, backup) = injection_paths("/work", ".agent");
    assert_eq!(dir, "/work/.agent");
    assert_eq!(settings, "/work/.agent/settings.local.json");
    assert_eq!(backup, "/work/.agent/settings.local.json.labolabo-bak");
}

fn injected(settings: &str, backup: &str, created: bool) -> InjectedDir {
    InjectedDir {
        settings_path: settings.to_string(),
        backup_path: backup.to_string(),
        created,
    }
}

#[test]
fn a_directory_is_injected_once() {
    let mut ledger = InjectionLedger::new();
    let paths = ledger.begin_injection(true, "/w", "agent").expect("first injection");
    assert_eq!(
        paths,
        (
            "/w/agent".to_string(),
            "/w/agent/settings.local.json".to_string(),
            "/w/agent/settings.local.json.labolabo-bak".to_string(),
        )
    );
    ledger.finish_injection("/w".to_string(), injected(&paths.1, &paths.2, false));
    assert!(ledger.is_injected("/w"));
    assert_eq!(ledger.begin_injection(true, "/w", "agent"), None);
    assert!(ledger.begin_injection(true, "/other", "agent").is_some());
}

#[test]
fn without_a_forwarder_nothing_is_injected() {
    let ledger = InjectionLedger::new();
    assert_eq!(ledger.begin_injection(false, "/w", "agent"), None);
}

#[test]
fn restore_steps_follow_injection_order_and_backups() {
    let mut ledger = InjectionLedger::new();
    ledger.finish_injection("/a".to_string(), injected("/a/s", "/a/b", false));
    ledger.finish_injection("/b".to_string(), injected("/b/s", "/b/b", true));
    ledger.finish_injection("/c".to_string(), injected("/c/s", "/c/b", false));
    // Finishing a directory again keeps its first entry.
    ledger.finish_injection("/a".to_string(), injected("/x/s", "/x/b", true));
    assert_eq!(ledger.backup_paths(), vec!["/a/b", "/b/b", "/c/b"]);
    let steps = ledger.restore_steps(&[true, false, false]);
    assert_eq!(steps.len(), 3);
    assert_eq!(steps[0].action, RestoreAction::RestoreBackup);
    assert_eq!(steps[0].settings_path, "/a/s");
    assert_eq!(steps[0].backup_path, "/a/b");
    assert_eq!(steps[1].action, RestoreAction::RemoveCreated);
    assert_eq!(steps[2].action, RestoreAction::LeaveAlone);
}
