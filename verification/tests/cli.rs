use labolabo_app::cli::{parse_args, split_trailing_command, Subcommand};

fn args(s: &[&str]) -> Vec<String> {
    s.iter().map(|s| s.to_string()).collect()
}

#[test]
fn split_trailing_command_no_dashdash() {
    let args = vec!["tab".to_string(), "open".to_string()];
    let (head, tail) = split_trailing_command(&args);
    assert_eq!(head, &args[..]);
    assert_eq!(tail, None);
}

#[test]
fn split_trailing_command_splits_at_dashdash() {
    let args = vec![
        "tab".to_string(),
        "open".to_string(),
        "--".to_string(),
        "htop".to_string(),
        "-p".to_string(),
    ];
    let (head, tail) = split_trailing_command(&args);
    assert_eq!(head, &["tab".to_string(), "open".to_string()]);
    assert_eq!(tail, Some(&["htop".to_string(), "-p".to_string()][..]));
}

#[test]
fn split_trailing_command_uses_the_first_separator_only() {
    let args = args(&["tab", "open", "--", "sh", "--", "x"]);
    let (head, tail) = split_trailing_command(&args);
    assert_eq!(head, &["tab".to_string(), "open".to_string()]);
    assert_eq!(tail, Some(&["sh".to_string(), "--".to_string(), "x".to_string()][..]));
}

#[test]
fn parses_tab_open_with_all_flags_and_trailing_command() {
    let (sub, parsed) = parse_args(&args(&[
        "--socket",
        "/tmp/s.sock",
        "tab",
        "open",
        "--task",
        "t1",
        "--title",
        "notes",
        "--json",
        "--",
        "htop",
        "-p",
    ]))
    .unwrap();
    assert_eq!(sub, Subcommand::TabOpen);
    assert_eq!(parsed.socket.as_deref(), Some("/tmp/s.sock"));
    assert_eq!(parsed.task.as_deref(), Some("t1"));
    assert_eq!(parsed.title.as_deref(), Some("notes"));
    assert!(parsed.json);
    assert_eq!(
        parsed.command_argv,
        Some(vec!["htop".to_string(), "-p".to_string()])
    );
}

#[test]
fn parses_tab_open_with_no_flags() {
    let (sub, parsed) = parse_args(&args(&["tab", "open"])).unwrap();
    assert_eq!(sub, Subcommand::TabOpen);
    assert_eq!(parsed.task, None);
    assert_eq!(parsed.command_argv, None);
}

#[test]
fn parses_task_list() {
    let (sub, _parsed) = parse_args(&args(&["task", "list", "--json"])).unwrap();
    assert_eq!(sub, Subcommand::TaskList);
}

#[test]
fn parses_tab_list_with_all() {
    let (sub, parsed) = parse_args(&args(&["tab", "list", "--all"])).unwrap();
    assert_eq!(sub, Subcommand::TabList);
    assert!(parsed.all);
}

#[test]
fn parses_focus_with_task() {
    let (sub, parsed) = parse_args(&args(&["focus", "--task", "t1"])).unwrap();
    assert_eq!(sub, Subcommand::Focus);
    assert_eq!(parsed.task.as_deref(), Some("t1"));
}

#[test]
fn parses_focus_with_pane() {
    let (sub, parsed) = parse_args(&args(&["focus", "--pane", "p1"])).unwrap();
    assert_eq!(sub, Subcommand::Focus);
    assert_eq!(parsed.pane.as_deref(), Some("p1"));
}

#[test]
fn focus_requires_exactly_one_of_task_or_pane() {
    assert!(parse_args(&args(&["focus"])).is_err());
    assert!(parse_args(&args(&["focus", "--task", "t1", "--pane", "p1"])).is_err());
}

#[test]
fn missing_subcommand_is_an_error() {
    assert!(parse_args(&args(&["--json"])).is_err());
}

#[test]
fn unknown_subcommand_is_an_error() {
    assert!(parse_args(&args(&["bogus"])).is_err());
}

#[test]
fn unknown_flag_is_an_error() {
    assert!(parse_args(&args(&["task", "list", "--bogus"])).is_err());
}

#[test]
fn trailing_command_only_valid_for_tab_open() {
    assert!(parse_args(&args(&["task", "list", "--", "echo", "hi"])).is_err());
}

#[test]
fn tab_open_rejects_all_and_pane_flags() {
    assert!(parse_args(&args(&["tab", "open", "--all"])).is_err());
    assert!(parse_args(&args(&["tab", "open", "--pane", "p1"])).is_err());
}

#[test]
fn task_list_rejects_unrelated_flags() {
    assert!(parse_args(&args(&["task", "list", "--task", "t1"])).is_err());
}

#[test]
fn tab_list_rejects_title_and_pane() {
    assert!(parse_args(&args(&["tab", "list", "--title", "x"])).is_err());
    assert!(parse_args(&args(&["tab", "list", "--pane", "p1"])).is_err());
}

#[test]
fn flag_missing_its_value_is_an_error() {
    assert!(parse_args(&args(&["tab", "open", "--task"])).is_err());
}

#[test]
fn error_messages_name_the_problem() {
    let err = |a: &[&str]| parse_args(&args(a)).unwrap_err();
    assert_eq!(err(&["tab", "open", "--task"]), "--task requires a value");
    assert_eq!(err(&["task", "list", "--bogus"]), "unknown flag: --bogus");
    assert_eq!(err(&["--json"]), "missing subcommand");
    assert_eq!(err(&["tab", "close", "now"]), "unknown subcommand: tab close now");
    assert_eq!(
        err(&["task", "list", "--", "echo"]),
        "-- <command...> is only valid for `tab open`"
    );
    assert_eq!(err(&["focus"]), "focus: --task or --pane is required");
    assert_eq!(
        err(&["focus", "--task", "t", "--pane", "p"]),
        "focus: specify exactly one of --task/--pane, not both"
    );
    assert_eq!(
        err(&["focus", "--task", "t", "--all"]),
        "--title/--all/-- <command...> are not valid for `focus`"
    );
    assert_eq!(
        err(&["task", "list", "--all"]),
        "`task list` takes no --task/--title/--all/--pane flags"
    );
}

#[test]
fn a_repeated_flag_keeps_its_last_value_and_a_dash_value_is_taken_verbatim() {
    let (_, parsed) = parse_args(&args(&["tab", "open", "--task", "a", "--task", "--json"])).unwrap();
    assert_eq!(parsed.task.as_deref(), Some("--json"));
    assert!(!parsed.json);
}

#[test]
fn trailing_command_is_kept_verbatim_including_flags() {
    let (_, parsed) = parse_args(&args(&["tab", "open", "--", "ls", "--all", "--"])).unwrap();
    assert_eq!(
        parsed.command_argv,
        Some(vec!["ls".to_string(), "--all".to_string(), "--".to_string()])
    );
    assert!(!parsed.all);
}

// --- build_request ---------------------------------------------------------

use labolabo_app::cli::{build_request, human_success_lines};
use labolabo_app::json::{parse_json, JsonValue};

fn param<'a>(v: &'a JsonValue, key: &str) -> &'a JsonValue {
    match v {
        JsonValue::Object(m) => &m.iter().find(|(k, _)| k == key).expect("member present").1,
        _ => panic!("params is not an object"),
    }
}

#[test]
fn build_request_tab_open_resolves_current_task_to_null() {
    let (sub, parsed) = parse_args(&args(&["tab", "open", "--task", "current"])).unwrap();
    let request = build_request(sub, &parsed);
    assert_eq!(request.command, "tab_open");
    assert!(matches!(param(&request.params, "task"), JsonValue::Null));
}

#[test]
fn build_request_tab_open_keeps_an_explicit_task_id() {
    let (sub, parsed) = parse_args(&args(&["tab", "open", "--task", "t1"])).unwrap();
    let request = build_request(sub, &parsed);
    assert!(matches!(param(&request.params, "task"), JsonValue::Str(s) if s == "t1"));
}

#[test]
fn build_request_focus_keeps_task_literal_even_when_current() {
    let (sub, parsed) = parse_args(&args(&["focus", "--task", "current"])).unwrap();
    let request = build_request(sub, &parsed);
    assert!(matches!(param(&request.params, "task"), JsonValue::Str(s) if s == "current"));
}

#[test]
fn build_request_task_list_has_empty_params() {
    let (sub, parsed) = parse_args(&args(&["task", "list"])).unwrap();
    let request = build_request(sub, &parsed);
    assert!(matches!(&request.params, JsonValue::Object(m) if m.is_empty()));
}

#[test]
fn build_request_tab_open_carries_title_and_command() {
    let (sub, parsed) =
        parse_args(&args(&["tab", "open", "--title", "t", "--", "ls", "-l"])).unwrap();
    let request = build_request(sub, &parsed);
    assert!(matches!(param(&request.params, "title"), JsonValue::Str(s) if s == "t"));
    match param(&request.params, "command") {
        JsonValue::Array(items) => {
            let words: Vec<&str> = items
                .iter()
                .map(|x| match x {
                    JsonValue::Str(s) => s.as_str(),
                    _ => panic!("not a string"),
                })
                .collect();
            assert_eq!(words, vec!["ls", "-l"]);
        }
        _ => panic!("command is not an array"),
    }
    let (sub, parsed) = parse_args(&args(&["tab", "list", "--all"])).unwrap();
    let request = build_request(sub, &parsed);
    assert_eq!(request.command, "tab_list");
    assert!(matches!(param(&request.params, "all"), JsonValue::Bool(true)));
    assert!(matches!(param(&request.params, "task"), JsonValue::Null));
}

// --- human_success_lines -------------------------------------------------------

#[test]
fn success_without_a_result_prints_ok() {
    assert_eq!(human_success_lines(Subcommand::TaskList, None), vec!["ok".to_string()]);
}

#[test]
fn success_lines_describe_what_was_opened_focused_and_listed() {
    let opened = parse_json(r#"{"pane_id":"p1","task_id":"t1"}"#).unwrap();
    assert_eq!(
        human_success_lines(Subcommand::TabOpen, Some(&opened)),
        vec!["opened pane p1 in task t1".to_string()]
    );
    let partial = parse_json(r#"{"task_id":"t1"}"#).unwrap();
    assert_eq!(
        human_success_lines(Subcommand::TabOpen, Some(&partial)),
        vec!["opened pane ? in task t1".to_string()]
    );
    assert_eq!(
        human_success_lines(Subcommand::Focus, Some(&partial)),
        vec!["focused task t1".to_string()]
    );
    assert_eq!(
        human_success_lines(Subcommand::Focus, Some(&opened)),
        vec!["focused pane p1 in task t1".to_string()]
    );

    let tasks = parse_json(
        r#"{"tasks":[{"id":"t1","title":"fix","kind":"worktree","repo_name":"app"},{"id":"t2"}]}"#,
    )
    .unwrap();
    assert_eq!(
        human_success_lines(Subcommand::TaskList, Some(&tasks)),
        vec!["t1  [worktree]  fix  (app)".to_string(), "t2  [?]  ?  (?)".to_string()]
    );
    let none = parse_json(r#"{"tasks":[]}"#).unwrap();
    assert_eq!(
        human_success_lines(Subcommand::TaskList, Some(&none)),
        vec!["(no tasks)".to_string()]
    );

    let tabs = parse_json(
        r#"{"tabs":[{"task_id":"t1","pane_id":"p1","title":"sh","kind":"shell","focused":true},{"task_id":"t1","title":"x","kind":"agent"}]}"#,
    )
    .unwrap();
    assert_eq!(
        human_success_lines(Subcommand::TabList, Some(&tabs)),
        vec!["* t1  p1  [shell]  sh".to_string(), "  t1  -  [agent]  x".to_string()]
    );
    let no_tabs = parse_json(r#"{"other":1}"#).unwrap();
    assert_eq!(
        human_success_lines(Subcommand::TabList, Some(&no_tabs)),
        vec!["(no tabs)".to_string()]
    );
}
