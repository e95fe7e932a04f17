use labolabo_app::ide_open::{
    detected_from_mdfind, editor_candidates, installed_editors, is_installed_output, mdfind_query,
    open_in_editor_args, open_result, reveal_in_finder_args, ProcessOutput,
};

#[test]
fn candidates_match_the_swift_list() {
    let ids: Vec<&str> = editor_candidates().iter().map(|c| c.bundle_id).collect();
    assert_eq!(
        ids,
        vec![
            "com.microsoft.VSCode",
            "com.todesktop.230313mzl4w4u92",
            "dev.zed.Zed",
            "com.sublimetext.4",
            "Fleet",
            "com.apple.dt.Xcode",
        ]
    );
}

#[test]
fn mdfind_output_nonempty_means_installed() {
    assert!(is_installed_output("/Applications/Zed.app\n"));
    assert!(is_installed_output("/Applications/Zed.app\n/Users/x/Applications/Zed.app\n"));
    assert!(!is_installed_output(""));
    assert!(!is_installed_output("\n"));
    assert!(!is_installed_output("   \n"));
}

#[test]
fn installed_editors_filters_by_detection_preserving_order() {
    let detected = [true, false, true, false, false, false];
    let installed = installed_editors(&detected);
    assert_eq!(
        installed.iter().map(|c| c.name).collect::<Vec<_>>(),
        vec!["Visual Studio Code", "Zed"]
    );
}

#[test]
fn installed_editors_with_all_false_is_empty() {
    assert!(installed_editors(&[false; 6]).is_empty());
}

#[test]
fn installed_editors_tolerates_short_detection_slice() {
    let installed = installed_editors(&[true]);
    assert_eq!(installed.len(), 1);
    assert_eq!(installed[0].name, "Visual Studio Code");
}

#[test]
fn installed_editors_ignores_extra_detection_entries() {
    let installed = installed_editors(&[false, false, false, false, false, true, true, true]);
    assert_eq!(installed.len(), 1);
    assert_eq!(installed[0].bundle_id, "com.apple.dt.Xcode");
}

#[test]
fn unicode_whitespace_only_output_is_not_installed() {
    assert!(!is_installed_output("\u{3000}\u{a0}\t"));
    assert!(is_installed_output("\u{3000}x"));
}

#[test]
fn mdfind_query_quotes_the_bundle_id() {
    assert_eq!(mdfind_query("dev.zed.Zed"), "kMDItemCFBundleIdentifier == 'dev.zed.Zed'");
}

#[test]
fn detection_requires_a_zero_exit_and_output() {
    let ok = |status: i32, out: &str| {
        Ok(ProcessOutput { status, stdout: out.to_string(), stderr: String::new() })
    };
    assert!(detected_from_mdfind(&ok(0, "/Applications/Zed.app\n")));
    assert!(!detected_from_mdfind(&ok(1, "/Applications/Zed.app\n")));
    assert!(!detected_from_mdfind(&ok(0, " \n")));
    assert!(!detected_from_mdfind(&Err("spawn failed".to_string())));
}

#[test]
fn open_arguments() {
    assert_eq!(open_in_editor_args("dev.zed.Zed", "/work/repo"), vec!["-b", "dev.zed.Zed", "/work/repo"]);
    assert_eq!(reveal_in_finder_args("/work/repo"), vec!["-R", "/work/repo"]);
}

#[test]
fn open_result_messages() {
    let args = open_in_editor_args("dev.zed.Zed", "/work/repo");
    let success = open_result(&args, Ok(ProcessOutput { status: 0, stdout: String::new(), stderr: String::new() }));
    assert_eq!(success, Ok(()));
    let failed = open_result(
        &args,
        Ok(ProcessOutput { status: 1, stdout: String::new(), stderr: "  no app\n".to_string() }),
    );
    assert_eq!(failed, Err("open -b dev.zed.Zed /work/repo failed (exit 1): no app".to_string()));
    let negative = open_result(
        &args,
        Ok(ProcessOutput { status: -9, stdout: String::new(), stderr: String::new() }),
    );
    assert_eq!(negative, Err("open -b dev.zed.Zed /work/repo failed (exit -9): ".to_string()));
    let launch = open_result(&args, Err("No such file".to_string()));
    assert_eq!(launch, Err("failed to launch open: No such file".to_string()));
}
