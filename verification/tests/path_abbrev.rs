use labolabo_app::path_abbrev::{abbreviate_if_path, abbreviate_path, MAX_DISPLAY_CHARS};

const HOME: Option<&str> = Some("/Users/me");

#[test]
fn short_home_relative_path_gets_tilde_but_no_elision() {
    assert_eq!(abbreviate_path("/Users/me/projects/app", HOME), "~/projects/app");
}

#[test]
fn home_itself_becomes_a_bare_tilde() {
    assert_eq!(abbreviate_path("/Users/me", HOME), "~");
}

#[test]
fn a_sibling_directory_sharing_the_home_prefix_is_not_tilde_substituted() {
    assert_eq!(abbreviate_path("/Users/me2/x", HOME), "/Users/me2/x");
}

#[test]
fn short_path_outside_home_is_returned_verbatim() {
    assert_eq!(abbreviate_path("/opt/work/repo", HOME), "/opt/work/repo");
    assert_eq!(abbreviate_path("/tmp", None), "/tmp");
}

#[test]
fn deep_home_path_is_middle_elided_to_first_plus_last_two() {
    assert_eq!(
        abbreviate_path("/Users/me/ghq/github.com/lapras-inc/lapras", HOME),
        "~/ghq/\u{2026}/lapras-inc/lapras"
    );
}

#[test]
fn deep_non_home_path_keeps_the_absolute_root() {
    assert_eq!(
        abbreviate_path("/Volumes/external/backups/2026/projects/repo-name", HOME),
        "/Volumes/\u{2026}/projects/repo-name"
    );
}

#[test]
fn long_but_shallow_path_is_not_elided() {
    let path = "/aaaaaaaaaaaaaaaaaaaa/bbbbbbbbbbbbbbbbbbbb/cccc";
    assert_eq!(abbreviate_path(path, HOME), path);
}

#[test]
fn falls_back_to_ellipsis_plus_last_two_when_still_too_long() {
    let path = "/first-component-is-quite-long/x/y/component-b/component-c-is-long";
    assert_eq!(abbreviate_path(path, None), "\u{2026}/component-b/component-c-is-long");
}

#[test]
fn japanese_path_counts_characters_not_bytes() {
    assert_eq!(abbreviate_path("/Users/me/書類/開発/アプリ", HOME), "~/書類/開発/アプリ");
    assert_eq!(
        abbreviate_path(
            "/Users/me/とても長いディレクトリ名/中間の階層をいくつも/挟んだ/最後のプロジェクト/リポジトリ",
            HOME
        ),
        "~/とても長いディレクトリ名/\u{2026}/最後のプロジェクト/リポジトリ"
    );
}

#[test]
fn backslash_paths_are_elided_with_backslashes() {
    assert_eq!(
        abbreviate_path(r"C:\Users\me\ghq\github.com\lapras-inc\lapras-long-repo", None),
        "C:\\\u{2026}\\lapras-inc\\lapras-long-repo"
    );
}

#[test]
fn repo_names_are_left_alone() {
    assert_eq!(abbreviate_if_path("owner/repo", HOME), "owner/repo");
    assert_eq!(abbreviate_if_path("labolabo", HOME), "labolabo");
}

#[test]
fn absolute_paths_are_abbreviated() {
    assert_eq!(
        abbreviate_if_path("/Users/me/ghq/github.com/lapras-inc/lapras", HOME),
        "~/ghq/\u{2026}/lapras-inc/lapras"
    );
}

#[test]
fn windows_drive_paths_are_recognized_as_paths() {
    assert_eq!(
        abbreviate_if_path(r"C:\Users\me\ghq\github.com\lapras-inc\repo", None),
        "C:\\\u{2026}\\lapras-inc\\repo"
    );
}

#[test]
fn empty_home_never_substitutes() {
    assert_eq!(abbreviate_path("/x", Some("")), "/x");
}

#[test]
fn threshold_is_thirty_two_characters() {
    assert_eq!(MAX_DISPLAY_CHARS, 32);
    let exactly = "/aaaa/bbbb/cccc/dddd/eeee/ffffff";
    assert_eq!(exactly.chars().count(), 32);
    assert_eq!(abbreviate_path(exactly, None), exactly);
    let one_more = "/aaaa/bbbb/cccc/dddd/eeee/fffffff";
    assert_eq!(abbreviate_path(one_more, None), "/aaaa/\u{2026}/eeee/fffffff");
}

#[test]
fn repeated_separators_do_not_make_empty_components() {
    assert_eq!(
        abbreviate_path("/aaaaaaaa//bbbbbbbb/cccccccc///dddddddd/eeee", None),
        "/aaaaaaaa/\u{2026}/dddddddd/eeee"
    );
}
