use bony::build::git_workspace::{parse_porcelain_z, slug, ChangeKind, GitOutput, GitWorkspaceService};

#[test]
fn parses_changes() {
    let rows = parse_porcelain_z(b" M src/a.rs\0?? new.txt\0R  next.rs\0old.rs\0").unwrap();
    assert_eq!(rows.len(), 3);
    assert_eq!(rows[1].kind, ChangeKind::Untracked);
    assert_eq!(rows[2].old_path.as_deref(), Some("old.rs"));
}

#[test]
fn safe_slug() {
    assert_eq!(slug("Fix: login flow!"), "fix-login-flow");
    assert_eq!(slug("中文"), "task");
}

#[test]
fn porcelain_kinds_and_staging() {
    let rows = parse_porcelain_z(b"A  a\0 D b\0UU c\0MM d\0").unwrap();
    assert_eq!(rows[0].kind, ChangeKind::Added);
    assert!(rows[0].staged);
    assert_eq!(rows[1].kind, ChangeKind::Deleted);
    assert!(!rows[1].staged);
    assert_eq!(rows[2].kind, ChangeKind::Conflicted);
    assert_eq!(rows[3].kind, ChangeKind::Modified);
    assert_eq!(rows[3].path, "d");
}

#[test]
fn short_porcelain_field_is_an_error() {
    assert_eq!(parse_porcelain_z(b"?? \0").unwrap_err(), "无效的 git status 输出");
}

#[test]
fn slug_keeps_five_words() {
    assert_eq!(slug("a b c d e f g"), "a-b-c-d-e");
}

#[test]
fn git_outputs_are_read() {
    let ok = GitOutput { success: true, stdout: b"  /repo/path\n".to_vec(), stderr: vec![] };
    assert_eq!(GitWorkspaceService::repo_root(&ok).as_deref(), Some("/repo/path"));
    let failed = GitOutput { success: false, stdout: vec![], stderr: b"fatal".to_vec() };
    assert_eq!(GitWorkspaceService::repo_root(&failed), None);
    assert_eq!(GitWorkspaceService::stage(&failed).unwrap_err(), "fatal");
    assert!(GitWorkspaceService::unstage(&ok).is_ok());
    assert_eq!(GitWorkspaceService::changes(&failed).unwrap_err(), "fatal");
    let status = GitOutput { success: true, stdout: b"?? x.txt\0".to_vec(), stderr: vec![] };
    assert_eq!(GitWorkspaceService::changes(&status).unwrap().len(), 1);
    let common = GitOutput { success: true, stdout: b"/repo/.git\n".to_vec(), stderr: vec![] };
    assert_eq!(GitWorkspaceService::primary_repo_root(&common).as_deref(), Some("/repo"));
}

#[test]
fn diff_arguments_and_result() {
    assert_eq!(
        GitWorkspaceService::diff_args(None, false),
        vec!["diff", "--no-ext-diff", "--no-color"]
    );
    assert_eq!(
        GitWorkspaceService::diff_args(Some("src/a.rs"), true),
        vec!["diff", "--no-ext-diff", "--no-color", "--cached", "--", "src/a.rs"]
    );
    let ok = GitOutput { success: true, stdout: b"+added\n".to_vec(), stderr: vec![] };
    assert_eq!(GitWorkspaceService::diff(&ok), Ok("+added\n".to_string()));
    let bad = GitOutput { success: false, stdout: vec![], stderr: b"fatal: bad\xff".to_vec() };
    assert_eq!(GitWorkspaceService::diff(&bad), Err("fatal: bad\u{fffd}".to_string()));
}

#[test]
fn primary_root_of_absolute_folders() {
    let unix = GitOutput { success: true, stdout: b"  /srv/app/.git\n".to_vec(), stderr: vec![] };
    assert_eq!(GitWorkspaceService::primary_repo_root(&unix).as_deref(), Some("/srv/app"));
    let drive = GitOutput { success: true, stdout: b"C:/work/.git\n".to_vec(), stderr: vec![] };
    assert!(GitWorkspaceService::primary_repo_root(&drive).is_some());
    let root = GitOutput { success: true, stdout: b"/\n".to_vec(), stderr: vec![] };
    assert_eq!(GitWorkspaceService::primary_repo_root(&root), None);
    let failed = GitOutput { success: false, stdout: b"/srv/app/.git\n".to_vec(), stderr: vec![] };
    assert_eq!(GitWorkspaceService::primary_repo_root(&failed), None);
}

#[test]
fn primary_root_is_the_text_before_the_last_slash() {
    let nested = GitOutput { success: true, stdout: b"/home/me/repo/.git\n".to_vec(), stderr: vec![] };
    assert_eq!(GitWorkspaceService::primary_repo_root(&nested).as_deref(), Some("/home/me/repo"));
    let top = GitOutput { success: true, stdout: b"/.git".to_vec(), stderr: vec![] };
    assert_eq!(GitWorkspaceService::primary_repo_root(&top).as_deref(), Some("/"));
}

#[test]
fn status_entries_with_a_two_byte_code() {
    // "é" fills the two bytes of the status code; the path starts at byte 3.
    let out = GitOutput { success: true, stdout: "é x.txt\0".as_bytes().to_vec(), stderr: vec![] };
    let list = GitWorkspaceService::changes(&out).unwrap();
    assert_eq!(list.len(), 1);
    assert_eq!(list[0].path, "x.txt");
    assert!(GitWorkspaceService::checked_changes(&out).is_some());
    // A three-byte character across bytes 2 and 3 cannot be cut there.
    let bad = GitOutput { success: true, stdout: "M中x.txt\0".as_bytes().to_vec(), stderr: vec![] };
    assert!(GitWorkspaceService::checked_changes(&bad).is_none());
}
