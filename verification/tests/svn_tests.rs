use svu::auth::Credentials;
use svu::svn::{add, apply_patch, change_diff, revert, status, update, SvnCmd};

#[test]
fn builder_collects_arguments_in_order() {
    let cmd = SvnCmd::new("log")
        .arg("--xml")
        .arg_if(false, "--stop-on-copy")
        .arg_if(true, "--quiet")
        .opt_arg(&Some("--limit=1".to_string()))
        .opt_arg(&None);
    assert_eq!(cmd.name.as_str(), "log");
    assert_eq!(cmd.args, vec!["--xml", "--quiet", "--limit=1"]);
    assert!(cmd.cwd.is_none());
}

#[test]
fn builder_keeps_an_existing_cwd() {
    let cmd = SvnCmd::new("info")
        .with_cwd(Some("/work".to_string()))
        .with_cwd(None);
    assert_eq!(cmd.cwd.as_deref(), Some("/work"));
}

#[test]
fn credentials_become_two_arguments() {
    let creds = Some(Credentials("user".to_string(), "secret".to_string()));
    let cmd = SvnCmd::new("info").with_creds(&creds).arg("^/");
    assert_eq!(cmd.args, vec!["--username=user", "--password=secret", "^/"]);

    let bare = SvnCmd::new("info").with_creds(&None).arg("^/");
    assert_eq!(bare.args, vec!["^/"]);
}

#[test]
fn args_appends_a_whole_list() {
    let paths = vec!["a.txt".to_string(), "b.txt".to_string()];
    let cmd = SvnCmd::new("add").args(&paths);
    assert_eq!(cmd.args, vec!["a.txt", "b.txt"]);
}

#[test]
fn update_pins_depth_and_revision() {
    let cmd = update(42, "infinity", Some("/wc".to_string()));
    assert_eq!(cmd.name.as_str(), "update");
    assert_eq!(cmd.args, vec!["--depth=infinity", "--revision=42"]);
    assert_eq!(cmd.cwd.as_deref(), Some("/wc"));
}

#[test]
fn status_asks_for_xml() {
    let cmd = status(".", None);
    assert_eq!(cmd.name.as_str(), "status");
    assert_eq!(cmd.args, vec!["--xml", "."]);
}

#[test]
fn add_controls_auto_props() {
    let paths = vec!["x".to_string()];
    let with = add(&paths, "empty", true, None);
    assert_eq!(with.args, vec!["--depth=empty", "--auto-props", "x"]);
    let without = add(&paths, "empty", false, None);
    assert_eq!(without.args, vec!["--depth=empty", "--no-auto-props", "x"]);
}

#[test]
fn revert_controls_remove_added() {
    let paths = vec!["x".to_string()];
    let with = revert(&paths, "infinity", true, None);
    assert_eq!(
        with.args,
        vec!["--depth=infinity", "--remove-added", "x"]
    );
    let without = revert(&paths, "infinity", false, None);
    assert_eq!(without.args, vec!["--depth=infinity", "x"]);
}

#[test]
fn apply_patch_controls_dry_run() {
    let dry = apply_patch("fix.patch", true, None);
    assert_eq!(dry.name.as_str(), "patch");
    assert_eq!(dry.args, vec!["--dry-run", "fix.patch"]);
    let wet = apply_patch("fix.patch", false, None);
    assert_eq!(wet.args, vec!["fix.patch"]);
}

#[test]
fn change_diff_names_the_commit() {
    let cmd = change_diff(&None, ".", 1234);
    assert_eq!(cmd.name.as_str(), "diff");
    assert_eq!(cmd.args, vec!["--change", "1234", "."]);
}
