use augur_workspace::branch_ops::{
    apply_patch_args, delete_args, delete_remote_args, merge_args, rename_args, rename_remote_args,
    stash_drop_args, stash_pop_args, validate_branch_name, NameError,
};
use augur_workspace::push_upstream::{
    default_push_remote, push_error_missing_upstream, push_set_upstream_args, push_upstream_offer,
};

fn existing(names: &[&str]) -> Vec<String> {
    names.iter().map(|name| name.to_string()).collect()
}

#[test]
fn accepts_common_branch_names() {
    let refs = existing(&["main", "feature/one"]);
    assert_eq!(validate_branch_name("dev", &refs, None), None);
    assert_eq!(validate_branch_name("feature/two", &refs, None), None);
    assert_eq!(validate_branch_name("v1.2.3", &refs, None), None);
    assert_eq!(validate_branch_name("fix_bug-1", &refs, None), None);
    assert_eq!(validate_branch_name("topic+.patch", &refs, None), None);
}

#[test]
fn rejects_empty_names() {
    assert_eq!(validate_branch_name("", &[], None), Some(NameError::Empty));
}

#[test]
fn rejects_invalid_ref_syntax() {
    for name in [
        "-dev", ".hidden", "a..b", "a b", "a~b", "a^b", "a:b", "a?b", "a*b", "a[b", "a\\b", "a@{b",
        "a.lock", "a/", "a.", "/a", "a//b",
    ] {
        assert_eq!(
            validate_branch_name(name, &[], None),
            Some(NameError::Invalid),
            "expected {name:?} to be rejected"
        );
    }
}

#[test]
fn rejects_existing_branches() {
    let refs = existing(&["main", "feature/one"]);
    assert_eq!(validate_branch_name("main", &refs, None), Some(NameError::Exists));
    assert_eq!(validate_branch_name("feature/one", &refs, None), Some(NameError::Exists));
}

#[test]
fn rename_allows_keeping_the_old_name_but_not_other_branches() {
    let refs = existing(&["main", "feature/one"]);
    assert_eq!(
        validate_branch_name("main", &refs, Some("main")),
        None,
        "unchanged old name must stay acceptable"
    );
    assert_eq!(validate_branch_name("feature/one", &refs, Some("main")), Some(NameError::Exists));
}

#[test]
fn rename_args_keep_old_and_new_as_separate_arguments() {
    let (label, args) = rename_args("old", "new");
    assert_eq!(label, "branch -m");
    assert_eq!(args, vec!["branch", "-m", "old", "new"]);
}

#[test]
fn delete_args_cover_branch_force_and_tag_variants() {
    let (label, args) = delete_args("feature", false, false);
    assert_eq!(label, "branch -d");
    assert_eq!(args, vec!["branch", "-d", "feature"]);

    let (label, args) = delete_args("feature", true, false);
    assert_eq!(label, "branch -D");
    assert_eq!(args, vec!["branch", "-D", "feature"]);

    let (label, args) = delete_args("v1.0", false, true);
    assert_eq!(label, "tag -d");
    assert_eq!(args, vec!["tag", "-d", "v1.0"]);
}

#[test]
fn merge_args_toggle_the_no_ff_flag() {
    let (label, args) = merge_args("feature", false);
    assert_eq!(label, "merge");
    assert_eq!(args, vec!["merge", "feature"]);

    let (label, args) = merge_args("feature", true);
    assert_eq!(label, "merge --no-ff");
    assert_eq!(args, vec!["merge", "feature", "--no-ff"]);
}

#[test]
fn stash_pop_args_target_latest_or_explicit_entry() {
    assert_eq!(stash_pop_args(None), vec!["stash", "pop"]);
    assert_eq!(stash_pop_args(Some("stash@{2}")), vec!["stash", "pop", "stash@{2}"]);
}

#[test]
fn stash_drop_args_target_the_explicit_entry() {
    assert_eq!(stash_drop_args("stash@{2}"), vec!["stash", "drop", "stash@{2}"]);
}

#[test]
fn apply_patch_args_pass_the_patch_path_as_one_argument() {
    let (label, args) = apply_patch_args(r"C:\patches\main-to-feature.patch");
    assert_eq!(label, "apply");
    assert_eq!(args, vec!["apply", r"C:\patches\main-to-feature.patch"]);
}

#[test]
fn rename_remote_args_push_new_name_and_delete_old_in_one_push() {
    let (label, args) = rename_remote_args("origin", "old", "new");
    assert_eq!(label, "push --rename");
    assert_eq!(
        args,
        vec!["push", "origin", "refs/remotes/origin/old:refs/heads/new", ":refs/heads/old"]
    );
}

#[test]
fn delete_remote_args_target_the_named_remote() {
    let (label, args) = delete_remote_args("upstream", "feature/one");
    assert_eq!(label, "push --delete");
    assert_eq!(args, vec!["push", "upstream", "--delete", "feature/one"]);
}

#[test]
fn remote_branch_names_pass_ref_validation() {
    assert_eq!(validate_branch_name("feature/one", &[], None), None);
    assert_eq!(validate_branch_name("v1.2.3", &[], None), None);
}

#[test]
fn default_push_remote_prefers_origin_then_first_entry() {
    let multi = vec!["upstream".to_string(), "origin".to_string(), "fork".to_string()];
    assert_eq!(default_push_remote(&multi).as_deref(), Some("origin"));

    let no_origin = vec!["upstream".to_string(), "fork".to_string()];
    assert_eq!(default_push_remote(&no_origin).as_deref(), Some("upstream"));

    let empty: Vec<String> = Vec::new();
    assert_eq!(default_push_remote(&empty), None);
}

#[test]
fn push_error_missing_upstream_matches_git_message_only() {
    let stderr = "fatal: The current branch feature/x has no upstream branch.\n\
To push the current branch and set the remote as upstream, use\n";
    assert!(push_error_missing_upstream(stderr));
    assert!(!push_error_missing_upstream(
        "fatal: unable to access 'https://example.com': connection refused"
    ));
    assert!(!push_error_missing_upstream(""));
}

#[test]
fn push_upstream_offer_skips_detached_tracked_and_remoteless_branches() {
    let remotes = existing(&["fork", "origin"]);
    assert_eq!(push_upstream_offer("feature", &None, &remotes).as_deref(), Some("origin"));
    assert_eq!(push_upstream_offer("", &None, &remotes), None);
    assert_eq!(push_upstream_offer("HEAD (detached)", &None, &remotes), None);
    assert_eq!(push_upstream_offer("feature", &Some("origin/feature".into()), &remotes), None);
    assert_eq!(push_upstream_offer("feature", &None, &[]), None);
    let (label, args) = push_set_upstream_args("origin", "feature");
    assert_eq!(label, "push --set-upstream");
    assert_eq!(args, vec!["push", "--set-upstream", "origin", "feature"]);
}

#[test]
fn rejects_hidden_and_lock_components_anywhere() {
    for name in ["feature/.hidden", "a/.b/c", "a.lock/b", "@"] {
        assert_eq!(validate_branch_name(name, &[], None), Some(NameError::Invalid), "expected {name:?} to be rejected");
    }
    for name in ["feature/a.b", "a@b", "lock/a", "a/b.locked"] {
        assert_eq!(validate_branch_name(name, &[], None), None, "expected {name:?} to pass");
    }
}
