//! Branch operations launched from the Branch menu and the sidebar: Git
//! argument builders, branch-name validation, and the pending-dialog state
//! with its confirm-time command construction.
use vstd::prelude::*;
use crate::text::{
    chars_of, char_is_control, contains_sub, has_suffix, is_control, opt_str_view, str_contains,
    str_ends_with, str_eq, views, owned,
};

verus! {

/// Branch-name validation failure reasons.
#[derive(Clone, Copy, Debug, PartialEq, Eq)]
pub enum NameError {
    Empty,
    Invalid,
    Exists,
}

/// Characters that a ref name may not hold anywhere.
pub open spec fn forbidden_ref_char(c: char) -> bool {
    c == ' ' || c == '~' || c == '^' || c == ':' || c == '?' || c == '*' || c == '['
        || c == '\\' || is_control(c)
}

/// Whether a non-empty name breaks the git-ref rules: it starts with `-`;
/// a slash-separated part starts with `.` or ends with `.lock`; it starts or
/// ends with `/` or ends with `.`; it holds `..`, `//`, `@{` or a forbidden
/// character; or it is `@` alone.
pub open spec fn ref_syntax_invalid(s: Seq<char>) -> bool {
    ||| s[0] == '-'
    ||| s == seq!['@']
    ||| contains_sub(s, seq!['/', '.'])
    ||| contains_sub(s, seq!['.', 'l', 'o', 'c', 'k', '/'])
    ||| s[0] == '.'
    ||| s[0] == '/'
    ||| s.last() == '/'
    ||| s.last() == '.'
    ||| has_suffix(s, seq!['.', 'l', 'o', 'c', 'k'])
    ||| contains_sub(s, seq!['.', '.'])
    ||| contains_sub(s, seq!['/', '/'])
    ||| contains_sub(s, seq!['@', '{'])
    ||| exists|i: int| 0 <= i < s.len() && forbidden_ref_char(#[trigger] s[i])
}

/// The validation rule: empty names, names that break ref syntax, and names
/// of existing branches (except the exempted one) are rejected, in that
/// order.
pub open spec fn spec_validate_branch_name(
    name: Seq<char>,
    existing: Seq<Seq<char>>,
    allow: Option<Seq<char>>,
) -> Option<NameError> {
    if name.len() == 0 {
        Some(NameError::Empty)
    } else if ref_syntax_invalid(name) {
        Some(NameError::Invalid)
    } else if allow != Some(name) && existing.contains(name) {
        Some(NameError::Exists)
    } else {
        None
    }
}

fn has_forbidden_char(name: &str) -> (r: bool)
    ensures
        r == exists|i: int| 0 <= i < name@.len() && forbidden_ref_char(#[trigger] name@[i]),
{
    let x = chars_of(name);
    let mut i: usize = 0;
    while i < x.len()
        invariant
            x@ == name@,
            i <= x@.len(),
            forall|j: int| 0 <= j < i ==> !forbidden_ref_char(#[trigger] name@[j]),
        decreases x@.len() - i,
    {
        let c = x[i];
        if c == ' ' || c == '~' || c == '^' || c == ':' || c == '?' || c == '*' || c == '['
            || c == '\\' || char_is_control(c) {
            return true;
        }
        i += 1;
    }
    false
}

/// Whether `name` is one of `existing`.
fn listed(existing: &[String], name: &str) -> (r: bool)
    ensures
        r == views(existing@).contains(name@),
{
    let mut i: usize = 0;
    while i < existing.len()
        invariant
            i <= existing@.len(),
            forall|j: int| 0 <= j < i ==> existing@[j]@ != name@,
        decreases existing@.len() - i,
    {
        if str_eq(existing[i].as_str(), name) {
            assert(views(existing@)[i as int] == name@);
            return true;
        }
        i += 1;
    }
    assert forall|j: int| 0 <= j < views(existing@).len() implies views(existing@)[j] != name@ by {
        assert(views(existing@)[j] == existing@[j]@);
    }
    false
}

/// Validate a branch name against git-ref rules and the existing local
/// branches (including the current one). `allow` exempts one name from the
/// exists check, used when renaming (the old name is still listed).
pub fn validate_branch_name(name: &str, existing: &[String], allow: Option<&str>) -> (r: Option<NameError>)
    ensures
        r == spec_validate_branch_name(name@, views(existing@), opt_str_view(allow)),
{
    let x = chars_of(name);
    if x.len() == 0 {
        return Some(NameError::Empty);
    }
    let first = x[0];
    let last = x[x.len() - 1];
    proof {
        reveal_strlit(".lock");
        reveal_strlit("..");
        reveal_strlit("//");
        reveal_strlit("@{");
        reveal_strlit("/.");
        reveal_strlit(".lock/");
        reveal_strlit("@");
        assert("/."@ =~= seq!['/', '.']);
        assert(".lock/"@ =~= seq!['.', 'l', 'o', 'c', 'k', '/']);
        assert("@"@ =~= seq!['@']);
        assert(".lock"@ =~= seq!['.', 'l', 'o', 'c', 'k']);
        assert(".."@ =~= seq!['.', '.']);
        assert("//"@ =~= seq!['/', '/']);
        assert("@{"@ =~= seq!['@', '{']);
        assert(name@[0] == first);
        assert(name@.last() == last);
    }
    if first == '-' || first == '.' || first == '/' || last == '/' || last == '.' || str_ends_with(
        name,
        ".lock",
    ) || str_contains(name, "..") || str_contains(name, "//") || str_contains(name, "@{")
        || str_contains(name, "/.") || str_contains(name, ".lock/") || str_eq(name, "@")
        || has_forbidden_char(name) {
        return Some(NameError::Invalid);
    }
    let allowed = match allow {
        Some(a) => str_eq(a, name),
        None => false,
    };
    if !allowed && listed(existing, name) {
        return Some(NameError::Exists);
    }
    None
}


/// A Git command as this module builds it: a label for status text and the
/// argument vector, both by content.
pub type CommandView = (Seq<char>, Seq<Seq<char>>);

pub open spec fn command_view(c: (&'static str, Vec<String>)) -> CommandView {
    (c.0@, views(c.1@))
}

pub open spec fn spec_rename_args(old: Seq<char>, new: Seq<char>) -> CommandView {
    ("branch -m"@, seq!["branch"@, "-m"@, old, new])
}

pub open spec fn spec_delete_args(name: Seq<char>, force: bool, is_tag: bool) -> CommandView {
    if is_tag {
        ("tag -d"@, seq!["tag"@, "-d"@, name])
    } else if force {
        ("branch -D"@, seq!["branch"@, "-D"@, name])
    } else {
        ("branch -d"@, seq!["branch"@, "-d"@, name])
    }
}

pub open spec fn spec_merge_args(source: Seq<char>, no_ff: bool) -> CommandView {
    if no_ff {
        ("merge --no-ff"@, seq!["merge"@, source, "--no-ff"@])
    } else {
        ("merge"@, seq!["merge"@, source])
    }
}

pub open spec fn spec_stash_pop_args(stash_ref: Option<Seq<char>>) -> Seq<Seq<char>> {
    match stash_ref {
        Some(entry) => seq!["stash"@, "pop"@, entry],
        None => seq!["stash"@, "pop"@],
    }
}

pub open spec fn spec_stash_drop_args(stash_ref: Seq<char>) -> Seq<Seq<char>> {
    seq!["stash"@, "drop"@, stash_ref]
}

pub open spec fn spec_apply_patch_args(path: Seq<char>) -> CommandView {
    ("apply"@, seq!["apply"@, path])
}

pub open spec fn spec_rename_remote_args(remote: Seq<char>, old: Seq<char>, new: Seq<char>) -> CommandView {
    (
        "push --rename"@,
        seq![
            "push"@,
            remote,
            "refs/remotes/"@ + remote + "/"@ + old + ":refs/heads/"@ + new,
            ":refs/heads/"@ + old,
        ],
    )
}

pub open spec fn spec_delete_remote_args(remote: Seq<char>, branch: Seq<char>) -> CommandView {
    ("push --delete"@, seq!["push"@, remote, "--delete"@, branch])
}

/// Command label and arguments for renaming a local branch.
pub fn rename_args(old: &str, new: &str) -> (r: (&'static str, Vec<String>))
    ensures
        command_view(r) == spec_rename_args(old@, new@),
{
    let args = vec![owned("branch"), owned("-m"), owned(old), owned(new)];
    assert(views(args@) =~= seq!["branch"@, "-m"@, old@, new@]);
    ("branch -m", args)
}

/// Command label and arguments for deleting a local branch or a tag.
pub fn delete_args(name: &str, force: bool, is_tag: bool) -> (r: (&'static str, Vec<String>))
    ensures
        command_view(r) == spec_delete_args(name@, force, is_tag),
{
    if is_tag {
        let args = vec![owned("tag"), owned("-d"), owned(name)];
        assert(views(args@) =~= seq!["tag"@, "-d"@, name@]);
        ("tag -d", args)
    } else if force {
        let args = vec![owned("branch"), owned("-D"), owned(name)];
        assert(views(args@) =~= seq!["branch"@, "-D"@, name@]);
        ("branch -D", args)
    } else {
        let args = vec![owned("branch"), owned("-d"), owned(name)];
        assert(views(args@) =~= seq!["branch"@, "-d"@, name@]);
        ("branch -d", args)
    }
}

/// Command label and arguments for merging `source` into the current branch.
pub fn merge_args(source: &str, no_ff: bool) -> (r: (&'static str, Vec<String>))
    ensures
        command_view(r) == spec_merge_args(source@, no_ff),
{
    if no_ff {
        let args = vec![owned("merge"), owned(source), owned("--no-ff")];
        assert(views(args@) =~= seq!["merge"@, source@, "--no-ff"@]);
        ("merge --no-ff", args)
    } else {
        let args = vec![owned("merge"), owned(source)];
        assert(views(args@) =~= seq!["merge"@, source@]);
        ("merge", args)
    }
}

/// Arguments for popping the latest stash or one explicit stash entry.
pub fn stash_pop_args(stash_ref: Option<&str>) -> (r: Vec<String>)
    ensures
        views(r@) == spec_stash_pop_args(opt_str_view(stash_ref)),
{
    let mut args = vec![owned("stash"), owned("pop")];
    if let Some(entry) = stash_ref {
        args.push(owned(entry));
    }
    assert(views(args@) =~= spec_stash_pop_args(opt_str_view(stash_ref)));
    args
}

/// Arguments for permanently dropping one explicit stash entry.
pub fn stash_drop_args(stash_ref: &str) -> (r: Vec<String>)
    ensures
        views(r@) == spec_stash_drop_args(stash_ref@),
{
    let args = vec![owned("stash"), owned("drop"), owned(stash_ref)];
    assert(views(args@) =~= seq!["stash"@, "drop"@, stash_ref@]);
    args
}

/// Command label and arguments for applying a patch file to the working
/// tree. The path rides as one structured argument.
pub fn apply_patch_args(path: &str) -> (r: (&'static str, Vec<String>))
    ensures
        command_view(r) == spec_apply_patch_args(path@),
{
    let args = vec![owned("apply"), owned(path)];
    assert(views(args@) =~= seq!["apply"@, path@]);
    ("apply", args)
}

/// Command label and arguments for renaming a remote branch: one push that
/// creates the new branch from the remote-tracking ref and deletes the old
/// one.
pub fn rename_remote_args(remote: &str, old: &str, new: &str) -> (r: (&'static str, Vec<String>))
    ensures
        command_view(r) == spec_rename_remote_args(remote@, old@, new@),
{
    let mut create = owned("refs/remotes/");
    create.append(remote);
    create.append("/");
    create.append(old);
    create.append(":refs/heads/");
    create.append(new);
    let mut delete = owned(":refs/heads/");
    delete.append(old);
    let args = vec![owned("push"), owned(remote), create, delete];
    assert(views(args@) =~= spec_rename_remote_args(remote@, old@, new@).1);
    ("push --rename", args)
}

/// Command label and arguments for deleting a remote branch on its remote.
pub fn delete_remote_args(remote: &str, branch: &str) -> (r: (&'static str, Vec<String>))
    ensures
        command_view(r) == spec_delete_remote_args(remote@, branch@),
{
    let args = vec![owned("push"), owned(remote), owned("--delete"), owned(branch)];
    assert(views(args@) =~= seq!["push"@, remote@, "--delete"@, branch@]);
    ("push --delete", args)
}


/// An accepted branch name is not empty, holds no forbidden character,
/// does not start with `-` or `.`, holds no `..`, and is not an existing
/// branch other than the exempted one; an existing branch that is not
/// exempted is always refused.
pub proof fn law_accepted_branch_names(name: Seq<char>, existing: Seq<Seq<char>>, allow: Option<Seq<char>>)
    ensures
        spec_validate_branch_name(name, existing, allow) is None ==> {
            &&& name.len() > 0
            &&& forall|i: int| 0 <= i < name.len() ==> !forbidden_ref_char(#[trigger] name[i])
            &&& name[0] != '-' && name[0] != '.'
            &&& !contains_sub(name, seq!['.', '.'])
            &&& (existing.contains(name) ==> allow == Some(name))
        },
        existing.contains(name) && allow != Some(name) ==> spec_validate_branch_name(name, existing, allow) is Some,
        name.len() == 0 ==> spec_validate_branch_name(name, existing, allow) == Some(NameError::Empty),
{
}

/// The Git commands pass each name as one argument of its own, in place:
/// the merge source after `merge`, the deleted ref last, the old and new
/// names of a rename after `branch -m`, the dropped stash last.
pub proof fn law_names_are_single_arguments(
    a: Seq<char>,
    b: Seq<char>,
    flag: bool,
    is_tag: bool,
)
    ensures
        spec_merge_args(a, flag).1[0] == "merge"@ && spec_merge_args(a, flag).1[1] == a,
        spec_delete_args(a, flag, is_tag).1.last() == a && spec_delete_args(a, flag, is_tag).1.len() == 3,
        spec_rename_args(a, b).1.subrange(2, 4) == seq![a, b],
        spec_stash_drop_args(a).last() == a,
        spec_delete_remote_args(a, b).1[1] == a && spec_delete_remote_args(a, b).1.last() == b,
{
    assert(spec_rename_args(a, b).1.subrange(2, 4) =~= seq![a, b]);
}

} // verus!
