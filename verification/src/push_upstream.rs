//! Publishing a branch that has no upstream yet.
use vstd::prelude::*;
use crate::text::{has_prefix, opt_view, owned, str_contains, contains_sub, str_eq, str_starts_with, views};

verus! {

/// The remote used to publish a branch without an upstream: `origin` when
/// configured, otherwise the first configured remote.
pub open spec fn spec_default_push_remote(remotes: Seq<Seq<char>>) -> Option<Seq<char>> {
    if remotes.contains("origin"@) {
        Some("origin"@)
    } else if remotes.len() > 0 {
        Some(remotes[0])
    } else {
        None
    }
}

/// Pick the remote used to publish a branch without an upstream.
pub fn default_push_remote(remotes: &[String]) -> (r: Option<String>)
    ensures
        opt_view(r) == spec_default_push_remote(views(remotes@)),
{
    let mut i: usize = 0;
    while i < remotes.len()
        invariant
            i <= remotes@.len(),
            forall|j: int| 0 <= j < i ==> remotes@[j]@ != "origin"@,
        decreases remotes@.len() - i,
    {
        if str_eq(remotes[i].as_str(), "origin") {
            assert(views(remotes@)[i as int] == "origin"@);
            return Some(owned("origin"));
        }
        i += 1;
    }
    assert(!views(remotes@).contains("origin"@)) by {
        assert forall|j: int| 0 <= j < views(remotes@).len() implies views(remotes@)[j] != "origin"@ by {
            assert(views(remotes@)[j] == remotes@[j]@);
        }
    }
    if remotes.len() > 0 {
        Some(remotes[0].clone())
    } else {
        None
    }
}

/// Whether a failed `git push` reports that the current branch has no
/// upstream, which means a `--set-upstream` push can publish it.
pub fn push_error_missing_upstream(message: &str) -> (r: bool)
    ensures
        r == contains_sub(message@, "has no upstream branch"@),
{
    str_contains(message, "has no upstream branch")
}

/// The remote to offer for publishing `branch`, or `None` when the dialog is
/// skipped: for a detached or unborn HEAD (empty or `HEAD…` branch text),
/// when an upstream is already tracked, or when no remote exists.
pub open spec fn spec_push_upstream_offer(
    branch: Seq<char>,
    upstream: Option<Seq<char>>,
    remotes: Seq<Seq<char>>,
) -> Option<Seq<char>> {
    if branch.len() == 0 || has_prefix(branch, "HEAD"@) {
        None
    } else if upstream is Some {
        None
    } else {
        spec_default_push_remote(remotes)
    }
}

/// Decide whether to offer publishing the current branch, and to which remote.
pub fn push_upstream_offer(branch: &str, upstream: &Option<String>, remotes: &[String]) -> (r: Option<String>)
    ensures
        opt_view(r) == spec_push_upstream_offer(branch@, opt_view(*upstream), views(remotes@)),
{
    if branch.unicode_len() == 0 || str_starts_with(branch, "HEAD") {
        return None;
    }
    if upstream.is_some() {
        return None;
    }
    default_push_remote(remotes)
}

/// The arguments of the confirmed `--set-upstream` push.
pub fn push_set_upstream_args(remote: &str, branch: &str) -> (r: (&'static str, Vec<String>))
    ensures
        r.0@ == "push --set-upstream"@,
        views(r.1@) == seq!["push"@, "--set-upstream"@, remote@, branch@],
{
    let args = vec![owned("push"), owned("--set-upstream"), owned(remote), owned(branch)];
    assert(views(args@) =~= seq!["push"@, "--set-upstream"@, remote@, branch@]);
    ("push --set-upstream", args)
}


/// Publishing is offered only for a named branch without an upstream, and
/// always to one of the repository's remotes, `origin` when it exists; a
/// named branch without an upstream in a repository with a remote always
/// gets the offer.
pub proof fn law_push_offer(branch: Seq<char>, upstream: Option<Seq<char>>, remotes: Seq<Seq<char>>)
    ensures
        spec_push_upstream_offer(branch, upstream, remotes) matches Some(r) ==> {
            &&& remotes.contains(r)
            &&& upstream is None
            &&& branch.len() > 0 && !has_prefix(branch, "HEAD"@)
        },
        branch.len() > 0 && !has_prefix(branch, "HEAD"@) && upstream is None && remotes.len() > 0 ==> (
        spec_push_upstream_offer(branch, upstream, remotes) is Some),
        branch.len() > 0 && !has_prefix(branch, "HEAD"@) && upstream is None && remotes.contains("origin"@) ==> (
        spec_push_upstream_offer(branch, upstream, remotes) == Some("origin"@)),
{
    if remotes.len() > 0 && !remotes.contains("origin"@) {
        assert(remotes.contains(remotes[0]));
    }
}

} // verus!
