//! Pending branch-operation dialog state: which dialogs may open for the
//! current repository state, and the command a confirmed dialog runs.
use vstd::prelude::*;
use crate::text::{opt_view, owned, str_eq, views, clone_strings};
use crate::branch_ops::{
    CommandView, command_view, delete_args, delete_remote_args, merge_args, rename_args,
    rename_remote_args, spec_delete_args, spec_delete_remote_args, spec_merge_args,
    spec_rename_args, spec_rename_remote_args, spec_stash_drop_args, spec_validate_branch_name,
    stash_drop_args, validate_branch_name,
};

verus! {

/// Pending branch operation shown as an overlay dialog.
#[derive(Debug, PartialEq, Eq)]
pub enum PendingBranchDialog {
    NewBranch,
    /// Rename a local branch; the payload is its current name.
    Rename { old: String },
    Stash,
    /// Drop a stash after explicit confirmation; the payload is its selector.
    DropStash { reference: String },
    Merge { no_ff: bool },
    Rebase,
    /// Delete a local branch or a tag after confirmation.
    DeleteRef { name: String, is_tag: bool },
    /// Rename a remote branch on its remote; `old` has no remote prefix.
    RenameRemote { remote: String, old: String },
    /// Delete a remote branch on its remote after confirmation.
    DeleteRemote { remote: String, branch: String },
}

/// Mathematical form of a pending dialog.
pub enum DialogView {
    NewBranch,
    Rename { old: Seq<char> },
    Stash,
    DropStash { reference: Seq<char> },
    Merge { no_ff: bool },
    Rebase,
    DeleteRef { name: Seq<char>, is_tag: bool },
    RenameRemote { remote: Seq<char>, old: Seq<char> },
    DeleteRemote { remote: Seq<char>, branch: Seq<char> },
}

impl View for PendingBranchDialog {
    type V = DialogView;

    open spec fn view(&self) -> DialogView {
        match self {
            PendingBranchDialog::NewBranch => DialogView::NewBranch,
            PendingBranchDialog::Rename { old } => DialogView::Rename { old: old@ },
            PendingBranchDialog::Stash => DialogView::Stash,
            PendingBranchDialog::DropStash { reference } => DialogView::DropStash {
                reference: reference@,
            },
            PendingBranchDialog::Merge { no_ff } => DialogView::Merge { no_ff: *no_ff },
            PendingBranchDialog::Rebase => DialogView::Rebase,
            PendingBranchDialog::DeleteRef { name, is_tag } => DialogView::DeleteRef {
                name: name@,
                is_tag: *is_tag,
            },
            PendingBranchDialog::RenameRemote { remote, old } => DialogView::RenameRemote {
                remote: remote@,
                old: old@,
            },
            PendingBranchDialog::DeleteRemote { remote, branch } => DialogView::DeleteRemote {
                remote: remote@,
                branch: branch@,
            },
        }
    }
}

/// The repository facts that the Branch dialogs consult.
pub struct BranchContext {
    /// Current branch name; empty for a detached or unborn HEAD.
    pub branch: String,
    /// Non-head local branch names (merge and rebase source candidates).
    pub local_branches: Vec<String>,
    pub has_unresolved_conflicts: bool,
    /// Files with stashable changes.
    pub local_change_count: usize,
    pub stash_count: usize,
    /// Whether a Git operation currently owns the worker.
    pub busy: bool,
}

/// Mathematical form of the repository facts.
pub struct ContextView {
    pub branch: Seq<char>,
    pub local_branches: Seq<Seq<char>>,
    pub has_unresolved_conflicts: bool,
    pub local_change_count: nat,
    pub stash_count: nat,
    pub busy: bool,
}

impl View for BranchContext {
    type V = ContextView;

    open spec fn view(&self) -> ContextView {
        ContextView {
            branch: self.branch@,
            local_branches: views(self.local_branches@),
            has_unresolved_conflicts: self.has_unresolved_conflicts,
            local_change_count: self.local_change_count as nat,
            stash_count: self.stash_count as nat,
            busy: self.busy,
        }
    }
}

/// Every local branch name, the current one included.
pub open spec fn existing_names(ctx: ContextView) -> Seq<Seq<char>> {
    if ctx.branch.len() > 0 {
        ctx.local_branches.push(ctx.branch)
    } else {
        ctx.local_branches
    }
}

/// Dialog state for the branch operations. Only one dialog can be open at
/// a time.
pub struct BranchDialogs {
    pub pending: Option<PendingBranchDialog>,
    /// Selected source branch for merge and rebase.
    pub merge_source: Option<String>,
    /// Merge dialog `--no-ff` checkbox state.
    pub no_ff: bool,
    /// Delete dialog "force delete" checkbox state (local branches only).
    pub force_delete: bool,
}

/// Mathematical form of the dialog state.
pub struct DialogsView {
    pub pending: Option<DialogView>,
    pub merge_source: Option<Seq<char>>,
    pub no_ff: bool,
    pub force_delete: bool,
}

impl View for BranchDialogs {
    type V = DialogsView;

    open spec fn view(&self) -> DialogsView {
        DialogsView {
            pending: match self.pending {
                Some(p) => Some(p@),
                None => None,
            },
            merge_source: opt_view(self.merge_source),
            no_ff: self.no_ff,
            force_delete: self.force_delete,
        }
    }
}

/// The state with no dialog open.
pub open spec fn closed_dialogs() -> DialogsView {
    DialogsView { pending: None, merge_source: None, no_ff: false, force_delete: false }
}

/// Whether a dialog may open for the given repository facts.
pub open spec fn spec_dialog_allowed(pending: DialogView, ctx: ContextView) -> bool {
    match pending {
        DialogView::NewBranch => !ctx.has_unresolved_conflicts,
        DialogView::Rename { old } => old.len() > 0,
        DialogView::Stash => ctx.local_change_count > 0,
        DialogView::DropStash { reference } => reference.len() > 0 && ctx.stash_count > 0,
        DialogView::Merge { .. } | DialogView::Rebase => !ctx.has_unresolved_conflicts
            && ctx.local_branches.len() > 0,
        DialogView::DeleteRef { name, is_tag } => is_tag || name != ctx.branch,
        DialogView::RenameRemote { remote, old } => remote.len() > 0 && old.len() > 0,
        DialogView::DeleteRemote { remote, branch } => remote.len() > 0 && branch.len() > 0,
    }
}

/// The state after asking to open `pending`.
pub open spec fn spec_open(d: DialogsView, pending: DialogView, ctx: ContextView) -> DialogsView {
    if ctx.busy || d.pending is Some || !spec_dialog_allowed(pending, ctx) {
        d
    } else {
        DialogsView {
            pending: Some(pending),
            merge_source: match pending {
                DialogView::Merge { .. } | DialogView::Rebase => if ctx.local_branches.len() > 0 {
                    Some(ctx.local_branches[0])
                } else {
                    None
                },
                _ => None,
            },
            no_ff: match pending {
                DialogView::Merge { no_ff } => no_ff,
                _ => false,
            },
            force_delete: d.force_delete,
        }
    }
}

/// The merge command that a merge into the current branch runs, if the
/// repository state admits one.
pub open spec fn spec_merge_command(source: Seq<char>, no_ff: bool, ctx: ContextView) -> Option<CommandView> {
    if ctx.busy || ctx.branch.len() == 0 || source == ctx.branch {
        None
    } else {
        Some(spec_merge_args(source, no_ff))
    }
}

/// The arguments of a stash with an optional message.
pub open spec fn spec_stash_push_args(message: Seq<char>) -> Seq<Seq<char>> {
    if message.len() > 0 {
        seq!["stash"@, "push"@, "-m"@, message]
    } else {
        seq!["stash"@, "push"@]
    }
}

/// Confirming the open dialog with the text `input`: the resulting dialog
/// state and the command to run, if any. A rejected name keeps the dialog
/// open; every accepted confirmation closes it first.
pub open spec fn spec_confirm(d: DialogsView, input: Seq<char>, ctx: ContextView) -> (DialogsView, Option<CommandView>) {
    match d.pending {
        None => (d, None),
        Some(pending) => match pending {
            DialogView::Merge { no_ff } => match d.merge_source {
                None => (d, None),
                Some(source) => (closed_dialogs(), spec_merge_command(source, no_ff, ctx)),
            },
            DialogView::NewBranch => if spec_validate_branch_name(input, existing_names(ctx), None) is None {
                (closed_dialogs(), Some(("switch"@, seq!["switch"@, "-c"@, input])))
            } else {
                (d, None)
            },
            DialogView::Rename { old } => if spec_validate_branch_name(
                input,
                existing_names(ctx),
                Some(old),
            ) is None {
                (closed_dialogs(), Some(spec_rename_args(old, input)))
            } else {
                (d, None)
            },
            DialogView::Stash => (closed_dialogs(), Some(("stash"@, spec_stash_push_args(input)))),
            DialogView::Rebase => match d.merge_source {
                None => (d, None),
                Some(source) => (closed_dialogs(), Some(("rebase"@, seq!["rebase"@, source]))),
            },
            DialogView::DeleteRef { name, is_tag } => (
                closed_dialogs(),
                Some(spec_delete_args(name, d.force_delete, is_tag)),
            ),
            DialogView::RenameRemote { remote, old } => if spec_validate_branch_name(
                input,
                Seq::empty(),
                None,
            ) is None {
                (closed_dialogs(), Some(spec_rename_remote_args(remote, old, input)))
            } else {
                (d, None)
            },
            DialogView::DeleteRemote { remote, branch } => (
                closed_dialogs(),
                Some(spec_delete_remote_args(remote, branch)),
            ),
            DialogView::DropStash { reference } => (
                closed_dialogs(),
                Some(("stash drop"@, spec_stash_drop_args(reference))),
            ),
        },
    }
}

pub open spec fn opt_command_view(c: Option<(&'static str, Vec<String>)>) -> Option<CommandView> {
    match c {
        Some(c) => Some(command_view(c)),
        None => None,
    }
}

/// A name typed into a name dialog, when it is valid: not empty, a valid
/// git ref name, and not an existing branch other than `allow`.
pub fn validated_name_in(name: &str, existing: &[String], allow: Option<&str>) -> (r: Option<String>)
    ensures
        match r {
            Some(n) => n@ == name@ && spec_validate_branch_name(
                name@,
                views(existing@),
                crate::text::opt_str_view(allow),
            ) is None,
            None => spec_validate_branch_name(name@, views(existing@), crate::text::opt_str_view(allow)) is Some,
        },
{
    match validate_branch_name(name, existing, allow) {
        None => Some(owned(name)),
        Some(_) => None,
    }
}

/// Whether a dialog may open for the given repository facts.
pub fn dialog_allowed(pending: &PendingBranchDialog, ctx: &BranchContext) -> (r: bool)
    ensures
        r == spec_dialog_allowed(pending@, ctx@),
{
    match pending {
        PendingBranchDialog::NewBranch => !ctx.has_unresolved_conflicts,
        PendingBranchDialog::Rename { old } => old.as_str().unicode_len() > 0,
        PendingBranchDialog::Stash => ctx.local_change_count > 0,
        PendingBranchDialog::DropStash { reference } => reference.as_str().unicode_len() > 0
            && ctx.stash_count > 0,
        PendingBranchDialog::Merge { .. } | PendingBranchDialog::Rebase => !ctx.has_unresolved_conflicts
            && ctx.local_branches.len() > 0,
        PendingBranchDialog::DeleteRef { name, is_tag } => *is_tag || !str_eq(
            name.as_str(),
            ctx.branch.as_str(),
        ),
        PendingBranchDialog::RenameRemote { remote, old } => remote.as_str().unicode_len() > 0
            && old.as_str().unicode_len() > 0,
        PendingBranchDialog::DeleteRemote { remote, branch } => remote.as_str().unicode_len() > 0
            && branch.as_str().unicode_len() > 0,
    }
}

/// The merge command for merging `source` into the current branch, or
/// `None` while busy, on a detached HEAD, or when `source` is the current
/// branch.
pub fn merge_into_current(source: &str, no_ff: bool, ctx: &BranchContext) -> (r: Option<(&'static str, Vec<String>)>)
    ensures
        opt_command_view(r) == spec_merge_command(source@, no_ff, ctx@),
{
    if ctx.busy || ctx.branch.as_str().unicode_len() == 0 || str_eq(source, ctx.branch.as_str()) {
        return None;
    }
    Some(merge_args(source, no_ff))
}

fn existing_of(ctx: &BranchContext) -> (r: Vec<String>)
    ensures
        views(r@) == existing_names(ctx@),
{
    let mut existing = clone_strings(&ctx.local_branches);
    if ctx.branch.as_str().unicode_len() > 0 {
        existing.push(ctx.branch.clone());
        assert(views(existing@) =~= views(ctx.local_branches@).push(ctx.branch@));
    }
    existing
}

fn stash_push_args(message: &str) -> (r: Vec<String>)
    ensures
        views(r@) == spec_stash_push_args(message@),
{
    let mut args = vec![owned("stash"), owned("push")];
    if message.unicode_len() > 0 {
        args.push(owned("-m"));
        args.push(owned(message));
    }
    assert(views(args@) =~= spec_stash_push_args(message@));
    args
}

impl BranchDialogs {
    /// No dialog open.
    pub fn new() -> (r: BranchDialogs)
        ensures
            r@ == closed_dialogs(),
    {
        BranchDialogs { pending: None, merge_source: None, no_ff: false, force_delete: false }
    }

    /// Close any open dialog. Returns whether one was open.
    pub fn close(&mut self) -> (r: bool)
        ensures
            r == (old(self)@.pending is Some),
            final(self)@ == if r { closed_dialogs() } else { old(self)@ },
    {
        if self.pending.is_some() {
            self.pending = None;
            self.merge_source = None;
            self.no_ff = false;
            self.force_delete = false;
            true
        } else {
            false
        }
    }

    /// Open one of the Branch menu dialogs (no-op while busy, while another
    /// dialog is open, or when the repository state does not admit it).
    pub fn open(&mut self, pending: PendingBranchDialog, ctx: &BranchContext)
        ensures
            final(self)@ == spec_open(old(self)@, pending@, ctx@),
    {
        if ctx.busy || self.pending.is_some() {
            return;
        }
        if !dialog_allowed(&pending, ctx) {
            return;
        }
        self.no_ff = match &pending {
            PendingBranchDialog::Merge { no_ff } => *no_ff,
            _ => false,
        };
        self.merge_source = match &pending {
            PendingBranchDialog::Merge { .. } | PendingBranchDialog::Rebase => {
                if ctx.local_branches.len() > 0 {
                    Some(ctx.local_branches[0].clone())
                } else {
                    None
                }
            },
            _ => None,
        };
        self.pending = Some(pending);
    }

    /// Confirm the open dialog with the current text input: re-validate,
    /// close the dialog, and return the command to run.
    pub fn confirm(&mut self, input: &str, ctx: &BranchContext) -> (r: Option<(&'static str, Vec<String>)>)
        ensures
            (final(self)@, opt_command_view(r)) == spec_confirm(old(self)@, input@, ctx@),
    {
        let ghost before = self@;
        let pending = match &self.pending {
            None => return None,
            Some(p) => p,
        };
        let command: (&'static str, Vec<String>) = match pending {
            PendingBranchDialog::Merge { no_ff } => {
                let no_ff = *no_ff;
                let source = match &self.merge_source {
                    None => return None,
                    Some(source) => source.clone(),
                };
                self.close();
                return merge_into_current(source.as_str(), no_ff, ctx);
            },
            PendingBranchDialog::NewBranch => {
                let existing = existing_of(ctx);
                if validate_branch_name(input, existing.as_slice(), None).is_some() {
                    return None;
                }
                let args = vec![owned("switch"), owned("-c"), owned(input)];
                assert(views(args@) =~= seq!["switch"@, "-c"@, input@]);
                ("switch", args)
            },
            PendingBranchDialog::Rename { old } => {
                let existing = existing_of(ctx);
                if validate_branch_name(input, existing.as_slice(), Some(old.as_str())).is_some() {
                    return None;
                }
                rename_args(old.as_str(), input)
            },
            PendingBranchDialog::Stash => ("stash", stash_push_args(input)),
            PendingBranchDialog::Rebase => {
                let source = match &self.merge_source {
                    None => return None,
                    Some(source) => source.clone(),
                };
                let args = vec![owned("rebase"), source];
                assert(views(args@) =~= seq!["rebase"@, before.merge_source->0]);
                ("rebase", args)
            },
            PendingBranchDialog::DeleteRef { name, is_tag } => delete_args(
                name.as_str(),
                self.force_delete,
                *is_tag,
            ),
            PendingBranchDialog::RenameRemote { remote, old } => {
                let none: Vec<String> = Vec::new();
                assert(views(none@) =~= Seq::<Seq<char>>::empty());
                if validate_branch_name(input, none.as_slice(), None).is_some() {
                    return None;
                }
                rename_remote_args(remote.as_str(), old.as_str(), input)
            },
            PendingBranchDialog::DeleteRemote { remote, branch } => delete_remote_args(
                remote.as_str(),
                branch.as_str(),
            ),
            PendingBranchDialog::DropStash { reference } => (
                "stash drop",
                stash_drop_args(reference.as_str()),
            ),
        };
        self.close();
        Some(command)
    }
}


/// A context-menu request from the repository sidebar.
pub enum SidebarEvent {
    BranchSelected(String),
    CheckoutRef(String),
    CopyRef(String),
    PopStash(String),
    DropStash(String),
    RenameBranch(String),
    DeleteBranch(String),
    DeleteTag(String),
    MergeIntoCurrent { name: String, no_ff: bool },
    MergeByAgent(String),
    RenameRemoteBranch { remote: String, branch: String },
    DeleteRemoteBranch { remote: String, branch: String },
}

/// What the tab does for a sidebar request.
pub enum SidebarAction {
    /// Show a status line.
    Status(crate::extension_actions::StatusText),
    Checkout(String),
    Copy(String),
    PopStash(String),
    /// Open a confirmation or name dialog.
    OpenDialog(PendingBranchDialog),
    MergeIntoCurrent { name: String, no_ff: bool },
    AgentMerge(String),
}

/// Route a sidebar request: selecting a branch reports it, destructive or
/// naming operations open their dialog, the others run directly.
pub fn sidebar_action(event: SidebarEvent) -> (r: SidebarAction)
    ensures
        match event {
            SidebarEvent::BranchSelected(n) => r matches SidebarAction::Status(t) && t@
                == crate::extension_actions::msg1("branch-selected"@, "name"@, n@),
            SidebarEvent::CheckoutRef(t) => r matches SidebarAction::Checkout(x) && x@ == t@,
            SidebarEvent::CopyRef(v) => r matches SidebarAction::Copy(x) && x@ == v@,
            SidebarEvent::PopStash(s) => r matches SidebarAction::PopStash(x) && x@ == s@,
            SidebarEvent::DropStash(s) => r matches SidebarAction::OpenDialog(d) && d@ == (DialogView::DropStash {
                reference: s@,
            }),
            SidebarEvent::RenameBranch(n) => r matches SidebarAction::OpenDialog(d) && d@ == (DialogView::Rename {
                old: n@,
            }),
            SidebarEvent::DeleteBranch(n) => r matches SidebarAction::OpenDialog(d) && d@ == (DialogView::DeleteRef {
                name: n@,
                is_tag: false,
            }),
            SidebarEvent::DeleteTag(n) => r matches SidebarAction::OpenDialog(d) && d@ == (DialogView::DeleteRef {
                name: n@,
                is_tag: true,
            }),
            SidebarEvent::MergeIntoCurrent { name, no_ff } => r matches SidebarAction::MergeIntoCurrent {
                name: x,
                no_ff: f,
            } && x@ == name@ && f == no_ff,
            SidebarEvent::MergeByAgent(n) => r matches SidebarAction::AgentMerge(x) && x@ == n@,
            SidebarEvent::RenameRemoteBranch { remote, branch } => r matches SidebarAction::OpenDialog(d) && d@
                == (DialogView::RenameRemote { remote: remote@, old: branch@ }),
            SidebarEvent::DeleteRemoteBranch { remote, branch } => r matches SidebarAction::OpenDialog(d) && d@
                == (DialogView::DeleteRemote { remote: remote@, branch: branch@ }),
        },
{
    match event {
        SidebarEvent::BranchSelected(n) => SidebarAction::Status(
            crate::extension_actions::message1("branch-selected", "name", n),
        ),
        SidebarEvent::CheckoutRef(t) => SidebarAction::Checkout(t),
        SidebarEvent::CopyRef(v) => SidebarAction::Copy(v),
        SidebarEvent::PopStash(s) => SidebarAction::PopStash(s),
        SidebarEvent::DropStash(s) => SidebarAction::OpenDialog(PendingBranchDialog::DropStash { reference: s }),
        SidebarEvent::RenameBranch(n) => SidebarAction::OpenDialog(PendingBranchDialog::Rename { old: n }),
        SidebarEvent::DeleteBranch(n) => SidebarAction::OpenDialog(
            PendingBranchDialog::DeleteRef { name: n, is_tag: false },
        ),
        SidebarEvent::DeleteTag(n) => SidebarAction::OpenDialog(PendingBranchDialog::DeleteRef { name: n, is_tag: true }),
        SidebarEvent::MergeIntoCurrent { name, no_ff } => SidebarAction::MergeIntoCurrent { name, no_ff },
        SidebarEvent::MergeByAgent(n) => SidebarAction::AgentMerge(n),
        SidebarEvent::RenameRemoteBranch { remote, branch } => SidebarAction::OpenDialog(
            PendingBranchDialog::RenameRemote { remote, old: branch },
        ),
        SidebarEvent::DeleteRemoteBranch { remote, branch } => SidebarAction::OpenDialog(
            PendingBranchDialog::DeleteRemote { remote, branch },
        ),
    }
}

} // verus!
