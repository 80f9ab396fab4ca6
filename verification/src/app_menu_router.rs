//! File menu actions that are routed to the main workspace window.
use vstd::prelude::*;

verus! {

/// A File menu action executed against the main workspace window.
#[derive(Clone, Copy, Debug, PartialEq, Eq)]
pub enum RoutedAction {
    OpenRepository,
    OpenWslRepository,
    NewTab,
    InstallCli,
    RemoveCli,
}

impl RoutedAction {
    /// The stable diagnostic label of an action.
    pub open spec fn spec_label(self) -> Seq<char> {
        match self {
            RoutedAction::OpenRepository => "open repository"@,
            RoutedAction::OpenWslRepository => "open WSL repository"@,
            RoutedAction::NewTab => "new tab"@,
            RoutedAction::InstallCli => "install CLI"@,
            RoutedAction::RemoveCli => "remove CLI"@,
        }
    }

    pub fn label(self) -> (r: &'static str)
        ensures
            r@ == self.spec_label(),
    {
        match self {
            RoutedAction::OpenRepository => "open repository",
            RoutedAction::OpenWslRepository => "open WSL repository",
            RoutedAction::NewTab => "new tab",
            RoutedAction::InstallCli => "install CLI",
            RoutedAction::RemoveCli => "remove CLI",
        }
    }
}

} // verus!
