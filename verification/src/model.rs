//! What Hyprland reports: workspaces and monitors.
use vstd::prelude::*;

use crate::text::i32_to_string;

verus! {

/// A Hyprland workspace.
#[derive(Debug)]
pub struct Workspace {
    pub id: i32,
    pub name: String,
    /// The name of the monitor that shows the workspace.
    pub monitor: String,
}

/// The contents of a [`Workspace`].
#[verifier::ext_equal]
pub struct WorkspaceView {
    pub id: i32,
    pub name: Seq<char>,
    pub monitor: Seq<char>,
}

impl View for Workspace {
    type V = WorkspaceView;

    open spec fn view(&self) -> WorkspaceView {
        WorkspaceView { id: self.id, name: self.name@, monitor: self.monitor@ }
    }
}

impl Clone for Workspace {
    fn clone(&self) -> (copy: Self)
        ensures
            copy@ == self@,
    {
        Workspace { id: self.id, name: self.name.clone(), monitor: self.monitor.clone() }
    }
}

/// A physical monitor.
#[derive(Debug)]
pub struct Monitor {
    pub id: i32,
    pub name: String,
    pub focused: bool,
}

/// The contents of a [`Monitor`].
#[verifier::ext_equal]
pub struct MonitorView {
    pub id: i32,
    pub name: Seq<char>,
    pub focused: bool,
}

impl View for Monitor {
    type V = MonitorView;

    open spec fn view(&self) -> MonitorView {
        MonitorView { id: self.id, name: self.name@, focused: self.focused }
    }
}

impl Clone for Monitor {
    fn clone(&self) -> (copy: Self)
        ensures
            copy@ == self@,
    {
        Monitor { id: self.id, name: self.name.clone(), focused: self.focused }
    }
}

/// The two lists of the screen.
#[derive(Clone, Copy, Debug, PartialEq, Eq, Structural)]
pub enum Pane {
    Workspaces,
    Monitors,
}

/// The contents of a list, element by element.
pub open spec fn views<T: View>(items: Seq<T>) -> Seq<T::V> {
    items.map_values(|item: T| item@)
}

/// Appending an item appends its contents.
pub proof fn lemma_views_push<T: View>(items: Seq<T>, item: T)
    ensures
        views(items.push(item)) == views(items).push(item@),
{
    assert(views(items.push(item)) =~= views(items).push(item@));
}

/// Appending a list appends its contents.
pub proof fn lemma_views_add<T: View>(items: Seq<T>, more: Seq<T>)
    ensures
        views(items + more) == views(items) + views(more),
{
    assert(views(items + more) =~= views(items) + views(more));
}

/// The text under which a workspace is shown: its number where the name is just
/// that number, else its name. Either way it reads as the name does.
pub fn workspace_label(workspace: &Workspace) -> (label: String)
    ensures
        label@ == workspace.name@,
{
    let number = i32_to_string(workspace.id);
    if workspace.name == number {
        number
    } else {
        workspace.name.clone()
    }
}

} // verus!
