//! The state of the program, and how keys and Hyprland's replies change it.
use vstd::prelude::*;

use crate::client::{
    monitors_come_by_number, move_outcome, numbered_workspaces_come_first, result_of,
    HyprlandClient,
};
use crate::model::{views, workspace_label, Monitor, MonitorView, Pane, Workspace, WorkspaceView};
use crate::order::{in_order, in_order_is_stable_sort, is_stable_sort};
use crate::selection::{
    first_monitor_is_selected, first_of_the_name_is_selected, gives_names, in_list, is_name,
    lemma_position_is, monitor_names, monitor_selection, monitor_selection_keeps_name,
    name_position, next_selection, position_is_first, previous_selection, select_by_name,
    select_monitor, select_next, select_previous, selection_by_name, selection_by_name_keeps_name,
    steps_lead_to_the_neighbours, ListState,
};
use crate::text::{count_to_string, decimal, text_less};

verus! {

/// A key of the keyboard.
#[derive(Clone, Copy, Debug, PartialEq, Eq, Structural)]
pub enum Key {
    Char(char),
    Esc,
    Tab,
    BackTab,
    Down,
    Up,
    Enter,
    Other,
}

/// What happened to a key.
#[derive(Clone, Copy, Debug, PartialEq, Eq, Structural)]
pub enum KeyKind {
    Press,
    Repeat,
    Release,
}

/// What the program waits for.
#[derive(Clone, Copy, Debug, PartialEq, Eq, Structural)]
pub enum Event {
    /// Something happened to a key.
    Key(KeyKind, Key),
    /// Something else happened, or nothing did in time.
    Other,
}

/// A move that is to be asked of Hyprland.
#[derive(Debug)]
pub struct Move {
    pub workspace: Workspace,
    pub monitor: Monitor,
}

/// What is to be done after a key.
#[derive(Debug)]
pub enum Action {
    /// Nothing.
    Idle,
    /// Fetch workspaces and monitors anew.
    Reload,
    /// Ask Hyprland for a move.
    Send(Move),
}

/// The contents of an [`Action`].
#[verifier::ext_equal]
pub enum ActionView {
    Idle,
    Reload,
    Send(WorkspaceView, MonitorView),
}

impl View for Action {
    type V = ActionView;

    open spec fn view(&self) -> ActionView {
        match self {
            Action::Idle => ActionView::Idle,
            Action::Reload => ActionView::Reload,
            Action::Send(request) => ActionView::Send(request.workspace@, request.monitor@),
        }
    }
}

/// What came of fetching workspaces and then, if that worked, monitors.
#[derive(Debug)]
pub enum Fetch {
    /// The workspaces could not be had, for this reason.
    NoWorkspaces(String),
    /// The workspaces were reported; the monitors could not be had, for this
    /// reason.
    NoMonitors(Vec<Workspace>, String),
    /// Both were reported.
    Both(Vec<Workspace>, Vec<Monitor>),
}

/// The contents of a [`Fetch`].
#[verifier::ext_equal]
pub enum FetchView {
    NoWorkspaces(Seq<char>),
    NoMonitors(Seq<WorkspaceView>, Seq<char>),
    Both(Seq<WorkspaceView>, Seq<MonitorView>),
}

impl View for Fetch {
    type V = FetchView;

    open spec fn view(&self) -> FetchView {
        match self {
            Fetch::NoWorkspaces(reason) => FetchView::NoWorkspaces(reason@),
            Fetch::NoMonitors(workspaces, reason) => FetchView::NoMonitors(
                views(workspaces@),
                reason@,
            ),
            Fetch::Both(workspaces, monitors) => FetchView::Both(
                views(workspaces@),
                views(monitors@),
            ),
        }
    }
}

/// The state of the program.
#[derive(Debug)]
pub struct App {
    pub client: HyprlandClient,
    pub workspaces: Vec<Workspace>,
    pub monitors: Vec<Monitor>,
    pub workspace_state: ListState,
    pub monitor_state: ListState,
    pub focus: Pane,
    pub status: String,
    pub should_quit: bool,
}

/// The contents of an [`App`].
#[verifier::ext_equal]
pub struct AppView {
    pub socket_path: Seq<char>,
    pub workspaces: Seq<WorkspaceView>,
    pub monitors: Seq<MonitorView>,
    pub workspace_state: Option<usize>,
    pub monitor_state: Option<usize>,
    pub focus: Pane,
    pub status: Seq<char>,
    pub should_quit: bool,
}

impl View for App {
    type V = AppView;

    open spec fn view(&self) -> AppView {
        AppView {
            socket_path: self.client.socket_path@,
            workspaces: views(self.workspaces@),
            monitors: views(self.monitors@),
            workspace_state: self.workspace_state@,
            monitor_state: self.monitor_state@,
            focus: self.focus,
            status: self.status@,
            should_quit: self.should_quit,
        }
    }
}

/// The names of workspaces.
pub open spec fn workspace_names(workspaces: Seq<WorkspaceView>) -> Seq<Seq<char>> {
    workspaces.map_values(|workspace: WorkspaceView| workspace.name)
}

/// The entry of a list that is selected, if the selection lies inside it.
pub open spec fn entry<A>(list: Seq<A>, selected: Option<usize>) -> Option<A> {
    match selected {
        Some(index) if index < list.len() => Some(list[index as int]),
        _ => None,
    }
}

/// The other pane.
pub open spec fn other_pane(pane: Pane) -> Pane {
    match pane {
        Pane::Workspaces => Pane::Monitors,
        Pane::Monitors => Pane::Workspaces,
    }
}

impl AppView {
    /// The selected workspace.
    pub open spec fn selected_workspace(self) -> Option<WorkspaceView> {
        entry(self.workspaces, self.workspace_state)
    }

    /// The selected monitor.
    pub open spec fn selected_monitor(self) -> Option<MonitorView> {
        entry(self.monitors, self.monitor_state)
    }

    /// The name of the selected workspace.
    pub open spec fn selected_workspace_name(self) -> Option<Seq<char>> {
        match self.selected_workspace() {
            Some(workspace) => Some(workspace.name),
            None => None,
        }
    }

    /// The name of the selected monitor.
    pub open spec fn selected_monitor_name(self) -> Option<Seq<char>> {
        match self.selected_monitor() {
            Some(monitor) => Some(monitor.name),
            None => None,
        }
    }

    /// The state after a fetch, whatever it says of its status. Lists that were
    /// reported are taken over in order, the workspaces even when the monitors
    /// are missing; the selections follow the names once both are there.
    pub open spec fn loaded(self, fetched: FetchView) -> AppView {
        match fetched {
            FetchView::NoWorkspaces(_) => self,
            FetchView::NoMonitors(reported, _) => AppView {
                workspaces: in_order::<Workspace>(reported),
                ..self
            },
            FetchView::Both(reported, monitors) => AppView {
                workspaces: in_order::<Workspace>(reported),
                monitors: in_order::<Monitor>(monitors),
                workspace_state: selection_by_name(
                    workspace_names(in_order::<Workspace>(reported)),
                    self.selected_workspace_name(),
                ),
                monitor_state: monitor_selection(
                    in_order::<Monitor>(monitors),
                    self.selected_monitor_name(),
                ),
                ..self
            },
        }
    }

    /// The same state with another status.
    pub open spec fn with_status(self, status: Seq<char>) -> AppView {
        AppView { status, ..self }
    }

    /// The status that counts workspaces and monitors.
    pub open spec fn summary(self) -> Seq<char> {
        decimal(self.workspaces.len()) + " workspace(s), "@ + decimal(self.monitors.len())
            + " monitor(s)"@
    }

    /// The state after a refresh.
    pub open spec fn refreshed(self, fetched: FetchView) -> AppView {
        let next = self.loaded(fetched);
        match fetch_error(fetched) {
            None => next.with_status(next.summary()),
            Some(reason) => next.with_status(reason),
        }
    }

    /// The state after the refresh that follows a move: the status that tells of
    /// the move stays, unless the refresh failed.
    pub open spec fn refreshed_after_move(self, fetched: FetchView) -> AppView {
        let next = self.loaded(fetched);
        match fetch_error(fetched) {
            None => next,
            Some(reason) => next.with_status("Moved, but refresh failed: "@ + reason),
        }
    }

    /// The state after a step down in the focused pane.
    pub open spec fn stepped_down(self) -> AppView {
        match self.focus {
            Pane::Workspaces => AppView {
                workspace_state: next_selection(self.workspace_state, self.workspaces.len()),
                ..self
            },
            Pane::Monitors => AppView {
                monitor_state: next_selection(self.monitor_state, self.monitors.len()),
                ..self
            },
        }
    }

    /// The state after a step up in the focused pane.
    pub open spec fn stepped_up(self) -> AppView {
        match self.focus {
            Pane::Workspaces => AppView {
                workspace_state: previous_selection(self.workspace_state, self.workspaces.len()),
                ..self
            },
            Pane::Monitors => AppView {
                monitor_state: previous_selection(self.monitor_state, self.monitors.len()),
                ..self
            },
        }
    }

    /// What is asked of Hyprland to move the selected workspace to the selected
    /// monitor: nothing where one of them is missing, or it is there already.
    pub open spec fn move_action(self) -> ActionView {
        match (self.selected_workspace(), self.selected_monitor()) {
            (Some(workspace), Some(monitor)) if workspace.monitor != monitor.name =>
            ActionView::Send(workspace, monitor),
            _ => ActionView::Idle,
        }
    }

    /// The state after asking for that move: where nothing is asked, the status
    /// says why.
    pub open spec fn move_asked(self) -> AppView {
        match (self.selected_workspace(), self.selected_monitor()) {
            (None, _) => self.with_status("No workspace selected"@),
            (Some(_), None) => self.with_status("No monitor selected"@),
            (Some(workspace), Some(monitor)) => if workspace.monitor == monitor.name {
                self.with_status(
                    "Workspace "@ + workspace.name + " is already on "@ + monitor.name,
                )
            } else {
                self
            },
        }
    }

    /// The state and what is to be done after a key.
    pub open spec fn after_key(self, key: Key) -> (AppView, ActionView) {
        match key {
            Key::Char('q') | Key::Esc => (
                AppView { should_quit: true, ..self },
                ActionView::Idle,
            ),
            Key::Char('r') => (self, ActionView::Reload),
            Key::Tab | Key::BackTab => (
                AppView { focus: other_pane(self.focus), ..self },
                ActionView::Idle,
            ),
            Key::Down | Key::Char('j') => (self.stepped_down(), ActionView::Idle),
            Key::Up | Key::Char('k') => (self.stepped_up(), ActionView::Idle),
            Key::Enter => (self.move_asked(), self.move_action()),
            _ => (self, ActionView::Idle),
        }
    }

    /// The state and what is to be done after an event: a key counts when it is
    /// pressed or repeats, and nothing else does.
    pub open spec fn after_event(self, event: Event) -> (AppView, ActionView) {
        match event {
            Event::Key(KeyKind::Press, key) | Event::Key(KeyKind::Repeat, key) => self.after_key(
                key,
            ),
            _ => (self, ActionView::Idle),
        }
    }

    /// The state once an action is done, given what Hyprland replies to a move
    /// and what a fetch brings, should they be asked for.
    pub open spec fn after_action(self, action: ActionView, answers: Answers) -> AppView {
        match action {
            ActionView::Idle => self,
            ActionView::Reload => self.refreshed(answers.fetched),
            ActionView::Send(workspace, monitor) => match move_outcome(
                workspace,
                monitor,
                answers.reply,
            ) {
                Ok(message) => self.with_status(message).refreshed_after_move(answers.fetched),
                Err(reason) => self.with_status(reason),
            },
        }
    }

    /// The state once a key is dealt with, and what it asked for is done.
    pub open spec fn key_handled(self, key: Key, answers: Answers) -> AppView {
        self.after_key(key).0.after_action(self.after_key(key).1, answers)
    }

    /// The state once these keys are dealt with, one after the other.
    pub open spec fn keys_handled(self, keys: Seq<(Key, Answers)>) -> AppView
        decreases keys.len(),
    {
        if keys.len() == 0 {
            self
        } else {
            self.key_handled(keys[0].0, keys[0].1).keys_handled(keys.drop_first())
        }
    }

    /// The state in which the program ends, or waits on, when these events come:
    /// each is dealt with in turn until the program quits.
    pub open spec fn run(self, events: Seq<(Event, Answers)>) -> AppView
        decreases events.len(),
    {
        if self.should_quit || events.len() == 0 {
            self
        } else {
            let (event, answers) = events[0];
            let next = self.after_event(event);
            next.0.after_action(next.1, answers).run(events.drop_first())
        }
    }
}

/// What Hyprland says while an event is dealt with, should it be asked.
#[verifier::ext_equal]
pub struct Answers {
    /// The reply to a move.
    pub reply: Result<Seq<char>, Seq<char>>,
    /// What a fetch brings.
    pub fetched: FetchView,
}

/// The keys at which the program quits.
pub open spec fn quits(key: Key) -> bool {
    key == Key::Char('q') || key == Key::Esc
}

/// The keys among these events that were pressed or repeated, in order, up to
/// the first at which the program quits, and with it.
pub open spec fn heeded(events: Seq<(Event, Answers)>) -> Seq<(Key, Answers)>
    decreases events.len(),
{
    if events.len() == 0 {
        Seq::empty()
    } else {
        let (event, answers) = events[0];
        match event {
            Event::Key(KeyKind::Press, key) | Event::Key(KeyKind::Repeat, key) => if quits(key) {
                seq![(key, answers)]
            } else {
                seq![(key, answers)] + heeded(events.drop_first())
            },
            _ => heeded(events.drop_first()),
        }
    }
}

/// Why a fetch did not bring both lists.
pub open spec fn fetch_error(fetched: FetchView) -> Option<Seq<char>> {
    match fetched {
        FetchView::NoWorkspaces(reason) => Some(reason),
        FetchView::NoMonitors(_, reason) => Some(reason),
        FetchView::Both(_, _) => None,
    }
}

/// What follows the reply to the question for workspaces: where it brought them,
/// monitors are to be asked for; else the fetch ends there.
pub fn after_workspaces(reply: Result<Vec<Workspace>, String>) -> (next: Result<
    Vec<Workspace>,
    Fetch,
>)
    ensures
        match reply {
            Ok(workspaces) => next == Ok::<Vec<Workspace>, Fetch>(workspaces),
            Err(reason) => next is Err && next->Err_0@ == FetchView::NoWorkspaces(reason@),
        },
{
    match reply {
        Ok(workspaces) => Ok(workspaces),
        Err(reason) => Err(Fetch::NoWorkspaces(reason)),
    }
}

/// What the fetch of `workspaces` came to, given the reply to the question for
/// monitors.
pub fn after_monitors(
    workspaces: Vec<Workspace>,
    reply: Result<Vec<Monitor>, String>,
) -> (fetched: Fetch)
    ensures
        fetched@ == match reply {
            Ok(monitors) => FetchView::Both(views(workspaces@), views(monitors@)),
            Err(reason) => FetchView::NoMonitors(views(workspaces@), reason@),
        },
{
    match reply {
        Ok(monitors) => Fetch::Both(workspaces, monitors),
        Err(reason) => Fetch::NoMonitors(workspaces, reason),
    }
}

fn workspace_name(workspace: &Workspace) -> (name: &str)
    ensures
        name@ == workspace.name@,
{
    workspace.name.as_str()
}

impl App {
    /// The state at the start, before anything was fetched. A refresh is due.
    pub fn new(client: HyprlandClient) -> (app: App)
        ensures
            app@ == (AppView {
                socket_path: client.socket_path@,
                workspaces: Seq::empty(),
                monitors: Seq::empty(),
                workspace_state: None,
                monitor_state: None,
                focus: Pane::Workspaces,
                status: "Loading Hyprland state..."@,
                should_quit: false,
            }),
    {
        App {
            client,
            workspaces: Vec::new(),
            monitors: Vec::new(),
            workspace_state: ListState::default(),
            monitor_state: ListState::default(),
            focus: Pane::Workspaces,
            status: "Loading Hyprland state...".to_string(),
            should_quit: false,
        }
    }

    /// The selected workspace.
    pub fn selected_workspace(&self) -> (workspace: Option<&Workspace>)
        ensures
            match workspace {
                Some(w) => self@.selected_workspace() == Some(w@),
                None => self@.selected_workspace() is None,
            },
    {
        match self.workspace_state.selected() {
            Some(index) if index < self.workspaces.len() => Some(&self.workspaces[index]),
            _ => None,
        }
    }

    /// The selected monitor.
    pub fn selected_monitor(&self) -> (monitor: Option<&Monitor>)
        ensures
            match monitor {
                Some(m) => self@.selected_monitor() == Some(m@),
                None => self@.selected_monitor() is None,
            },
    {
        match self.monitor_state.selected() {
            Some(index) if index < self.monitors.len() => Some(&self.monitors[index]),
            _ => None,
        }
    }

    /// Takes over what was fetched. Fails, for the reason given, where the fetch
    /// did.
    pub fn load_state(&mut self, fetched: Fetch) -> (done: Result<(), String>)
        ensures
            final(self)@ == old(self)@.loaded(fetched@),
            match fetch_error(fetched@) {
                None => done is Ok,
                Some(reason) => done is Err && done->Err_0@ == reason,
            },
    {
        let previous_workspace: Option<String> = match self.selected_workspace() {
            Some(workspace) => Some(workspace.name.clone()),
            None => None,
        };
        let previous_monitor: Option<String> = match self.selected_monitor() {
            Some(monitor) => Some(monitor.name.clone()),
            None => None,
        };
        let ghost before = self@;
        match fetched {
            Fetch::NoWorkspaces(reason) => Err(reason),
            Fetch::NoMonitors(workspaces, reason) => {
                self.workspaces = self.client.workspaces(workspaces);
                Err(reason)
            },
            Fetch::Both(workspaces, monitors) => {
                self.workspaces = self.client.workspaces(workspaces);
                self.monitors = self.client.monitors(monitors);
                let workspace_target: Option<&str> = match &previous_workspace {
                    Some(name) => Some(name.as_str()),
                    None => None,
                };
                let monitor_target: Option<&str> = match &previous_monitor {
                    Some(name) => Some(name.as_str()),
                    None => None,
                };
                proof {
                    let names = workspace_names(views(self.workspaces@));
                    assert(gives_names(self.workspaces@, workspace_name, names));
                }
                select_by_name(
                    &mut self.workspace_state,
                    self.workspaces.as_slice(),
                    workspace_target,
                    workspace_name,
                );
                select_monitor(&mut self.monitor_state, self.monitors.as_slice(), monitor_target);
                Ok(())
            },
        }
    }

    /// Takes over what was fetched, and says in the status what is there or why
    /// it failed.
    pub fn refresh(&mut self, fetched: Fetch)
        ensures
            final(self)@ == old(self)@.refreshed(fetched@),
    {
        match self.load_state(fetched) {
            Ok(()) => {
                let mut status = count_to_string(self.workspaces.len());
                status.append(" workspace(s), ");
                status.append(count_to_string(self.monitors.len()).as_str());
                status.append(" monitor(s)");
                self.status = status;
            },
            Err(reason) => {
                self.status = reason;
            },
        }
    }

    /// Changes the state as a key asks, and says what is to be done.
    pub fn handle_key(&mut self, key: Key) -> (action: Action)
        ensures
            (final(self)@, action@) == old(self)@.after_key(key),
    {
        match key {
            Key::Char('q') | Key::Esc => {
                self.should_quit = true;
                Action::Idle
            },
            Key::Char('r') => Action::Reload,
            Key::Tab | Key::BackTab => {
                self.toggle_focus();
                Action::Idle
            },
            Key::Down | Key::Char('j') => {
                self.next();
                Action::Idle
            },
            Key::Up | Key::Char('k') => {
                self.previous();
                Action::Idle
            },
            Key::Enter => self.move_selected_workspace(),
            _ => Action::Idle,
        }
    }

    /// Handles a key that was pressed or repeats; a key that is released does
    /// nothing.
    pub fn handle_key_event(&mut self, kind: KeyKind, key: Key) -> (action: Action)
        ensures
            (final(self)@, action@) == old(self)@.after_event(Event::Key(kind, key)),
    {
        match kind {
            KeyKind::Press | KeyKind::Repeat => self.handle_key(key),
            KeyKind::Release => Action::Idle,
        }
    }

    /// Handles an event; only keys matter.
    pub fn handle_event(&mut self, event: Event) -> (action: Action)
        ensures
            (final(self)@, action@) == old(self)@.after_event(event),
    {
        match event {
            Event::Key(kind, key) => self.handle_key_event(kind, key),
            Event::Other => Action::Idle,
        }
    }

    /// Gives the focus to the other pane.
    pub fn toggle_focus(&mut self)
        ensures
            final(self)@ == (AppView { focus: other_pane(old(self)@.focus), ..old(self)@ }),
    {
        self.focus = match self.focus {
            Pane::Workspaces => Pane::Monitors,
            Pane::Monitors => Pane::Workspaces,
        };
    }

    /// Moves the selection of the focused pane down.
    pub fn next(&mut self)
        ensures
            final(self)@ == old(self)@.stepped_down(),
    {
        match self.focus {
            Pane::Workspaces => select_next(&mut self.workspace_state, self.workspaces.len()),
            Pane::Monitors => select_next(&mut self.monitor_state, self.monitors.len()),
        }
    }

    /// Moves the selection of the focused pane up.
    pub fn previous(&mut self)
        ensures
            final(self)@ == old(self)@.stepped_up(),
    {
        match self.focus {
            Pane::Workspaces => select_previous(&mut self.workspace_state, self.workspaces.len()),
            Pane::Monitors => select_previous(&mut self.monitor_state, self.monitors.len()),
        }
    }

    /// Asks for the selected workspace to be moved to the selected monitor, or
    /// says in the status why there is nothing to ask.
    pub fn move_selected_workspace(&mut self) -> (action: Action)
        ensures
            final(self)@ == old(self)@.move_asked(),
            action@ == old(self)@.move_action(),
    {
        let workspace: Workspace = match self.selected_workspace() {
            Some(workspace) => workspace.clone(),
            None => {
                self.status = "No workspace selected".to_string();
                return Action::Idle;
            },
        };
        let monitor: Monitor = match self.selected_monitor() {
            Some(monitor) => monitor.clone(),
            None => {
                self.status = "No monitor selected".to_string();
                return Action::Idle;
            },
        };
        if workspace.monitor == monitor.name {
            let mut status = "Workspace ".to_string();
            status.append(workspace_label(&workspace).as_str());
            status.append(" is already on ");
            status.append(monitor.name.as_str());
            self.status = status;
            return Action::Idle;
        }
        Action::Send(Move { workspace, monitor })
    }

    /// Says in the status what came of a move, given the reply to its command.
    /// Tells whether it was accepted; if so, a refresh is due.
    pub fn finish_move(&mut self, request: &Move, reply: Result<String, String>) -> (accepted: bool)
        ensures
            match move_outcome(request.workspace@, request.monitor@, result_of(reply)) {
                Ok(message) => accepted && final(self)@ == old(self)@.with_status(message),
                Err(reason) => !accepted && final(self)@ == old(self)@.with_status(reason),
            },
    {
        match self.client.move_workspace_to_monitor(&request.workspace, &request.monitor, reply) {
            Ok(message) => {
                self.status = message;
                true
            },
            Err(reason) => {
                self.status = reason;
                false
            },
        }
    }

    /// Takes over what was fetched after a move. Only where that failed does the
    /// status change.
    pub fn refresh_after_move(&mut self, fetched: Fetch)
        ensures
            final(self)@ == old(self)@.refreshed_after_move(fetched@),
    {
        match self.load_state(fetched) {
            Ok(()) => {},
            Err(reason) => {
                let mut status = "Moved, but refresh failed: ".to_string();
                status.append(reason.as_str());
                self.status = status;
            },
        }
    }
}

/// Both selections lie inside their lists.
pub open spec fn selections_in_lists(app: AppView) -> bool {
    &&& in_list(app.workspace_state, app.workspaces.len())
    &&& in_list(app.monitor_state, app.monitors.len())
}

/// Lists that memory can hold.
pub open spec fn lists_fit(app: AppView) -> bool {
    app.workspaces.len() <= usize::MAX && app.monitors.len() <= usize::MAX
}

/// No key moves a selection out of its list.
pub proof fn keys_keep_selections_in_lists(app: AppView, key: Key)
    requires
        lists_fit(app),
        selections_in_lists(app),
    ensures
        selections_in_lists(app.after_key(key).0),
{
}

/// A key leaves the lists, the socket and the selection of the pane without the
/// focus as they are.
pub proof fn keys_change_one_selection(app: AppView, key: Key)
    ensures
        ({
            let next = app.after_key(key).0;
            &&& next.socket_path == app.socket_path
            &&& next.workspaces == app.workspaces
            &&& next.monitors == app.monitors
            &&& app.focus == Pane::Workspaces ==> next.monitor_state == app.monitor_state
            &&& app.focus == Pane::Monitors ==> next.workspace_state == app.workspace_state
        }),
{
}

/// The program quits at `q` and `Esc` and at no other key, and no key or fetch
/// takes that back.
pub proof fn quitting_is_final(app: AppView, key: Key, fetched: FetchView)
    ensures
        app.after_key(key).0.should_quit <==> app.should_quit || key == Key::Char('q') || key
            == Key::Esc,
        app.refreshed(fetched).should_quit == app.should_quit,
        app.refreshed_after_move(fetched).should_quit == app.should_quit,
{
}

/// `Up` and `k`, `Down` and `j`, `Esc` and `q`, `Tab` and `BackTab` do the same.
pub proof fn keys_have_synonyms(app: AppView)
    ensures
        app.after_key(Key::Up) == app.after_key(Key::Char('k')),
        app.after_key(Key::Down) == app.after_key(Key::Char('j')),
        app.after_key(Key::Esc) == app.after_key(Key::Char('q')),
        app.after_key(Key::Tab) == app.after_key(Key::BackTab),
{
}

/// `Tab` pressed twice does nothing.
pub proof fn tab_undoes_itself(app: AppView)
    ensures
        app.after_key(Key::Tab).0.after_key(Key::Tab).0 == app,
{
}

/// `Up` undoes `Down`, and `Down` undoes `Up`, while the focused pane has a
/// selection.
pub proof fn up_and_down_undo_each_other(app: AppView)
    requires
        lists_fit(app),
        selections_in_lists(app),
        match app.focus {
            Pane::Workspaces => app.workspace_state is Some,
            Pane::Monitors => app.monitor_state is Some,
        },
    ensures
        app.after_key(Key::Down).0.after_key(Key::Up).0 == app,
        app.after_key(Key::Up).0.after_key(Key::Down).0 == app,
{
}

/// Hyprland is asked for a move at `Enter` only, and only where a workspace and a
/// monitor are selected and the workspace is on another monitor; the state then
/// stays as it is until the reply. A reload is asked for at `r` only.
pub proof fn moves_are_asked_at_enter(
    app: AppView,
    key: Key,
    workspace: WorkspaceView,
    monitor: MonitorView,
)
    ensures
        app.after_key(key).1 == ActionView::Send(workspace, monitor) <==> {
            &&& key == Key::Enter
            &&& app.selected_workspace() == Some(workspace)
            &&& app.selected_monitor() == Some(monitor)
            &&& workspace.monitor != monitor.name
        },
        app.after_key(key).1 is Send ==> app.after_key(key).0 == app,
        app.after_key(key).1 is Reload <==> key == Key::Char('r'),
        app.after_key(key).1 is Reload ==> app.after_key(key).0 == app,
{
}

/// A fetch that brings both lists leaves both selections inside them, and
/// something selected in each list that is not empty.
pub proof fn complete_fetch_selects(
    app: AppView,
    workspaces: Seq<WorkspaceView>,
    monitors: Seq<MonitorView>,
)
    requires
        workspaces.len() <= usize::MAX,
        monitors.len() <= usize::MAX,
    ensures
        ({
            let next = app.loaded(FetchView::Both(workspaces, monitors));
            &&& lists_fit(next)
            &&& selections_in_lists(next)
            &&& next.workspaces.len() == workspaces.len()
            &&& next.monitors.len() == monitors.len()
            &&& next.selected_workspace() is None <==> workspaces.len() == 0
            &&& next.selected_monitor() is None <==> monitors.len() == 0
        }),
{
    let next = app.loaded(FetchView::Both(workspaces, monitors));
    in_order_is_stable_sort::<Workspace>(workspaces);
    in_order_is_stable_sort::<Monitor>(monitors);
    selection_by_name_keeps_name(
        workspace_names(next.workspaces),
        app.selected_workspace_name(),
    );
    monitor_selection_keeps_name(next.monitors, app.selected_monitor_name());
}

/// Over a fetch that brings both lists, the selections follow the names: what
/// was selected stays selected while something of its name is listed. Where it
/// is gone, the first workspace is selected, and a monitor that has the focus.
pub proof fn selections_follow_names(
    app: AppView,
    workspaces: Seq<WorkspaceView>,
    monitors: Seq<MonitorView>,
)
    requires
        workspaces.len() <= usize::MAX,
        monitors.len() <= usize::MAX,
    ensures
        ({
            let next = app.loaded(FetchView::Both(workspaces, monitors));
            let workspace_before = app.selected_workspace_name();
            let monitor_before = app.selected_monitor_name();
            let workspace_stays = workspace_before is Some && workspace_names(
                next.workspaces,
            ).contains(workspace_before->0);
            let monitor_stays = monitor_before is Some && monitor_names(next.monitors).contains(
                monitor_before->0,
            );
            &&& workspace_stays ==> next.selected_workspace_name() == workspace_before
            &&& !workspace_stays && workspaces.len() > 0 ==> next.workspace_state == Some(0usize)
            &&& monitor_stays ==> next.selected_monitor_name() == monitor_before
            &&& !monitor_stays && (exists|i: int|
                0 <= i < next.monitors.len() && (#[trigger] next.monitors[i]).focused)
                ==> next.selected_monitor() is Some && next.selected_monitor()->0.focused
        }),
{
    let next = app.loaded(FetchView::Both(workspaces, monitors));
    complete_fetch_selects(app, workspaces, monitors);
    selection_by_name_keeps_name(
        workspace_names(next.workspaces),
        app.selected_workspace_name(),
    );
    monitor_selection_keeps_name(next.monitors, app.selected_monitor_name());
}

/// Where not even the workspaces can be fetched, nothing but the status changes.
pub proof fn failed_fetch_changes_status_only(app: AppView, reason: Seq<char>)
    ensures
        app.refreshed(FetchView::NoWorkspaces(reason)) == app.with_status(reason),
        app.refreshed_after_move(FetchView::NoWorkspaces(reason)) == app.with_status(
            "Moved, but refresh failed: "@ + reason,
        ),
{
}

/// The message of a move outlasts the refresh that follows it, if that works.
pub proof fn move_message_outlasts_refresh(
    app: AppView,
    workspaces: Seq<WorkspaceView>,
    monitors: Seq<MonitorView>,
)
    ensures
        app.refreshed_after_move(FetchView::Both(workspaces, monitors)).status == app.status,
{
}

/// Fetching the same lists again changes nothing, provided that the selected
/// monitor is the first of its name.
pub proof fn same_fetch_changes_nothing(
    app: AppView,
    workspaces: Seq<WorkspaceView>,
    monitors: Seq<MonitorView>,
)
    requires
        workspaces.len() <= usize::MAX,
        monitors.len() <= usize::MAX,
        ({
            let next = app.loaded(FetchView::Both(workspaces, monitors));
            next.selected_monitor() is Some ==> name_position(
                monitor_names(next.monitors),
                next.selected_monitor_name()->0,
            ) == Some(next.monitor_state->0 as nat)
        }),
    ensures
        ({
            let fetched = FetchView::Both(workspaces, monitors);
            app.refreshed(fetched).refreshed(fetched) == app.refreshed(fetched)
        }),
{
    let fetched = FetchView::Both(workspaces, monitors);
    let next = app.refreshed(fetched);
    complete_fetch_selects(app, workspaces, monitors);
    let names = workspace_names(next.workspaces);
    selection_by_name_keeps_name(names, app.selected_workspace_name());
    if next.workspaces.len() > 0 {
        let k = next.workspace_state->0 as int;
        assert(names[k] == next.selected_workspace_name()->0);
        if let Some(target) = app.selected_workspace_name() {
            position_is_first(names, is_name(target));
        }
        let is_same = is_name(names[k]);
        assert forall|i: int| 0 <= i < k implies !is_same(#[trigger] names[i]) by {}
        lemma_position_is(names, is_same, k);
    }
}

/// Events act as the keys among them that were pressed or repeated would, one
/// after the other, up to the first `q` or `Esc`: releases, other events and
/// waiting in vain change nothing, and nor does what comes after that key.
pub proof fn events_act_as_their_keys(app: AppView, events: Seq<(Event, Answers)>)
    requires
        !app.should_quit,
    ensures
        app.run(events) == app.keys_handled(heeded(events)),
    decreases events.len(),
{
    reveal_with_fuel(AppView::run, 2);
    reveal_with_fuel(AppView::keys_handled, 2);
    if events.len() > 0 {
        let (event, answers) = events[0];
        let rest = events.drop_first();
        match event {
            Event::Key(KeyKind::Press, key) | Event::Key(KeyKind::Repeat, key) => {
                let next = app.key_handled(key, answers);
                if quits(key) {
                    assert(next.should_quit);
                    assert(next.run(rest) == next);
                    assert(heeded(events).drop_first() =~= Seq::empty());
                } else {
                    assert(!next.should_quit);
                    events_act_as_their_keys(next, rest);
                    assert(heeded(events).drop_first() =~= heeded(rest));
                }
            },
            _ => {
                events_act_as_their_keys(app, rest);
            },
        }
    }
}

/// Events end the program exactly when `q` or `Esc` is pressed or repeated among
/// them.
pub proof fn events_end_the_program_at_quit(app: AppView, events: Seq<(Event, Answers)>)
    requires
        !app.should_quit,
    ensures
        app.run(events).should_quit <==> exists|i: int|
            0 <= i < heeded(events).len() && quits((#[trigger] heeded(events)[i]).0),
    decreases events.len(),
{
    reveal_with_fuel(AppView::run, 2);
    if events.len() > 0 {
        let (event, answers) = events[0];
        let rest = events.drop_first();
        match event {
            Event::Key(KeyKind::Press, key) | Event::Key(KeyKind::Repeat, key) => {
                let next = app.key_handled(key, answers);
                if quits(key) {
                    assert(next.should_quit);
                    assert(next.run(rest) == next);
                    assert(quits(heeded(events)[0].0));
                } else {
                    assert(!next.should_quit);
                    events_end_the_program_at_quit(next, rest);
                    let all = heeded(events);
                    let tail = heeded(rest);
                    assert(all =~= seq![(key, answers)] + tail);
                    if next.run(rest).should_quit {
                        let i = choose|i: int| 0 <= i < tail.len() && quits((#[trigger] tail[i]).0);
                        assert(all[i + 1] == tail[i]);
                    } else {
                        assert forall|i: int| 0 <= i < all.len() implies !quits(
                            (#[trigger] all[i]).0,
                        ) by {
                            if i > 0 {
                                assert(all[i] == tail[i - 1]);
                            }
                        }
                    }
                }
            },
            _ => {
                events_end_the_program_at_quit(app, rest);
                assert(app.run(events) == app.run(rest));
                assert(heeded(events) == heeded(rest));
            },
        }
    }
}

/// Once the program has quit, no event changes anything.
pub proof fn no_event_counts_after_quitting(app: AppView, events: Seq<(Event, Answers)>)
    requires
        app.should_quit,
    ensures
        app.run(events) == app,
{
}

/// After a fetch that brings both lists, just what was reported is listed, in a
/// stable sort of its own, whatever was listed before; everything but the lists,
/// their selections and the status stays.
pub proof fn complete_fetch_lists_the_report(
    app: AppView,
    workspaces: Seq<WorkspaceView>,
    monitors: Seq<MonitorView>,
    next: AppView,
)
    requires
        ({
            let fetched = FetchView::Both(workspaces, monitors);
            ||| next == app.loaded(fetched)
            ||| next == app.refreshed(fetched)
            ||| next == app.refreshed_after_move(fetched)
        }),
    ensures
        next.workspaces.to_multiset() == workspaces.to_multiset(),
        next.monitors.to_multiset() == monitors.to_multiset(),
        next.workspaces.len() == workspaces.len(),
        next.monitors.len() == monitors.len(),
        is_stable_sort::<Workspace>(workspaces, next.workspaces),
        is_stable_sort::<Monitor>(monitors, next.monitors),
        next.socket_path == app.socket_path,
        next.focus == app.focus,
        next.should_quit == app.should_quit,
{
    in_order_is_stable_sort::<Workspace>(workspaces);
    in_order_is_stable_sort::<Monitor>(monitors);
}

/// After a fetch that brings both lists, the workspaces with a number of their own
/// are listed by number, then the others by name, and the monitors by number.
pub proof fn complete_fetch_lists_in_order(
    app: AppView,
    workspaces: Seq<WorkspaceView>,
    monitors: Seq<MonitorView>,
    i: int,
    j: int,
)
    requires
        0 <= i < j,
    ensures
        ({
            let next = app.loaded(FetchView::Both(workspaces, monitors));
            let list = next.workspaces;
            &&& j < list.len() && list[j].id >= 0 ==> 0 <= list[i].id <= list[j].id
            &&& j < list.len() && list[i].id < 0 ==> list[j].id < 0 && (list[i].name
                == list[j].name || text_less(list[i].name, list[j].name))
            &&& j < next.monitors.len() ==> next.monitors[i].id <= next.monitors[j].id
        }),
{
    if j < in_order::<Workspace>(workspaces).len() {
        numbered_workspaces_come_first(workspaces, i, j);
    }
    if j < in_order::<Monitor>(monitors).len() {
        monitors_come_by_number(monitors, i, j);
    }
}

/// After a fetch that brings the workspaces alone, just those reported are listed;
/// the monitors and both selections stay as they were, and the status gives the
/// reason.
pub proof fn partial_fetch_lists_the_workspaces(
    app: AppView,
    workspaces: Seq<WorkspaceView>,
    reason: Seq<char>,
    i: int,
    j: int,
)
    ensures
        ({
            let fetched = FetchView::NoMonitors(workspaces, reason);
            let next = app.loaded(fetched);
            let list = next.workspaces;
            &&& list.to_multiset() == workspaces.to_multiset()
            &&& is_stable_sort::<Workspace>(workspaces, list)
            &&& 0 <= i < j < list.len() && list[j].id >= 0 ==> 0 <= list[i].id <= list[j].id
            &&& 0 <= i < j < list.len() && list[i].id < 0 ==> list[j].id < 0 && (list[i].name
                == list[j].name || text_less(list[i].name, list[j].name))
            &&& next == (AppView { workspaces: list, ..app })
            &&& app.refreshed(fetched) == (AppView { workspaces: list, status: reason, ..app })
            &&& app.refreshed_after_move(fetched) == (AppView {
                workspaces: list,
                status: "Moved, but refresh failed: "@ + reason,
                ..app
            })
        }),
{
    in_order_is_stable_sort::<Workspace>(workspaces);
    if 0 <= i < j < in_order::<Workspace>(workspaces).len() {
        numbered_workspaces_come_first(workspaces, i, j);
    }
}

/// A fetch fails for the reason given, at whichever list it failed, and succeeds
/// where both lists came.
pub proof fn fetches_fail_for_their_reason(
    workspaces: Seq<WorkspaceView>,
    monitors: Seq<MonitorView>,
    reason: Seq<char>,
)
    ensures
        fetch_error(FetchView::NoWorkspaces(reason)) == Some(reason),
        fetch_error(FetchView::NoMonitors(workspaces, reason)) == Some(reason),
        fetch_error(FetchView::Both(workspaces, monitors)) is None,
{
}

/// Where not even the workspaces came, the lists, the selections and the focus stay.
pub proof fn failed_fetch_keeps_the_lists(app: AppView, reason: Seq<char>)
    ensures
        app.loaded(FetchView::NoWorkspaces(reason)) == app,
        app.refreshed(FetchView::NoWorkspaces(reason)) == (AppView { status: reason, ..app }),
        app.refreshed_after_move(FetchView::NoWorkspaces(reason)) == (AppView {
            status: "Moved, but refresh failed: "@ + reason,
            ..app
        }),
{
}

/// A refresh that brings both lists counts what was reported in the status, and
/// differs in nothing else from the refresh that follows a move.
pub proof fn refreshing_counts_the_report(
    app: AppView,
    workspaces: Seq<WorkspaceView>,
    monitors: Seq<MonitorView>,
)
    ensures
        ({
            let fetched = FetchView::Both(workspaces, monitors);
            let count = decimal(workspaces.len()) + " workspace(s), "@ + decimal(monitors.len())
                + " monitor(s)"@;
            &&& app.refreshed(fetched).status == count
            &&& app.loaded(fetched).status == app.status
            &&& app.refreshed(fetched) == (AppView { status: count, ..app.loaded(fetched) })
            &&& app.refreshed_after_move(fetched) == app.loaded(fetched)
        }),
{
    in_order_is_stable_sort::<Workspace>(workspaces);
    in_order_is_stable_sort::<Monitor>(monitors);
}

/// Over a fetch that brings both lists, the selection goes to the first workspace
/// listed under the name that was selected. Where the name is gone, or nothing was
/// selected, it goes to the first workspace of all, if there is one.
pub proof fn workspace_selection_follows_its_name(
    app: AppView,
    workspaces: Seq<WorkspaceView>,
    monitors: Seq<MonitorView>,
    k: int,
)
    requires
        workspaces.len() <= usize::MAX,
        0 <= k < workspaces.len(),
    ensures
        ({
            let next = app.loaded(FetchView::Both(workspaces, monitors));
            let selects = app.workspace_state is Some && app.workspace_state->0
                < app.workspaces.len();
            let name = app.workspaces[app.workspace_state->0 as int].name;
            &&& selects && next.workspaces[k].name == name && (forall|i: int|
                0 <= i < k ==> (#[trigger] next.workspaces[i]).name != name)
                ==> next.workspace_state == Some(k as usize)
            &&& !selects || (forall|i: int|
                0 <= i < next.workspaces.len() ==> (#[trigger] next.workspaces[i]).name != name)
                ==> next.workspace_state == Some(0usize)
        }),
{
    let next = app.loaded(FetchView::Both(workspaces, monitors));
    in_order_is_stable_sort::<Workspace>(workspaces);
    let names = workspace_names(next.workspaces);
    let previous = app.selected_workspace_name();
    first_of_the_name_is_selected(names, previous, k);
    if let Some(name) = previous {
        if next.workspaces[k].name == name && forall|i: int|
            0 <= i < k ==> (#[trigger] next.workspaces[i]).name != name {
            assert forall|i: int| 0 <= i < k implies #[trigger] names[i] != name by {
                assert(names[i] == next.workspaces[i].name);
            }
        }
        if forall|i: int|
            0 <= i < next.workspaces.len() ==> (#[trigger] next.workspaces[i]).name != name {
            assert forall|i: int| 0 <= i < names.len() implies #[trigger] names[i] != name by {
                assert(names[i] == next.workspaces[i].name);
            }
        }
    }
}

/// Over a fetch that brings both lists, the selection goes to the first monitor
/// listed under the name that was selected. Where the name is gone, or nothing was
/// selected, it goes to the first monitor with the focus, and where none has it, to
/// the first monitor of all, if there is one.
pub proof fn monitor_selection_follows_its_name(
    app: AppView,
    workspaces: Seq<WorkspaceView>,
    monitors: Seq<MonitorView>,
    k: int,
)
    requires
        monitors.len() <= usize::MAX,
        0 <= k < monitors.len(),
    ensures
        ({
            let next = app.loaded(FetchView::Both(workspaces, monitors));
            let selects = app.monitor_state is Some && app.monitor_state->0 < app.monitors.len();
            let name = app.monitors[app.monitor_state->0 as int].name;
            let gone = !selects || forall|i: int|
                0 <= i < next.monitors.len() ==> (#[trigger] next.monitors[i]).name != name;
            &&& selects && next.monitors[k].name == name && (forall|i: int|
                0 <= i < k ==> (#[trigger] next.monitors[i]).name != name) ==> next.monitor_state
                == Some(k as usize)
            &&& gone && next.monitors[k].focused && (forall|i: int|
                0 <= i < k ==> !(#[trigger] next.monitors[i]).focused) ==> next.monitor_state
                == Some(k as usize)
            &&& gone && (forall|i: int|
                0 <= i < next.monitors.len() ==> !(#[trigger] next.monitors[i]).focused)
                ==> next.monitor_state == Some(0usize)
        }),
{
    let next = app.loaded(FetchView::Both(workspaces, monitors));
    in_order_is_stable_sort::<Monitor>(monitors);
    first_monitor_is_selected(next.monitors, app.selected_monitor_name(), k);
}

/// In a list that comes empty nothing is selected.
pub proof fn nothing_is_selected_in_empty_lists(
    app: AppView,
    workspaces: Seq<WorkspaceView>,
    monitors: Seq<MonitorView>,
)
    ensures
        ({
            let next = app.loaded(FetchView::Both(workspaces, monitors));
            &&& workspaces.len() == 0 ==> next.workspace_state is None
            &&& monitors.len() == 0 ==> next.monitor_state is None
        }),
{
    in_order_is_stable_sort::<Workspace>(workspaces);
    in_order_is_stable_sort::<Monitor>(monitors);
}

/// With the focus on the workspaces and entry `i` of `n` selected, `Down` selects
/// entry `(i + 1) % n` and `Up` entry `(i + n - 1) % n`; nothing else changes.
pub proof fn steps_among_the_workspaces(app: AppView, i: usize)
    requires
        app.focus == Pane::Workspaces,
        app.workspace_state == Some(i),
        i < app.workspaces.len() <= usize::MAX,
    ensures
        ({
            let n = app.workspaces.len() as int;
            &&& app.after_key(Key::Down).0 == (AppView {
                workspace_state: Some(((i + 1) % n) as usize),
                ..app
            })
            &&& app.after_key(Key::Up).0 == (AppView {
                workspace_state: Some(((i + n - 1) % n) as usize),
                ..app
            })
        }),
{
    steps_lead_to_the_neighbours(i, app.workspaces.len() as usize);
}

/// With the focus on the monitors and entry `i` of `n` selected, `Down` selects entry
/// `(i + 1) % n` and `Up` entry `(i + n - 1) % n`; nothing else changes.
pub proof fn steps_among_the_monitors(app: AppView, i: usize)
    requires
        app.focus == Pane::Monitors,
        app.monitor_state == Some(i),
        i < app.monitors.len() <= usize::MAX,
    ensures
        ({
            let n = app.monitors.len() as int;
            &&& app.after_key(Key::Down).0 == (AppView {
                monitor_state: Some(((i + 1) % n) as usize),
                ..app
            })
            &&& app.after_key(Key::Up).0 == (AppView {
                monitor_state: Some(((i + n - 1) % n) as usize),
                ..app
            })
        }),
{
    steps_lead_to_the_neighbours(i, app.monitors.len() as usize);
}

/// Where nothing is selected in the focused pane, `Down` selects its first entry
/// and `Up` its last; in an empty list nothing is selected after either. From a
/// selection beyond the end, `Down` leads to the first entry and `Up` one up.
pub proof fn steps_from_outside_the_list(app: AppView, i: usize)
    requires
        lists_fit(app),
    ensures
        ({
            let down = app.after_key(Key::Down).0;
            let up = app.after_key(Key::Up).0;
            let n = app.workspaces.len();
            let m = app.monitors.len();
            &&& app.focus == Pane::Workspaces && n == 0 ==> down.workspace_state is None
                && up.workspace_state is None
            &&& app.focus == Pane::Workspaces && n > 0 && app.workspace_state is None
                ==> down.workspace_state == Some(0usize) && up.workspace_state == Some(
                (n - 1) as usize,
            )
            &&& app.focus == Pane::Workspaces && 0 < n <= i && app.workspace_state == Some(i)
                ==> down.workspace_state == Some(0usize) && up.workspace_state == Some(
                (i - 1) as usize,
            )
            &&& app.focus == Pane::Monitors && m == 0 ==> down.monitor_state is None
                && up.monitor_state is None
            &&& app.focus == Pane::Monitors && m > 0 && app.monitor_state is None
                ==> down.monitor_state == Some(0usize) && up.monitor_state == Some(
                (m - 1) as usize,
            )
            &&& app.focus == Pane::Monitors && 0 < m <= i && app.monitor_state == Some(i)
                ==> down.monitor_state == Some(0usize) && up.monitor_state == Some(
                (i - 1) as usize,
            )
        }),
{
    steps_lead_to_the_neighbours(i, app.workspaces.len() as usize);
    steps_lead_to_the_neighbours(i, app.monitors.len() as usize);
}

/// `Down`, `Up`, `j` and `k` change the selection of the focused pane and nothing
/// else, and ask for nothing.
pub proof fn steps_change_a_selection_only(app: AppView, key: Key)
    requires
        key == Key::Down || key == Key::Up || key == Key::Char('j') || key == Key::Char('k'),
    ensures
        ({
            let (next, action) = app.after_key(key);
            &&& action is Idle
            &&& app.focus == Pane::Workspaces ==> next == (AppView {
                workspace_state: next.workspace_state,
                ..app
            })
            &&& app.focus == Pane::Monitors ==> next == (AppView {
                monitor_state: next.monitor_state,
                ..app
            })
        }),
{
}

/// `Tab` moves the focus from the workspaces to the monitors and from the monitors
/// to the workspaces, and does nothing else.
pub proof fn tab_moves_the_focus(app: AppView, key: Key)
    requires
        key == Key::Tab || key == Key::BackTab,
    ensures
        app.focus == Pane::Workspaces ==> app.after_key(key) == (
            AppView { focus: Pane::Monitors, ..app },
            ActionView::Idle,
        ),
        app.focus == Pane::Monitors ==> app.after_key(key) == (
            AppView { focus: Pane::Workspaces, ..app },
            ActionView::Idle,
        ),
{
}

/// `q` and `Esc` make the program quit, `r` asks for a reload, and no key without a
/// meaning does anything.
pub proof fn other_keys_leave_the_state(app: AppView, key: Key)
    ensures
        key == Key::Char('q') || key == Key::Esc ==> app.after_key(key) == (
            AppView { should_quit: true, ..app },
            ActionView::Idle,
        ),
        key == Key::Char('r') ==> app.after_key(key) == (app, ActionView::Reload),
        key == Key::Other ==> app.after_key(key) == (app, ActionView::Idle),
        key is Char && key->0 != 'q' && key->0 != 'r' && key->0 != 'j' && key->0 != 'k'
            ==> app.after_key(key) == (app, ActionView::Idle),
{
}

/// At `Enter` the workspace and the monitor at the selected places are looked at.
/// Where one of them is missing, or the workspace is on that monitor already, the
/// status says so and nothing is asked; else the move of just these two is asked,
/// and the state stays.
pub proof fn enter_asks_for_what_is_selected(app: AppView)
    ensures
        ({
            let (next, action) = app.after_key(Key::Enter);
            let has_workspace = app.workspace_state is Some && app.workspace_state->0
                < app.workspaces.len();
            let has_monitor = app.monitor_state is Some && app.monitor_state->0
                < app.monitors.len();
            let workspace = app.workspaces[app.workspace_state->0 as int];
            let monitor = app.monitors[app.monitor_state->0 as int];
            &&& !has_workspace ==> action is Idle && next == (AppView {
                status: "No workspace selected"@,
                ..app
            })
            &&& has_workspace && !has_monitor ==> action is Idle && next == (AppView {
                status: "No monitor selected"@,
                ..app
            })
            &&& has_workspace && has_monitor && workspace.monitor == monitor.name
                ==> action is Idle && next == (AppView {
                status: "Workspace "@ + workspace.name + " is already on "@ + monitor.name,
                ..app
            })
            &&& has_workspace && has_monitor && workspace.monitor != monitor.name ==> action
                == ActionView::Send(workspace, monitor) && next == app
        }),
{
}

/// A key acts the same when it repeats as when it is pressed; a key that is
/// released, and whatever is no key, changes nothing and asks for nothing.
pub proof fn only_pressed_keys_act(app: AppView, key: Key)
    ensures
        app.after_event(Event::Key(KeyKind::Press, key)) == app.after_key(key),
        app.after_event(Event::Key(KeyKind::Repeat, key)) == app.after_key(key),
        app.after_event(Event::Key(KeyKind::Release, key)) == (app, ActionView::Idle),
        app.after_event(Event::Other) == (app, ActionView::Idle),
{
}

/// What is selected is the entry at the selected place, where there is one.
pub proof fn selected_entries_stand_at_their_place(app: AppView, i: usize)
    ensures
        app.workspace_state == Some(i) && i < app.workspaces.len() ==> app.selected_workspace()
            == Some(app.workspaces[i as int]),
        app.workspace_state == Some(i) && i >= app.workspaces.len()
            ==> app.selected_workspace() is None,
        app.workspace_state is None ==> app.selected_workspace() is None,
        app.monitor_state == Some(i) && i < app.monitors.len() ==> app.selected_monitor() == Some(
            app.monitors[i as int],
        ),
        app.monitor_state == Some(i) && i >= app.monitors.len() ==> app.selected_monitor() is None,
        app.monitor_state is None ==> app.selected_monitor() is None,
{
}

/// Another status is all that a state gets with it.
pub proof fn a_status_changes_nothing_else(app: AppView, status: Seq<char>)
    ensures
        app.with_status(status).status == status,
        app.with_status(status).with_status(app.status) == app,
{
}

/// The state is seen as it is: both lists entry by entry, both selections, the
/// focus, the status, the socket, and whether the program is to quit.
pub proof fn states_are_seen_as_they_are(app: App, i: int)
    ensures
        app@.workspaces.len() == app.workspaces@.len(),
        0 <= i < app.workspaces@.len() ==> {
            &&& app@.workspaces[i].id == app.workspaces@[i].id
            &&& app@.workspaces[i].name == app.workspaces@[i].name@
            &&& app@.workspaces[i].monitor == app.workspaces@[i].monitor@
        },
        app@.monitors.len() == app.monitors@.len(),
        0 <= i < app.monitors@.len() ==> {
            &&& app@.monitors[i].id == app.monitors@[i].id
            &&& app@.monitors[i].name == app.monitors@[i].name@
            &&& app@.monitors[i].focused == app.monitors@[i].focused
        },
        app@.workspace_state == app.workspace_state.selected,
        app@.monitor_state == app.monitor_state.selected,
        app@.focus == app.focus,
        app@.status == app.status@,
        app@.socket_path == app.client.socket_path@,
        app@.should_quit == app.should_quit,
{
}

/// An action is seen as it is: a move with its workspace and its monitor.
pub proof fn actions_are_seen_as_they_are(action: Action)
    ensures
        action is Idle <==> action@ is Idle,
        action is Reload <==> action@ is Reload,
        action is Send <==> action@ is Send,
        action matches Action::Send(request) ==> {
            &&& action@ matches ActionView::Send(workspace, monitor)
            &&& workspace.id == request.workspace.id
            &&& workspace.name == request.workspace.name@
            &&& workspace.monitor == request.workspace.monitor@
            &&& monitor.id == request.monitor.id
            &&& monitor.name == request.monitor.name@
            &&& monitor.focused == request.monitor.focused
        },
{
}

/// A fetch is seen as it is: the lists it brought entry by entry, or why it failed.
pub proof fn fetches_are_seen_as_they_are(fetched: Fetch, i: int)
    ensures
        match fetched {
            Fetch::NoWorkspaces(reason) => {
                &&& fetched@ matches FetchView::NoWorkspaces(why)
                &&& why == reason@
            },
            Fetch::NoMonitors(workspaces, reason) => {
                &&& fetched@ matches FetchView::NoMonitors(listed, why)
                &&& why == reason@
                &&& listed.len() == workspaces@.len()
                &&& 0 <= i < listed.len() ==> listed[i] == workspaces@[i]@
            },
            Fetch::Both(workspaces, monitors) => {
                &&& fetched@ matches FetchView::Both(listed, others)
                &&& listed.len() == workspaces@.len() && others.len() == monitors@.len()
                &&& 0 <= i < listed.len() ==> listed[i] == workspaces@[i]@
                &&& 0 <= i < others.len() ==> others[i] == monitors@[i]@
            },
        },
{
}

} // verus!
