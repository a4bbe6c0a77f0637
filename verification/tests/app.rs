use hyprtuird::app::{
    after_monitors, after_workspaces, Action, App, Event, Fetch, Key, KeyKind, Move,
};
use hyprtuird::client::HyprlandClient;
use hyprtuird::model::{Monitor, Pane, Workspace};

fn workspace(id: i32, name: &str, monitor: &str) -> Workspace {
    Workspace {
        id,
        name: name.to_string(),
        monitor: monitor.to_string(),
    }
}

fn monitor(id: i32, name: &str, focused: bool) -> Monitor {
    Monitor {
        id,
        name: name.to_string(),
        focused,
    }
}

fn empty() -> App {
    App::new(HyprlandClient {
        socket_path: "/s".to_string(),
    })
}

fn both() -> Fetch {
    Fetch::Both(
        vec![
            workspace(2, "2", "DP-1"),
            workspace(1, "1", "HDMI-A-1"),
            workspace(-98, "special:x", "DP-1"),
        ],
        vec![monitor(1, "HDMI-A-1", true), monitor(0, "DP-1", false)],
    )
}

fn filled() -> App {
    let mut app = empty();
    app.refresh(both());
    app
}

fn is_idle(action: Action) -> bool {
    matches!(action, Action::Idle)
}

fn asked(action: Action) -> Move {
    match action {
        Action::Send(request) => request,
        other => panic!("{:?}", other),
    }
}

#[test]
fn starts_empty() {
    let app = empty();
    assert_eq!(app.status, "Loading Hyprland state...");
    assert_eq!(app.focus, Pane::Workspaces);
    assert!(!app.should_quit);
    assert!(app.workspaces.is_empty() && app.monitors.is_empty());
    assert!(app.selected_workspace().is_none() && app.selected_monitor().is_none());
}

#[test]
fn refresh_lists_selects_and_counts() {
    let app = filled();
    assert_eq!(app.status, "3 workspace(s), 2 monitor(s)");
    let names: Vec<&str> = app.workspaces.iter().map(|w| w.name.as_str()).collect();
    assert_eq!(names, vec!["1", "2", "special:x"]);
    assert_eq!(app.selected_workspace().unwrap().name, "1");
    assert_eq!(app.selected_monitor().unwrap().name, "HDMI-A-1");
}

#[test]
fn selections_follow_names_over_a_refresh() {
    let mut app = filled();
    app.handle_key(Key::Down);
    app.handle_key(Key::Tab);
    app.handle_key(Key::Up);
    assert_eq!(app.selected_workspace().unwrap().name, "2");
    assert_eq!(app.selected_monitor().unwrap().name, "DP-1");
    app.refresh(Fetch::Both(
        vec![workspace(0, "0", "DP-1"), workspace(9, "9", "DP-1"), workspace(2, "2", "DP-1")],
        vec![
            monitor(5, "DP-1", false),
            monitor(4, "eDP-1", true),
        ],
    ));
    assert_eq!(app.selected_workspace().unwrap().name, "2");
    assert_eq!(app.workspace_state.selected(), Some(1));
    assert_eq!(app.selected_monitor().unwrap().name, "DP-1");
    app.refresh(Fetch::Both(
        vec![workspace(7, "7", "eDP-1"), workspace(3, "3", "eDP-1")],
        vec![monitor(3, "X", false), monitor(4, "eDP-1", true)],
    ));
    assert_eq!(app.selected_workspace().unwrap().name, "3");
    assert_eq!(app.selected_monitor().unwrap().name, "eDP-1");
}

#[test]
fn same_fetch_again_changes_nothing() {
    let mut app = filled();
    app.handle_key(Key::Char('j'));
    app.refresh(both());
    let before = format!("{:?}", app);
    app.refresh(both());
    assert_eq!(format!("{:?}", app), before);
}

#[test]
fn failed_refresh_keeps_everything_but_the_status() {
    let mut app = filled();
    app.refresh(Fetch::NoWorkspaces("no socket".to_string()));
    assert_eq!(app.status, "no socket");
    assert_eq!(app.workspaces.len(), 3);
    assert_eq!(app.monitors.len(), 2);
    assert_eq!(app.workspace_state.selected(), Some(0));
}

#[test]
fn workspaces_are_kept_when_monitors_fail() {
    let mut app = filled();
    app.handle_key(Key::Up);
    assert_eq!(app.workspace_state.selected(), Some(2));
    app.refresh(Fetch::NoMonitors(
        vec![workspace(4, "4", "DP-1")],
        "bad json".to_string(),
    ));
    assert_eq!(app.status, "bad json");
    assert_eq!(app.workspaces.len(), 1);
    assert_eq!(app.monitors.len(), 2);
    assert_eq!(app.workspace_state.selected(), Some(2));
    assert!(app.selected_workspace().is_none());
    assert!(is_idle(app.handle_key(Key::Enter)));
    assert_eq!(app.status, "No workspace selected");
}

#[test]
fn quits_at_q_and_escape_only() {
    for key in [Key::Char('q'), Key::Esc] {
        let mut app = filled();
        assert!(is_idle(app.handle_key(key)));
        assert!(app.should_quit);
        app.refresh(both());
        app.handle_key(Key::Tab);
        assert!(app.should_quit);
    }
    let mut app = filled();
    for key in [Key::Char('x'), Key::Char('Q'), Key::Other, Key::Tab, Key::Enter] {
        app.handle_key(key);
    }
    assert!(!app.should_quit);
}

#[test]
fn keys_step_in_the_focused_pane() {
    let mut app = filled();
    app.handle_key(Key::Char('k'));
    assert_eq!(app.workspace_state.selected(), Some(2));
    assert_eq!(app.monitor_state.selected(), Some(1));
    app.handle_key(Key::Down);
    assert_eq!(app.workspace_state.selected(), Some(0));
    app.handle_key(Key::BackTab);
    assert_eq!(app.focus, Pane::Monitors);
    app.handle_key(Key::Char('j'));
    assert_eq!(app.monitor_state.selected(), Some(0));
    assert_eq!(app.workspace_state.selected(), Some(0));
    app.handle_key(Key::Tab);
    assert_eq!(app.focus, Pane::Workspaces);
}

#[test]
fn released_keys_do_nothing() {
    let mut app = filled();
    assert!(is_idle(app.handle_key_event(KeyKind::Release, Key::Esc)));
    assert!(!app.should_quit);
    app.handle_key_event(KeyKind::Repeat, Key::Down);
    assert_eq!(app.workspace_state.selected(), Some(1));
    app.handle_key_event(KeyKind::Press, Key::Esc);
    assert!(app.should_quit);
}

#[test]
fn r_asks_for_a_reload() {
    let mut app = filled();
    assert!(matches!(app.handle_key(Key::Char('r')), Action::Reload));
}

#[test]
fn nothing_is_asked_without_a_selection() {
    let mut app = empty();
    assert!(is_idle(app.handle_key(Key::Enter)));
    assert_eq!(app.status, "No workspace selected");
    app.refresh(Fetch::Both(vec![workspace(1, "1", "A")], Vec::new()));
    assert_eq!(app.status, "1 workspace(s), 0 monitor(s)");
    assert!(is_idle(app.handle_key(Key::Enter)));
    assert_eq!(app.status, "No monitor selected");
}

#[test]
fn nothing_is_asked_for_a_workspace_in_place() {
    let mut app = filled();
    assert!(is_idle(app.handle_key(Key::Enter)));
    assert_eq!(app.status, "Workspace 1 is already on HDMI-A-1");
}

#[test]
fn accepted_move_is_told_over_the_refresh() {
    let mut app = filled();
    app.handle_key(Key::Down);
    let request = asked(app.handle_key(Key::Enter));
    assert_eq!(app.status, "3 workspace(s), 2 monitor(s)");
    assert_eq!(request.workspace.name, "2");
    assert_eq!(request.monitor.name, "HDMI-A-1");
    assert!(app.finish_move(&request, Ok("ok\n".to_string())));
    assert_eq!(app.status, "Moved workspace 2 to HDMI-A-1");
    app.refresh_after_move(both());
    assert_eq!(app.status, "Moved workspace 2 to HDMI-A-1");
    assert_eq!(app.selected_workspace().unwrap().name, "2");
}

#[test]
fn refresh_that_fails_after_a_move_is_told() {
    let mut app = filled();
    app.refresh_after_move(Fetch::NoWorkspaces("gone".to_string()));
    assert_eq!(app.status, "Moved, but refresh failed: gone");
    app.refresh_after_move(Fetch::NoMonitors(Vec::new(), "lost".to_string()));
    assert_eq!(app.status, "Moved, but refresh failed: lost");
    assert!(app.workspaces.is_empty());
}

#[test]
fn refused_move_is_told() {
    let mut app = filled();
    app.handle_key(Key::Down);
    let request = asked(app.move_selected_workspace());
    assert!(!app.finish_move(&request, Ok("Monitor not found".to_string())));
    assert_eq!(app.status, "Hyprland rejected move: Monitor not found");
    assert!(!app.finish_move(&request, Err("timed out".to_string())));
    assert_eq!(app.status, "timed out");
    assert_eq!(app.workspaces.len(), 3);
}

#[test]
fn load_state_gives_the_reason() {
    let mut app = filled();
    assert_eq!(app.load_state(both()), Ok(()));
    assert_eq!(
        app.load_state(Fetch::NoWorkspaces("why".to_string())),
        Err("why".to_string())
    );
    assert_eq!(app.status, "3 workspace(s), 2 monitor(s)");
}

#[test]
fn keys_have_synonyms() {
    for (a, b) in [
        (Key::Up, Key::Char('k')),
        (Key::Down, Key::Char('j')),
        (Key::Esc, Key::Char('q')),
        (Key::Tab, Key::BackTab),
    ] {
        let mut first = filled();
        let mut second = filled();
        first.handle_key(a);
        second.handle_key(b);
        assert_eq!(format!("{:?}", first), format!("{:?}", second));
    }
}

#[test]
fn opposite_keys_undo_each_other() {
    for keys in [
        [Key::Up, Key::Down],
        [Key::Down, Key::Up],
        [Key::Tab, Key::Tab],
    ] {
        let mut app = filled();
        let before = format!("{:?}", app);
        for key in keys {
            app.handle_key(key);
        }
        assert_eq!(format!("{:?}", app), before);
    }
}

#[test]
fn monitors_are_asked_for_once_workspaces_came() {
    assert!(matches!(
        after_workspaces(Err("gone".to_string())),
        Err(Fetch::NoWorkspaces(reason)) if reason == "gone"
    ));
    let reported = after_workspaces(Ok(vec![workspace(1, "1", "A")])).unwrap();
    assert_eq!(reported[0].name, "1");
    match after_monitors(reported, Err("lost".to_string())) {
        Fetch::NoMonitors(workspaces, reason) => {
            assert_eq!(workspaces[0].name, "1");
            assert_eq!(reason, "lost");
        }
        other => panic!("{:?}", other),
    }
    match after_monitors(vec![workspace(1, "1", "A")], Ok(vec![monitor(0, "A", true)])) {
        Fetch::Both(workspaces, monitors) => {
            assert_eq!(workspaces[0].name, "1");
            assert_eq!(monitors[0].name, "A");
        }
        other => panic!("{:?}", other),
    }
}

#[test]
fn events_act_as_their_keys() {
    let events = [
        Event::Other,
        Event::Key(KeyKind::Press, Key::Down),
        Event::Key(KeyKind::Release, Key::Down),
        Event::Key(KeyKind::Release, Key::Esc),
        Event::Key(KeyKind::Repeat, Key::Tab),
        Event::Other,
        Event::Key(KeyKind::Press, Key::Up),
        Event::Key(KeyKind::Repeat, Key::Char('q')),
        Event::Key(KeyKind::Press, Key::Up),
    ];
    let mut by_events = filled();
    for event in events {
        if by_events.should_quit {
            break;
        }
        assert!(is_idle(by_events.handle_event(event)));
    }
    let mut by_keys = filled();
    for key in [Key::Down, Key::Tab, Key::Up, Key::Char('q')] {
        by_keys.handle_key(key);
    }
    assert!(by_events.should_quit);
    assert_eq!(format!("{:?}", by_events), format!("{:?}", by_keys));
}
