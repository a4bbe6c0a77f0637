use std::path::PathBuf;

use hyprtuird::client::{
    join_path, monitors_request, move_command, socket_candidates, workspaces_request,
    HyprlandClient, Probe,
};
use hyprtuird::model::{Monitor, Workspace};

fn workspace(id: i32, name: &str, monitor: &str) -> Workspace {
    Workspace {
        id,
        name: name.to_string(),
        monitor: monitor.to_string(),
    }
}

fn monitor(id: i32, name: &str) -> Monitor {
    Monitor {
        id,
        name: name.to_string(),
        focused: false,
    }
}

fn client() -> HyprlandClient {
    HyprlandClient {
        socket_path: "/run/s.sock".to_string(),
    }
}

fn probe(path: &str, exists: bool) -> Probe {
    Probe {
        path: path.to_string(),
        exists,
    }
}

#[test]
fn joins_paths_as_std_does() {
    for base in ["", "/", "/tmp", "/tmp/", "run", "a//"] {
        for component in ["", "hypr", "/abs", "a/b", ".socket.sock", "/"] {
            let expected = PathBuf::from(base).join(component);
            assert_eq!(join_path(base, component), expected.to_str().unwrap());
        }
    }
}

#[test]
fn candidates_prefer_the_runtime_directory() {
    assert_eq!(
        socket_candidates(Some("abc"), Some("/run/user/1000")),
        Ok(vec![
            "/run/user/1000/hypr/abc/.socket.sock".to_string(),
            "/tmp/hypr/abc/.socket.sock".to_string(),
        ])
    );
    assert_eq!(
        socket_candidates(Some("abc"), None),
        Ok(vec!["/tmp/hypr/abc/.socket.sock".to_string()])
    );
    assert_eq!(
        socket_candidates(Some(""), Some("")),
        Ok(vec![
            "hypr/.socket.sock".to_string(),
            "/tmp/hypr/.socket.sock".to_string(),
        ])
    );
}

#[test]
fn missing_signature_is_an_error() {
    assert_eq!(
        socket_candidates(None, Some("/run")),
        Err("HYPRLAND_INSTANCE_SIGNATURE is not set. Run hyprtuird inside a Hyprland session."
            .to_string())
    );
}

#[test]
fn connects_to_the_first_socket_that_exists() {
    for (first, second, chosen) in [
        (true, true, "/a"),
        (true, false, "/a"),
        (false, true, "/b"),
        (false, false, "/a"),
    ] {
        let probes = vec![probe("/a", first), probe("/b", second)];
        assert_eq!(HyprlandClient::from_probes(&probes).unwrap().socket_path, chosen);
    }
}

#[test]
fn no_candidates_is_an_error() {
    assert_eq!(
        HyprlandClient::from_probes(&Vec::new()).unwrap_err(),
        "Could not build a Hyprland IPC socket path."
    );
}

#[test]
fn connect_failure_names_the_socket() {
    assert_eq!(
        client().connect_failure("refused"),
        "Failed to connect to Hyprland socket /run/s.sock: refused"
    );
}

#[test]
fn requests_ask_for_json() {
    assert_eq!(workspaces_request(), "j/workspaces");
    assert_eq!(monitors_request(), "j/monitors");
}

#[test]
fn workspaces_are_listed_in_order() {
    let reported = vec![
        workspace(-99, "special:b", "A"),
        workspace(10, "ten", "A"),
        workspace(2, "2", "first"),
        workspace(-98, "special:a", "A"),
        workspace(2, "two", "second"),
        workspace(0, "zero", "A"),
        workspace(-5, "special:a", "B"),
    ];
    let listed: Vec<(i32, String)> = client()
        .workspaces(reported)
        .into_iter()
        .map(|w| (w.id, w.name))
        .collect();
    assert_eq!(
        listed,
        vec![
            (0, "zero".to_string()),
            (2, "2".to_string()),
            (2, "two".to_string()),
            (10, "ten".to_string()),
            (-98, "special:a".to_string()),
            (-5, "special:a".to_string()),
            (-99, "special:b".to_string()),
        ]
    );
}

#[test]
fn monitors_are_listed_by_number() {
    let reported = vec![monitor(2, "C"), monitor(0, "A"), monitor(2, "B"), monitor(-1, "D")];
    let listed: Vec<String> = client()
        .monitors(reported)
        .into_iter()
        .map(|m| m.name)
        .collect();
    assert_eq!(listed, vec!["D", "A", "C", "B"]);
}

#[test]
fn move_command_escapes_its_arguments() {
    assert_eq!(
        move_command(&workspace(3, "3", "A"), &monitor(0, "DP-1")),
        "dispatch moveworkspacetomonitor 3 DP-1"
    );
    assert_eq!(
        move_command(&workspace(3, "my work", "A"), &monitor(0, "it's")),
        "dispatch moveworkspacetomonitor 'my work' 'it'\"'\"'s'"
    );
}

#[test]
fn accepted_moves_are_reported() {
    let w = workspace(3, "3", "A");
    let m = monitor(0, "DP-1");
    for reply in ["ok", "OK", " Ok\n"] {
        assert_eq!(
            client().move_workspace_to_monitor(&w, &m, Ok(reply.to_string())),
            Ok("Moved workspace 3 to DP-1".to_string())
        );
    }
}

#[test]
fn rejected_moves_give_the_reply() {
    let w = workspace(3, "3", "A");
    let m = monitor(0, "DP-1");
    assert_eq!(
        client().move_workspace_to_monitor(&w, &m, Ok("  no such monitor\n".to_string())),
        Err("Hyprland rejected move: no such monitor".to_string())
    );
    assert_eq!(
        client().move_workspace_to_monitor(&w, &m, Ok("okay".to_string())),
        Err("Hyprland rejected move: okay".to_string())
    );
    assert_eq!(
        client().move_workspace_to_monitor(&w, &m, Ok(String::new())),
        Err("Hyprland rejected move: ".to_string())
    );
}

#[test]
fn failed_requests_fail_moves() {
    assert_eq!(
        client().move_workspace_to_monitor(
            &workspace(3, "3", "A"),
            &monitor(0, "DP-1"),
            Err("broken pipe".to_string())
        ),
        Err("broken pipe".to_string())
    );
}

#[test]
fn listing_agrees_with_a_stable_sort() {
    let pool = [
        workspace(3, "3", "A"),
        workspace(-1, "b", "B"),
        workspace(3, "c", "C"),
        workspace(-2, "a", "D"),
        workspace(-3, "b", "E"),
        workspace(0, "z", "F"),
    ];
    for seed in 0..720usize {
        let mut left: Vec<Workspace> = pool.to_vec();
        let mut reported: Vec<Workspace> = Vec::new();
        let mut code = seed;
        while !left.is_empty() {
            let n = left.len();
            reported.push(left.remove(code % n));
            code /= n;
        }
        let mut expected = reported.clone();
        expected.sort_by(|a, b| match (a.id >= 0, b.id >= 0) {
            (true, true) => a.id.cmp(&b.id),
            (false, false) => a.name.cmp(&b.name),
            (true, false) => std::cmp::Ordering::Less,
            (false, true) => std::cmp::Ordering::Greater,
        });
        assert_eq!(
            format!("{:?}", client().workspaces(reported)),
            format!("{:?}", expected)
        );
    }
}

#[test]
fn different_moves_have_different_commands() {
    let names = ["", " ", "a", "a b", "b", "a' 'b", "' '"];
    let mut commands: Vec<String> = Vec::new();
    for w in names {
        for m in names {
            commands.push(move_command(&workspace(1, w, "X"), &monitor(0, m)));
        }
    }
    for i in 0..commands.len() {
        for j in 0..i {
            assert_ne!(commands[i], commands[j]);
        }
    }
}
