use hyprtuird::model::{workspace_label, Workspace};
use hyprtuird::shell::shell_escape_arg;

#[test]
fn escapes_simple_arguments_without_quotes() {
    assert_eq!(shell_escape_arg("DP-1"), "DP-1");
    assert_eq!(shell_escape_arg("name:HDMI-A-1"), "name:HDMI-A-1");
}

#[test]
fn escapes_arguments_with_spaces() {
    assert_eq!(shell_escape_arg("workspace 1"), "'workspace 1'");
}

#[test]
fn escapes_single_quotes() {
    assert_eq!(shell_escape_arg("dev's"), "'dev'\"'\"'s'");
}

#[test]
fn keeps_numeric_workspace_label_short() {
    let workspace = Workspace {
        id: 3,
        name: String::from("3"),
        monitor: String::from("DP-1"),
    };

    assert_eq!(workspace_label(&workspace), "3");
}

#[test]
fn label_of_a_named_workspace_is_its_name() {
    let workspace = Workspace {
        id: 3,
        name: String::from("mail"),
        monitor: String::from("DP-1"),
    };
    assert_eq!(workspace_label(&workspace), "mail");
    let special = Workspace {
        id: -98,
        name: String::from("-98"),
        monitor: String::from("DP-1"),
    };
    assert_eq!(workspace_label(&special), "-98");
}

#[test]
fn empty_argument_stays_empty() {
    assert_eq!(shell_escape_arg(""), "");
}

#[test]
fn quotes_what_is_not_plain() {
    assert_eq!(shell_escape_arg("a_b.c:d-0"), "a_b.c:d-0");
    assert_eq!(shell_escape_arg("$HOME"), "'$HOME'");
    assert_eq!(shell_escape_arg("a\"b"), "'a\"b'");
    assert_eq!(shell_escape_arg("a\\b"), "'a\\b'");
    assert_eq!(shell_escape_arg("\u{e9}t\u{e9}"), "'\u{e9}t\u{e9}'");
    assert_eq!(shell_escape_arg("'"), "''\"'\"''");
}

#[test]
fn escaping_agrees_with_replace() {
    for argument in ["it's", "''", "a b'c", "\u{1f600}'", " "] {
        let expected = format!("'{}'", argument.replace('\'', "'\"'\"'"));
        assert_eq!(shell_escape_arg(argument), expected);
    }
}

#[test]
fn different_arguments_are_escaped_differently() {
    let arguments = ["", "'", "''", "a", "'a'", "a b", "\"'\"", "a'b"];
    for a in arguments {
        for b in arguments {
            assert_eq!(shell_escape_arg(a) == shell_escape_arg(b), a == b);
        }
    }
}
