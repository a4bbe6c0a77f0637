use hyprtuird::app::{App, Fetch, Key};
use hyprtuird::client::HyprlandClient;
use hyprtuird::layout::{Constraint, Rect};
use hyprtuird::model::{Monitor, Workspace};
use hyprtuird::theme::{row_style, selection_marker, Color, Style};
use hyprtuird::view::{
    divide_screen, render, render_button, render_header, render_monitor_table, render_on,
    render_workspace_table, table_header, Draw, Row,
};

fn rect(x: u16, y: u16, width: u16, height: u16) -> Rect {
    Rect {
        x,
        y,
        width,
        height,
    }
}

fn app() -> App {
    let mut app = App::new(HyprlandClient {
        socket_path: "/s".to_string(),
    });
    app.refresh(Fetch::Both(
        vec![
            Workspace {
                id: 1,
                name: "1".to_string(),
                monitor: "DP-1".to_string(),
            },
            Workspace {
                id: 2,
                name: "web".to_string(),
                monitor: "HDMI-A-1".to_string(),
            },
        ],
        vec![
            Monitor {
                id: 0,
                name: "DP-1".to_string(),
                focused: false,
            },
            Monitor {
                id: 1,
                name: "HDMI-A-1".to_string(),
                focused: true,
            },
        ],
    ));
    app
}

fn area(draw: &Draw) -> Rect {
    match draw {
        Draw::Panel { area, .. } => *area,
        Draw::Text { area, .. } => *area,
        Draw::Table { area, .. } => *area,
    }
}

fn rows(draw: &Draw) -> &Vec<Row> {
    match draw {
        Draw::Table { rows, .. } => rows,
        other => panic!("{:?}", other),
    }
}

fn text(draw: &Draw) -> String {
    match draw {
        Draw::Text { spans, .. } => spans.iter().map(|s| s.text.as_str()).collect(),
        other => panic!("{:?}", other),
    }
}

#[test]
fn markers_tell_selection_and_focus() {
    assert_eq!(selection_marker(true, true), ">>");
    assert_eq!(selection_marker(true, false), ">");
    assert_eq!(selection_marker(false, true), "");
    assert_eq!(selection_marker(false, false), "");
}

#[test]
fn row_styles_tell_selection_and_focus() {
    assert_eq!(
        row_style(true, true),
        Style {
            fg: Some(Color::RowFg),
            bg: Some(Color::Row),
            bold: true
        }
    );
    assert_eq!(
        row_style(true, false),
        Style {
            fg: Some(Color::Blue),
            bg: Some(Color::Bg),
            bold: true
        }
    );
    assert_eq!(
        row_style(false, true),
        Style {
            fg: Some(Color::Fg),
            bg: Some(Color::Bg),
            bold: false
        }
    );
}

#[test]
fn colors_of_the_theme() {
    assert_eq!(Color::Bg.rgb(), (25, 27, 38));
    assert_eq!(Color::Fg.rgb(), (192, 202, 245));
    assert_eq!(Color::Dim.rgb(), (86, 95, 137));
    assert_eq!(Color::Border.rgb(), (169, 177, 214));
    assert_eq!(Color::Blue.rgb(), (122, 162, 247));
    assert_eq!(Color::Cyan.rgb(), (42, 195, 222));
    assert_eq!(Color::Green.rgb(), (158, 206, 106));
    assert_eq!(Color::Orange.rgb(), (224, 175, 104));
    assert_eq!(Color::Red.rgb(), (247, 118, 142));
    assert_eq!(Color::Row.rgb(), (70, 151, 160));
    assert_eq!(Color::RowFg.rgb(), (25, 27, 38));
}

#[test]
fn screen_is_divided() {
    let screen = divide_screen(rect(0, 0, 100, 30));
    assert_eq!(
        screen.vertical,
        vec![
            rect(3, 2, 94, 3),
            rect(3, 5, 94, 1),
            rect(3, 6, 94, 18),
            rect(3, 24, 94, 1),
            rect(3, 25, 94, 3),
        ]
    );
    assert_eq!(screen.columns, vec![rect(4, 7, 57, 16), rect(61, 7, 35, 16)]);
    assert_eq!(
        screen.buttons,
        vec![
            rect(3, 25, 16, 3),
            rect(19, 25, 15, 3),
            rect(34, 25, 17, 3),
            rect(51, 25, 16, 3),
            rect(67, 25, 13, 3),
            rect(80, 25, 17, 3),
        ]
    );
}

#[test]
fn header_shows_the_status() {
    let draw = render_header(&app(), rect(1, 2, 30, 3));
    assert_eq!(text(&draw), "hyprtuird  2 workspace(s), 2 monitor(s)");
    assert_eq!(area(&draw), rect(1, 2, 30, 3));
}

#[test]
fn workspace_table_marks_the_selection() {
    let mut app = app();
    app.handle_key(Key::Down);
    let draw = render_workspace_table(&app, rect(0, 0, 40, 10));
    let shown: Vec<Vec<String>> = rows(&draw).iter().map(|r| r.cells.clone()).collect();
    assert_eq!(
        shown,
        vec![
            vec!["".to_string(), "1".to_string(), "DP-1".to_string()],
            vec![">>".to_string(), "web".to_string(), "HDMI-A-1".to_string()],
        ]
    );
    assert_eq!(rows(&draw)[1].style, row_style(true, true));
    match &draw {
        Draw::Table {
            header,
            widths,
            spacing,
            ..
        } => {
            assert_eq!(header.cells, vec!["State", "Workspace", "Monitor"]);
            assert_eq!(
                *widths,
                vec![
                    Constraint::Length(7),
                    Constraint::Percentage(45),
                    Constraint::Percentage(55)
                ]
            );
            assert_eq!(*spacing, 2);
        }
        other => panic!("{:?}", other),
    }
}

#[test]
fn monitor_table_shows_the_focus() {
    let draw = render_monitor_table(&app(), rect(0, 0, 40, 10));
    let shown: Vec<Vec<String>> = rows(&draw).iter().map(|r| r.cells.clone()).collect();
    assert_eq!(
        shown,
        vec![
            vec!["".to_string(), "DP-1".to_string(), "".to_string()],
            vec![">".to_string(), "HDMI-A-1".to_string(), "yes".to_string()],
        ]
    );
    assert_eq!(rows(&draw)[1].style, row_style(true, false));
    match &draw {
        Draw::Table { header, widths, .. } => {
            assert_eq!(header.cells, vec!["State", "Monitor", "Focused"]);
            assert_eq!(widths[1], Constraint::Percentage(68));
            assert_eq!(widths[2], Constraint::Percentage(32));
        }
        other => panic!("{:?}", other),
    }
}

#[test]
fn headers_are_bold_orange() {
    let header = table_header(["a", "b"]);
    assert_eq!(header.cells, vec!["a", "b"]);
    assert_eq!(
        header.style,
        Style {
            fg: Some(Color::Orange),
            bg: None,
            bold: true
        }
    );
}

#[test]
fn button_keeps_a_gap_and_a_border() {
    let draws = render_button(rect(10, 4, 16, 3), "k/j", "Select", Color::Green);
    assert_eq!(draws.len(), 2);
    assert_eq!(area(&draws[0]), rect(10, 4, 15, 3));
    assert_eq!(area(&draws[1]), rect(11, 5, 13, 1));
    assert_eq!(text(&draws[1]), "k/j Select");
    let narrow = render_button(rect(0, 0, 3, 3), "q", "Quit", Color::Red);
    assert_eq!(area(&narrow[0]), rect(0, 0, 2, 3));
    assert_eq!(area(&narrow[1]), rect(1, 1, 0, 1));
}

#[test]
fn small_areas_have_no_button() {
    assert!(render_button(rect(0, 0, 2, 3), "q", "Quit", Color::Red).is_empty());
    assert!(render_button(rect(0, 0, 9, 2), "q", "Quit", Color::Red).is_empty());
}

#[test]
fn picture_is_drawn_in_order() {
    let whole = rect(0, 0, 100, 30);
    let draws = render(&app(), whole);
    assert_eq!(draws.len(), 15);
    assert_eq!(area(&draws[0]), whole);
    assert_eq!(area(&draws[1]), rect(3, 2, 94, 3));
    match &draws[2] {
        Draw::Panel { area, block } => {
            assert_eq!(*area, rect(3, 6, 94, 18));
            assert_eq!(block.title, Some("Hyprland".to_string()));
        }
        other => panic!("{:?}", other),
    }
    assert_eq!(rows(&draws[3])[0].cells[1], "1");
    assert_eq!(rows(&draws[4])[0].cells[1], "DP-1");
    let labels: Vec<String> = [6, 8, 10, 12, 14].iter().map(|i| text(&draws[*i])).collect();
    assert_eq!(
        labels,
        vec!["k/j Select", "tab Pane", "enter Move", "r Refresh", "q Quit"]
    );
}

#[test]
fn render_uses_the_divided_screen() {
    let whole = rect(0, 0, 100, 30);
    let screen = divide_screen(whole);
    let app = app();
    assert_eq!(
        format!("{:?}", render_on(&app, whole, &screen)),
        format!("{:?}", render(&app, whole))
    );
}

#[test]
fn everything_is_drawn_inside_the_screen() {
    let app = app();
    for width in [0, 1, 5, 6, 7, 20, 60, 80, 200] {
        for height in [0, 3, 4, 5, 8, 12, 24, 60] {
            for draw in render(&app, rect(2, 1, width, height)) {
                let part = area(&draw);
                let nothing = part.width == 0 || part.height == 0;
                let within = part.x >= 2
                    && part.y >= 1
                    && part.x + part.width <= 2 + width
                    && part.y + part.height <= 1 + height;
                assert!(nothing || within, "{:?}", draw);
            }
        }
    }
}

#[test]
fn columns_share_the_width() {
    for width in 0..260u16 {
        for x in [0, 1, 37] {
            let columns = divide_screen(rect(x, 0, width + 8, 30)).columns;
            let first = ((62 * u32::from(width) + 50) / 100) as u16;
            assert_eq!(
                columns,
                vec![
                    rect(x + 4, 7, first, 16),
                    rect(x + 4 + first, 7, width - first, 16)
                ]
            );
        }
    }
}

#[test]
fn rows_keep_their_heights_where_they_fit() {
    for height in 16..300u16 {
        for y in [0, 5] {
            assert_eq!(
                divide_screen(rect(0, y, 90, height + 4)).vertical,
                vec![
                    rect(3, y + 2, 84, 3),
                    rect(3, y + 5, 84, 1),
                    rect(3, y + 6, 84, height - 8),
                    rect(3, y + height - 2, 84, 1),
                    rect(3, y + height - 1, 84, 3),
                ]
            );
        }
    }
}

#[test]
fn buttons_abut_where_they_fit() {
    for width in 77..300u16 {
        let buttons = divide_screen(rect(0, 0, width + 6, 20)).buttons;
        let places: Vec<(u16, u16)> = buttons.iter().map(|b| (b.x, b.width)).collect();
        assert_eq!(
            places,
            vec![(3, 16), (19, 15), (34, 17), (51, 16), (67, 13), (80, width - 77)]
        );
    }
}

#[test]
fn large_screens_are_divided_too() {
    let screen = divide_screen(rect(30000, 40000, 35535, 25535));
    assert_eq!(screen.vertical[2], rect(30003, 40006, 35529, 25523));
    assert_eq!(screen.vertical[4], rect(30003, 65530, 35529, 3));
    assert_eq!(screen.columns[0], rect(30004, 40007, 22027, 25521));
    assert_eq!(screen.columns[1], rect(52031, 40007, 13500, 25521));
    assert_eq!(screen.buttons[5], rect(30080, 65530, 35452, 3));
}

#[test]
fn cramped_rows_abut_and_keep_the_panel() {
    for height in 0..16u16 {
        for y in 0..20u16 {
            let rows = divide_screen(rect(0, y, 90, height + 4)).vertical;
            let mut at = y + 2;
            for (row, most) in rows.iter().zip([3, 1, 8, 1, 3]) {
                assert_eq!(row.y, at);
                assert!(row.height <= most);
                at += row.height;
            }
            assert_eq!(at, y + 2 + height);
            assert_eq!(rows[2].height, height.min(8));
        }
    }
}

#[test]
fn cramped_buttons_abut() {
    for width in 0..77u16 {
        for x in 0..8u16 {
            let buttons = divide_screen(rect(x, 0, width + 6, 24)).buttons;
            let mut at = x + 3;
            for (button, most) in buttons.iter().zip([16, 15, 17, 16, 13, 0]) {
                assert_eq!(button.x, at);
                assert!(button.width <= most);
                at += button.width;
            }
            assert_eq!(at, x + 3 + width);
        }
    }
}
