//! What is drawn: the state of the program as panels, text and tables, each at
//! its place on the screen.
use vstd::prelude::*;

use crate::app::{App, AppView};
use crate::layout::{
    abutting_parts_do_not_overlap, divides, inner, inner_of, lengths_but_at, may_split_into,
    near, percentages_of_whole, placed, share, span, split, squeezed, total, Constraint, Direction, Rect,
};
use crate::model::{lemma_views_add, lemma_views_push, views, workspace_label, MonitorView, Pane, WorkspaceView};
use crate::theme::{
    body_style, bold_on_any, marker_of, no_style, on_any, row_style, row_style_of,
    selection_marker, surface, Color, Style,
};

verus! {

/// A bordered surface, with a title or without.
#[derive(Debug)]
pub struct Block {
    pub title: Option<String>,
    pub border: Color,
    pub style: Style,
}

/// The contents of a [`Block`].
#[verifier::ext_equal]
pub struct BlockView {
    pub title: Option<Seq<char>>,
    pub border: Color,
    pub style: Style,
}

impl View for Block {
    type V = BlockView;

    open spec fn view(&self) -> BlockView {
        BlockView {
            title: match self.title {
                Some(title) => Some(title@),
                None => None,
            },
            border: self.border,
            style: self.style,
        }
    }
}

/// A piece of text in one style.
#[derive(Debug)]
pub struct Span {
    pub text: String,
    pub style: Style,
}

/// The contents of a [`Span`].
#[verifier::ext_equal]
pub struct SpanView {
    pub text: Seq<char>,
    pub style: Style,
}

impl View for Span {
    type V = SpanView;

    open spec fn view(&self) -> SpanView {
        SpanView { text: self.text@, style: self.style }
    }
}

/// A row of a table. In a body row the style is that of the whole row, the gaps
/// between its cells too; in a header it is that of each cell alone.
#[derive(Debug)]
pub struct Row {
    pub cells: Vec<String>,
    pub style: Style,
}

/// The contents of a [`Row`].
#[verifier::ext_equal]
pub struct RowView {
    pub cells: Seq<Seq<char>>,
    pub style: Style,
}

impl View for Row {
    type V = RowView;

    open spec fn view(&self) -> RowView {
        RowView { cells: views(self.cells@), style: self.style }
    }
}

/// Something to be drawn.
#[derive(Debug)]
pub enum Draw {
    /// A block that fills an area.
    Panel { area: Rect, block: Block },
    /// A line of text, centered or flush left, inside a block if there is one.
    Text { area: Rect, spans: Vec<Span>, centered: bool, style: Style, frame: Option<Block> },
    /// A table below a header. The style of a row covers the whole row; that of
    /// the header covers its cells only, so that the gaps between them keep the
    /// style of the table.
    Table {
        area: Rect,
        header: Row,
        rows: Vec<Row>,
        widths: Vec<Constraint>,
        spacing: u16,
        style: Style,
    },
}

/// The contents of a [`Draw`].
#[verifier::ext_equal]
pub enum DrawView {
    Panel { area: Rect, block: BlockView },
    Text {
        area: Rect,
        spans: Seq<SpanView>,
        centered: bool,
        style: Style,
        frame: Option<BlockView>,
    },
    Table {
        area: Rect,
        header: RowView,
        rows: Seq<RowView>,
        widths: Seq<Constraint>,
        spacing: u16,
        style: Style,
    },
}

impl View for Draw {
    type V = DrawView;

    open spec fn view(&self) -> DrawView {
        match self {
            Draw::Panel { area, block } => DrawView::Panel { area: *area, block: block@ },
            Draw::Text { area, spans, centered, style, frame } => DrawView::Text {
                area: *area,
                spans: views(spans@),
                centered: *centered,
                style: *style,
                frame: match frame {
                    Some(block) => Some(block@),
                    None => None,
                },
            },
            Draw::Table { area, header, rows, widths, spacing, style } => DrawView::Table {
                area: *area,
                header: header@,
                rows: views(rows@),
                widths: widths@,
                spacing: *spacing,
                style: *style,
            },
        }
    }
}

/// The block that frames a panel.
pub open spec fn panel_block_of(title: Option<Seq<char>>) -> BlockView {
    BlockView { title, border: Color::Border, style: body_style() }
}

/// The block that frames a panel.
pub fn panel_block(title: Option<&str>) -> (block: Block)
    ensures
        block@ == panel_block_of(
            match title {
                Some(t) => Some(t@),
                None => None,
            },
        ),
{
    let title: Option<String> = match title {
        Some(t) => Some(t.to_string()),
        None => None,
    };
    Block {
        title,
        border: Color::Border,
        style: Style { fg: Some(Color::Fg), bg: Some(Color::Bg), bold: false },
    }
}

/// The header of a table with these columns.
pub open spec fn table_header_of(columns: Seq<Seq<char>>) -> RowView {
    RowView { cells: columns, style: bold_on_any(Color::Orange) }
}

/// The header of a table.
pub fn table_header<const N: usize>(columns: [&'static str; N]) -> (header: Row)
    ensures
        header@ == table_header_of(views(columns@)),
{
    let mut cells: Vec<String> = Vec::new();
    let mut index: usize = 0;
    while index < N
        invariant
            index <= N,
            views(cells@) == views(columns@).take(index as int),
        decreases N - index,
    {
        let cell = columns[index].to_string();
        proof {
            let all = views(columns@);
            lemma_views_push(cells@, cell);
            assert(all.take(index + 1) =~= all.take(index as int).push(all[index as int]));
        }
        cells.push(cell);
        index = index + 1;
    }
    assert(views(cells@) =~= views(columns@));
    Row { cells, style: Style { fg: Some(Color::Orange), bg: None, bold: true } }
}

fn three(first: &str, second: &str, third: &str) -> (texts: Vec<String>)
    ensures
        views(texts@) == seq![first@, second@, third@],
{
    let mut texts: Vec<String> = Vec::new();
    texts.push(first.to_string());
    texts.push(second.to_string());
    texts.push(third.to_string());
    texts
}

/// The header of the screen: the name of the program and the status.
pub open spec fn header_draw(app: AppView, area: Rect) -> DrawView {
    DrawView::Text {
        area,
        spans: seq![
            SpanView { text: "hyprtuird"@, style: bold_on_any(Color::Cyan) },
            SpanView { text: "  "@, style: no_style() },
            SpanView { text: app.status, style: on_any(Color::Dim) },
        ],
        centered: false,
        style: body_style(),
        frame: Some(panel_block_of(None)),
    }
}

/// Draws the header of the screen.
pub fn render_header(app: &App, area: Rect) -> (draw: Draw)
    ensures
        draw@ == header_draw(app@, area),
{
    let mut spans: Vec<Span> = Vec::new();
    spans.push(
        Span {
            text: "hyprtuird".to_string(),
            style: Style { fg: Some(Color::Cyan), bg: None, bold: true },
        },
    );
    spans.push(Span { text: "  ".to_string(), style: Style { fg: None, bg: None, bold: false } });
    spans.push(
        Span {
            text: app.status.clone(),
            style: Style { fg: Some(Color::Dim), bg: None, bold: false },
        },
    );
    assert(views(spans@) =~= header_draw(app@, area)->spans);
    Draw::Text {
        area,
        spans,
        centered: false,
        style: Style { fg: Some(Color::Fg), bg: Some(Color::Bg), bold: false },
        frame: Some(panel_block(None)),
    }
}

/// The row of a workspace: marker, label and monitor.
pub open spec fn workspace_row(workspace: WorkspaceView, selected: bool, active: bool) -> RowView {
    RowView {
        cells: seq![marker_of(selected, active), workspace.name, workspace.monitor],
        style: row_style_of(selected, active),
    }
}

/// The rows of the workspaces.
pub open spec fn workspace_rows(app: AppView) -> Seq<RowView> {
    Seq::new(
        app.workspaces.len(),
        |i: int|
            workspace_row(
                app.workspaces[i],
                app.workspace_state == Some(i as usize),
                app.focus == Pane::Workspaces,
            ),
    )
}

/// The table of the workspaces.
pub open spec fn workspace_table(app: AppView, area: Rect) -> DrawView {
    DrawView::Table {
        area,
        header: table_header_of(seq!["State"@, "Workspace"@, "Monitor"@]),
        rows: workspace_rows(app),
        widths: seq![Constraint::Length(7), Constraint::Percentage(45), Constraint::Percentage(55)],
        spacing: 2,
        style: body_style(),
    }
}

/// Draws the table of the workspaces.
pub fn render_workspace_table(app: &App, area: Rect) -> (draw: Draw)
    ensures
        draw@ == workspace_table(app@, area),
{
    let selected_index = app.workspace_state.selected();
    let active = app.focus == Pane::Workspaces;
    let mut rows: Vec<Row> = Vec::new();
    let mut index: usize = 0;
    while index < app.workspaces.len()
        invariant
            index <= app.workspaces@.len(),
            selected_index == app@.workspace_state,
            active == (app@.focus == Pane::Workspaces),
            views(rows@) == workspace_rows(app@).take(index as int),
        decreases app.workspaces@.len() - index,
    {
        let workspace = &app.workspaces[index];
        let selected = match selected_index {
            Some(i) => i == index,
            None => false,
        };
        let row = Row {
            cells: three(
                selection_marker(selected, active),
                workspace_label(workspace).as_str(),
                workspace.monitor.as_str(),
            ),
            style: row_style(selected, active),
        };
        proof {
            let all = workspace_rows(app@);
            assert(row@ =~= all[index as int]);
            lemma_views_push(rows@, row);
            assert(all.take(index + 1) =~= all.take(index as int).push(all[index as int]));
        }
        rows.push(row);
        index = index + 1;
    }
    assert(views(rows@) =~= workspace_rows(app@));
    let widths: Vec<Constraint> = vec![
        Constraint::Length(7),
        Constraint::Percentage(45),
        Constraint::Percentage(55),
    ];
    assert(widths@ =~= workspace_table(app@, area)->widths);
    let header = table_header(["State", "Workspace", "Monitor"]);
    assert(header@.cells =~= seq!["State"@, "Workspace"@, "Monitor"@]);
    Draw::Table {
        area,
        header,
        rows,
        widths,
        spacing: 2,
        style: Style { fg: Some(Color::Fg), bg: Some(Color::Bg), bold: false },
    }
}

/// The row of a monitor: marker, name, and whether it has the focus.
pub open spec fn monitor_row(monitor: MonitorView, selected: bool, active: bool) -> RowView {
    RowView {
        cells: seq![
            marker_of(selected, active),
            monitor.name,
            if monitor.focused {
                "yes"@
            } else {
                ""@
            },
        ],
        style: row_style_of(selected, active),
    }
}

/// The rows of the monitors.
pub open spec fn monitor_rows(app: AppView) -> Seq<RowView> {
    Seq::new(
        app.monitors.len(),
        |i: int|
            monitor_row(
                app.monitors[i],
                app.monitor_state == Some(i as usize),
                app.focus == Pane::Monitors,
            ),
    )
}

/// The table of the monitors.
pub open spec fn monitor_table(app: AppView, area: Rect) -> DrawView {
    DrawView::Table {
        area,
        header: table_header_of(seq!["State"@, "Monitor"@, "Focused"@]),
        rows: monitor_rows(app),
        widths: seq![Constraint::Length(7), Constraint::Percentage(68), Constraint::Percentage(32)],
        spacing: 2,
        style: body_style(),
    }
}

/// Draws the table of the monitors.
pub fn render_monitor_table(app: &App, area: Rect) -> (draw: Draw)
    ensures
        draw@ == monitor_table(app@, area),
{
    let selected_index = app.monitor_state.selected();
    let active = app.focus == Pane::Monitors;
    let mut rows: Vec<Row> = Vec::new();
    let mut index: usize = 0;
    while index < app.monitors.len()
        invariant
            index <= app.monitors@.len(),
            selected_index == app@.monitor_state,
            active == (app@.focus == Pane::Monitors),
            views(rows@) == monitor_rows(app@).take(index as int),
        decreases app.monitors@.len() - index,
    {
        let monitor = &app.monitors[index];
        let selected = match selected_index {
            Some(i) => i == index,
            None => false,
        };
        let focused = if monitor.focused {
            "yes"
        } else {
            ""
        };
        let row = Row {
            cells: three(selection_marker(selected, active), monitor.name.as_str(), focused),
            style: row_style(selected, active),
        };
        proof {
            let all = monitor_rows(app@);
            assert(row@ =~= all[index as int]);
            lemma_views_push(rows@, row);
            assert(all.take(index + 1) =~= all.take(index as int).push(all[index as int]));
        }
        rows.push(row);
        index = index + 1;
    }
    assert(views(rows@) =~= monitor_rows(app@));
    let widths: Vec<Constraint> = vec![
        Constraint::Length(7),
        Constraint::Percentage(68),
        Constraint::Percentage(32),
    ];
    assert(widths@ =~= monitor_table(app@, area)->widths);
    let header = table_header(["State", "Monitor", "Focused"]);
    assert(header@.cells =~= seq!["State"@, "Monitor"@, "Focused"@]);
    Draw::Table {
        area,
        header,
        rows,
        widths,
        spacing: 2,
        style: Style { fg: Some(Color::Fg), bg: Some(Color::Bg), bold: false },
    }
}

/// The panel with the two tables, given their areas.
pub open spec fn body_draws(app: AppView, area: Rect, columns: Seq<Rect>) -> Seq<DrawView> {
    seq![
        DrawView::Panel { area, block: panel_block_of(Some("Hyprland"@)) },
        workspace_table(app, columns[0]),
        monitor_table(app, columns[1]),
    ]
}

/// Draws the panel with the two tables into their areas.
pub fn render_workspace_monitor_area(app: &App, area: Rect, columns: &Vec<Rect>) -> (draws: Vec<
    Draw,
>)
    requires
        columns@.len() >= 2,
    ensures
        views(draws@) == body_draws(app@, area, columns@),
{
    let mut draws: Vec<Draw> = Vec::new();
    draws.push(Draw::Panel { area, block: panel_block(Some("Hyprland")) });
    draws.push(render_workspace_table(app, columns[0]));
    draws.push(render_monitor_table(app, columns[1]));
    assert(views(draws@) =~= body_draws(app@, area, columns@));
    draws
}

/// The frame of a button: its area less the last column, which keeps it apart
/// from the next one.
pub open spec fn button_frame(area: Rect) -> Rect {
    Rect { width: (area.width - 1) as u16, ..area }
}

/// A button in an area, nothing where the area is too small for its border.
pub open spec fn button_draws(
    area: Rect,
    key: Seq<char>,
    label: Seq<char>,
    color: Color,
) -> Seq<DrawView> {
    if area.width < 3 || area.height < 3 {
        Seq::empty()
    } else {
        seq![
            DrawView::Panel {
                area: button_frame(area),
                block: BlockView { title: None, border: color, style: surface(Color::Bg) },
            },
            DrawView::Text {
                area: inner_of(button_frame(area), 1, 1),
                spans: seq![
                    SpanView { text: key, style: bold_on_any(color) },
                    SpanView { text: " "@, style: no_style() },
                    SpanView { text: label, style: on_any(color) },
                ],
                centered: true,
                style: surface(Color::Bg),
                frame: None,
            },
        ]
    }
}

/// Draws a button.
pub fn render_button(area: Rect, key: &str, label: &str, color: Color) -> (draws: Vec<Draw>)
    ensures
        views(draws@) == button_draws(area, key@, label@, color),
{
    let mut draws: Vec<Draw> = Vec::new();
    if area.width < 3 || area.height < 3 {
        assert(views(draws@) =~= button_draws(area, key@, label@, color));
        return draws;
    }
    let frame = Rect { x: area.x, y: area.y, width: area.width - 1, height: area.height };
    let background = Style { fg: None, bg: Some(Color::Bg), bold: false };
    let mut spans: Vec<Span> = Vec::new();
    spans.push(
        Span { text: key.to_string(), style: Style { fg: Some(color), bg: None, bold: true } },
    );
    spans.push(Span { text: " ".to_string(), style: Style { fg: None, bg: None, bold: false } });
    spans.push(
        Span { text: label.to_string(), style: Style { fg: Some(color), bg: None, bold: false } },
    );
    assert(views(spans@) =~= button_draws(area, key@, label@, color)[1]->spans);
    draws.push(
        Draw::Panel { area: frame, block: Block { title: None, border: color, style: background } },
    );
    draws.push(
        Draw::Text {
            area: inner(frame, 1, 1),
            spans,
            centered: true,
            style: background,
            frame: None,
        },
    );
    assert(views(draws@) =~= button_draws(area, key@, label@, color));
    draws
}

/// The row of buttons, given the area of each.
pub open spec fn buttons_draws(chunks: Seq<Rect>) -> Seq<DrawView> {
    button_draws(chunks[0], "k/j"@, "Select"@, Color::Green) + button_draws(
        chunks[1],
        "tab"@,
        "Pane"@,
        Color::Orange,
    ) + button_draws(chunks[2], "enter"@, "Move"@, Color::Blue) + button_draws(
        chunks[3],
        "r"@,
        "Refresh"@,
        Color::Blue,
    ) + button_draws(chunks[4], "q"@, "Quit"@, Color::Red)
}

fn append(draws: &mut Vec<Draw>, more: Vec<Draw>)
    ensures
        views(final(draws)@) == views(old(draws)@) + views(more@),
{
    let mut rest = more;
    proof {
        lemma_views_add(draws@, rest@);
    }
    draws.append(&mut rest);
}

/// Draws the row of buttons, each into its area.
pub fn render_buttons(chunks: &Vec<Rect>) -> (draws: Vec<Draw>)
    requires
        chunks@.len() >= 5,
    ensures
        views(draws@) == buttons_draws(chunks@),
{
    let mut draws = render_button(chunks[0], "k/j", "Select", Color::Green);
    append(&mut draws, render_button(chunks[1], "tab", "Pane", Color::Orange));
    append(&mut draws, render_button(chunks[2], "enter", "Move", Color::Blue));
    append(&mut draws, render_button(chunks[3], "r", "Refresh", Color::Blue));
    append(&mut draws, render_button(chunks[4], "q", "Quit", Color::Red));
    draws
}

/// How the screen is divided: from top to bottom, the panel in the middle from
/// left to right, and the row of buttons from left to right.
#[derive(Debug)]
pub struct Screen {
    pub vertical: Vec<Rect>,
    pub columns: Vec<Rect>,
    pub buttons: Vec<Rect>,
}

/// The contents of a [`Screen`].
#[verifier::ext_equal]
pub struct ScreenView {
    pub vertical: Seq<Rect>,
    pub columns: Seq<Rect>,
    pub buttons: Seq<Rect>,
}

impl View for Screen {
    type V = ScreenView;

    open spec fn view(&self) -> ScreenView {
        ScreenView {
            vertical: self.vertical@,
            columns: self.columns@,
            buttons: self.buttons@,
        }
    }
}

/// The heights of header, panel and buttons, with gaps between them.
pub open spec fn vertical_constraints() -> Seq<Constraint> {
    seq![
        Constraint::Length(3),
        Constraint::Length(1),
        Constraint::Min(8),
        Constraint::Length(1),
        Constraint::Length(3),
    ]
}

/// The widths of the two tables.
pub open spec fn column_constraints() -> Seq<Constraint> {
    seq![Constraint::Percentage(62), Constraint::Percentage(38)]
}

/// The widths of the buttons, and what is left beside them.
pub open spec fn button_constraints() -> Seq<Constraint> {
    seq![
        Constraint::Length(16),
        Constraint::Length(15),
        Constraint::Length(17),
        Constraint::Length(16),
        Constraint::Length(13),
        Constraint::Min(0),
    ]
}

/// `screen` is a division of `area` that the layout solver may give.
pub open spec fn may_be_screen(area: Rect, screen: ScreenView) -> bool {
    &&& may_split_into(
        inner_of(area, 3, 2),
        Direction::Vertical,
        vertical_constraints(),
        screen.vertical,
    )
    &&& may_split_into(
        inner_of(screen.vertical[2], 1, 1),
        Direction::Horizontal,
        column_constraints(),
        screen.columns,
    )
    &&& may_split_into(
        screen.vertical[4],
        Direction::Horizontal,
        button_constraints(),
        screen.buttons,
    )
}

/// `screen` divides `area` as header, panel with two columns, and buttons.
pub open spec fn divides_screen(area: Rect, screen: ScreenView) -> bool {
    &&& divides(
        inner_of(area, 3, 2),
        Direction::Vertical,
        vertical_constraints(),
        screen.vertical,
    )
    &&& divides(
        inner_of(screen.vertical[2], 1, 1),
        Direction::Horizontal,
        column_constraints(),
        screen.columns,
    )
    &&& divides(
        screen.vertical[4],
        Direction::Horizontal,
        button_constraints(),
        screen.buttons,
    )
}

/// The rows of an area of sixteen or more: three for the header, three for the
/// buttons, the panel between them, and a gap on each side of it.
pub open spec fn rows_of(area: Rect) -> Seq<Rect> {
    seq![
        Rect { height: 3, ..area },
        Rect { y: (area.y + 3) as u16, height: 1, ..area },
        Rect { y: (area.y + 4) as u16, height: (area.height - 8) as u16, ..area },
        Rect { y: (area.y + area.height - 4) as u16, height: 1, ..area },
        Rect { y: (area.y + area.height - 3) as u16, height: 3, ..area },
    ]
}

/// The two columns of an area: the first has 62 of a hundred parts.
pub open spec fn columns_of(area: Rect) -> Seq<Rect> {
    let first = share(62, area.width as int);
    seq![
        Rect { width: first as u16, ..area },
        Rect { x: (area.x + first) as u16, width: (area.width - first) as u16, ..area },
    ]
}

/// The places of the buttons in an area that is wide enough for them, one beside
/// the other, and what is left.
pub open spec fn button_places(area: Rect) -> Seq<Rect> {
    seq![
        Rect { width: 16, ..area },
        Rect { x: (area.x + 16) as u16, width: 15, ..area },
        Rect { x: (area.x + 31) as u16, width: 17, ..area },
        Rect { x: (area.x + 48) as u16, width: 16, ..area },
        Rect { x: (area.x + 64) as u16, width: 13, ..area },
        Rect { x: (area.x + 77) as u16, width: (area.width - 77) as u16, ..area },
    ]
}

/// Where the parts of `screen` stand. The rows have their heights where the area
/// is high enough; else they share it, and the panel keeps eight lines as long as
/// there are so many. The columns have their shares in any case. The buttons have
/// their widths where the area is wide enough; else they share it.
pub open spec fn places_screen(area: Rect, screen: ScreenView) -> bool {
    let main = inner_of(area, 3, 2);
    &&& if main.height >= 16 {
        screen.vertical == rows_of(main)
    } else {
        squeezed(main, Direction::Vertical, vertical_constraints(), screen.vertical, 2)
    }
    &&& screen.columns == columns_of(inner_of(screen.vertical[2], 1, 1))
    &&& if main.width >= 77 {
        screen.buttons == button_places(screen.vertical[4])
    } else {
        squeezed(
            screen.vertical[4],
            Direction::Horizontal,
            button_constraints(),
            screen.buttons,
            5,
        )
    }
}

/// The area has room for everything that is drawn.
pub open spec fn has_room(area: Rect) -> bool {
    addressable(area) && area.width >= 83 && area.height >= 20
}

/// The division of an area that has room for everything.
pub open spec fn roomy_screen(area: Rect) -> ScreenView {
    let vertical = rows_of(inner_of(area, 3, 2));
    ScreenView {
        vertical,
        columns: columns_of(inner_of(vertical[2], 1, 1)),
        buttons: button_places(vertical[4]),
    }
}

proof fn lemma_rows(area: Rect, parts: Seq<Rect>)
    requires
        addressable(area),
        divides(area, Direction::Vertical, vertical_constraints(), parts),
        placed(area, Direction::Vertical, vertical_constraints(), parts),
    ensures
        area.height >= 16 ==> parts == rows_of(area),
        area.height < 16 ==> squeezed(
            area,
            Direction::Vertical,
            vertical_constraints(),
            parts,
            2,
        ),
{
    let c = vertical_constraints();
    reveal_with_fuel(total, 6);
    assert(total(c) == 16);
    assert(lengths_but_at(c, 2));
    if area.height >= 16 {
        assert(parts[0].height == 3 && parts[1].height == 1 && parts[3].height == 1);
        assert(parts[2].height == area.height - 8 && parts[4].height == 3);
        assert(parts =~= rows_of(area));
    }
}

proof fn lemma_columns(area: Rect, parts: Seq<Rect>)
    requires
        addressable(area),
        divides(area, Direction::Horizontal, column_constraints(), parts),
        placed(area, Direction::Horizontal, column_constraints(), parts),
    ensures
        parts == columns_of(area),
{
    let c = column_constraints();
    reveal_with_fuel(total, 3);
    assert(total(c) == 100);
    assert(percentages_of_whole(c));
    assert(total(c.take(0)) == 0);
    assert(c.take(1).drop_last() =~= c.take(0));
    assert(total(c.take(1)) == 62);
    assert(c.take(2) =~= c);
    let w = area.width as int;
    assert(share(0, w) == 0);
    assert(share(100, w) == w);
    assert(0 <= share(62, w) <= w);
    assert(parts[0].x == area.x + share(0, w));
    assert(parts[0].x + parts[0].width == area.x + share(62, w));
    assert(parts[1].x == area.x + share(62, w));
    assert(parts[1].x + parts[1].width == area.x + share(100, w));
    assert(parts =~= columns_of(area));
}

proof fn lemma_buttons(area: Rect, parts: Seq<Rect>)
    requires
        addressable(area),
        divides(area, Direction::Horizontal, button_constraints(), parts),
        placed(area, Direction::Horizontal, button_constraints(), parts),
    ensures
        area.width >= 77 ==> parts == button_places(area),
        area.width < 77 ==> squeezed(
            area,
            Direction::Horizontal,
            button_constraints(),
            parts,
            5,
        ),
{
    let c = button_constraints();
    reveal_with_fuel(total, 7);
    assert(total(c) == 77);
    assert(lengths_but_at(c, 5));
    if area.width >= 77 {
        assert(parts[0].width == 16 && parts[1].width == 15 && parts[2].width == 17);
        assert(parts[3].width == 16 && parts[4].width == 13);
        assert(parts[5].width == area.width - 77);
        assert(parts =~= button_places(area));
    }
}

/// Divides the screen.
pub fn divide_screen(area: Rect) -> (screen: Screen)
    ensures
        may_be_screen(area, screen@),
        divides_screen(area, screen@),
        addressable(area) ==> places_screen(area, screen@),
        has_room(area) ==> screen@ == roomy_screen(area),
{
    let rows: Vec<Constraint> = vec![
        Constraint::Length(3),
        Constraint::Length(1),
        Constraint::Min(8),
        Constraint::Length(1),
        Constraint::Length(3),
    ];
    let tables: Vec<Constraint> = vec![Constraint::Percentage(62), Constraint::Percentage(38)];
    let keys: Vec<Constraint> = vec![
        Constraint::Length(16),
        Constraint::Length(15),
        Constraint::Length(17),
        Constraint::Length(16),
        Constraint::Length(13),
        Constraint::Min(0),
    ];
    assert(rows@ =~= vertical_constraints());
    assert(tables@ =~= column_constraints());
    assert(keys@ =~= button_constraints());
    let vertical = split(inner(area, 3, 2), Direction::Vertical, &rows);
    let columns = split(inner(vertical[2], 1, 1), Direction::Horizontal, &tables);
    let buttons = split(vertical[4], Direction::Horizontal, &keys);
    proof {
        if addressable(area) {
            let main = inner_of(area, 3, 2);
            lemma_inner_is_inside(area, 3, 2);
            lemma_part_is_inside(main, Direction::Vertical, rows@, vertical@, 2);
            lemma_part_is_inside(main, Direction::Vertical, rows@, vertical@, 4);
            lemma_inner_is_inside(vertical@[2], 1, 1);
            lemma_rows(main, vertical@);
            lemma_columns(inner_of(vertical@[2], 1, 1), columns@);
            lemma_buttons(vertical@[4], buttons@);
        }
    }
    Screen { vertical, columns, buttons }
}

/// The whole picture on a divided screen, in the order in which it is drawn.
pub open spec fn scene(app: AppView, area: Rect, screen: ScreenView) -> Seq<DrawView> {
    seq![
        DrawView::Panel {
            area,
            block: BlockView { title: None, border: Color::Blue, style: surface(Color::Bg) },
        },
        header_draw(app, screen.vertical[0]),
    ] + body_draws(app, screen.vertical[2], screen.columns) + buttons_draws(screen.buttons)
}

/// Draws the whole picture on a divided screen.
pub fn render_on(app: &App, area: Rect, screen: &Screen) -> (draws: Vec<Draw>)
    requires
        screen.vertical@.len() == 5,
        screen.columns@.len() == 2,
        screen.buttons@.len() == 6,
    ensures
        views(draws@) == scene(app@, area, screen@),
{
    let mut draws: Vec<Draw> = Vec::new();
    draws.push(
        Draw::Panel {
            area,
            block: Block {
                title: None,
                border: Color::Blue,
                style: Style { fg: None, bg: Some(Color::Bg), bold: false },
            },
        },
    );
    draws.push(render_header(app, screen.vertical[0]));
    assert(views(draws@) =~= seq![
        scene(app@, area, screen@)[0],
        scene(app@, area, screen@)[1],
    ]);
    append(
        &mut draws,
        render_workspace_monitor_area(app, screen.vertical[2], &screen.columns),
    );
    append(&mut draws, render_buttons(&screen.buttons));
    draws
}

/// Draws the whole picture.
pub fn render(app: &App, area: Rect) -> (draws: Vec<Draw>)
    ensures
        exists|screen: ScreenView|
            {
                &&& #[trigger] may_be_screen(area, screen)
                &&& divides_screen(area, screen)
                &&& addressable(area) ==> places_screen(area, screen)
                &&& views(draws@) == scene(app@, area, screen)
            },
        has_room(area) ==> views(draws@) == scene(app@, area, roomy_screen(area)),
{
    let screen = divide_screen(area);
    let draws = render_on(app, area, &screen);
    assert(may_be_screen(area, screen@));
    draws
}

/// A row is marked where it is selected and nowhere else, and with two arrows
/// where its pane has the focus too: so at most one row of the two tables has
/// two arrows.
pub proof fn only_selected_rows_are_marked(app: AppView, i: int, j: int)
    requires
        0 <= i < app.workspaces.len() <= usize::MAX,
        0 <= j < app.monitors.len() <= usize::MAX,
    ensures
        ({
            let workspace = workspace_rows(app)[i].cells[0];
            let monitor = monitor_rows(app)[j].cells[0];
            &&& workspace.len() > 0 <==> app.workspace_state == Some(i as usize)
            &&& monitor.len() > 0 <==> app.monitor_state == Some(j as usize)
            &&& workspace == ">>"@ <==> app.workspace_state == Some(i as usize) && app.focus
                == Pane::Workspaces
            &&& monitor == ">>"@ <==> app.monitor_state == Some(j as usize) && app.focus
                == Pane::Monitors
        }),
{
    reveal_strlit(">>");
    reveal_strlit(">");
    reveal_strlit("");
    assert(">>"@.len() == 2 && ">"@.len() == 1 && ""@.len() == 0);
}

/// The area of what is drawn.
pub open spec fn area_of(draw: DrawView) -> Rect {
    match draw {
        DrawView::Panel { area, .. } => area,
        DrawView::Text { area, .. } => area,
        DrawView::Table { area, .. } => area,
    }
}

/// `part` lies inside `whole`, or covers nothing.
pub open spec fn inside(part: Rect, whole: Rect) -> bool {
    ||| part.width == 0
    ||| part.height == 0
    ||| {
        &&& whole.x <= part.x
        &&& whole.y <= part.y
        &&& part.x + part.width <= whole.x + whole.width
        &&& part.y + part.height <= whole.y + whole.height
    }
}

/// The far corner of an area can be addressed.
pub open spec fn addressable(area: Rect) -> bool {
    area.x + area.width <= u16::MAX && area.y + area.height <= u16::MAX
}

proof fn lemma_inner_is_inside(area: Rect, horizontal: u16, vertical: u16)
    requires
        addressable(area),
    ensures
        inside(inner_of(area, horizontal, vertical), area),
        addressable(inner_of(area, horizontal, vertical)),
{
}

proof fn lemma_part_is_inside(
    area: Rect,
    direction: Direction,
    constraints: Seq<Constraint>,
    parts: Seq<Rect>,
    i: int,
)
    requires
        addressable(area),
        divides(area, direction, constraints, parts),
        0 <= i < parts.len(),
    ensures
        inside(parts[i], area),
        addressable(parts[i]),
{
    let part = parts[i];
    assert(part == parts[i]);
}

/// Whatever of a part of an area is drawn lies inside that area.
pub proof fn inside_is_transitive(part: Rect, middle: Rect, whole: Rect)
    requires
        inside(part, middle),
        inside(middle, whole),
    ensures
        inside(part, whole),
{
}

/// All but the outer frame is drawn three cells from the left and the right edge of
/// the screen and two from the upper and the lower one; where the screen is too
/// small for these margins, it covers nothing.
pub proof fn margins_are_kept(app: AppView, area: Rect, screen: ScreenView, i: int)
    requires
        addressable(area),
        divides_screen(area, screen),
        1 <= i < scene(app, area, screen).len(),
    ensures
        ({
            let part = area_of(scene(app, area, screen)[i]);
            ||| part.width == 0
            ||| part.height == 0
            ||| {
                &&& area.x + 3 <= part.x
                &&& area.y + 2 <= part.y
                &&& part.x + part.width <= area.x + area.width - 3
                &&& part.y + part.height <= area.y + area.height - 2
            }
        }),
{
    let main = inner_of(area, 3, 2);
    lemma_inner_is_inside(area, 3, 2);
    let vertical = screen.vertical;
    assert forall|k: int| 0 <= k < 5 implies inside(#[trigger] vertical[k], main) && addressable(
        vertical[k],
    ) by {
        lemma_part_is_inside(main, Direction::Vertical, vertical_constraints(), vertical, k);
    }
    let panel = vertical[2];
    let tables = inner_of(panel, 1, 1);
    lemma_inner_is_inside(panel, 1, 1);
    inside_is_transitive(tables, panel, main);
    assert forall|k: int| 0 <= k < 2 implies inside(#[trigger] screen.columns[k], main) by {
        lemma_part_is_inside(
            tables,
            Direction::Horizontal,
            column_constraints(),
            screen.columns,
            k,
        );
        inside_is_transitive(screen.columns[k], tables, main);
    }
    assert forall|k: int| 0 <= k < 6 implies inside(#[trigger] screen.buttons[k], main)
        && addressable(screen.buttons[k]) by {
        lemma_part_is_inside(
            vertical[4],
            Direction::Horizontal,
            button_constraints(),
            screen.buttons,
            k,
        );
        inside_is_transitive(screen.buttons[k], vertical[4], main);
    }
    let b = screen.buttons;
    lemma_button_is_inside(b[0], "k/j"@, "Select"@, Color::Green, main);
    lemma_button_is_inside(b[1], "tab"@, "Pane"@, Color::Orange, main);
    lemma_button_is_inside(b[2], "enter"@, "Move"@, Color::Blue, main);
    lemma_button_is_inside(b[3], "r"@, "Refresh"@, Color::Blue, main);
    lemma_button_is_inside(b[4], "q"@, "Quit"@, Color::Red, main);
    let front = body_draws(app, vertical[2], screen.columns);
    assert(front.len() == 3);
    if i >= 5 {
        assert(scene(app, area, screen)[i] == buttons_draws(b)[i - 5]);
    } else if i >= 2 {
        assert(scene(app, area, screen)[i] == front[i - 2]);
    }
    assert(inside(area_of(scene(app, area, screen)[i]), main));
}

/// Everything is drawn inside the screen, however small it is.
pub proof fn everything_is_inside_the_screen(
    app: AppView,
    area: Rect,
    screen: ScreenView,
    i: int,
)
    requires
        addressable(area),
        divides_screen(area, screen),
        0 <= i < scene(app, area, screen).len(),
    ensures
        inside(area_of(scene(app, area, screen)[i]), area),
{
    if i > 0 {
        margins_are_kept(app, area, screen, i);
    }
}

proof fn lemma_button_is_inside(
    chunk: Rect,
    key: Seq<char>,
    label: Seq<char>,
    color: Color,
    area: Rect,
)
    requires
        addressable(chunk),
        inside(chunk, area),
    ensures
        forall|i: int|
            0 <= i < button_draws(chunk, key, label, color).len() ==> inside(
                area_of(#[trigger] button_draws(chunk, key, label, color)[i]),
                area,
            ),
{
    if chunk.width >= 3 && chunk.height >= 3 {
        let frame = button_frame(chunk);
        inside_is_transitive(frame, chunk, area);
        lemma_inner_is_inside(frame, 1, 1);
        inside_is_transitive(inner_of(frame, 1, 1), frame, area);
    }
}

/// On any screen the rows do not overlap, nor the columns, nor the buttons: each
/// ends before the next one starts.
pub proof fn parts_of_the_screen_do_not_overlap(area: Rect, screen: ScreenView, i: int, j: int)
    requires
        addressable(area),
        divides_screen(area, screen),
        places_screen(area, screen),
        0 <= i < j,
    ensures
        j < 5 ==> screen.vertical[i].y + screen.vertical[i].height <= screen.vertical[j].y,
        j < 2 ==> screen.columns[i].x + screen.columns[i].width <= screen.columns[j].x,
        j < 6 ==> screen.buttons[i].x + screen.buttons[i].width <= screen.buttons[j].x,
{
    let main = inner_of(area, 3, 2);
    lemma_inner_is_inside(area, 3, 2);
    if j < 5 {
        if main.height < 16 {
            abutting_parts_do_not_overlap(main, Direction::Vertical, screen.vertical, i, j);
            assert(near(Direction::Vertical, screen.vertical[i]) + span(
                Direction::Vertical,
                screen.vertical[i],
            ) <= near(Direction::Vertical, screen.vertical[j]));
        }
    }
    lemma_part_is_inside(main, Direction::Vertical, vertical_constraints(), screen.vertical, 2);
    lemma_part_is_inside(main, Direction::Vertical, vertical_constraints(), screen.vertical, 4);
    let tables = inner_of(screen.vertical[2], 1, 1);
    lemma_inner_is_inside(screen.vertical[2], 1, 1);
    assert(0 <= share(62, tables.width as int) <= tables.width);
    let row = screen.vertical[4];
    if j < 6 && main.width < 77 {
        abutting_parts_do_not_overlap(row, Direction::Horizontal, screen.buttons, i, j);
        assert(near(Direction::Horizontal, screen.buttons[i]) + span(
            Direction::Horizontal,
            screen.buttons[i],
        ) <= near(Direction::Horizontal, screen.buttons[j]));
    }
}

proof fn lemma_scene(app: AppView, area: Rect, screen: ScreenView)
    ensures
        scene(app, area, screen).len() >= 5,
        scene(app, area, screen)[1] == header_draw(app, screen.vertical[0]),
        scene(app, area, screen)[2] == body_draws(app, screen.vertical[2], screen.columns)[0],
        scene(app, area, screen)[3] == body_draws(app, screen.vertical[2], screen.columns)[1],
        scene(app, area, screen)[4] == body_draws(app, screen.vertical[2], screen.columns)[2],
        forall|i: int|
            5 <= i < scene(app, area, screen).len() ==> #[trigger] scene(app, area, screen)[i]
                == buttons_draws(screen.buttons)[i - 5],
        scene(app, area, screen).len() == 5 + buttons_draws(screen.buttons).len(),
{
    let front = body_draws(app, screen.vertical[2], screen.columns);
    assert(front.len() == 3);
}

/// The two tables lie side by side and fill the inside of the panel: the workspaces
/// start behind its left border, the monitors start where the workspaces end and end
/// at its right border, and both reach from the upper border to the lower one. The
/// workspaces have 62 of a hundred parts of the width, to the nearest cell, halves up.
pub proof fn tables_fill_the_panel(app: AppView, area: Rect, screen: ScreenView)
    requires
        addressable(area),
        divides_screen(area, screen),
        places_screen(area, screen),
    ensures
        ({
            let picture = scene(app, area, screen);
            let panel = area_of(picture[2]);
            let workspaces = area_of(picture[3]);
            let monitors = area_of(picture[4]);
            &&& workspaces.x + workspaces.width <= monitors.x
            &&& if panel.width >= 2 && panel.height >= 2 {
                &&& workspaces.x == panel.x + 1
                &&& monitors.x == workspaces.x + workspaces.width
                &&& monitors.x + monitors.width == panel.x + panel.width - 1
                &&& workspaces.y == panel.y + 1 && monitors.y == panel.y + 1
                &&& workspaces.height == panel.height - 2 && monitors.height == panel.height - 2
                &&& -50 <= 62 * (panel.width - 2) - 100 * workspaces.width < 50
            } else {
                workspaces.width == 0 && monitors.width == 0
            }
        }),
{
    lemma_scene(app, area, screen);
    let main = inner_of(area, 3, 2);
    lemma_inner_is_inside(area, 3, 2);
    lemma_part_is_inside(main, Direction::Vertical, vertical_constraints(), screen.vertical, 2);
    let panel = screen.vertical[2];
    lemma_inner_is_inside(panel, 1, 1);
    let width = inner_of(panel, 1, 1).width as int;
    assert(0 <= share(62, width) <= width);
}

/// The header stands at the top, the panel below it and the buttons below that: in
/// the picture each ends before the next one starts, and header and panel are
/// equally wide.
pub proof fn header_panel_and_buttons_stand_below_each_other(
    app: AppView,
    area: Rect,
    screen: ScreenView,
    i: int,
)
    requires
        addressable(area),
        divides_screen(area, screen),
        places_screen(area, screen),
        5 <= i < scene(app, area, screen).len(),
    ensures
        ({
            let picture = scene(app, area, screen);
            let header = area_of(picture[1]);
            let panel = area_of(picture[2]);
            let button = area_of(picture[i]);
            &&& header.y + header.height <= panel.y
            &&& header.x == panel.x && header.width == panel.width
            &&& panel.y + panel.height <= button.y
        }),
{
    lemma_scene(app, area, screen);
    let main = inner_of(area, 3, 2);
    lemma_inner_is_inside(area, 3, 2);
    parts_of_the_screen_do_not_overlap(area, screen, 0, 2);
    parts_of_the_screen_do_not_overlap(area, screen, 2, 4);
    let v = screen.vertical;
    assert(v[0].x == main.x && v[2].x == main.x);
    let b = screen.buttons;
    assert forall|k: int| 0 <= k < 5 implies (#[trigger] b[k]).y == v[4].y by {}
    lemma_part_is_inside(main, Direction::Vertical, vertical_constraints(), v, 4);
    assert forall|k: int| 0 <= k < 5 implies addressable(#[trigger] b[k]) by {
        lemma_part_is_inside(v[4], Direction::Horizontal, button_constraints(), b, k);
    }
    lemma_button_is_low(b[0], "k/j"@, "Select"@, Color::Green);
    lemma_button_is_low(b[1], "tab"@, "Pane"@, Color::Orange);
    lemma_button_is_low(b[2], "enter"@, "Move"@, Color::Blue);
    lemma_button_is_low(b[3], "r"@, "Refresh"@, Color::Blue);
    lemma_button_is_low(b[4], "q"@, "Quit"@, Color::Red);
    assert(area_of(buttons_draws(b)[i - 5]).y >= v[4].y);
}

proof fn lemma_button_is_low(chunk: Rect, key: Seq<char>, label: Seq<char>, color: Color)
    requires
        addressable(chunk),
    ensures
        forall|i: int|
            0 <= i < button_draws(chunk, key, label, color).len() ==> area_of(
                #[trigger] button_draws(chunk, key, label, color)[i],
            ).y >= chunk.y,
{
}

/// From top to bottom a screen that holds the margins is used up: the header starts
/// two cells from the upper edge, every row where the one before it ends, and the
/// buttons end two cells from the lower edge. Header and buttons have three lines
/// and the gaps one where the screen has twenty; where it has fewer, they have no
/// more than that, and the panel has eight, or what there is.
pub proof fn rows_share_the_height(area: Rect, screen: ScreenView)
    requires
        addressable(area),
        area.width >= 6,
        area.height >= 4,
        divides_screen(area, screen),
        places_screen(area, screen),
    ensures
        ({
            let v = screen.vertical;
            &&& v.len() == 5
            &&& v[0].y == area.y + 2
            &&& v[1].y == v[0].y + v[0].height
            &&& v[2].y == v[1].y + v[1].height
            &&& v[3].y == v[2].y + v[2].height
            &&& v[4].y == v[3].y + v[3].height
            &&& v[4].y + v[4].height == area.y + area.height - 2
            &&& v[0].height <= 3 && v[1].height <= 1 && v[3].height <= 1 && v[4].height <= 3
            &&& area.height >= 20 ==> v[0].height == 3 && v[1].height == 1 && v[3].height == 1
                && v[4].height == 3
            &&& area.height < 20 ==> v[2].height == if area.height >= 12 {
                8int
            } else {
                area.height - 4
            }
            &&& forall|k: int|
                0 <= k < 5 ==> (#[trigger] v[k]).x == area.x + 3 && v[k].width == area.width - 6
        }),
{
    let main = inner_of(area, 3, 2);
    let v = screen.vertical;
    let c = vertical_constraints();
    let d = Direction::Vertical;
    assert(main.y == area.y + 2 && main.height == area.height - 4);
    if main.height < 16 {
        assert(squeezed(main, d, c, v, 2));
        assert(near(d, v[0]) == near(d, main));
        assert(near(d, v[1]) == near(d, v[0]) + span(d, v[0]));
        assert(near(d, v[2]) == near(d, v[1]) + span(d, v[1]));
        assert(near(d, v[3]) == near(d, v[2]) + span(d, v[2]));
        assert(near(d, v[4]) == near(d, v[3]) + span(d, v[3]));
        assert(span(d, v[0]) <= 3 && span(d, v[1]) <= 1 && span(d, v[3]) <= 1 && span(d, v[4]) <= 3);
    }
}

/// From left to right a screen that holds the margins is used up by the places of
/// the buttons and what is left behind them: the first starts three cells from the
/// left edge, and every other where the one before it ends. They are 16, 15, 17, 16
/// and 13 cells wide where the screen has 83, and no wider where it has fewer.
pub proof fn buttons_share_the_width(area: Rect, screen: ScreenView)
    requires
        addressable(area),
        area.width >= 6,
        area.height >= 4,
        divides_screen(area, screen),
        places_screen(area, screen),
    ensures
        ({
            let b = screen.buttons;
            &&& b.len() == 6
            &&& b[0].x == area.x + 3
            &&& b[1].x == b[0].x + b[0].width
            &&& b[2].x == b[1].x + b[1].width
            &&& b[3].x == b[2].x + b[2].width
            &&& b[4].x == b[3].x + b[3].width
            &&& b[5].x == b[4].x + b[4].width
            &&& b[5].x + b[5].width == area.x + area.width - 3
            &&& b[0].width <= 16 && b[1].width <= 15 && b[2].width <= 17 && b[3].width <= 16
                && b[4].width <= 13
            &&& area.width >= 83 ==> b[0].width == 16 && b[1].width == 15 && b[2].width == 17
                && b[3].width == 16 && b[4].width == 13
            &&& area.width < 83 ==> b[5].width == 0
            &&& forall|k: int|
                0 <= k < 6 ==> (#[trigger] b[k]).y == screen.vertical[4].y && b[k].height
                    == screen.vertical[4].height
        }),
{
    let main = inner_of(area, 3, 2);
    let row = screen.vertical[4];
    let b = screen.buttons;
    let c = button_constraints();
    let d = Direction::Horizontal;
    lemma_part_is_inside(main, Direction::Vertical, vertical_constraints(), screen.vertical, 4);
    assert(row.x == main.x && row.width == main.width);
    assert(main.x == area.x + 3 && main.width == area.width - 6);
    if main.width < 77 {
        assert(squeezed(row, d, c, b, 5));
        assert(near(d, b[0]) == near(d, row));
        assert(near(d, b[1]) == near(d, b[0]) + span(d, b[0]));
        assert(near(d, b[2]) == near(d, b[1]) + span(d, b[1]));
        assert(near(d, b[3]) == near(d, b[2]) + span(d, b[2]));
        assert(near(d, b[4]) == near(d, b[3]) + span(d, b[3]));
        assert(near(d, b[5]) == near(d, b[4]) + span(d, b[4]));
        assert(span(d, b[0]) <= 16 && span(d, b[1]) <= 15 && span(d, b[2]) <= 17);
        assert(span(d, b[3]) <= 16 && span(d, b[4]) <= 13);
    }
}

/// Behind everything lies a blue frame round the whole screen; the panel is titled
/// and framed.
pub proof fn frames_are_drawn(app: AppView, area: Rect, screen: ScreenView)
    ensures
        ({
            let picture = scene(app, area, screen);
            &&& picture[0] matches DrawView::Panel { area: place, block } && place == area
                && block.title is None && block.border == Color::Blue && block.style.bg == Some(
                Color::Bg,
            ) && block.style.fg is None && !block.style.bold
            &&& picture[2] matches DrawView::Panel { area: place, block } && place
                == screen.vertical[2] && block.title == Some("Hyprland"@) && block.border
                == Color::Border && block.style.fg == Some(Color::Fg) && block.style.bg == Some(
                Color::Bg,
            ) && !block.style.bold
        }),
{
    lemma_scene(app, area, screen);
}

/// The block of a panel has the title it is given.
pub proof fn panels_have_their_title(title: Option<Seq<char>>)
    ensures
        panel_block_of(title).title == title,
        panel_block_of(title).border == Color::Border,
        panel_block_of(title).style.fg == Some(Color::Fg),
        panel_block_of(title).style.bg == Some(Color::Bg),
        !panel_block_of(title).style.bold,
{
}

/// The header of a table names its columns, in bold orange on whatever is there.
pub proof fn headers_name_the_columns(columns: Seq<Seq<char>>)
    ensures
        table_header_of(columns).cells == columns,
        table_header_of(columns).style.fg == Some(Color::Orange),
        table_header_of(columns).style.bg is None,
        table_header_of(columns).style.bold,
{
}

/// The header of the screen reads as the name of the program, two blanks and the
/// status, whatever that is.
pub proof fn the_status_is_shown(app: AppView, area: Rect, screen: ScreenView)
    ensures
        scene(app, area, screen)[1] matches DrawView::Text {
            area: place,
            spans,
            centered,
            style,
            frame,
        } && {
            &&& place == screen.vertical[0]
            &&& spans.len() == 3
            &&& spans[0].text + spans[1].text + spans[2].text == "hyprtuird  "@ + app.status
            &&& spans[2].text == app.status
            &&& spans[0].style == (Style { fg: Some(Color::Cyan), bg: None, bold: true })
            &&& spans[1].style == (Style { fg: None, bg: None, bold: false })
            &&& spans[2].style == (Style { fg: Some(Color::Dim), bg: None, bold: false })
            &&& !centered
            &&& style == (Style { fg: Some(Color::Fg), bg: Some(Color::Bg), bold: false })
            &&& frame matches Some(block) && block.title is None && block.border == Color::Border
                && block.style == style
        },
{
    lemma_scene(app, area, screen);
    reveal_strlit("hyprtuird");
    reveal_strlit("  ");
    reveal_strlit("hyprtuird  ");
    assert("hyprtuird  "@ =~= "hyprtuird"@ + "  "@);
}

/// The first table shows the listed workspaces one by one: a marker, the name and
/// the monitor, in the place chosen for it.
pub proof fn workspaces_are_shown(app: AppView, area: Rect, screen: ScreenView, i: int)
    requires
        app.workspaces.len() <= usize::MAX,
    ensures
        scene(app, area, screen)[3] matches DrawView::Table {
            area: place,
            header,
            rows,
            widths,
            spacing,
            style,
        } && {
            &&& place == screen.columns[0]
            &&& header.cells == seq!["State"@, "Workspace"@, "Monitor"@]
            &&& header.style == (Style { fg: Some(Color::Orange), bg: None, bold: true })
            &&& widths == seq![
                Constraint::Length(7),
                Constraint::Percentage(45),
                Constraint::Percentage(55),
            ]
            &&& spacing == 2
            &&& style == (Style { fg: Some(Color::Fg), bg: Some(Color::Bg), bold: false })
            &&& rows.len() == app.workspaces.len()
            &&& 0 <= i < rows.len() ==> {
                let selected = app.workspace_state == Some(i as usize);
                &&& rows[i].cells.len() == 3
                &&& rows[i].cells[0] == if !selected {
                    ""@
                } else if app.focus == Pane::Workspaces {
                    ">>"@
                } else {
                    ">"@
                }
                &&& rows[i].cells[1] == app.workspaces[i].name
                &&& rows[i].cells[2] == app.workspaces[i].monitor
                &&& rows[i].style.bold <==> selected
                &&& rows[i].style.bg == Some(Color::Row) <==> selected && app.focus
                    == Pane::Workspaces
                &&& rows[i].style.fg == Some(Color::Fg) <==> !selected
                &&& rows[i].style.fg == Some(Color::Blue) <==> selected && app.focus
                    == Pane::Monitors
                &&& rows[i].style.bg is Some && (rows[i].style.bg == Some(Color::Row)
                    || rows[i].style.bg == Some(Color::Bg))
                &&& rows[i].style.fg == Some(Color::RowFg) <==> selected && app.focus
                    == Pane::Workspaces
            }
        },
{
    lemma_scene(app, area, screen);
}

/// The second table shows the listed monitors one by one: a marker, the name, and
/// `yes` where the monitor has the focus, in the place chosen for it.
pub proof fn monitors_are_shown(app: AppView, area: Rect, screen: ScreenView, i: int)
    requires
        app.monitors.len() <= usize::MAX,
    ensures
        scene(app, area, screen)[4] matches DrawView::Table {
            area: place,
            header,
            rows,
            widths,
            spacing,
            style,
        } && {
            &&& place == screen.columns[1]
            &&& header.cells == seq!["State"@, "Monitor"@, "Focused"@]
            &&& header.style == (Style { fg: Some(Color::Orange), bg: None, bold: true })
            &&& widths == seq![
                Constraint::Length(7),
                Constraint::Percentage(68),
                Constraint::Percentage(32),
            ]
            &&& spacing == 2
            &&& style == (Style { fg: Some(Color::Fg), bg: Some(Color::Bg), bold: false })
            &&& rows.len() == app.monitors.len()
            &&& 0 <= i < rows.len() ==> {
                let selected = app.monitor_state == Some(i as usize);
                &&& rows[i].cells.len() == 3
                &&& rows[i].cells[0] == if !selected {
                    ""@
                } else if app.focus == Pane::Monitors {
                    ">>"@
                } else {
                    ">"@
                }
                &&& rows[i].cells[1] == app.monitors[i].name
                &&& rows[i].cells[2] == if app.monitors[i].focused {
                    "yes"@
                } else {
                    ""@
                }
                &&& rows[i].style.bold <==> selected
                &&& rows[i].style.bg == Some(Color::Row) <==> selected && app.focus
                    == Pane::Monitors
                &&& rows[i].style.fg == Some(Color::Fg) <==> !selected
                &&& rows[i].style.fg == Some(Color::Blue) <==> selected && app.focus
                    == Pane::Workspaces
                &&& rows[i].style.bg is Some && (rows[i].style.bg == Some(Color::Row)
                    || rows[i].style.bg == Some(Color::Bg))
                &&& rows[i].style.fg == Some(Color::RowFg) <==> selected && app.focus
                    == Pane::Monitors
            }
        },
{
    lemma_scene(app, area, screen);
}

/// A button takes two of what is drawn where its place has three columns and three
/// lines, and nothing otherwise. Its border takes the place but for the last column,
/// its text what lies inside the border, as far as that can be addressed.
pub proof fn buttons_need_three_by_three(
    chunk: Rect,
    key: Seq<char>,
    label: Seq<char>,
    color: Color,
)
    ensures
        ({
            let drawn = button_draws(chunk, key, label, color);
            &&& chunk.width < 3 || chunk.height < 3 ==> drawn.len() == 0
            &&& chunk.width >= 3 && chunk.height >= 3 ==> {
                &&& drawn.len() == 2
                &&& drawn[0] matches DrawView::Panel { area, block } && {
                    &&& area.x == chunk.x && area.y == chunk.y
                    &&& area.x + area.width + 1 == chunk.x + chunk.width
                    &&& area.height == chunk.height
                    &&& block.title is None && block.border == color
                    &&& block.style == (Style { fg: None, bg: Some(Color::Bg), bold: false })
                }
                &&& drawn[1] matches DrawView::Text { area, spans, centered, style, frame } && {
                    &&& area.x == if chunk.x < u16::MAX {
                        chunk.x + 1
                    } else {
                        chunk.x as int
                    }
                    &&& area.y == if chunk.y < u16::MAX {
                        chunk.y + 1
                    } else {
                        chunk.y as int
                    }
                    &&& area.width == chunk.width - 3 && area.height == chunk.height - 2
                    &&& spans.len() == 3
                    &&& spans[0].text == key && spans[1].text == seq![' '] && spans[2].text
                        == label
                    &&& spans[0].style == (Style { fg: Some(color), bg: None, bold: true })
                    &&& spans[1].style == (Style { fg: None, bg: None, bold: false })
                    &&& spans[2].style == (Style { fg: Some(color), bg: None, bold: false })
                    &&& centered
                    &&& style == (Style { fg: None, bg: Some(Color::Bg), bold: false })
                    &&& frame is None
                }
            }
        }),
{
    reveal_strlit(" ");
    assert(" "@ =~= seq![' ']);
}

/// How many of what is drawn belong to the buttons before button `n`: two for each
/// place of three columns and three lines or more.
pub open spec fn drawn_before(places: Seq<Rect>, n: int) -> int
    decreases n,
{
    if n <= 0 {
        0
    } else if places[n - 1].width >= 3 && places[n - 1].height >= 3 {
        drawn_before(places, n - 1) + 2
    } else {
        drawn_before(places, n - 1)
    }
}

/// Behind the tables the picture has the buttons, in this order and no others:
/// `k/j Select`, `tab Pane`, `enter Move`, `r Refresh` and `q Quit`, each in its own
/// place, in its own colour, and left out where that place is too small.
pub proof fn buttons_are_shown_in_order(app: AppView, area: Rect, screen: ScreenView, n: int)
    requires
        0 <= n < 5,
    ensures
        ({
            let picture = scene(app, area, screen);
            let place = screen.buttons[n];
            let at = 5 + drawn_before(screen.buttons, n);
            let keys = seq!["k/j"@, "tab"@, "enter"@, "r"@, "q"@];
            let labels = seq!["Select"@, "Pane"@, "Move"@, "Refresh"@, "Quit"@];
            let colors = seq![Color::Green, Color::Orange, Color::Blue, Color::Blue, Color::Red];
            &&& picture.len() == 5 + drawn_before(screen.buttons, 5)
            &&& place.width >= 3 && place.height >= 3 ==> {
                &&& at + 1 < picture.len()
                &&& picture[at] matches DrawView::Panel { area: frame, block } && frame.x
                    == place.x && frame.y == place.y && frame.width == place.width - 1
                    && frame.height == place.height && block.border == colors[n]
                &&& picture[at + 1] matches DrawView::Text { spans, .. } && spans.len() == 3
                    && spans[0].text == keys[n] && spans[2].text == labels[n]
            }
        }),
{
    lemma_scene(app, area, screen);
    let b = screen.buttons;
    reveal_with_fuel(drawn_before, 6);
    let d0 = button_draws(b[0], "k/j"@, "Select"@, Color::Green);
    let d1 = button_draws(b[1], "tab"@, "Pane"@, Color::Orange);
    let d2 = button_draws(b[2], "enter"@, "Move"@, Color::Blue);
    let d3 = button_draws(b[3], "r"@, "Refresh"@, Color::Blue);
    let d4 = button_draws(b[4], "q"@, "Quit"@, Color::Red);
    let at = drawn_before(b, n);
    let own = if n == 0 {
        d0
    } else if n == 1 {
        d1
    } else if n == 2 {
        d2
    } else if n == 3 {
        d3
    } else {
        d4
    };
    assert(buttons_draws(b) == d0 + d1 + d2 + d3 + d4);
    assert(buttons_draws(b).len() == drawn_before(b, 5));
    if b[n].width >= 3 && b[n].height >= 3 {
        assert(own.len() == 2);
        assert(buttons_draws(b)[at] == own[0]);
        assert(buttons_draws(b)[at + 1] == own[1]);
        assert(scene(app, area, screen)[5 + at] == own[0]);
        assert(scene(app, area, screen)[5 + at + 1] == own[1]);
    }
}

/// A screen that has room for everything has the header, the panel and the buttons
/// at these places.
pub proof fn roomy_screens_are_divided_so(app: AppView, area: Rect)
    requires
        area.x + area.width <= u16::MAX,
        area.y + area.height <= u16::MAX,
        area.width >= 83,
        area.height >= 20,
    ensures
        has_room(area),
        ({
            let picture = scene(app, area, roomy_screen(area));
            let header = area_of(picture[1]);
            let panel = area_of(picture[2]);
            let row = area.y + area.height - 5;
            let first = (62 * (area.width - 8) + 50) / 100;
            &&& header.x == area.x + 3 && header.y == area.y + 2
            &&& header.width == area.width - 6 && header.height == 3
            &&& panel.x == area.x + 3 && panel.y == area.y + 6
            &&& panel.width == area.width - 6 && panel.height == area.height - 12
            &&& area_of(picture[3]).x == area.x + 4 && area_of(picture[3]).width == first
            &&& area_of(picture[4]).x == area.x + 4 + first
            &&& area_of(picture[4]).width == area.width - 8 - first
            &&& area_of(picture[3]).y == area.y + 7 && area_of(picture[4]).y == area.y + 7
            &&& area_of(picture[3]).height == area.height - 14
            &&& area_of(picture[4]).height == area.height - 14
            &&& picture.len() == 15
            &&& area_of(picture[5]).x == area.x + 3 && area_of(picture[5]).width == 15
            &&& area_of(picture[7]).x == area.x + 19 && area_of(picture[7]).width == 14
            &&& area_of(picture[9]).x == area.x + 34 && area_of(picture[9]).width == 16
            &&& area_of(picture[11]).x == area.x + 51 && area_of(picture[11]).width == 15
            &&& area_of(picture[13]).x == area.x + 67 && area_of(picture[13]).width == 12
            &&& area_of(picture[5]).y == row && area_of(picture[5]).height == 3
            &&& area_of(picture[7]).y == row && area_of(picture[7]).height == 3
            &&& area_of(picture[9]).y == row && area_of(picture[9]).height == 3
            &&& area_of(picture[11]).y == row && area_of(picture[11]).height == 3
            &&& area_of(picture[13]).y == row && area_of(picture[13]).height == 3
        }),
{
    let screen = roomy_screen(area);
    lemma_scene(app, area, screen);
    let width = area.width - 8;
    assert(0 <= (62 * width + 50) / 100 <= width);
    reveal_with_fuel(drawn_before, 6);
    buttons_are_shown_in_order(app, area, screen, 0);
    buttons_are_shown_in_order(app, area, screen, 1);
    buttons_are_shown_in_order(app, area, screen, 2);
    buttons_are_shown_in_order(app, area, screen, 3);
    buttons_are_shown_in_order(app, area, screen, 4);
}

/// Whatever the screen, it is divided as follows: what the margins of three columns
/// and two lines leave from top to bottom, the inside of the panel from left to right,
/// and the last row from left to right.
pub proof fn three_divisions_make_the_screen(area: Rect, screen: ScreenView)
    ensures
        may_be_screen(area, screen) <==> {
            &&& may_split_into(
                inner_of(area, 3, 2),
                Direction::Vertical,
                seq![
                    Constraint::Length(3),
                    Constraint::Length(1),
                    Constraint::Min(8),
                    Constraint::Length(1),
                    Constraint::Length(3),
                ],
                screen.vertical,
            )
            &&& may_split_into(
                inner_of(screen.vertical[2], 1, 1),
                Direction::Horizontal,
                seq![Constraint::Percentage(62), Constraint::Percentage(38)],
                screen.columns,
            )
            &&& may_split_into(
                screen.vertical[4],
                Direction::Horizontal,
                seq![
                    Constraint::Length(16),
                    Constraint::Length(15),
                    Constraint::Length(17),
                    Constraint::Length(16),
                    Constraint::Length(13),
                    Constraint::Min(0),
                ],
                screen.buttons,
            )
        },
{
}

/// On any screen that holds the margins, five rows lie one below the other between
/// them, two columns lie inside the third row, and six places in the fifth.
pub proof fn parts_lie_in_their_rows(area: Rect, screen: ScreenView, k: int)
    requires
        divides_screen(area, screen),
        area.width >= 6,
        area.height >= 4,
    ensures
        ({
            let v = screen.vertical;
            &&& v.len() == 5 && screen.columns.len() == 2 && screen.buttons.len() == 6
            &&& 0 <= k < 5 ==> {
                &&& v[k].width == area.width - 6
                &&& v[k].x == area.x + 3 || v[k].x == u16::MAX
                &&& area.y + 2 <= v[k].y || v[k].y == u16::MAX
                &&& v[k].y + v[k].height <= area.y + area.height - 2
            }
            &&& 0 <= k < 2 && v[2].width >= 2 && v[2].height >= 2 ==> {
                &&& screen.columns[k].height == v[2].height - 2
                &&& v[2].x + 1 <= screen.columns[k].x || screen.columns[k].x == u16::MAX
                &&& screen.columns[k].x + screen.columns[k].width <= v[2].x + v[2].width - 1
                    || screen.columns[k].width == 0
            }
            &&& 0 <= k < 6 ==> {
                &&& screen.buttons[k].y == v[4].y && screen.buttons[k].height == v[4].height
                &&& v[4].x <= screen.buttons[k].x
                &&& screen.buttons[k].x + screen.buttons[k].width <= v[4].x + v[4].width
            }
        }),
{
    let v = screen.vertical;
    if 0 <= k < 5 {
        let part = v[k];
        assert(part == v[k]);
    }
    if 0 <= k < 2 {
        let part = screen.columns[k];
        assert(part == screen.columns[k]);
    }
    if 0 <= k < 6 {
        let part = screen.buttons[k];
        assert(part == screen.buttons[k]);
    }
}

/// What is drawn is seen as it is: its place, its texts and its styles.
pub proof fn draws_are_seen_as_they_are(draw: Draw, i: int, j: int)
    ensures
        match draw {
            Draw::Panel { area, block } => {
                &&& draw@ matches DrawView::Panel { area: place, block: seen }
                &&& place == area && seen.border == block.border && seen.style == block.style
                &&& block.title is None <==> seen.title is None
                &&& block.title is Some ==> seen.title->0 == block.title->0@
            },
            Draw::Text { area, spans, centered, style, frame } => {
                &&& draw@ matches DrawView::Text {
                    area: place,
                    spans: seen,
                    centered: middle,
                    style: look,
                    frame: border,
                }
                &&& place == area && middle == centered && look == style
                &&& seen.len() == spans@.len()
                &&& 0 <= i < seen.len() ==> seen[i].text == spans@[i].text@ && seen[i].style
                    == spans@[i].style
                &&& frame is None <==> border is None
                &&& frame is Some ==> border->0.border == frame->0.border && border->0.style
                    == frame->0.style && (frame->0.title is None <==> border->0.title is None)
                    && (frame->0.title is Some ==> border->0.title->0 == frame->0.title->0@)
            },
            Draw::Table { area, header, rows, widths, spacing, style } => {
                &&& draw@ matches DrawView::Table {
                    area: place,
                    header: top,
                    rows: seen,
                    widths: sizes,
                    spacing: gap,
                    style: look,
                }
                &&& place == area && gap == spacing && look == style && sizes == widths@
                &&& top.style == header.style && top.cells.len() == header.cells@.len()
                &&& 0 <= i < top.cells.len() ==> top.cells[i] == header.cells@[i]@
                &&& seen.len() == rows@.len()
                &&& 0 <= i < seen.len() ==> seen[i].style == rows@[i].style
                    && seen[i].cells.len() == rows@[i].cells@.len()
                &&& 0 <= i < seen.len() && 0 <= j < seen[i].cells.len() ==> seen[i].cells[j]
                    == rows@[i].cells@[j]@
            },
        },
{
}

} // verus!
