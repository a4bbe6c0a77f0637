//! Colours and text styles.
use vstd::prelude::*;

verus! {

/// A colour of the theme.
#[derive(Clone, Copy, Debug, PartialEq, Eq, Structural)]
pub enum Color {
    Bg,
    Fg,
    Dim,
    Border,
    Blue,
    Cyan,
    Green,
    Orange,
    Red,
    Row,
    RowFg,
}

/// The red, green and blue parts of a colour.
pub open spec fn rgb_of(color: Color) -> (u8, u8, u8) {
    match color {
        Color::Bg => (25, 27, 38),
        Color::Fg => (192, 202, 245),
        Color::Dim => (86, 95, 137),
        Color::Border => (169, 177, 214),
        Color::Blue => (122, 162, 247),
        Color::Cyan => (42, 195, 222),
        Color::Green => (158, 206, 106),
        Color::Orange => (224, 175, 104),
        Color::Red => (247, 118, 142),
        Color::Row => (70, 151, 160),
        Color::RowFg => (25, 27, 38),
    }
}

impl Color {
    /// The red, green and blue parts of the colour.
    pub fn rgb(self) -> (parts: (u8, u8, u8))
        ensures
            parts == rgb_of(self),
    {
        match self {
            Color::Bg => (25, 27, 38),
            Color::Fg => (192, 202, 245),
            Color::Dim => (86, 95, 137),
            Color::Border => (169, 177, 214),
            Color::Blue => (122, 162, 247),
            Color::Cyan => (42, 195, 222),
            Color::Green => (158, 206, 106),
            Color::Orange => (224, 175, 104),
            Color::Red => (247, 118, 142),
            Color::Row => (70, 151, 160),
            Color::RowFg => (25, 27, 38),
        }
    }
}

/// How text or a surface is drawn. What is `None` stays as it was.
#[derive(Clone, Copy, Debug, PartialEq, Eq)]
pub struct Style {
    pub fg: Option<Color>,
    pub bg: Option<Color>,
    pub bold: bool,
}

/// The style that changes nothing.
pub open spec fn no_style() -> Style {
    Style { fg: None, bg: None, bold: false }
}

/// The style of this foreground.
pub open spec fn on_any(fg: Color) -> Style {
    Style { fg: Some(fg), bg: None, bold: false }
}

/// The style of this foreground, in bold.
pub open spec fn bold_on_any(fg: Color) -> Style {
    Style { fg: Some(fg), bg: None, bold: true }
}

/// The style of this background.
pub open spec fn surface(bg: Color) -> Style {
    Style { fg: None, bg: Some(bg), bold: false }
}

/// The style of ordinary text on the ordinary background.
pub open spec fn body_style() -> Style {
    Style { fg: Some(Color::Fg), bg: Some(Color::Bg), bold: false }
}

/// How a row of a list is drawn: the selected row of the pane with the focus on
/// a bright bar, that of the other pane in bold, and every other row plainly.
pub open spec fn row_style_of(selected: bool, active: bool) -> Style {
    if selected && active {
        Style { fg: Some(Color::RowFg), bg: Some(Color::Row), bold: true }
    } else if selected {
        Style { fg: Some(Color::Blue), bg: Some(Color::Bg), bold: true }
    } else {
        body_style()
    }
}

/// How a row of a list is drawn.
pub fn row_style(selected: bool, active: bool) -> (style: Style)
    ensures
        style == row_style_of(selected, active),
{
    match (selected, active) {
        (true, true) => Style { fg: Some(Color::RowFg), bg: Some(Color::Row), bold: true },
        (true, false) => Style { fg: Some(Color::Blue), bg: Some(Color::Bg), bold: true },
        _ => Style { fg: Some(Color::Fg), bg: Some(Color::Bg), bold: false },
    }
}

/// What stands in front of a row: two arrows at the selection of the pane with
/// the focus, one at that of the other pane, and nothing elsewhere.
pub open spec fn marker_of(selected: bool, active: bool) -> Seq<char> {
    if selected && active {
        ">>"@
    } else if selected {
        ">"@
    } else {
        ""@
    }
}

/// What stands in front of a row.
pub fn selection_marker(selected: bool, active: bool) -> (marker: &'static str)
    ensures
        marker@ == marker_of(selected, active),
{
    match (selected, active) {
        (true, true) => ">>",
        (true, false) => ">",
        _ => "",
    }
}

/// The colours by their hexadecimal notation.
pub proof fn colors_have_their_values(color: Color)
    ensures
        ({
            let (red, green, blue) = rgb_of(color);
            0x10000 * red + 0x100 * green + blue == match color {
                Color::Bg | Color::RowFg => 0x191b26int,
                Color::Fg => 0xc0caf5int,
                Color::Dim => 0x565f89int,
                Color::Border => 0xa9b1d6int,
                Color::Blue => 0x7aa2f7int,
                Color::Cyan => 0x2ac3deint,
                Color::Green => 0x9ece6aint,
                Color::Orange => 0xe0af68int,
                Color::Red => 0xf7768eint,
                Color::Row => 0x4697a0int,
            }
        }),
{
}

/// Selected rows are drawn in bold and no others; only the selected row of the pane
/// with the focus leaves the ordinary background.
pub proof fn selected_rows_stand_out(selected: bool, active: bool)
    ensures
        ({
            let style = row_style_of(selected, active);
            &&& style.bold <==> selected
            &&& style.bg == Some(Color::Row) <==> selected && active
            &&& style.bg == Some(Color::Bg) <==> !(selected && active)
            &&& style.fg == Some(Color::RowFg) <==> selected && active
            &&& style.fg == Some(Color::Blue) <==> selected && !active
            &&& style.fg == Some(Color::Fg) <==> !selected
        }),
{
}

/// What stands in front of a row is made of arrows alone: two, one or none.
pub proof fn markers_are_arrows(selected: bool, active: bool)
    ensures
        ({
            let marker = marker_of(selected, active);
            &&& marker.len() == if !selected {
                0int
            } else if active {
                2
            } else {
                1
            }
            &&& forall|i: int| 0 <= i < marker.len() ==> #[trigger] marker[i] == '>'
        }),
{
    reveal_strlit(">>");
    reveal_strlit(">");
    reveal_strlit("");
}

} // verus!
