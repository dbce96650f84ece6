use vstd::prelude::*;

verus! {

/// A colour given by its red, green and blue components.
#[derive(Clone, Copy, Debug, PartialEq, Eq, Structural)]
pub struct Rgb {
    pub r: u8,
    pub g: u8,
    pub b: u8,
}

/// How a piece of text is drawn: foreground and background colours, where set, and
/// whether it is bold.
#[derive(Clone, Copy, Debug, PartialEq, Eq, Structural)]
pub struct StyleSpec {
    pub fg: Option<Rgb>,
    pub bg: Option<Rgb>,
    pub bold: bool,
}

/// The background.
pub fn bg() -> (c: Rgb)
    ensures
        c == (Rgb { r: 12, g: 12, b: 20 }),
{
    Rgb { r: 12, g: 12, b: 20 }
}

/// The text colour.
pub fn fg() -> (c: Rgb)
    ensures
        c == (Rgb { r: 204, g: 204, b: 220 }),
{
    Rgb { r: 204, g: 204, b: 220 }
}

/// The colour of channel names and headings.
pub fn accent() -> (c: Rgb)
    ensures
        c == (Rgb { r: 255, g: 183, b: 77 }),
{
    Rgb { r: 255, g: 183, b: 77 }
}

/// The background of the selected row.
pub fn selected_bg() -> (c: Rgb)
    ensures
        c == (Rgb { r: 40, g: 40, b: 70 }),
{
    Rgb { r: 40, g: 40, b: 70 }
}

/// The colour of secondary text.
pub fn dim_color() -> (c: Rgb)
    ensures
        c == (Rgb { r: 100, g: 100, b: 140 }),
{
    Rgb { r: 100, g: 100, b: 140 }
}

/// The colour of borders.
pub fn border() -> (c: Rgb)
    ensures
        c == (Rgb { r: 60, g: 60, b: 100 }),
{
    Rgb { r: 60, g: 60, b: 100 }
}

/// The background of the title and status bars.
pub fn status_bg() -> (c: Rgb)
    ensures
        c == (Rgb { r: 20, g: 20, b: 35 }),
{
    Rgb { r: 20, g: 20, b: 35 }
}

/// Ordinary text.
pub fn base() -> (s: StyleSpec)
    ensures
        s == (StyleSpec { fg: Some(Rgb { r: 204, g: 204, b: 220 }), bg: Some(Rgb { r: 12, g: 12, b: 20 }), bold: false }),
{
    StyleSpec { fg: Some(fg()), bg: Some(bg()), bold: false }
}

/// The text of the selected row.
pub fn selected() -> (s: StyleSpec)
    ensures
        s == (StyleSpec { fg: Some(Rgb { r: 204, g: 204, b: 220 }), bg: Some(Rgb { r: 40, g: 40, b: 70 }), bold: false }),
{
    StyleSpec { fg: Some(fg()), bg: Some(selected_bg()), bold: false }
}

/// A channel name.
pub fn channel_name() -> (s: StyleSpec)
    ensures
        s == (StyleSpec { fg: Some(Rgb { r: 255, g: 183, b: 77 }), bg: None, bold: true }),
{
    StyleSpec { fg: Some(accent()), bg: None, bold: true }
}

/// A channel name in the selected row.
pub fn channel_name_selected() -> (s: StyleSpec)
    ensures
        s == (StyleSpec { fg: Some(Rgb { r: 255, g: 183, b: 77 }), bg: Some(Rgb { r: 40, g: 40, b: 70 }), bold: true }),
{
    StyleSpec { fg: Some(accent()), bg: Some(selected_bg()), bold: true }
}

/// Secondary text.
pub fn dim() -> (s: StyleSpec)
    ensures
        s == (StyleSpec { fg: Some(Rgb { r: 100, g: 100, b: 140 }), bg: Some(Rgb { r: 12, g: 12, b: 20 }), bold: false }),
{
    StyleSpec { fg: Some(dim_color()), bg: Some(bg()), bold: false }
}

/// The title and status bars.
pub fn status_bar() -> (s: StyleSpec)
    ensures
        s == (StyleSpec { fg: Some(Rgb { r: 100, g: 100, b: 140 }), bg: Some(Rgb { r: 20, g: 20, b: 35 }), bold: false }),
{
    StyleSpec { fg: Some(dim_color()), bg: Some(status_bg()), bold: false }
}

/// A key name in the status bar.
pub fn status_key() -> (s: StyleSpec)
    ensures
        s == (StyleSpec { fg: Some(Rgb { r: 204, g: 204, b: 220 }), bg: Some(Rgb { r: 20, g: 20, b: 35 }), bold: false }),
{
    StyleSpec { fg: Some(fg()), bg: Some(status_bg()), bold: false }
}

} // verus!
