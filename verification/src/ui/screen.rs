//! The grid behind a shell.
//!
//! The bytes that come back from a container are not text. They are a terminal
//! protocol: cursor moves, colours, clears, scroll regions. They go through a
//! real parser into a real grid, `alacritty_terminal`'s, and the grid is what is
//! drawn.
use vstd::prelude::*;

use alacritty_terminal::event::VoidListener;
use alacritty_terminal::grid::Dimensions;
use alacritty_terminal::index::{Column, Line};
use alacritty_terminal::term::cell::Flags;
use alacritty_terminal::term::test::TermSize;
use alacritty_terminal::term::{Config, TermMode};
use alacritty_terminal::vte::ansi::{Color, Processor};
use alacritty_terminal::Term;

use crate::ui::terminal::{name_of, named_from_index, GridCell, NamedColor, Rgb, VtColor};

verus! {

/// How much scrollback the grid keeps.
pub const HISTORY: usize = 10_000;

/// The widest and highest that a grid is made: a container is told its size in
/// 16 bits.
pub const MAX_SIZE: usize = 65535;

/// A parser and the grid it writes to, both of `alacritty_terminal`: a `Term`
/// and a `Processor`. The listener is void because the events it would hear of
/// (bell, title changes, clipboard requests) are things a pane does not act on.
#[verifier::external_body]
pub struct Screen {
    term: Term<VoidListener>,
    parser: Processor,
}

/// Something that a screen was given.
pub enum Step {
    /// It was made, this wide, this high and with this much scrollback.
    Open(usize, usize, usize),
    Bytes(Seq<u8>),
    /// It became this wide and this high.
    Resize(usize, usize),
}

/// Everything that a screen was given, from when it was made.
pub uninterp spec fn history(s: Screen) -> Seq<Step>;

/// A colour as the emulator holds it. A named one is given by its number there.
#[derive(Debug, Clone, Copy, PartialEq, Eq, Structural)]
pub enum RawColor {
    Named(usize),
    Spec(u8, u8, u8),
    Indexed(u8),
}

/// A cell as the emulator holds it.
#[derive(Debug, Clone, Copy, PartialEq, Eq, Structural)]
pub struct RawCell {
    pub c: char,
    pub fg: RawColor,
    pub bg: RawColor,
    pub bold: bool,
    pub inverse: bool,
    pub spacer: bool,
}

/// A line of the grid, counted from the top of the screen; what has scrolled off
/// it is above.
pub uninterp spec fn line_after(steps: Seq<Step>, line: int) -> Seq<RawCell>;

/// How many lines the view is scrolled up.
pub uninterp spec fn offset_after(steps: Seq<Step>) -> usize;

/// The line and the column of the cursor.
pub uninterp spec fn cursor_after(steps: Seq<Step>) -> (i32, usize);

/// Whether a program asked for the other codes of the cursor keys.
pub uninterp spec fn application_cursors_after(steps: Seq<Step>) -> bool;

/// How wide and how high a screen is: as it last became.
pub open spec fn size_after(steps: Seq<Step>) -> (usize, usize)
    decreases steps.len(),
{
    if steps.len() == 0 {
        (0, 0)
    } else {
        match steps.last() {
            Step::Open(columns, rows, _) => (columns, rows),
            Step::Resize(columns, rows) => (columns, rows),
            Step::Bytes(_) => size_after(steps.drop_last()),
        }
    }
}

/// `alacritty_terminal`'s `Term::new` and `Processor::new`: an empty grid of the
/// given size, with the given scrollback. A `Term` needs two columns to hold a
/// wide character.
#[verifier::external_body]
fn new_screen(columns: usize, rows: usize, scrollback: usize) -> (s: Screen)
    requires
        2 <= columns <= MAX_SIZE,
        1 <= rows <= MAX_SIZE,
        scrollback <= HISTORY,
    ensures
        history(s) == seq![Step::Open(columns, rows, scrollback)],
{
    let config = Config { scrolling_history: scrollback, ..Default::default() };
    let term = Term::new(config, &TermSize::new(columns, rows), VoidListener);
    Screen { term, parser: Processor::new() }
}

/// `Processor::advance` of `vte` on the `Term`: the bytes are parsed, and what
/// they ask for is done to the grid. The outcome is that of the bytes and of all
/// that the screen was given before; the clock has no part in it, since it is
/// only asked whether an update is held back, and nothing ends one but bytes.
#[verifier::external_body]
fn advance(s: &mut Screen, bytes: &Vec<u8>)
    ensures
        history(*final(s)) == history(*old(s)).push(Step::Bytes(bytes@)),
{
    s.parser.advance(&mut s.term, bytes)
}

/// `Term::resize`: the grid takes the given size, and what it holds is wrapped
/// anew.
#[verifier::external_body]
fn resize_term(s: &mut Screen, columns: usize, rows: usize)
    requires
        2 <= columns <= MAX_SIZE,
        1 <= rows <= MAX_SIZE,
    ensures
        history(*final(s)) == history(*old(s)).push(Step::Resize(columns, rows)),
{
    s.term.resize(TermSize::new(columns, rows))
}

/// `Term`'s `columns`: as wide as it was last made.
#[verifier::external_body]
fn term_columns(s: &Screen) -> (r: usize)
    ensures
        r == size_after(history(*s)).0,
{
    s.term.columns()
}

/// `Term`'s `screen_lines`: as high as it was last made, which is never more
/// than [`MAX_SIZE`] since none is made higher.
#[verifier::external_body]
fn term_lines(s: &Screen) -> (r: usize)
    ensures
        r == size_after(history(*s)).1,
        r <= MAX_SIZE,
{
    s.term.screen_lines()
}

/// `Grid::display_offset`, under a name. It is never more than the scrollback,
/// and no screen is made with more than [`HISTORY`] of that.
#[verifier::external_body]
fn term_offset(s: &Screen) -> (r: usize)
    ensures
        r == offset_after(history(*s)),
        r <= HISTORY,
{
    s.term.grid().display_offset()
}

/// The cursor's point in the `Grid`, under a name.
#[verifier::external_body]
fn term_cursor(s: &Screen) -> (r: (i32, usize))
    ensures
        r == cursor_after(history(*s)),
{
    let point = s.term.grid().cursor.point;
    (point.line.0, point.column.0)
}

/// `Term::mode`, as to `TermMode::APP_CURSOR`, under a name.
#[verifier::external_body]
fn term_mode(s: &Screen) -> (r: bool)
    ensures
        r == application_cursors_after(history(*s)),
{
    s.term.mode().contains(TermMode::APP_CURSOR)
}

/// A row of the `Grid`, under a name, each cell with what is drawn of it. Only
/// lines that can be scrolled into view may be asked for: the grid panics on
/// others.
#[verifier::external_body]
fn term_line(s: &Screen, line: i32) -> (r: Vec<RawCell>)
    requires
        -offset_after(history(*s)) <= line < size_after(history(*s)).1,
    ensures
        r@ == line_after(history(*s), line as int),
        r@.len() == size_after(history(*s)).0,
{
    let raw = |color: Color| match color {
        Color::Named(name) => RawColor::Named(name as usize),
        Color::Spec(rgb) => RawColor::Spec(rgb.r, rgb.g, rgb.b),
        Color::Indexed(index) => RawColor::Indexed(index),
    };
    let cells = s.term.grid()[Line(line)][..Column(s.term.columns())].iter();
    cells.map(|cell| RawCell {
        c: cell.c, fg: raw(cell.fg), bg: raw(cell.bg),
        bold: cell.flags.contains(Flags::BOLD), inverse: cell.flags.contains(Flags::INVERSE),
        spacer: cell.flags.contains(Flags::WIDE_CHAR_SPACER),
    }).collect()
}

/// The colour with a number: the palette's first sixteen, then those behind the
/// palette.
pub open spec fn numbered(number: usize) -> NamedColor {
    if number < 16 {
        name_of(number as u8)
    } else if number == 256 {
        NamedColor::Foreground
    } else if number == 257 {
        NamedColor::Background
    } else if number == 258 {
        NamedColor::Cursor
    } else if number == 267 {
        NamedColor::BrightForeground
    } else if number == 268 {
        NamedColor::DimForeground
    } else {
        NamedColor::Dim
    }
}

fn named(number: usize) -> (r: NamedColor)
    ensures
        r == numbered(number),
{
    if number < 16 {
        named_from_index(number as u8)
    } else if number == 256 {
        NamedColor::Foreground
    } else if number == 257 {
        NamedColor::Background
    } else if number == 258 {
        NamedColor::Cursor
    } else if number == 267 {
        NamedColor::BrightForeground
    } else if number == 268 {
        NamedColor::DimForeground
    } else {
        NamedColor::Dim
    }
}

/// A colour that the emulator holds, as it was asked for.
pub open spec fn colour_of(raw: RawColor) -> VtColor {
    match raw {
        RawColor::Named(number) => VtColor::Named(numbered(number)),
        RawColor::Spec(r, g, b) => VtColor::Spec(Rgb { r, g, b }),
        RawColor::Indexed(index) => VtColor::Indexed(index),
    }
}

fn vt_colour(raw: RawColor) -> (r: VtColor)
    ensures
        r == colour_of(raw),
{
    match raw {
        RawColor::Named(number) => VtColor::Named(named(number)),
        RawColor::Spec(r, g, b) => VtColor::Spec(Rgb { r, g, b }),
        RawColor::Indexed(index) => VtColor::Indexed(index),
    }
}

/// A cell that the emulator holds, as it is drawn.
pub open spec fn cell_of(raw: RawCell) -> GridCell {
    GridCell {
        c: raw.c,
        fg: colour_of(raw.fg),
        bg: colour_of(raw.bg),
        bold: raw.bold,
        inverse: raw.inverse,
        spacer: raw.spacer,
    }
}

/// The cells of a line that the emulator holds.
pub open spec fn cells_of(line: Seq<RawCell>) -> Seq<GridCell> {
    line.map_values(|raw: RawCell| cell_of(raw))
}

/// The cells of a line that the emulator holds.
pub fn convert(line: &Vec<RawCell>) -> (out: Vec<GridCell>)
    ensures
        out@ == cells_of(line@),
{
    let mut out: Vec<GridCell> = Vec::new();
    let mut i: usize = 0;
    while i < line.len()
        invariant
            i <= line@.len(),
            out@ == cells_of(line@.take(i as int)),
        decreases line.len() - i,
    {
        let raw = line[i];
        let ghost before = out@;
        out.push(
            GridCell {
                c: raw.c,
                fg: vt_colour(raw.fg),
                bg: vt_colour(raw.bg),
                bold: raw.bold,
                inverse: raw.inverse,
                spacer: raw.spacer,
            },
        );
        assert(out@ =~= before.push(cell_of(raw)));
        assert(cells_of(line@.take(i + 1)) =~= cells_of(line@.take(i as int)).push(cell_of(raw)));
        i += 1;
    }
    assert(line@.take(i as int) =~= line@);
    out
}

/// What is on screen: the lines that the view is scrolled to, from the top one
/// on.
pub open spec fn visible(steps: Seq<Step>) -> Seq<Seq<GridCell>> {
    Seq::new(
        size_after(steps).1 as nat,
        |row: int| cells_of(line_after(steps, row - offset_after(steps))),
    )
}

/// Where the cursor is on screen, where it is: it is drawn only while the view is
/// not scrolled.
pub open spec fn cursor_shown(offset: usize, line: i32, column: usize) -> Option<(usize, usize)> {
    if offset == 0 && line >= 0 {
        Some((line as usize, column))
    } else {
        None
    }
}

/// Where the cursor is on screen, where it is.
pub fn shown_cursor(offset: usize, line: i32, column: usize) -> (r: Option<(usize, usize)>)
    ensures
        r == cursor_shown(offset, line, column),
{
    if offset == 0 && line >= 0 {
        Some((line as usize, column))
    } else {
        None
    }
}

/// An empty screen.
pub fn open(columns: usize, rows: usize) -> (s: Screen)
    requires
        2 <= columns <= MAX_SIZE,
        1 <= rows <= MAX_SIZE,
    ensures
        history(s) == seq![Step::Open(columns, rows, HISTORY)],
{
    new_screen(columns, rows, HISTORY)
}

/// Pushes a container's output through the parser and into the grid.
pub fn feed(s: &mut Screen, bytes: &Vec<u8>)
    ensures
        history(*final(s)) == history(*old(s)).push(Step::Bytes(bytes@)),
{
    advance(s, bytes)
}

/// Gives a screen another size.
pub fn resize(s: &mut Screen, columns: usize, rows: usize)
    requires
        2 <= columns <= MAX_SIZE,
        1 <= rows <= MAX_SIZE,
    ensures
        history(*final(s)) == history(*old(s)).push(Step::Resize(columns, rows)),
{
    resize_term(s, columns, rows)
}

/// How wide and how high a screen is.
pub fn size(s: &Screen) -> (r: (usize, usize))
    ensures
        r == size_after(history(*s)),
{
    (term_columns(s), term_lines(s))
}

/// Whether a program asked for the other codes of the cursor keys.
pub fn application_cursors(s: &Screen) -> (r: bool)
    ensures
        r == application_cursors_after(history(*s)),
{
    term_mode(s)
}

/// The cells that a screen shows, row by row.
pub fn cells(s: &Screen) -> (out: Vec<Vec<GridCell>>)
    ensures
        out@.map_values(|row: Vec<GridCell>| row@) == visible(history(*s)),
{
    let ghost steps = history(*s);
    let offset = term_offset(s);
    let lines = term_lines(s);
    let mut out: Vec<Vec<GridCell>> = Vec::new();
    let mut row: usize = 0;
    while row < lines
        invariant
            row <= lines <= MAX_SIZE,
            offset <= HISTORY,
            steps == history(*s),
            offset == offset_after(steps),
            lines == size_after(steps).1,
            out@.len() == row,
            forall|k: int|
                0 <= k < row ==> (#[trigger] out@[k])@ == cells_of(line_after(steps, k - offset)),
        decreases lines - row,
    {
        let line = row as i32 - offset as i32;
        out.push(convert(&term_line(s, line)));
        row += 1;
    }
    assert(out@.map_values(|row: Vec<GridCell>| row@) =~= visible(steps));
    out
}

/// Where the cursor is on screen, where it is.
pub fn cursor(s: &Screen) -> (r: Option<(usize, usize)>)
    ensures
        ({
            let (line, column) = cursor_after(history(*s));
            r == cursor_shown(offset_after(history(*s)), line, column)
        }),
{
    let (line, column): (i32, usize) = term_cursor(s);
    shown_cursor(term_offset(s), line, column)
}

} // verus!
