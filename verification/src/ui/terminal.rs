//! A shell in a container, on screen.
//!
//! What is here is the two ends of a screen: bytes in, and keystrokes out. Key
//! encoding is the fiddly half and it is pure: a keystroke and the terminal's
//! current application-cursor mode decide a byte sequence.
use vstd::prelude::*;

use crate::base::text::{chars, each, held, same};
use crate::k8s::terminal::TerminalEvent;
use crate::ui::screen::{
    self, application_cursors, application_cursors_after, cells, cursor_after, cursor_shown, feed,
    history, offset_after, resize, size, size_after, visible, Screen, Step, HISTORY, MAX_SIZE,
};
use crate::ui::theme::{Swatch, Tone};

verus! {

/// The grid's starting size. Corrected from the pane's real size on the first
/// layout.
pub const COLUMNS: usize = 100;

pub const ROWS: usize = 28;

/// Fixed-width metrics, in tenths of a pixel. A terminal grid is only a grid if
/// every cell is the same size.
pub const CELL_WIDTH: u32 = 78;

pub const CELL_HEIGHT: u32 = 170;

pub const FONT_SIZE: u32 = 130;

/// A key that was pressed.
#[derive(Debug, PartialEq, Eq)]
pub struct Keystroke {
    pub key: String,
    /// What the platform turned the key into, where it did.
    pub key_char: Option<String>,
    pub control: bool,
    pub alt: bool,
}

/// The control code of a character: the low five bits of a letter.
pub open spec fn control_code(c: char) -> Option<u8> {
    if 'a' <= c && c <= 'z' {
        Some((c as u8 - 0x60) as u8)
    } else if c == '[' {
        Some(0x1b)
    } else if c == '\\' {
        Some(0x1c)
    } else if c == ']' {
        Some(0x1d)
    } else if c == ' ' || c == '@' {
        Some(0x00)
    } else {
        None
    }
}

/// What a key that moves the cursor sends: a full-screen program switches on
/// the mode that changes it.
pub open spec fn cursor_code(application_cursors: bool, letter: u8) -> Seq<u8> {
    seq![
        0x1bu8,
        if application_cursors {
            0x4fu8
        } else {
            0x5bu8
        },
        letter,
    ]
}

/// What a key with a name of its own sends.
pub open spec fn named_key(key: Seq<char>, application_cursors: bool) -> Option<Seq<u8>> {
    if key == "enter"@ {
        Some(seq![0x0du8])
    } else if key == "tab"@ {
        Some(seq![0x09u8])
    } else if key == "backspace"@ {
        Some(seq![0x7fu8])
    } else if key == "escape"@ {
        Some(seq![0x1bu8])
    } else if key == "up"@ {
        Some(cursor_code(application_cursors, 0x41))
    } else if key == "down"@ {
        Some(cursor_code(application_cursors, 0x42))
    } else if key == "right"@ {
        Some(cursor_code(application_cursors, 0x43))
    } else if key == "left"@ {
        Some(cursor_code(application_cursors, 0x44))
    } else if key == "home"@ {
        Some(cursor_code(application_cursors, 0x48))
    } else if key == "end"@ {
        Some(cursor_code(application_cursors, 0x46))
    } else if key == "delete"@ {
        Some(seq![0x1bu8, 0x5bu8, 0x33u8, 0x7eu8])
    } else if key == "pageup"@ {
        Some(seq![0x1bu8, 0x5bu8, 0x35u8, 0x7eu8])
    } else if key == "pagedown"@ {
        Some(seq![0x1bu8, 0x5bu8, 0x36u8, 0x7eu8])
    } else if key == "space"@ {
        Some(seq![0x20u8])
    } else {
        None
    }
}

/// What any other key sends: the text that the platform made of it, else the key
/// itself where it is one character. Alt is the meta prefix.
pub open spec fn typed(key: Seq<char>, key_char: Option<Seq<char>>, alt: bool) -> Option<Seq<u8>> {
    let text = match key_char {
        Some(text) => text,
        None => key,
    };
    if key_char is None && key.len() != 1 {
        None
    } else if alt {
        Some(seq![0x1bu8] + vstd::utf8::encode_utf8(text))
    } else {
        Some(vstd::utf8::encode_utf8(text))
    }
}

/// The bytes that a keystroke sends; nothing where it means nothing to a
/// terminal.
pub open spec fn encoded(
    key: Seq<char>,
    key_char: Option<Seq<char>>,
    control: bool,
    alt: bool,
    application_cursors: bool,
) -> Option<Seq<u8>> {
    if control && !alt && key.len() == 1 {
        match control_code(key[0]) {
            Some(code) => Some(seq![code]),
            None => None,
        }
    } else {
        match named_key(key, application_cursors) {
            Some(bytes) => Some(bytes),
            None => typed(key, key_char, alt),
        }
    }
}

fn control(c: char) -> (r: Option<u8>)
    ensures
        r == control_code(c),
{
    if 'a' <= c && c <= 'z' {
        Some((c as u8) - 0x60)
    } else if c == '[' {
        Some(0x1b)
    } else if c == '\\' {
        Some(0x1c)
    } else if c == ']' {
        Some(0x1d)
    } else if c == ' ' || c == '@' {
        Some(0x00)
    } else {
        None
    }
}

fn cursor(application_cursors: bool, letter: u8) -> (r: Vec<u8>)
    ensures
        r@ == cursor_code(application_cursors, letter),
{
    let introducer: u8 = if application_cursors {
        0x4f
    } else {
        0x5b
    };
    let r: Vec<u8> = vec![0x1b, introducer, letter];
    assert(r@ =~= cursor_code(application_cursors, letter));
    r
}

fn one(byte: u8) -> (r: Vec<u8>)
    ensures
        r@ == seq![byte],
{
    let r: Vec<u8> = vec![byte];
    assert(r@ =~= seq![byte]);
    r
}

fn editing(digit: u8) -> (r: Vec<u8>)
    ensures
        r@ == seq![0x1bu8, 0x5bu8, digit, 0x7eu8],
{
    let r: Vec<u8> = vec![0x1b, 0x5b, digit, 0x7e];
    assert(r@ =~= seq![0x1bu8, 0x5bu8, digit, 0x7eu8]);
    r
}

fn named(key: &str, application_cursors: bool) -> (r: Option<Vec<u8>>)
    ensures
        (match r {
            Some(bytes) => Some(bytes@),
            None => None,
        }) == named_key(key@, application_cursors),
{
    if same(key, "enter") {
        Some(one(0x0d))
    } else if same(key, "tab") {
        Some(one(0x09))
    } else if same(key, "backspace") {
        Some(one(0x7f))
    } else if same(key, "escape") {
        Some(one(0x1b))
    } else if same(key, "up") {
        Some(cursor(application_cursors, 0x41))
    } else if same(key, "down") {
        Some(cursor(application_cursors, 0x42))
    } else if same(key, "right") {
        Some(cursor(application_cursors, 0x43))
    } else if same(key, "left") {
        Some(cursor(application_cursors, 0x44))
    } else if same(key, "home") {
        Some(cursor(application_cursors, 0x48))
    } else if same(key, "end") {
        Some(cursor(application_cursors, 0x46))
    } else if same(key, "delete") {
        Some(editing(0x33))
    } else if same(key, "pageup") {
        Some(editing(0x35))
    } else if same(key, "pagedown") {
        Some(editing(0x36))
    } else if same(key, "space") {
        Some(one(0x20))
    } else {
        None
    }
}

/// Turns a keystroke into the bytes a terminal expects.
///
/// `application_cursors` is the mode a full-screen program switches on. Getting
/// that wrong means arrow keys work in a shell and do nothing in `vim`.
pub fn encode(keystroke: &Keystroke, application_cursors: bool) -> (r: Option<Vec<u8>>)
    ensures
        (match r {
            Some(bytes) => Some(bytes@),
            None => None,
        }) == encoded(
            keystroke.key@,
            held(keystroke.key_char),
            keystroke.control,
            keystroke.alt,
            application_cursors,
        ),
{
    let key = keystroke.key.as_str();
    let cs = chars(key);
    if keystroke.control && !keystroke.alt && cs.len() == 1 {
        return match control(cs[0]) {
            Some(code) => Some(one(code)),
            None => None,
        };
    }
    if let Some(bytes) = named(key, application_cursors) {
        return Some(bytes);
    }
    let text: &str = match &keystroke.key_char {
        Some(text) => text.as_str(),
        None => {
            if cs.len() != 1 {
                return None;
            }
            key
        },
    };
    let mut bytes: Vec<u8> = vstd::slice::slice_to_vec(text.as_bytes());
    if keystroke.alt {
        let ghost before = bytes@;
        bytes.insert(0, 0x1b);
        assert(bytes@ =~= seq![0x1bu8] + before);
    }
    Some(bytes)
}

/// The application-cursor mode changes what the cursor keys send and nothing
/// else.
pub proof fn cursor_mode_changes_only_cursor_keys(
    key: Seq<char>,
    key_char: Option<Seq<char>>,
    control: bool,
    alt: bool,
)
    requires
        key != "up"@,
        key != "down"@,
        key != "right"@,
        key != "left"@,
        key != "home"@,
        key != "end"@,
    ensures
        encoded(key, key_char, control, alt, true) == encoded(key, key_char, control, alt, false),
{
}

/// A colour with its parts.
#[derive(Debug, Clone, Copy, PartialEq, Eq, Structural)]
pub struct Rgb {
    pub r: u8,
    pub g: u8,
    pub b: u8,
}

/// A colour that a terminal knows by name.
#[derive(Debug, Clone, Copy, PartialEq, Eq, Structural)]
pub enum NamedColor {
    Black,
    Red,
    Green,
    Yellow,
    Blue,
    Magenta,
    Cyan,
    White,
    BrightBlack,
    BrightRed,
    BrightGreen,
    BrightYellow,
    BrightBlue,
    BrightMagenta,
    BrightCyan,
    BrightWhite,
    Foreground,
    Background,
    Cursor,
    DimForeground,
    BrightForeground,
    /// One of the dim variants.
    Dim,
}

/// A colour as a program asked for it.
#[derive(Debug, Clone, Copy, PartialEq, Eq, Structural)]
pub enum VtColor {
    Named(NamedColor),
    Spec(Rgb),
    Indexed(u8),
}

/// A colour as it is drawn.
#[derive(Debug, Clone, Copy, PartialEq, Eq, Structural)]
pub enum Colour {
    Theme(Swatch),
    Exact(Rgb),
}

/// The colour of the theme that stands for a named one, so that a terminal in a
/// light window is readable.
pub open spec fn swatch_of(named: NamedColor, is_background: bool) -> Swatch {
    match named {
        NamedColor::Background => Swatch::Background,
        NamedColor::Black | NamedColor::BrightBlack => if is_background {
            Swatch::Muted
        } else {
            Swatch::MutedForeground
        },
        NamedColor::Red | NamedColor::BrightRed => Swatch::Danger,
        NamedColor::Green | NamedColor::BrightGreen => Swatch::Success,
        NamedColor::Yellow | NamedColor::BrightYellow => Swatch::Warning,
        NamedColor::Blue | NamedColor::BrightBlue => Swatch::Primary,
        NamedColor::Magenta | NamedColor::BrightMagenta => Swatch::Primary,
        NamedColor::Cyan | NamedColor::BrightCyan => Swatch::Info,
        _ => Swatch::Foreground,
    }
}

/// The first sixteen palette entries, in their standard order.
pub open spec fn name_of(index: u8) -> NamedColor {
    if index == 0 {
        NamedColor::Black
    } else if index == 1 {
        NamedColor::Red
    } else if index == 2 {
        NamedColor::Green
    } else if index == 3 {
        NamedColor::Yellow
    } else if index == 4 {
        NamedColor::Blue
    } else if index == 5 {
        NamedColor::Magenta
    } else if index == 6 {
        NamedColor::Cyan
    } else if index == 7 {
        NamedColor::White
    } else if index == 8 {
        NamedColor::BrightBlack
    } else if index == 9 {
        NamedColor::BrightRed
    } else if index == 10 {
        NamedColor::BrightGreen
    } else if index == 11 {
        NamedColor::BrightYellow
    } else if index == 12 {
        NamedColor::BrightBlue
    } else if index == 13 {
        NamedColor::BrightMagenta
    } else if index == 14 {
        NamedColor::BrightCyan
    } else {
        NamedColor::BrightWhite
    }
}

/// One step of the colour cube.
pub open spec fn cube_step(n: int) -> u8 {
    if n <= 0 {
        0
    } else {
        (55 + 40 * n) as u8
    }
}

/// The 256-colour palette above the named colours: a cube of six steps a side,
/// then a ramp of 24 greys.
pub open spec fn palette_entry(index: u8) -> Rgb {
    if index >= 232 {
        let level = (8 + (index - 232) * 10) as u8;
        Rgb { r: level, g: level, b: level }
    } else if index >= 16 {
        let n = index - 16;
        Rgb { r: cube_step(n / 36), g: cube_step((n % 36) / 6), b: cube_step(n % 6) }
    } else {
        Rgb { r: 128, g: 128, b: 128 }
    }
}

/// A colour as it is drawn: the sixteen named ones come from the theme,
/// everything else is the exact colour the program asked for, because a program
/// that emits a 24-bit colour means it.
pub open spec fn drawn(color: VtColor, is_background: bool) -> Colour {
    match color {
        VtColor::Spec(rgb) => Colour::Exact(rgb),
        VtColor::Indexed(index) => if index < 16 {
            Colour::Theme(swatch_of(name_of(index), is_background))
        } else {
            Colour::Exact(palette_entry(index))
        },
        VtColor::Named(named) => Colour::Theme(swatch_of(named, is_background)),
    }
}

pub fn named_colour(named: NamedColor, is_background: bool) -> (r: Swatch)
    ensures
        r == swatch_of(named, is_background),
{
    match named {
        NamedColor::Background => Swatch::Background,
        NamedColor::Black | NamedColor::BrightBlack => if is_background {
            Swatch::Muted
        } else {
            Swatch::MutedForeground
        },
        NamedColor::Red | NamedColor::BrightRed => Swatch::Danger,
        NamedColor::Green | NamedColor::BrightGreen => Swatch::Success,
        NamedColor::Yellow | NamedColor::BrightYellow => Swatch::Warning,
        NamedColor::Blue | NamedColor::BrightBlue => Swatch::Primary,
        NamedColor::Magenta | NamedColor::BrightMagenta => Swatch::Primary,
        NamedColor::Cyan | NamedColor::BrightCyan => Swatch::Info,
        _ => Swatch::Foreground,
    }
}

/// The first sixteen palette entries, in their standard order.
pub fn named_from_index(index: u8) -> (r: NamedColor)
    ensures
        r == name_of(index),
{
    match index {
        0 => NamedColor::Black,
        1 => NamedColor::Red,
        2 => NamedColor::Green,
        3 => NamedColor::Yellow,
        4 => NamedColor::Blue,
        5 => NamedColor::Magenta,
        6 => NamedColor::Cyan,
        7 => NamedColor::White,
        8 => NamedColor::BrightBlack,
        9 => NamedColor::BrightRed,
        10 => NamedColor::BrightGreen,
        11 => NamedColor::BrightYellow,
        12 => NamedColor::BrightBlue,
        13 => NamedColor::BrightMagenta,
        14 => NamedColor::BrightCyan,
        _ => NamedColor::BrightWhite,
    }
}

fn step(n: u8) -> (r: u8)
    requires
        n <= 5,
    ensures
        r == cube_step(n as int),
{
    if n == 0 {
        0
    } else {
        55 + 40 * n
    }
}

/// The 256-colour cube and greyscale ramp, by the standard formula.
pub fn indexed_colour(index: u8) -> (r: Rgb)
    ensures
        r == palette_entry(index),
{
    if index >= 232 {
        let level: u8 = 8 + (index - 232) * 10;
        Rgb { r: level, g: level, b: level }
    } else if index >= 16 {
        let n: u8 = index - 16;
        Rgb { r: step(n / 36), g: step((n % 36) / 6), b: step(n % 6) }
    } else {
        // The first sixteen are the named colours; grey is a safe answer.
        Rgb { r: 128, g: 128, b: 128 }
    }
}

/// Maps a terminal colour onto the theme.
pub fn colour(color: VtColor, is_background: bool) -> (r: Colour)
    ensures
        r == drawn(color, is_background),
{
    match color {
        VtColor::Spec(rgb) => Colour::Exact(rgb),
        VtColor::Indexed(index) => if index < 16 {
            Colour::Theme(named_colour(named_from_index(index), is_background))
        } else {
            Colour::Exact(indexed_colour(index))
        },
        VtColor::Named(named) => Colour::Theme(named_colour(named, is_background)),
    }
}

/// One cell of the grid.
#[derive(Debug, Clone, Copy, PartialEq, Eq, Structural)]
pub struct GridCell {
    pub c: char,
    pub fg: VtColor,
    pub bg: VtColor,
    pub bold: bool,
    pub inverse: bool,
    /// The second half of a wide character, which is drawn with the first.
    pub spacer: bool,
}

/// What a cell looks like, apart from its character.
#[derive(Debug, Clone, Copy, PartialEq, Eq, Structural)]
pub struct Look {
    pub fg: Colour,
    /// `None` where the background is the pane's own.
    pub bg: Option<Colour>,
    pub bold: bool,
    pub cursor: bool,
}

/// A stretch of cells that look the same, drawn as one element.
///
/// Without this a hundred-column row is a hundred elements; with it a shell
/// prompt is three or four.
#[derive(Debug, PartialEq, Eq)]
pub struct Run {
    pub text: String,
    pub look: Look,
}

/// A stretch of cells, as a mathematical object.
pub struct RunView {
    pub text: Seq<char>,
    pub look: Look,
}

impl View for Run {
    type V = RunView;

    open spec fn view(&self) -> RunView {
        RunView { text: self.text@, look: self.look }
    }
}

/// What a list of runs stands for.
pub open spec fn run_views(list: Seq<Run>) -> Seq<RunView> {
    list.map_values(|r: Run| r@)
}

/// What a cell looks like.
pub open spec fn look_of(cell: GridCell, cursor: bool) -> Look {
    if cell.inverse {
        Look {
            fg: drawn(cell.bg, true),
            bg: Some(drawn(cell.fg, false)),
            bold: cell.bold,
            cursor,
        }
    } else {
        Look {
            fg: drawn(cell.fg, false),
            bg: if cell.bg == VtColor::Named(NamedColor::Background) {
                None
            } else {
                Some(drawn(cell.bg, true))
            },
            bold: cell.bold,
            cursor,
        }
    }
}

/// Runs with one more character behind them: in the last run where it looks the
/// same, else in one of its own.
pub open spec fn with_char(runs: Seq<RunView>, c: char, look: Look) -> Seq<RunView> {
    if runs.len() > 0 && runs.last().look == look {
        runs.drop_last().push(RunView { text: runs.last().text.push(c), look })
    } else {
        runs.push(RunView { text: seq![c], look })
    }
}

/// The runs of a row of cells, of which the one at `cursor` holds the cursor.
pub open spec fn runs_of(cells: Seq<GridCell>, cursor: Option<usize>) -> Seq<RunView>
    decreases cells.len(),
{
    if cells.len() == 0 {
        Seq::empty()
    } else {
        let before = runs_of(cells.drop_last(), cursor);
        let at = cells.len() - 1;
        let cell = cells.last();
        if cell.spacer {
            before
        } else {
            with_char(before, cell.c, look_of(cell, cursor == Some(at as usize)))
        }
    }
}

/// The characters of runs, one after the other.
pub open spec fn run_text(runs: Seq<RunView>) -> Seq<char>
    decreases runs.len(),
{
    if runs.len() == 0 {
        Seq::empty()
    } else {
        run_text(runs.drop_last()) + runs.last().text
    }
}

/// The characters of cells, without the second halves of wide ones.
pub open spec fn cell_text(cells: Seq<GridCell>) -> Seq<char>
    decreases cells.len(),
{
    if cells.len() == 0 {
        Seq::empty()
    } else if cells.last().spacer {
        cell_text(cells.drop_last())
    } else {
        cell_text(cells.drop_last()).push(cells.last().c)
    }
}

/// Drawing a row in runs loses and moves no character.
pub proof fn runs_keep_the_text(cells: Seq<GridCell>, cursor: Option<usize>)
    ensures
        run_text(runs_of(cells, cursor)) == cell_text(cells),
    decreases cells.len(),
{
    if cells.len() > 0 {
        runs_keep_the_text(cells.drop_last(), cursor);
        let before = runs_of(cells.drop_last(), cursor);
        let cell = cells.last();
        if !cell.spacer {
            let at = cells.len() - 1;
            let look = look_of(cell, cursor == Some(at as usize));
            let after = with_char(before, cell.c, look);
            if before.len() > 0 && before.last().look == look {
                assert(after.drop_last() =~= before.drop_last());
                assert(run_text(before.drop_last()) + before.last().text.push(cell.c) =~= (run_text(
                    before.drop_last(),
                ) + before.last().text).push(cell.c));
            } else {
                assert(after.drop_last() =~= before);
                assert(run_text(before) + seq![cell.c] =~= run_text(before).push(cell.c));
            }
        }
    }
}

/// Neighbouring runs never look the same: a row has as few of them as it can.
pub proof fn neighbouring_runs_differ(cells: Seq<GridCell>, cursor: Option<usize>)
    ensures
        forall|i: int|
            0 <= i < runs_of(cells, cursor).len() - 1 ==> (#[trigger] runs_of(
                cells,
                cursor,
            )[i]).look != runs_of(cells, cursor)[i + 1].look,
    decreases cells.len(),
{
    if cells.len() > 0 {
        neighbouring_runs_differ(cells.drop_last(), cursor);
        let before = runs_of(cells.drop_last(), cursor);
        let after = runs_of(cells, cursor);
        assert forall|i: int| 0 <= i < after.len() - 1 implies (#[trigger] after[i]).look != after[i
            + 1].look by {
            if i + 1 < before.len() {
                assert(before[i].look != before[i + 1].look);
            }
        }
    }
}

fn look(cell: &GridCell, cursor: bool) -> (r: Look)
    ensures
        r == look_of(*cell, cursor),
{
    if cell.inverse {
        Look {
            fg: colour(cell.bg, true),
            bg: Some(colour(cell.fg, false)),
            bold: cell.bold,
            cursor,
        }
    } else {
        Look {
            fg: colour(cell.fg, false),
            bg: if cell.bg == VtColor::Named(NamedColor::Background) {
                None
            } else {
                Some(colour(cell.bg, true))
            },
            bold: cell.bold,
            cursor,
        }
    }
}

/// A row of the visible grid, as coloured runs.
pub fn row_runs(cells: &Vec<GridCell>, cursor: Option<usize>) -> (out: Vec<Run>)
    ensures
        run_views(out@) == runs_of(cells@, cursor),
{
    let mut out: Vec<Run> = Vec::new();
    let mut i: usize = 0;
    assert(run_views(out@) =~= Seq::empty());
    assert(cells@.take(0) =~= Seq::empty());
    while i < cells.len()
        invariant
            i <= cells.len(),
            run_views(out@) == runs_of(cells@.take(i as int), cursor),
        decreases cells.len() - i,
    {
        let cell = cells[i];
        assert(cells@.take(i + 1).drop_last() =~= cells@.take(i as int));
        assert(cells@.take(i + 1).last() == cell);
        if !cell.spacer {
            let is_cursor = match cursor {
                Some(at) => at == i,
                None => false,
            };
            let own = look(&cell, is_cursor);
            let ghost before = run_views(out@);
            assert(before.len() == out@.len());
            let extends = if out.len() > 0 {
                assert(before.last() == out@[out@.len() - 1]@);
                out[out.len() - 1].look == own
            } else {
                false
            };
            if extends {
                let ghost earlier = out@;
                if let Some(last) = out.pop() {
                    assert(run_views(out@) =~= before.drop_last());
                    let mut text = last.text;
                    text.push(cell.c);
                    out.push(Run { text, look: own });
                }
            } else {
                let mut text = String::new();
                text.push(cell.c);
                assert(text@ =~= seq![cell.c]);
                out.push(Run { text, look: own });
            }
            assert(run_views(out@) =~= with_char(before, cell.c, own));
        }
        i += 1;
    }
    assert(cells@.take(i as int) =~= cells@);
    out
}

/// The column of the cursor in a row, where it is in that row.
pub open spec fn cursor_in(cursor: Option<(usize, usize)>, row: int) -> Option<usize> {
    match cursor {
        Some((line, column)) => if line == row {
            Some(column)
        } else {
            None
        },
        None => None,
    }
}

/// A grid as rows of coloured runs.
pub open spec fn rows_of(grid: Seq<Seq<GridCell>>, cursor: Option<(usize, usize)>) -> Seq<
    Seq<RunView>,
> {
    Seq::new(grid.len(), |row: int| runs_of(grid[row], cursor_in(cursor, row)))
}

/// The visible grid, as rows of coloured runs. `cursor` is the row and column of
/// the cursor, where it is on screen.
pub fn rows(grid: &Vec<Vec<GridCell>>, cursor: Option<(usize, usize)>) -> (out: Vec<Vec<Run>>)
    ensures
        out@.map_values(|row: Vec<Run>| run_views(row@)) == rows_of(
            grid@.map_values(|row: Vec<GridCell>| row@),
            cursor,
        ),
{
    let mut out: Vec<Vec<Run>> = Vec::new();
    let mut i: usize = 0;
    while i < grid.len()
        invariant
            i <= grid@.len(),
            out@.len() == i,
            forall|k: int|
                0 <= k < i ==> run_views((#[trigger] out@[k])@) == runs_of(
                    grid@[k]@,
                    cursor_in(cursor, k),
                ),
        decreases grid.len() - i,
    {
        let here = match cursor {
            Some((row, column)) => if row == i {
                Some(column)
            } else {
                None
            },
            None => None,
        };
        out.push(row_runs(&grid[i], here));
        i += 1;
    }
    assert(out@.map_values(|row: Vec<Run>| run_views(row@)) =~= rows_of(
        grid@.map_values(|row: Vec<GridCell>| row@),
        cursor,
    ));
    out
}

/// A size that a grid can have.
pub open spec fn at_least_two(n: usize) -> usize {
    if n < 2 {
        2
    } else {
        n
    }
}

/// The size that the grid is to be told, where it is another than it has. This
/// runs on every frame, and a resize per frame would be a repaint loop.
pub fn fit(columns: usize, rows: usize, measured: (usize, usize)) -> (r: Option<(usize, usize)>)
    ensures
        r == (if columns == at_least_two(measured.0) && rows == at_least_two(measured.1) {
            None
        } else {
            Some((at_least_two(measured.0), at_least_two(measured.1)))
        }),
{
    let wide: usize = if measured.0 < 2 {
        2
    } else {
        measured.0
    };
    let high: usize = if measured.1 < 2 {
        2
    } else {
        measured.1
    };
    if columns == wide && rows == high {
        None
    } else {
        Some((wide, high))
    }
}

/// What the pane is doing.
pub enum State {
    Idle,
    Running,
    Ended,
    Failed(String),
}

impl State {
    /// What is said below the grid.
    pub fn status(&self) -> (r: Option<(Tone, String)>)
        ensures
            match self {
                State::Failed(error) => r matches Some((tone, text)) && tone == Tone::Critical
                    && text@ == error@,
                State::Ended => r matches Some((tone, text)) && tone == Tone::Unknown && text@
                    == "The shell exited."@,
                _ => r is None,
            },
    {
        match self {
            State::Failed(error) => Some((Tone::Critical, error.clone())),
            State::Ended => Some((Tone::Unknown, "The shell exited.".to_owned())),
            _ => None,
        }
    }
}

/// A shell in a pane: the screen it writes to, and what it is doing.
pub struct TerminalView {
    screen: Screen,
    state: State,
}

/// A shell in a pane, as a mathematical object.
pub struct TerminalModel {
    /// All that the screen was given.
    pub steps: Seq<Step>,
    pub state: State,
}

impl View for TerminalView {
    type V = TerminalModel;

    closed spec fn view(&self) -> TerminalModel {
        TerminalModel { steps: history(self.screen), state: self.state }
    }
}

/// What is drawn of a screen.
pub open spec fn picture(steps: Seq<Step>) -> Seq<Seq<RunView>> {
    let (line, column) = cursor_after(steps);
    rows_of(visible(steps), cursor_shown(offset_after(steps), line, column))
}

impl TerminalView {
    /// A pane with no shell yet, and an empty screen.
    pub fn new() -> (r: TerminalView)
        ensures
            r@.steps == seq![Step::Open(COLUMNS, ROWS, HISTORY)],
            r@.state is Idle,
    {
        TerminalView { screen: screen::open(COLUMNS, ROWS), state: State::Idle }
    }

    /// Opens a shell on a fresh screen. Returns the command to run.
    pub fn start(&mut self) -> (command: Vec<String>)
        ensures
            final(self)@.steps == seq![Step::Open(COLUMNS, ROWS, HISTORY)],
            final(self)@.state is Running,
            each(command@) == seq!["/bin/sh"@, "-c"@, "exec /bin/bash || exec /bin/sh"@],
    {
        self.screen = screen::open(COLUMNS, ROWS);
        self.state = State::Running;
        shell_command()
    }

    /// Pushes a container's output through the parser and into the grid.
    pub fn feed(&mut self, bytes: &Vec<u8>)
        ensures
            final(self)@ == (TerminalModel {
                steps: old(self)@.steps.push(Step::Bytes(bytes@)),
                ..old(self)@
            }),
    {
        feed(&mut self.screen, bytes)
    }

    /// Takes in what a session reports: its output is drawn, its end is kept.
    pub fn receive(&mut self, event: TerminalEvent)
        ensures
            match event {
                TerminalEvent::Output(bytes) => final(self)@ == (TerminalModel {
                    steps: old(self)@.steps.push(Step::Bytes(bytes@)),
                    ..old(self)@
                }),
                TerminalEvent::Closed => final(self)@.steps == old(self)@.steps
                    && final(self)@.state is Ended,
                TerminalEvent::Failed(error) => final(self)@.steps == old(self)@.steps
                    && final(self)@.state == State::Failed(error),
            },
    {
        match event {
            TerminalEvent::Output(bytes) => self.feed(&bytes),
            TerminalEvent::Closed => {
                self.state = State::Ended;
            },
            TerminalEvent::Failed(error) => {
                self.state = State::Failed(error);
            },
        }
    }

    /// What a keystroke sends, if it means anything to a terminal.
    pub fn key(&self, keystroke: &Keystroke) -> (r: Option<Vec<u8>>)
        ensures
            (match r {
                Some(bytes) => Some(bytes@),
                None => None,
            }) == encoded(
                keystroke.key@,
                held(keystroke.key_char),
                keystroke.control,
                keystroke.alt,
                application_cursors_after(self@.steps),
            ),
    {
        encode(keystroke, application_cursors(&self.screen))
    }

    /// How wide and how high the screen is.
    pub fn size(&self) -> (r: (usize, usize))
        ensures
            r == size_after(self@.steps),
    {
        size(&self.screen)
    }

    /// Gives the screen the size of the pane, where it has another. Returns the
    /// size that the container is to be told then.
    pub fn fit(&mut self, columns: usize, rows: usize) -> (r: Option<(usize, usize)>)
        requires
            columns <= MAX_SIZE,
            rows <= MAX_SIZE,
        ensures
            r == (if size_after(old(self)@.steps) == (at_least_two(columns), at_least_two(rows)) {
                None
            } else {
                Some((at_least_two(columns), at_least_two(rows)))
            }),
            final(self)@ == (match r {
                Some((columns, rows)) => TerminalModel {
                    steps: old(self)@.steps.push(Step::Resize(columns, rows)),
                    ..old(self)@
                },
                None => old(self)@,
            }),
    {
        let (wide, high): (usize, usize) = size(&self.screen);
        let told = fit(wide, high, (columns, rows));
        if let Some((columns, rows)) = told {
            resize(&mut self.screen, columns, rows);
        }
        told
    }

    /// The visible grid, as rows of coloured runs.
    pub fn rows(&self) -> (out: Vec<Vec<Run>>)
        ensures
            out@.map_values(|row: Vec<Run>| run_views(row@)) == picture(self@.steps),
    {
        rows(&cells(&self.screen), screen::cursor(&self.screen))
    }

    /// What is said below the grid.
    pub fn status(&self) -> (r: Option<(Tone, String)>)
        ensures
            match self@.state {
                State::Failed(error) => r matches Some((tone, text)) && tone == Tone::Critical
                    && text@ == error@,
                State::Ended => r matches Some((tone, text)) && tone == Tone::Unknown && text@
                    == "The shell exited."@,
                _ => r is None,
            },
    {
        self.state.status()
    }
}

/// After a pane was measured, its screen has that size, and measuring it again
/// changes nothing.
pub proof fn measuring_settles(steps: Seq<Step>, columns: usize, rows: usize)
    ensures
        ({
            let told = (at_least_two(columns), at_least_two(rows));
            &&& size_after(steps.push(Step::Resize(told.0, told.1))) == told
            &&& told == (at_least_two(told.0), at_least_two(told.1))
        }),
{
    let told = Step::Resize(at_least_two(columns), at_least_two(rows));
    assert(steps.push(told).last() == told);
}

/// Output never changes how big a screen is.
pub proof fn output_keeps_the_size(steps: Seq<Step>, bytes: Seq<u8>)
    ensures
        size_after(steps.push(Step::Bytes(bytes))) == size_after(steps),
        picture(steps.push(Step::Bytes(bytes))).len() == picture(steps).len(),
{
    assert(steps.push(Step::Bytes(bytes)).drop_last() =~= steps);
}

/// The command a shell is opened with. One command is run, so falling back
/// between shells is done in the command itself.
pub fn shell_command() -> (r: Vec<String>)
    ensures
        each(r@) == seq!["/bin/sh"@, "-c"@, "exec /bin/bash || exec /bin/sh"@],
{
    let r: Vec<String> = vec![
        "/bin/sh".to_owned(),
        "-c".to_owned(),
        "exec /bin/bash || exec /bin/sh".to_owned(),
    ];
    assert(each(r@) =~= seq!["/bin/sh"@, "-c"@, "exec /bin/bash || exec /bin/sh"@]);
    r
}

} // verus!
