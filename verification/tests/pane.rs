use beacon::k8s::terminal::TerminalEvent;
use beacon::ui::terminal::{
    colour, encode, fit, indexed_colour, named_colour, named_from_index, row_runs, rows,
    shell_command, Colour, GridCell, Keystroke, NamedColor, Rgb, Run, TerminalView, VtColor,
    CELL_HEIGHT, CELL_WIDTH, COLUMNS, ROWS,
};
use beacon::ui::screen::{self, shown_cursor};
use beacon::ui::theme::{Swatch, Tone};

fn text(runs: &[Run]) -> String {
    runs.iter().map(|run| run.text.as_str()).collect()
}

fn keystroke(text: &str) -> Keystroke {
    let mut rest = text;
    let mut control = false;
    let mut alt = false;
    loop {
        if let Some(after) = rest.strip_prefix("ctrl-") {
            control = true;
            rest = after;
        } else if let Some(after) = rest.strip_prefix("alt-") {
            alt = true;
            rest = after;
        } else {
            break;
        }
    }
    Keystroke {
        key: rest.to_string(),
        key_char: None,
        control,
        alt,
    }
}

fn press(text: &str) -> Option<Vec<u8>> {
    encode(&keystroke(text), false)
}

fn press_in_app_mode(text: &str) -> Option<Vec<u8>> {
    encode(&keystroke(text), true)
}

fn lightness(colour: Rgb) -> f32 {
    let most = colour.r.max(colour.g).max(colour.b) as f32;
    let least = colour.r.min(colour.g).min(colour.b) as f32;
    (most + least) / 2.0 / 255.0
}

#[test]
fn ordinary_keys_are_their_own_bytes() {
    assert_eq!(press("a"), Some(b"a".to_vec()));
    assert_eq!(press("enter"), Some(b"\r".to_vec()));
    assert_eq!(press("tab"), Some(b"\t".to_vec()));
    assert_eq!(press("space"), Some(b" ".to_vec()));
}

/// A terminal's backspace is DEL, not BS. Sending 0x08 gives you a shell
/// that moves the cursor left instead of deleting.
#[test]
fn backspace_is_del() {
    assert_eq!(press("backspace"), Some(vec![0x7f]));
}

/// The thing people press when something is stuck.
#[test]
fn control_letters_are_control_codes() {
    assert_eq!(press("ctrl-c"), Some(vec![0x03]));
    assert_eq!(press("ctrl-d"), Some(vec![0x04]));
    assert_eq!(press("ctrl-a"), Some(vec![0x01]));
    assert_eq!(press("ctrl-z"), Some(vec![0x1a]));
}

/// Arrows send a different sequence once a full-screen program turns on
/// application cursor mode. Ignoring that gives arrow keys that work in a
/// shell and do nothing in `vim`.
#[test]
fn arrows_follow_the_cursor_mode() {
    assert_eq!(press("up"), Some(b"\x1b[A".to_vec()));
    assert_eq!(press("down"), Some(b"\x1b[B".to_vec()));
    assert_eq!(press("right"), Some(b"\x1b[C".to_vec()));
    assert_eq!(press("left"), Some(b"\x1b[D".to_vec()));

    assert_eq!(press_in_app_mode("up"), Some(b"\x1bOA".to_vec()));
    assert_eq!(press_in_app_mode("left"), Some(b"\x1bOD".to_vec()));
}

#[test]
fn navigation_keys_send_their_sequences() {
    assert_eq!(press("delete"), Some(b"\x1b[3~".to_vec()));
    assert_eq!(press("pageup"), Some(b"\x1b[5~".to_vec()));
    assert_eq!(press("pagedown"), Some(b"\x1b[6~".to_vec()));
    assert_eq!(press("escape"), Some(vec![0x1b]));
}

/// Alt is the meta prefix: `alt-b` is escape then `b`, which is how
/// readline's word motions are reached.
#[test]
fn alt_prefixes_with_escape() {
    assert_eq!(press("alt-b"), Some(vec![0x1b, b'b']));
}

/// A modifier on its own is not a keystroke to send.
#[test]
fn keys_with_no_terminal_meaning_send_nothing() {
    assert_eq!(press("ctrl-1"), None);
    assert_eq!(press("f13"), None);
}

/// The 256-colour cube and the greyscale ramp, at their known anchors.
#[test]
fn indexed_colours_follow_the_standard_cube() {
    // 16 is the bottom of the cube: pure black.
    let black = indexed_colour(16);
    assert!(lightness(black) < 0.01, "{black:?}");

    // 231 is the top: pure white.
    let white = indexed_colour(231);
    assert!(lightness(white) > 0.99, "{white:?}");

    // The greyscale ramp runs from near-black to near-white.
    assert!(lightness(indexed_colour(232)) < lightness(indexed_colour(255)));
}

/// The pane measures itself in cells, so a wrong cell size is a wrong
/// column count and a shell that wraps in the wrong place. This pins the
/// ratio a monospace face at this size actually has.
#[test]
fn a_cell_is_taller_than_it_is_wide() {
    let ratio = CELL_HEIGHT as f32 / CELL_WIDTH as f32;
    assert!((1.9..2.4).contains(&ratio), "ratio {ratio}");
}

/// What the platform made of a key is what is sent.
#[test]
fn composed_characters_are_sent_as_they_are() {
    let composed = Keystroke {
        key: "e".into(),
        key_char: Some("é".into()),
        control: false,
        alt: false,
    };
    assert_eq!(encode(&composed, false), Some("é".as_bytes().to_vec()));
}

/// Full-screen programs change the cursor keys and nothing else.
#[test]
fn only_cursor_keys_follow_the_mode() {
    for key in ["a", "enter", "delete", "ctrl-c", "alt-b", "f13"] {
        assert_eq!(press(key), press_in_app_mode(key), "{key}");
    }
    assert_ne!(press("home"), press_in_app_mode("home"));
}

#[test]
fn the_cube_and_the_ramp_have_their_standard_values() {
    assert_eq!(indexed_colour(16), Rgb { r: 0, g: 0, b: 0 });
    assert_eq!(indexed_colour(208), Rgb { r: 255, g: 135, b: 0 });
    assert_eq!(indexed_colour(232), Rgb { r: 8, g: 8, b: 8 });
    assert_eq!(indexed_colour(255), Rgb { r: 238, g: 238, b: 238 });
}

#[test]
fn the_first_sixteen_colours_have_names() {
    assert_eq!(named_from_index(1), NamedColor::Red);
    assert_eq!(named_from_index(15), NamedColor::BrightWhite);
    assert_eq!(
        colour(VtColor::Indexed(1), false),
        Colour::Theme(named_colour(NamedColor::Red, false))
    );
    assert_eq!(named_colour(NamedColor::Red, false), Swatch::Danger);
    assert_eq!(
        colour(VtColor::Indexed(208), false),
        Colour::Exact(Rgb { r: 255, g: 135, b: 0 })
    );
}

fn cell(c: char, bold: bool) -> GridCell {
    GridCell {
        c,
        fg: VtColor::Named(NamedColor::Foreground),
        bg: VtColor::Named(NamedColor::Background),
        bold,
        inverse: false,
        spacer: false,
    }
}

/// Cells that look alike are drawn together, and no text is lost.
#[test]
fn a_row_is_drawn_in_runs() {
    let cells = vec![cell('a', false), cell('b', false), cell('c', true), cell('d', true)];
    let runs = row_runs(&cells, None);
    let texts: Vec<&str> = runs.iter().map(|run| run.text.as_str()).collect();
    assert_eq!(texts, ["ab", "cd"]);

    let runs = row_runs(&cells, Some(1));
    let texts: Vec<&str> = runs.iter().map(|run| run.text.as_str()).collect();
    assert_eq!(texts, ["a", "b", "cd"]);
    assert!(runs[1].look.cursor);

    let grid = vec![cells, vec![cell('x', false)]];
    let drawn = rows(&grid, Some((1, 0)));
    assert_eq!(drawn.len(), 2);
    assert!(drawn[1][0].look.cursor != drawn[0][0].look.cursor);
}

#[test]
fn a_grid_is_resized_only_to_another_size() {
    assert_eq!(fit(100, 28, (100, 28)), None);
    assert_eq!(fit(100, 28, (90, 28)), Some((90, 28)));
    assert_eq!(fit(100, 28, (0, 1)), Some((2, 2)));
}

#[test]
fn a_pane_says_how_its_shell_ended() {
    let mut pane = TerminalView::new();
    assert_eq!(pane.start(), shell_command());
    assert_eq!(shell_command()[0], "/bin/sh");
    pane.receive(TerminalEvent::Output(b"hi".to_vec()));
    assert!(pane.status().is_none());
    assert!(text(&pane.rows()[0]).starts_with("hi "));
    pane.receive(TerminalEvent::Closed);
    assert_eq!(
        pane.status(),
        Some((Tone::Unknown, "The shell exited.".to_string()))
    );
    pane.receive(TerminalEvent::Failed("no shell".into()));
    assert_eq!(pane.status(), Some((Tone::Critical, "no shell".to_string())));
    // A fresh shell starts on a fresh screen.
    pane.start();
    assert!(pane.status().is_none());
    assert!(text(&pane.rows()[0]).trim().is_empty());
}

/// Magenta stands for work under way, which is drawn in the primary colour, so
/// it runs together with blue.
#[test]
fn colours_that_are_drawn_alike_run_together() {
    let blue = GridCell {
        fg: VtColor::Named(NamedColor::Blue),
        ..cell('a', false)
    };
    let magenta = GridCell {
        fg: VtColor::Indexed(5),
        ..cell('b', false)
    };
    assert_eq!(row_runs(&vec![blue, magenta], None).len(), 1);
    assert_eq!(Tone::Progressing.swatch(), Swatch::Primary);
    assert_eq!(Tone::Critical.swatch(), Swatch::Danger);
}

/// Output is a protocol, not text: colours, line breaks and cursor moves end up
/// in the grid.
#[test]
fn output_is_parsed_into_the_grid() {
    let mut pane = TerminalView::new();
    pane.feed(&b"plain \x1b[1;31mred\x1b[0m\r\nnext\x1b[38;2;1;2;3mx".to_vec());
    let drawn = pane.rows();
    assert_eq!(drawn.len(), ROWS);
    assert_eq!(text(&drawn[0]).chars().count(), COLUMNS);
    assert!(text(&drawn[0]).starts_with("plain red "));
    let red = &drawn[0][1];
    assert_eq!(red.text, "red");
    assert_eq!(red.look.fg, Colour::Theme(Swatch::Danger));
    assert!(red.look.bold);
    assert!(text(&drawn[1]).starts_with("nextx "));
    assert_eq!(
        drawn[1][1].look.fg,
        Colour::Exact(Rgb { r: 1, g: 2, b: 3 })
    );
    let cursor = drawn[1].iter().find(|run| run.look.cursor).expect("a cursor");
    assert_eq!(cursor.text, " ");

    // Bytes can be split anywhere.
    let mut split = TerminalView::new();
    for byte in b"plain \x1b[1;31mred\x1b[0m\r\nnext\x1b[38;2;1;2;3mx" {
        split.feed(&vec![*byte]);
    }
    assert_eq!(split.rows(), drawn);
}

/// The second half of a wide character is drawn with the first.
#[test]
fn a_wide_character_is_drawn_once() {
    let mut pane = TerminalView::new();
    pane.feed(&"a\u{6f22}b".as_bytes().to_vec());
    assert!(text(&pane.rows()[0]).starts_with("a\u{6f22}b "));
    assert_eq!(text(&pane.rows()[0]).chars().count(), COLUMNS - 1);
}

#[test]
fn an_inverse_cell_swaps_its_colours() {
    let mut pane = TerminalView::new();
    pane.feed(&b"\x1b[7mx".to_vec());
    let look = pane.rows()[0][0].look;
    assert_eq!(look.fg, Colour::Theme(Swatch::Background));
    assert_eq!(look.bg, Some(Colour::Theme(Swatch::Foreground)));
}

#[test]
fn a_program_switches_the_cursor_keys() {
    let mut pane = TerminalView::new();
    assert_eq!(pane.key(&keystroke("up")), Some(b"\x1b[A".to_vec()));
    pane.feed(&b"\x1b[?1h".to_vec());
    assert_eq!(pane.key(&keystroke("up")), Some(b"\x1bOA".to_vec()));
    pane.feed(&b"\x1b[?1l".to_vec());
    assert_eq!(pane.key(&keystroke("up")), Some(b"\x1b[A".to_vec()));
}

#[test]
fn a_pane_fits_its_screen() {
    let mut pane = TerminalView::new();
    assert_eq!(pane.size(), (COLUMNS, ROWS));
    assert_eq!(pane.fit(COLUMNS, ROWS), None);
    assert_eq!(pane.fit(40, 10), Some((40, 10)));
    assert_eq!(pane.size(), (40, 10));
    assert_eq!(pane.fit(40, 10), None);
    pane.feed(&b"x".to_vec());
    assert_eq!(pane.size(), (40, 10));
    assert_eq!(pane.rows().len(), 10);
    assert_eq!(pane.fit(0, 0), Some((2, 2)));
    assert_eq!(pane.rows().len(), 2);
}

#[test]
fn a_screen_scrolls_and_keeps_its_size() {
    let mut screen = screen::open(4, 2);
    screen::feed(&mut screen, &b"a\r\nb\r\nc".to_vec());
    let shown: Vec<char> = screen::cells(&screen).iter().map(|row| row[0].c).collect();
    assert_eq!(shown, ['b', 'c']);
    assert_eq!(screen::cursor(&screen), Some((1, 1)));
    assert!(!screen::application_cursors(&screen));
    screen::resize(&mut screen, 5, 3);
    assert_eq!(screen::size(&screen), (5, 3));
    let shown: Vec<char> = screen::cells(&screen).iter().map(|row| row[0].c).collect();
    assert_eq!(shown, ['a', 'b', 'c']);
}

#[test]
fn the_cursor_is_shown_only_where_the_view_is_not_scrolled() {
    assert_eq!(shown_cursor(0, 3, 7), Some((3, 7)));
    assert_eq!(shown_cursor(1, 3, 7), None);
    assert_eq!(shown_cursor(0, -1, 7), None);
}
