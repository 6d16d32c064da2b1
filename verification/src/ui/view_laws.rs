//! What is promised of tabs and of the terminal pane.
use vstd::prelude::*;

use crate::base::decimal::decimal;
use crate::k8s::config::EntryView;
use crate::k8s::session::HealthView;
use crate::ui::app::{
    activated, another, body_of, closed, current_entry, entry_for, finished, gone_to, namespace_of,
    needed, needed_at, opened, opening_cluster, retargeted, status_of, stepped, tab_numbered,
    tab_on, well_formed, AppView, TabStateView, TabView,
};
use crate::ui::screen::{
    cell_of, cells_of, colour_of, cursor_shown, line_after, numbered, offset_after, size_after,
    visible, RawCell, RawColor, Step,
};
use crate::ui::terminal::{
    at_least_two, cursor_in, drawn, encoded, look_of, palette_entry, rows_of, runs_of, swatch_of,
    Colour, GridCell, NamedColor, Rgb, VtColor,
};
use crate::ui::theme::{Swatch, Tone};

verus! {

proof fn entry_found(entries: Seq<EntryView>, id: Seq<char>, from: int, k: int)
    requires
        0 <= from <= k <= entries.len(),
        k < entries.len() ==> entries[k].id == id,
        forall|i: int| from <= i < k ==> (#[trigger] entries[i]).id != id,
    ensures
        entry_for(entries, id, from) == (if k < entries.len() {
            Some(entries[k])
        } else {
            None
        }),
    decreases k - from,
{
    if from < k {
        entry_found(entries, id, from + 1, k);
    }
}

proof fn current_found(entries: Seq<EntryView>, from: int, k: int)
    requires
        0 <= from <= k <= entries.len(),
        k < entries.len() ==> entries[k].is_current,
        forall|i: int| from <= i < k ==> !(#[trigger] entries[i]).is_current,
    ensures
        current_entry(entries, from) == (if k < entries.len() {
            Some(entries[k])
        } else {
            None
        }),
    decreases k - from,
{
    if from < k {
        current_found(entries, from + 1, k);
    }
}

/// The first cluster is that of the current context, and where none is current
/// that of the first. A tab starts in the namespace of its cluster's context.
pub proof fn the_current_context_opens_first(
    a: AppView,
    entries: Seq<EntryView>,
    k: int,
    at: int,
)
    requires
        a.contexts == Ok::<Seq<EntryView>, Seq<char>>(entries),
        0 <= k <= entries.len(),
        k < entries.len() ==> entries[k].is_current,
        forall|i: int| 0 <= i < k ==> !(#[trigger] entries[i]).is_current,
        0 <= at < entries.len(),
        forall|i: int| 0 <= i < at ==> (#[trigger] entries[i]).id != entries[at].id,
    ensures
        opening_cluster(a) == Some(
            if k < entries.len() {
                entries[k].id
            } else {
                entries[0].id
            },
        ),
        namespace_of(a, entries[at].id) == entries[at].namespace,
{
    current_found(entries, 0, k);
    entry_found(entries, entries[at].id, 0, at);
}

/// A new tab comes last, in front and on its cluster, and no other one changes
/// but that it is no longer in front. It is connected at once where there is a
/// session, and else a connection is asked for: this tab's, to this cluster.
pub proof fn a_new_tab_comes_in_front(a: AppView, cluster: Seq<char>, other: int)
    requires
        well_formed(a),
        a.next_tab < u64::MAX,
    ensures
        ({
            let b = opened(a, cluster);
            let at = a.tabs.len() as int;
            let tab = b.tabs[at];
            &&& b.tabs.len() == at + 1
            &&& b.active == at
            &&& tab.id == a.next_tab
            &&& tab.cluster == cluster
            &&& tab.namespace == namespace_of(a, cluster)
            &&& b.next_tab == a.next_tab + 1
            &&& b.sessions == a.sessions
            &&& a.sessions.contains(cluster) ==> tab.state == (TabStateView::Connected {
                visible: true,
            }) && needed(b, at) is None
            &&& !a.sessions.contains(cluster) ==> tab.state is Connecting && needed(b, at) == Some(
                (a.next_tab, cluster),
            )
            &&& 0 <= other < at ==> {
                &&& b.tabs[other].id == a.tabs[other].id
                &&& b.tabs[other].cluster == a.tabs[other].cluster
                &&& b.tabs[other].namespace == a.tabs[other].namespace
                &&& a.tabs[other].state is Connected ==> b.tabs[other].state == (
                TabStateView::Connected { visible: false })
                &&& !(a.tabs[other].state is Connected) ==> b.tabs[other].state
                    == a.tabs[other].state
            }
        }),
{
}

/// Going to a tab puts it in front: it is told that it is seen and the other that
/// it is not, and nothing else changes.
pub proof fn the_tab_in_front_is_the_one_seen(a: AppView, index: int, other: int)
    requires
        well_formed(a),
        0 <= index < a.tabs.len(),
        0 <= other < a.tabs.len(),
    ensures
        ({
            let b = activated(a, index);
            &&& b.active == index
            &&& b.tabs.len() == a.tabs.len()
            &&& b.sessions == a.sessions
            &&& b.tabs[other].id == a.tabs[other].id
            &&& b.tabs[other].cluster == a.tabs[other].cluster
            &&& a.tabs[other].state is Connected ==> b.tabs[other].state == (
            TabStateView::Connected { visible: other == index })
            &&& !(a.tabs[other].state is Connected) ==> b.tabs[other] == a.tabs[other]
        }),
{
}

/// Closing a tab takes that one away and leaves the others in their order, with
/// every session. The next one comes in front where the closed one was, and the
/// last one where there is no next.
pub proof fn closing_takes_one_tab(a: AppView, index: int, i: int)
    requires
        well_formed(a),
        0 <= index < a.tabs.len(),
    ensures
        ({
            let b = closed(a, index);
            &&& b.tabs.len() == a.tabs.len() - 1
            &&& b.sessions == a.sessions
            &&& b.next_tab == a.next_tab
            &&& 0 <= i < index ==> b.tabs[i].id == a.tabs[i].id && b.tabs[i].cluster
                == a.tabs[i].cluster
            &&& index <= i < b.tabs.len() ==> b.tabs[i].id == a.tabs[i + 1].id
                && b.tabs[i].cluster == a.tabs[i + 1].cluster
            &&& a.active == index && index < b.tabs.len() ==> b.active == index
            &&& a.active == index && index == b.tabs.len() && index > 0 ==> b.active == index - 1
            &&& a.active < index ==> b.active == a.active
            &&& a.active > index ==> b.active == a.active - 1
        }),
{
}

proof fn tab_found(tabs: Seq<TabView>, cluster: Seq<char>, from: int, k: int)
    requires
        0 <= from <= k <= tabs.len(),
        k < tabs.len() ==> tabs[k].cluster == cluster,
        forall|i: int| from <= i < k ==> (#[trigger] tabs[i]).cluster != cluster,
    ensures
        tab_on(tabs, cluster, from) == k,
    decreases k - from,
{
    if from < k {
        tab_found(tabs, cluster, from + 1, k);
    }
}

proof fn number_found(tabs: Seq<TabView>, id: u64, from: int, k: int)
    requires
        0 <= from <= k <= tabs.len(),
        k < tabs.len() ==> tabs[k].id == id,
        forall|i: int| from <= i < k ==> (#[trigger] tabs[i]).id != id,
    ensures
        tab_numbered(tabs, id, from) == k,
    decreases k - from,
{
    if from < k {
        number_found(tabs, id, from + 1, k);
    }
}

/// Going to a cluster goes to the first tab on it, and opens one only where there
/// is none.
pub proof fn going_to_a_cluster_reuses_its_tab(a: AppView, cluster: Seq<char>, k: int)
    requires
        well_formed(a),
        a.next_tab < u64::MAX,
        0 <= k <= a.tabs.len(),
        k < a.tabs.len() ==> a.tabs[k].cluster == cluster,
        forall|i: int| 0 <= i < k ==> (#[trigger] a.tabs[i]).cluster != cluster,
    ensures
        k < a.tabs.len() ==> gone_to(a, cluster) == activated(a, k) && needed_at(a, cluster)
            is None,
        k == a.tabs.len() ==> gone_to(a, cluster) == opened(a, cluster) && (needed_at(a, cluster)
            is None <==> a.sessions.contains(cluster)),
        gone_to(a, cluster).active == k,
        gone_to(a, cluster).tabs[k].cluster == cluster,
{
    tab_found(a.tabs, cluster, 0, k);
}

/// Another tab is one on the cluster in front. Turning a tab to another cluster
/// keeps the tab: its number and its place, and every other one.
pub proof fn a_tab_is_turned_in_its_place(a: AppView, cluster: Seq<char>, other: int)
    requires
        well_formed(a),
        a.tabs.len() > 0,
        a.next_tab < u64::MAX,
        0 <= other < a.tabs.len(),
    ensures
        another(a) == opened(a, a.tabs[a.active].cluster),
        ({
            let b = retargeted(a, cluster);
            &&& b.tabs.len() == a.tabs.len()
            &&& b.active == a.active
            &&& b.tabs[a.active].cluster == cluster
            &&& b.tabs[a.active].id == a.tabs[a.active].id
            &&& other != a.active ==> b.tabs[other] == a.tabs[other]
            &&& a.tabs[a.active].cluster == cluster ==> b == a
            &&& a.tabs[a.active].cluster != cluster ==> b.tabs[a.active].namespace == namespace_of(
                a,
                cluster,
            )
            &&& a.tabs[a.active].cluster != cluster && a.sessions.contains(cluster)
                ==> b.tabs[a.active].state == (TabStateView::Connected { visible: true })
            &&& a.tabs[a.active].cluster != cluster && !a.sessions.contains(cluster)
                ==> b.tabs[a.active].state is Connecting
        }),
{
}

/// A connection that succeeds makes its tab connected and leaves the session to
/// the others; one that fails says why in its tab. A tab that was closed or turned
/// elsewhere meanwhile is not touched, and no other one is.
pub proof fn a_connection_reaches_its_tab(
    a: AppView,
    id: u64,
    cluster: Seq<char>,
    error: Seq<char>,
    k: int,
    other: int,
)
    requires
        0 <= k <= a.tabs.len(),
        k < a.tabs.len() ==> a.tabs[k].id == id,
        forall|i: int| 0 <= i < k ==> (#[trigger] a.tabs[i]).id != id,
    ensures
        ({
            let good = finished(a, id, cluster, Ok(()));
            let bad = finished(a, id, cluster, Err(error));
            &&& k == a.tabs.len() ==> good == a && bad == a
            &&& k < a.tabs.len() && a.tabs[k].cluster != cluster ==> good == a && bad == a
            &&& k < a.tabs.len() && a.tabs[k].cluster == cluster ==> {
                &&& good.sessions == a.sessions.insert(cluster)
                &&& good.tabs[k].state == (TabStateView::Connected { visible: a.active == k })
                &&& bad.sessions == a.sessions
                &&& bad.tabs[k].state == TabStateView::Failed(error)
                &&& good.tabs[k].cluster == cluster && bad.tabs[k].cluster == cluster
            }
            &&& good.active == a.active && bad.active == a.active
            &&& good.tabs.len() == a.tabs.len() && bad.tabs.len() == a.tabs.len()
            &&& 0 <= other < a.tabs.len() && other != k ==> good.tabs[other] == a.tabs[other]
                && bad.tabs[other] == a.tabs[other]
        }),
{
    number_found(a.tabs, id, 0, k);
}

/// Stepping goes to the next tab, and from the last to the first; back it goes the
/// other way. A single tab stays.
pub proof fn stepping_goes_round(a: AppView)
    requires
        well_formed(a),
    ensures
        a.tabs.len() < 2 ==> stepped(a, true) == a && stepped(a, false) == a,
        a.tabs.len() >= 2 && a.active < a.tabs.len() - 1 ==> stepped(a, true).active == a.active
            + 1,
        a.tabs.len() >= 2 && a.active == a.tabs.len() - 1 ==> stepped(a, true).active == 0,
        a.tabs.len() >= 2 && a.active > 0 ==> stepped(a, false).active == a.active - 1,
        a.tabs.len() >= 2 && a.active == 0 ==> stepped(a, false).active == a.tabs.len() - 1,
{
}

/// What stands in place of a view says what is going on: what is being connected
/// to, what could not be and why, or that there is nothing to show and what to do.
pub proof fn the_window_says_what_is_going_on(a: AppView)
    requires
        well_formed(a),
    ensures
        a.tabs.len() > 0 ==> match a.tabs[a.active].state {
            TabStateView::Connected { .. } => body_of(a) is None,
            TabStateView::Connecting => body_of(a) matches Some((tone, title, _)) && tone
                == Tone::Progressing && title == "Connecting to "@ + a.tabs[a.active].cluster,
            TabStateView::Failed(error) => body_of(a) == Some(
                (Tone::Critical, "Could not connect to "@ + a.tabs[a.active].cluster, error),
            ),
        },
        a.tabs.len() == 0 ==> match a.contexts {
            Err(error) => body_of(a) == Some(
                (Tone::Critical, "Could not read kubeconfig"@, error),
            ),
            Ok(entries) => body_of(a) matches Some((tone, title, _)) && if entries.len() == 0 {
                tone == Tone::Warning && title == "Kubeconfig has no contexts"@
            } else {
                tone == Tone::Unknown && title == "No tab open"@
            },
        },
{
}

/// The status line of a connected tab says where it is, how the session does and
/// why, and counts what runs.
pub proof fn the_status_line_says_how_it_does(
    a: AppView,
    server: Seq<char>,
    reason: Seq<char>,
    watches: nat,
)
    requires
        well_formed(a),
        a.tabs.len() == 1,
        a.sessions.len() == 1,
        a.tabs[0].state is Connected,
    ensures
        status_of(a, server, HealthView::Connected, watches, 0) == (
            Tone::Healthy,
            server + " · "@ + "Connected"@ + (" · "@ + decimal(watches) + " watches"@),
        ),
        status_of(a, server, HealthView::Degraded { reason }, watches, 0) == (
            Tone::Warning,
            server + " · "@ + ("Degraded"@ + " — "@ + reason) + (" · "@ + decimal(watches)
                + " watches"@),
        ),
        status_of(a, server, HealthView::Connecting, watches, 0).0 == Tone::Progressing,
        status_of(a, server, HealthView::Connected, watches, 3) == (
            Tone::Healthy,
            server + " · "@ + "Connected"@ + (" · "@ + decimal(watches) + " watches"@) + (" · "@
                + decimal(3) + " forwarding"@),
        ),
{
    let line = server + " · "@ + "Connected"@ + (" · "@ + decimal(watches) + " watches"@);
    let none = Seq::<char>::empty();
    assert(line + none + none + none =~= line);
    let tail = " · "@ + decimal(3) + " forwarding"@;
    assert(line + none + none + tail =~= line + tail);
    let worse = server + " · "@ + ("Degraded"@ + " — "@ + reason) + (" · "@ + decimal(watches)
        + " watches"@);
    assert(worse + none + none + none =~= worse);
}

/// Whether a key sends these bytes, pressed alone.
pub open spec fn sends(key: Seq<char>, application: bool, bytes: Seq<u8>) -> bool {
    encoded(key, None, false, false, application) == Some(bytes)
}

/// Named keys send what a terminal sends for them. The cursor keys send one of two
/// codes, by what the program asked for.
pub proof fn named_keys_send_their_codes(application: bool)
    ensures
        ({
            let middle: u8 = if application {
                0x4f
            } else {
                0x5b
            };
            &&& sends("enter"@, application, seq![0x0du8])
            &&& sends("tab"@, application, seq![0x09u8])
            &&& sends("backspace"@, application, seq![0x7fu8])
            &&& sends("escape"@, application, seq![0x1bu8])
            &&& sends("space"@, application, seq![0x20u8])
            &&& sends("delete"@, application, seq![0x1bu8, 0x5bu8, 0x33u8, 0x7eu8])
            &&& sends("pageup"@, application, seq![0x1bu8, 0x5bu8, 0x35u8, 0x7eu8])
            &&& sends("pagedown"@, application, seq![0x1bu8, 0x5bu8, 0x36u8, 0x7eu8])
            &&& sends("up"@, application, seq![0x1bu8, middle, 0x41u8])
            &&& sends("down"@, application, seq![0x1bu8, middle, 0x42u8])
            &&& sends("right"@, application, seq![0x1bu8, middle, 0x43u8])
            &&& sends("left"@, application, seq![0x1bu8, middle, 0x44u8])
            &&& sends("home"@, application, seq![0x1bu8, middle, 0x48u8])
            &&& sends("end"@, application, seq![0x1bu8, middle, 0x46u8])
        }),
{
    reveal_strlit("enter");
    reveal_strlit("tab");
    reveal_strlit("backspace");
    reveal_strlit("escape");
    reveal_strlit("space");
    reveal_strlit("delete");
    reveal_strlit("pageup");
    reveal_strlit("pagedown");
    reveal_strlit("up");
    reveal_strlit("down");
    reveal_strlit("right");
    reveal_strlit("left");
    reveal_strlit("home");
    reveal_strlit("end");
    assert("enter"@.len() == 5 && "tab"@.len() == 3 && "backspace"@.len() == 9 && "escape"@.len()
        == 6 && "space"@.len() == 5 && "delete"@.len() == 6 && "pageup"@.len() == 6
        && "pagedown"@.len() == 8 && "up"@.len() == 2 && "down"@.len() == 4 && "right"@.len() == 5
        && "left"@.len() == 4 && "home"@.len() == 4 && "end"@.len() == 3);
    assert("enter"@[0] == 'e' && "space"@[0] == 's' && "right"@[0] == 'r');
    assert("tab"@[0] == 't' && "end"@[0] == 'e');
    assert("escape"@[0] == 'e' && "delete"@[0] == 'd' && "pageup"@[0] == 'p');
    assert("down"@[0] == 'd' && "left"@[0] == 'l' && "home"@[0] == 'h');
}

/// A letter with control sends its control code, counted from one, and text is
/// sent as it is typed, behind an escape where alt is held.
pub proof fn typed_text_is_sent(c: char, text: Seq<char>, application: bool)
    requires
        'a' <= c <= 'z',
    ensures
        encoded(seq![c], None, true, false, application) matches Some(bytes) && bytes.len() == 1
            && bytes[0] as int == c as int - 'a' as int + 1,
        encoded(seq![c], Some(text), false, false, application) == Some(
            vstd::utf8::encode_utf8(text),
        ),
        encoded(seq![c], Some(text), false, true, application) == Some(
            seq![0x1bu8] + vstd::utf8::encode_utf8(text),
        ),
        encoded(seq![c], None, false, false, application) == Some(
            vstd::utf8::encode_utf8(seq![c]),
        ),
{
    let key = seq![c];
    named_keys_send_their_codes(application);
    reveal_strlit("enter");
    reveal_strlit("tab");
    reveal_strlit("backspace");
    reveal_strlit("escape");
    reveal_strlit("space");
    reveal_strlit("delete");
    reveal_strlit("pageup");
    reveal_strlit("pagedown");
    reveal_strlit("up");
    reveal_strlit("down");
    reveal_strlit("right");
    reveal_strlit("left");
    reveal_strlit("home");
    reveal_strlit("end");
    assert("enter"@.len() == 5 && "tab"@.len() == 3 && "backspace"@.len() == 9 && "escape"@.len()
        == 6 && "space"@.len() == 5 && "delete"@.len() == 6 && "pageup"@.len() == 6
        && "pagedown"@.len() == 8 && "up"@.len() == 2 && "down"@.len() == 4 && "right"@.len() == 5
        && "left"@.len() == 4 && "home"@.len() == 4 && "end"@.len() == 3);
    assert(key.len() == 1);
}

/// Colours of the palette beyond the theme's: a cube of six steps a side, and then
/// a ramp of greys. A colour that is asked for exactly is drawn exactly.
pub proof fn the_palette_is_a_cube_and_a_ramp(
    r: int,
    g: int,
    b: int,
    level: int,
    exact: Rgb,
    background: bool,
)
    requires
        0 <= r < 6,
        0 <= g < 6,
        0 <= b < 6,
        0 <= level < 24,
    ensures
        ({
            let step = |n: int|
                if n == 0 {
                    0int
                } else {
                    55 + 40 * n
                };
            let cube = palette_entry((16 + 36 * r + 6 * g + b) as u8);
            let grey = palette_entry((232 + level) as u8);
            &&& cube.r == step(r) && cube.g == step(g) && cube.b == step(b)
            &&& grey.r == 8 + 10 * level && grey.g == grey.r && grey.b == grey.r
            &&& drawn(VtColor::Spec(exact), background) == Colour::Exact(exact)
            &&& drawn(VtColor::Indexed((16 + 36 * r + 6 * g + b) as u8), background)
                == Colour::Exact(cube)
            &&& drawn(VtColor::Indexed((232 + level) as u8), background) == Colour::Exact(grey)
        }),
{
}

/// The sixteen colours are those of the theme, bright ones as their plain
/// neighbours.
pub proof fn named_colours_are_those_of_the_theme(background: bool)
    ensures
        drawn(VtColor::Indexed(1), background) == Colour::Theme(Swatch::Danger),
        drawn(VtColor::Indexed(2), background) == Colour::Theme(Swatch::Success),
        drawn(VtColor::Indexed(3), background) == Colour::Theme(Swatch::Warning),
        drawn(VtColor::Indexed(4), background) == Colour::Theme(Swatch::Primary),
        drawn(VtColor::Indexed(5), background) == Colour::Theme(Swatch::Primary),
        drawn(VtColor::Indexed(6), background) == Colour::Theme(Swatch::Info),
        drawn(VtColor::Indexed(9), background) == Colour::Theme(Swatch::Danger),
        drawn(VtColor::Indexed(10), background) == Colour::Theme(Swatch::Success),
        drawn(VtColor::Indexed(11), background) == Colour::Theme(Swatch::Warning),
        drawn(VtColor::Indexed(12), background) == Colour::Theme(Swatch::Primary),
        drawn(VtColor::Indexed(13), background) == Colour::Theme(Swatch::Primary),
        drawn(VtColor::Indexed(14), background) == Colour::Theme(Swatch::Info),
        drawn(VtColor::Indexed(0), true) == Colour::Theme(Swatch::Muted),
        drawn(VtColor::Indexed(0), false) == Colour::Theme(Swatch::MutedForeground),
        drawn(VtColor::Indexed(8), false) == Colour::Theme(Swatch::MutedForeground),
        drawn(VtColor::Indexed(7), background) == Colour::Theme(Swatch::Foreground),
        drawn(VtColor::Indexed(15), background) == Colour::Theme(Swatch::Foreground),
        drawn(VtColor::Named(NamedColor::Foreground), background) == Colour::Theme(
            Swatch::Foreground,
        ),
        drawn(VtColor::Named(NamedColor::Background), background) == Colour::Theme(
            Swatch::Background,
        ),
        drawn(VtColor::Named(NamedColor::Red), background) == Colour::Theme(Swatch::Danger),
        swatch_of(NamedColor::Green, background) == Swatch::Success,
{
}

/// A cell is drawn in its colours, and in each other's where it is inverse. The
/// background of the pane is not drawn.
pub proof fn an_inverse_cell_swaps_its_colours(cell: GridCell, cursor: bool)
    ensures
        ({
            let look = look_of(cell, cursor);
            &&& look.bold == cell.bold && look.cursor == cursor
            &&& !cell.inverse ==> look.fg == drawn(cell.fg, false)
            &&& !cell.inverse && cell.bg == VtColor::Named(NamedColor::Background) ==> look.bg
                is None
            &&& !cell.inverse && cell.bg != VtColor::Named(NamedColor::Background) ==> look.bg
                == Some(drawn(cell.bg, true))
            &&& cell.inverse ==> look.fg == drawn(cell.bg, true) && look.bg == Some(
                drawn(cell.fg, false),
            )
        }),
{
}

/// Every character is drawn in the look of its own cell.
pub proof fn a_character_is_drawn_in_its_look(
    cells: Seq<GridCell>,
    cell: GridCell,
    cursor: Option<usize>,
)
    requires
        cells.len() < usize::MAX,
    ensures
        ({
            let before = runs_of(cells, cursor);
            let after = runs_of(cells.push(cell), cursor);
            let look = look_of(cell, cursor == Some(cells.len() as usize));
            &&& cell.spacer ==> after == before
            &&& !cell.spacer ==> after.len() > 0 && after.last().look == look && after.last().text
                .len() > 0 && after.last().text.last() == cell.c
            &&& !cell.spacer && (before.len() == 0 || before.last().look != look) ==> after.len()
                == before.len() + 1
            &&& !cell.spacer && before.len() > 0 && before.last().look == look ==> after.len()
                == before.len()
        }),
{
    assert(cells.push(cell).drop_last() =~= cells);
}

/// The cursor is drawn in its own row and nowhere while the view is scrolled up.
pub proof fn the_cursor_is_drawn_in_its_row(
    grid: Seq<Seq<GridCell>>,
    line: usize,
    column: usize,
    row: int,
    offset: usize,
    at: i32,
)
    requires
        0 <= row < grid.len(),
    ensures
        rows_of(grid, Some((line, column))).len() == grid.len(),
        rows_of(grid, Some((line, column)))[row] == runs_of(
            grid[row],
            if row == line {
                Some(column)
            } else {
                None
            },
        ),
        cursor_in(None, row) is None,
        offset > 0 ==> cursor_shown(offset, at, column) is None,
        at < 0 ==> cursor_shown(offset, at, column) is None,
        offset == 0 && at >= 0 ==> cursor_shown(offset, at, column) == Some((at as usize, column)),
{
}

/// The pane shows as many rows as it is high, from as far up as it is scrolled.
pub proof fn the_pane_shows_what_is_in_view(steps: Seq<Step>, row: int, columns: usize, rows: usize)
    ensures
        visible(steps).len() == size_after(steps).1,
        0 <= row < size_after(steps).1 ==> visible(steps)[row] == cells_of(
            line_after(steps, row - offset_after(steps)),
        ),
        size_after(steps.push(Step::Resize(columns, rows))) == (columns, rows),
        columns >= 2 ==> at_least_two(columns) == columns,
        columns < 2 ==> at_least_two(columns) == 2,
{
    assert(steps.push(Step::Resize(columns, rows)).last() == Step::Resize(columns, rows));
}

/// A cell of the emulator is taken as it is.
pub proof fn a_cell_is_taken_as_it_is(raw: RawCell, r: u8, g: u8, b: u8, index: u8)
    ensures
        cell_of(raw).c == raw.c,
        cell_of(raw).fg == colour_of(raw.fg),
        cell_of(raw).bg == colour_of(raw.bg),
        cell_of(raw).bold == raw.bold,
        cell_of(raw).inverse == raw.inverse,
        cell_of(raw).spacer == raw.spacer,
        colour_of(RawColor::Spec(r, g, b)) == VtColor::Spec(Rgb { r, g, b }),
        colour_of(RawColor::Indexed(index)) == VtColor::Indexed(index),
        numbered(0) == NamedColor::Black,
        numbered(1) == NamedColor::Red,
        numbered(2) == NamedColor::Green,
        numbered(3) == NamedColor::Yellow,
        numbered(4) == NamedColor::Blue,
        numbered(5) == NamedColor::Magenta,
        numbered(6) == NamedColor::Cyan,
        numbered(7) == NamedColor::White,
        numbered(8) == NamedColor::BrightBlack,
        numbered(15) == NamedColor::BrightWhite,
        numbered(256) == NamedColor::Foreground,
        numbered(257) == NamedColor::Background,
        numbered(258) == NamedColor::Cursor,
{
}

/// Control with a bracket, a backslash or a space sends its control code, and with
/// anything else nothing.
pub proof fn other_control_keys_send_their_codes(c: char, application: bool)
    ensures
        encoded(seq!['['], None, true, false, application) == Some(seq![0x1bu8]),
        encoded(seq!['\\'], None, true, false, application) == Some(seq![0x1cu8]),
        encoded(seq![']'], None, true, false, application) == Some(seq![0x1du8]),
        encoded(seq![' '], None, true, false, application) == Some(seq![0u8]),
        encoded(seq!['@'], None, true, false, application) == Some(seq![0u8]),
        !('a' <= c <= 'z') && c != '[' && c != '\\' && c != ']' && c != ' ' && c != '@' ==> encoded(
            seq![c],
            None,
            true,
            false,
            application,
        ) is None,
{
}

/// The status line says what it counts: watches always, tabs and clusters where
/// there is more than one, forwards where there is any. A tab that is not connected
/// says so.
pub proof fn the_status_line_counts(a: AppView, server: Seq<char>, watches: nat, forwards: nat)
    requires
        well_formed(a),
    ensures
        a.tabs.len() == 0 ==> status_of(a, server, HealthView::Connected, watches, forwards) == (
            Tone::Unknown,
            "no tab open"@,
        ),
        a.tabs.len() > 0 && a.tabs[a.active].state is Connecting ==> status_of(
            a,
            server,
            HealthView::Connected,
            watches,
            forwards,
        ) == (Tone::Progressing, "connecting"@),
        a.tabs.len() > 0 && a.tabs[a.active].state is Failed ==> status_of(
            a,
            server,
            HealthView::Connected,
            watches,
            forwards,
        ) == (Tone::Critical, "disconnected"@),
        a.tabs.len() > 0 && a.tabs[a.active].state is Connected ==> {
            let nothing = Seq::<char>::empty();
            let line = server + " · "@ + "Connecting"@ + (" · "@ + decimal(watches) + " watches"@)
                + (if a.tabs.len() > 1 {
                " · "@ + decimal(a.tabs.len()) + " tabs"@
            } else {
                nothing
            }) + (if a.sessions.len() > 1 {
                " · "@ + decimal(a.sessions.len()) + " clusters"@
            } else {
                nothing
            }) + (if forwards > 0 {
                " · "@ + decimal(forwards) + " forwarding"@
            } else {
                nothing
            });
            status_of(a, server, HealthView::Connecting, watches, forwards) == (
                Tone::Progressing,
                line,
            )
        },
{
}

} // verus!
