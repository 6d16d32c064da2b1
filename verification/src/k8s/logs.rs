//! Following a pod's logs.
//!
//! The stream is unbounded: a pod that logs a megabyte a second will fill any
//! buffer given long enough, so the buffer has a ceiling. The ceiling is a ring:
//! oldest lines go first, because for a log the recent end is the one being
//! read. How many were dropped is kept, so that the pane can say so.
use std::collections::VecDeque;

use vstd::prelude::*;
use vstd::string::*;

use crate::base::text::{byte_length, bytes, each, held, joined};

verus! {

/// The most lines kept. Beyond this, reading is scrolling, not reading.
pub const MAX_LINES: usize = 50_000;

/// And a byte ceiling, because fifty thousand lines of JSON is not the same
/// amount of memory as fifty thousand lines of `INFO ok`.
pub const MAX_BYTES: usize = 10 * 1024 * 1024;

/// How long lines accumulate before being sent, in milliseconds.
pub const BATCH_WINDOW: u64 = 16;

/// Flush early once this many lines are waiting.
pub const BATCH_LIMIT: usize = 2_000;

/// What to follow.
#[derive(Debug, PartialEq, Eq)]
pub struct LogOptions {
    /// `None` means the pod's only container, or its default one.
    pub container: Option<String>,
    /// The logs of the previous instance, which is the only place the reason a
    /// container is crash-looping is written down.
    pub previous: bool,
    pub timestamps: bool,
}

impl Default for LogOptions {
    fn default() -> (r: LogOptions)
        ensures
            r.container is None,
            !r.previous,
            !r.timestamps,
    {
        LogOptions { container: None, previous: false, timestamps: false }
    }
}

/// What a request for logs asks for.
#[derive(Debug, PartialEq, Eq)]
pub struct LogParams {
    pub container: Option<String>,
    pub follow: bool,
    pub previous: bool,
    pub timestamps: bool,
    pub tail_lines: Option<i64>,
}

impl LogOptions {
    /// The request for what is to be followed. The previous instance has ended,
    /// so there is nothing to follow; the tail is enough to see how something
    /// got where it is, without pulling a week of history.
    pub fn to_params(&self) -> (r: LogParams)
        ensures
            held(r.container) == held(self.container),
            r.follow == !self.previous,
            r.previous == self.previous,
            r.timestamps == self.timestamps,
            r.tail_lines == Some(2000i64),
    {
        LogParams {
            container: self.container.clone(),
            follow: !self.previous,
            previous: self.previous,
            timestamps: self.timestamps,
            tail_lines: Some(2_000),
        }
    }
}

/// What a subscriber receives.
#[derive(Debug, PartialEq, Eq)]
pub enum LogEvent {
    Lines(Vec<String>),
    /// The stream ended. A followed stream ends when the container does.
    Closed,
    Failed(String),
}

/// What a subscriber receives, as a mathematical object.
pub enum LogEventView {
    Lines(Seq<Seq<char>>),
    Closed,
    Failed(Seq<char>),
}

impl View for LogEvent {
    type V = LogEventView;

    open spec fn view(&self) -> LogEventView {
        match self {
            LogEvent::Lines(lines) => LogEventView::Lines(each(lines@)),
            LogEvent::Closed => LogEventView::Closed,
            LogEvent::Failed(error) => LogEventView::Failed(error@),
        }
    }
}

/// How many bytes some lines take.
pub open spec fn total(lines: Seq<Seq<char>>) -> nat
    decreases lines.len(),
{
    if lines.len() == 0 {
        0
    } else {
        total(lines.drop_last()) + byte_length(lines.last())
    }
}

/// Whether some lines are more than the buffer holds. A single line is kept
/// however long it is.
pub open spec fn too_much(lines: Seq<Seq<char>>) -> bool {
    lines.len() > MAX_LINES || (total(lines) > MAX_BYTES && lines.len() > 1)
}

/// The end of some lines that the buffer holds.
pub open spec fn held_lines(lines: Seq<Seq<char>>) -> Seq<Seq<char>>
    decreases lines.len(),
{
    if lines.len() > 0 && too_much(lines) {
        held_lines(lines.drop_first())
    } else {
        lines
    }
}

/// Lines held for display, as a mathematical object.
pub struct BufferView {
    pub lines: Seq<Seq<char>>,
    pub dropped: nat,
}

/// The buffer after one more line.
pub open spec fn pushed(b: BufferView, line: Seq<char>) -> BufferView {
    let all = b.lines.push(line);
    BufferView {
        lines: held_lines(all),
        dropped: (b.dropped + all.len() - held_lines(all).len()) as nat,
    }
}

/// The buffer after some more lines.
pub open spec fn extended(b: BufferView, lines: Seq<Seq<char>>) -> BufferView
    decreases lines.len(),
{
    if lines.len() == 0 {
        b
    } else {
        pushed(extended(b, lines.drop_last()), lines.last())
    }
}

/// The bytes of the first line and of the others.
proof fn total_front(lines: Seq<Seq<char>>)
    requires
        lines.len() > 0,
    ensures
        total(lines) == byte_length(lines[0]) + total(lines.drop_first()),
    decreases lines.len(),
{
    if lines.len() == 1 {
        assert(lines.drop_first() =~= Seq::empty());
        assert(lines.drop_last() =~= Seq::empty());
        reveal_with_fuel(total, 2);
    } else {
        total_front(lines.drop_last());
        assert(lines.drop_last().drop_first() =~= lines.drop_first().drop_last());
        assert(lines.drop_first().last() == lines.last());
    }
}

/// The buffer holds an end of what it was given, within its limits, and the most
/// recent line always. It is the longest such end: one line more would have been
/// too much.
pub proof fn held_lines_bounds(lines: Seq<Seq<char>>)
    ensures
        held_lines(lines).len() <= lines.len(),
        held_lines(lines) == lines.skip(lines.len() - held_lines(lines).len()),
        held_lines(lines).len() <= MAX_LINES,
        total(held_lines(lines)) <= MAX_BYTES || held_lines(lines).len() <= 1,
        lines.len() > 0 ==> held_lines(lines).len() > 0 && held_lines(lines).last() == lines.last(),
        !too_much(lines) ==> held_lines(lines) == lines,
        held_lines(lines).len() < lines.len() ==> too_much(
            lines.skip(lines.len() - held_lines(lines).len() - 1),
        ),
    decreases lines.len(),
{
    if lines.len() > 0 && too_much(lines) {
        held_lines_bounds(lines.drop_first());
        let rest = held_lines(lines.drop_first());
        assert(rest =~= lines.skip(lines.len() - rest.len()));
        assert(lines.len() > 1);
        assert(lines.drop_first().last() == lines.last());
        if rest.len() < lines.len() - 1 {
            assert(lines.drop_first().skip(lines.len() - 1 - rest.len() - 1) =~= lines.skip(
                lines.len() - rest.len() - 1,
            ));
        } else {
            assert(lines.skip(0) =~= lines);
        }
    } else {
        assert(lines.skip(0) =~= lines);
    }
}

/// What a buffer drops and what it holds is what it was given: the oldest lines
/// go first, and none is lost uncounted. The last line is always held, and
/// nothing is dropped that both limits had room for: with the last dropped line
/// there would have been too much.
pub proof fn nothing_is_lost_uncounted(lines: Seq<Seq<char>>)
    ensures
        ({
            let b = extended(BufferView { lines: Seq::empty(), dropped: 0 }, lines);
            &&& b.dropped + b.lines.len() == lines.len()
            &&& b.lines == lines.skip(b.dropped as int)
            &&& b.lines.len() <= MAX_LINES
            &&& total(b.lines) <= MAX_BYTES || b.lines.len() <= 1
            &&& lines.len() > 0 ==> b.lines.len() > 0 && b.lines.last() == lines.last()
            &&& b.dropped > 0 ==> too_much(lines.skip(b.dropped - 1))
        }),
    decreases lines.len(),
{
    let start = BufferView { lines: Seq::empty(), dropped: 0 };
    if lines.len() == 0 {
        assert(lines.skip(0) =~= Seq::empty());
    } else {
        let front = lines.drop_last();
        nothing_is_lost_uncounted(front);
        let before = extended(start, front);
        let all = before.lines.push(lines.last());
        held_lines_bounds(all);
        assert(all =~= lines.skip(before.dropped as int));
        let b = pushed(before, lines.last());
        assert(b.lines =~= lines.skip(b.dropped as int));
        if b.dropped > before.dropped {
            assert(all.skip(b.dropped - before.dropped - 1) =~= lines.skip(b.dropped - 1));
        } else if b.dropped > 0 {
            let shorter = front.skip(b.dropped - 1);
            let longer = lines.skip(b.dropped - 1);
            assert(longer.drop_last() =~= shorter);
        }
    }
}

/// Lines held for display, oldest dropped first.
pub struct LogBuffer {
    lines: VecDeque<String>,
    bytes: usize,
    dropped: usize,
}

impl View for LogBuffer {
    type V = BufferView;

    closed spec fn view(&self) -> BufferView {
        BufferView { lines: each(self.lines@), dropped: self.dropped as nat }
    }
}

impl LogBuffer {
    #[verifier::type_invariant]
    closed spec fn counted(self) -> bool {
        self.bytes == total(each(self.lines@))
    }

    pub fn new() -> (r: LogBuffer)
        ensures
            r@.lines == Seq::<Seq<char>>::empty(),
            r@.dropped == 0,
    {
        let lines: VecDeque<String> = VecDeque::new();
        assert(each(lines@) =~= Seq::empty());
        LogBuffer { lines, bytes: 0, dropped: 0 }
    }

    /// Whether lines can be appended: what is held with them, and how many lines
    /// there have been, must fit.
    pub fn has_room(&self, lines: &Vec<String>) -> (r: bool)
        ensures
            r == (total(self@.lines) + total(each(lines@)) <= usize::MAX && self@.dropped
                + self@.lines.len() + lines@.len() <= usize::MAX),
    {
        proof {
            use_type_invariant(&*self);
        }
        let ghost all = each(lines@);
        let mut left: usize = usize::MAX - self.bytes;
        let mut i: usize = 0;
        assert(all.take(0) =~= Seq::empty());
        while i < lines.len()
            invariant
                i <= lines@.len(),
                all == each(lines@),
                left + self.bytes + total(all.take(i as int)) == usize::MAX,
                self.bytes == total(self@.lines),
            decreases lines@.len() - i,
        {
            let size: usize = bytes(lines[i].as_str());
            proof {
                assert(all.take(i + 1).drop_last() =~= all.take(i as int));
                assert(all.take(i + 1).last() == lines@[i as int]@);
                total_take(all, i + 1);
            }
            if size > left {
                return false;
            }
            left = left - size;
            i += 1;
        }
        assert(all.take(i as int) =~= all);
        let held: usize = self.lines.len();
        held <= usize::MAX - self.dropped && lines.len() <= usize::MAX - self.dropped - held
    }

    /// Appends a line, and drops the oldest ones where there is too much.
    pub fn push(&mut self, line: String)
        requires
            total(old(self)@.lines) + byte_length(line@) <= usize::MAX,
            old(self)@.dropped + old(self)@.lines.len() < usize::MAX,
        ensures
            final(self)@ == pushed(old(self)@, line@),
    {
        let ghost before = self@;
        let ghost text = line@;
        let ghost all = before.lines.push(text);
        let mut taken = LogBuffer::new();
        core::mem::swap(&mut taken, self);
        proof {
            use_type_invariant(&taken);
        }
        let mut lines: VecDeque<String> = taken.lines;
        let mut held_bytes: usize = taken.bytes + bytes(line.as_str());
        let mut dropped: usize = taken.dropped;
        let ghost earlier = lines@;
        lines.push_back(line);
        proof {
            assert(each(lines@) =~= all);
            assert(all.drop_last() =~= before.lines);
            held_lines_bounds(all);
        }
        while lines.len() > MAX_LINES || (held_bytes > MAX_BYTES && lines.len() > 1)
            invariant
                held_bytes == total(each(lines@)),
                held_lines(each(lines@)) == held_lines(all),
                dropped == before.dropped + all.len() - lines@.len(),
                lines@.len() <= all.len(),
                before.dropped + all.len() <= usize::MAX,
            decreases lines.len(),
        {
            proof {
                total_front(each(lines@));
            }
            let ghost now = lines@;
            assert(each(now).len() == now.len());
            match lines.pop_front() {
                Some(line) => {
                    assert(each(now)[0] == line@);
                    assert(each(lines@) =~= each(now).drop_first());
                    held_bytes = held_bytes - bytes(line.as_str());
                    dropped = dropped + 1;
                },
                None => {},
            }
        }
        proof {
            assert(each(lines@).len() == lines@.len());
        }
        *self = LogBuffer { lines, bytes: held_bytes, dropped };
    }

    /// Appends lines.
    pub fn extend(&mut self, lines: Vec<String>)
        requires
            total(old(self)@.lines) + total(each(lines@)) <= usize::MAX,
            old(self)@.dropped + old(self)@.lines.len() + lines@.len() <= usize::MAX,
        ensures
            final(self)@ == extended(old(self)@, each(lines@)),
    {
        let ghost start = self@;
        let ghost given = lines@;
        let ghost all = each(lines@);
        assert(all.take(0) =~= Seq::empty());
        for line in it: lines
            invariant
                it.seq() == given,
                all == each(given),
                self@ == extended(start, all.take(it.index() as int)),
                total(start.lines) + total(all) <= usize::MAX,
                start.dropped + start.lines.len() + given.len() <= usize::MAX,
        {
            proof {
                let done = it.index() as int;
                extended_bounds(start, all.take(done));
                total_take(all, done);
                total_take(all, done + 1);
                assert(all.take(done + 1).drop_last() =~= all.take(done));
                assert(all.take(done + 1).last() == given[done]@);
            }
            self.push(line);
        }
        assert(all.take(all.len() as int) =~= all);
    }

    /// The lines, oldest first.
    pub fn lines(&self) -> (r: Vec<&str>)
        ensures
            r@.len() == self@.lines.len(),
            forall|i: int| 0 <= i < r@.len() ==> (#[trigger] r@[i])@ == self@.lines[i],
    {
        let mut out: Vec<&str> = Vec::new();
        let mut i: usize = 0;
        while i < self.lines.len()
            invariant
                i <= self.lines@.len(),
                out@.len() == i,
                forall|k: int| 0 <= k < i ==> (#[trigger] out@[k])@ == self.lines@[k]@,
            decreases self.lines@.len() - i,
        {
            out.push(self.lines[i].as_str());
            i += 1;
        }
        out
    }

    pub fn len(&self) -> (r: usize)
        ensures
            r == self@.lines.len(),
    {
        self.lines.len()
    }

    pub fn is_empty(&self) -> (r: bool)
        ensures
            r == (self@.lines.len() == 0),
    {
        self.lines.len() == 0
    }

    /// How many lines fell off the front. Non-zero means what is shown starts
    /// mid-stream, which the pane says out loud.
    pub fn dropped(&self) -> (r: usize)
        ensures
            r == self@.dropped,
    {
        self.dropped
    }

    pub fn clear(&mut self)
        ensures
            final(self)@.lines == Seq::<Seq<char>>::empty(),
            final(self)@.dropped == 0,
    {
        *self = LogBuffer::new();
    }

    /// Everything held, for the clipboard or a file.
    pub fn to_text(&self) -> (out: String)
        ensures
            out@ == joined(self@.lines, "\n"@),
    {
        let ghost all = self@.lines;
        let mut out = String::new();
        let mut i: usize = 0;
        while i < self.lines.len()
            invariant
                i <= self.lines@.len(),
                all == each(self.lines@),
                out@ == joined(all.take(i as int), "\n"@),
            decreases self.lines@.len() - i,
        {
            let ghost next = all.take(i + 1);
            assert(next.drop_last() =~= all.take(i as int));
            assert(next.last() == self.lines@[i as int]@);
            if i > 0 {
                out.append("\n");
                out.append(self.lines[i].as_str());
            } else {
                out.append(self.lines[i].as_str());
                assert(out@ =~= self.lines@[0]@);
            }
            i += 1;
        }
        assert(all.take(i as int) =~= all);
        out
    }
}

proof fn total_take(lines: Seq<Seq<char>>, n: int)
    requires
        0 <= n <= lines.len(),
    ensures
        total(lines.take(n)) <= total(lines),
    decreases lines.len(),
{
    if n == lines.len() {
        assert(lines.take(n) =~= lines);
    } else {
        total_take(lines.drop_last(), n);
        assert(lines.drop_last().take(n) =~= lines.take(n));
    }
}

proof fn total_skip(lines: Seq<Seq<char>>, n: int)
    requires
        0 <= n <= lines.len(),
    ensures
        total(lines.skip(n)) <= total(lines),
    decreases n,
{
    if n == 0 {
        assert(lines.skip(0) =~= lines);
    } else {
        total_front(lines);
        total_skip(lines.drop_first(), n - 1);
        assert(lines.drop_first().skip(n - 1) =~= lines.skip(n));
    }
}

/// A buffer holds no more than it was given.
proof fn extended_bounds(b: BufferView, lines: Seq<Seq<char>>)
    ensures
        total(extended(b, lines).lines) <= total(b.lines) + total(lines),
        extended(b, lines).dropped + extended(b, lines).lines.len() == b.dropped + b.lines.len()
            + lines.len(),
    decreases lines.len(),
{
    if lines.len() > 0 {
        extended_bounds(b, lines.drop_last());
        let before = extended(b, lines.drop_last());
        let all = before.lines.push(lines.last());
        assert(all.drop_last() =~= before.lines);
        held_lines_bounds(all);
        total_skip(all, all.len() - held_lines(all).len());
    }
}

/// What the reader of a log stream can meet.
pub enum LogInput {
    Line(String),
    /// The stream ended.
    End,
    Failed(String),
    /// The time for a batch is up.
    Tick,
}

/// Gathers the lines of a stream into batches: a chatty pod would otherwise be
/// one message and one render per line.
pub struct LogBatcher {
    pending: Vec<String>,
}

impl View for LogBatcher {
    type V = Seq<Seq<char>>;

    closed spec fn view(&self) -> Seq<Seq<char>> {
        each(self.pending@)
    }
}

/// What a list of events stands for.
pub open spec fn event_views(list: Seq<LogEvent>) -> Seq<LogEventView> {
    list.map_values(|e: LogEvent| e@)
}

/// The waiting lines as a batch, where there are any.
pub open spec fn batch_of(pending: Seq<Seq<char>>) -> Seq<LogEventView> {
    if pending.len() == 0 {
        Seq::empty()
    } else {
        seq![LogEventView::Lines(pending)]
    }
}

/// What is sent when something is met: the waiting lines once there are enough
/// or the time is up, all of them before the end of the stream, and of a stream
/// that failed only the failure.
pub open spec fn sent(pending: Seq<Seq<char>>, input: LogInput) -> Seq<LogEventView> {
    match input {
        LogInput::Line(line) => if pending.len() + 1 >= BATCH_LIMIT {
            seq![LogEventView::Lines(pending.push(line@))]
        } else {
            Seq::empty()
        },
        LogInput::End => batch_of(pending).push(LogEventView::Closed),
        LogInput::Failed(error) => seq![LogEventView::Failed(error@)],
        LogInput::Tick => batch_of(pending),
    }
}

/// The lines that still wait after something was met.
pub open spec fn waiting(pending: Seq<Seq<char>>, input: LogInput) -> Seq<Seq<char>> {
    match input {
        LogInput::Line(line) => if pending.len() + 1 >= BATCH_LIMIT {
            Seq::empty()
        } else {
            pending.push(line@)
        },
        LogInput::End => Seq::empty(),
        LogInput::Failed(_) => pending,
        LogInput::Tick => Seq::empty(),
    }
}

impl LogBatcher {
    pub fn new() -> (r: LogBatcher)
        ensures
            r@ == Seq::<Seq<char>>::empty(),
    {
        let pending: Vec<String> = Vec::new();
        assert(each(pending@) =~= Seq::empty());
        LogBatcher { pending }
    }

    /// Whether no line waits.
    pub fn is_empty(&self) -> (r: bool)
        ensures
            r == (self@.len() == 0),
    {
        self.pending.len() == 0
    }

    /// Takes in what the reader met, and says what to send.
    pub fn step(&mut self, input: LogInput) -> (r: Vec<LogEvent>)
        ensures
            event_views(r@) == sent(old(self)@, input),
            final(self)@ == waiting(old(self)@, input),
    {
        let ghost before = self@;
        let mut out: Vec<LogEvent> = Vec::new();
        match input {
            LogInput::Line(line) => {
                let ghost earlier = self.pending@;
                let ghost text = line@;
                self.pending.push(line);
                assert(self@ =~= before.push(text));
                if self.pending.len() >= BATCH_LIMIT {
                    let mut batch: Vec<String> = Vec::new();
                    assert(each(batch@) =~= Seq::empty());
                    core::mem::swap(&mut batch, &mut self.pending);
                    out.push(LogEvent::Lines(batch));
                    assert(event_views(out@) =~= seq![LogEventView::Lines(before.push(text))]);
                } else {
                    assert(event_views(out@) =~= Seq::empty());
                }
            },
            LogInput::End => {
                if self.pending.len() > 0 {
                    let mut batch: Vec<String> = Vec::new();
                    assert(each(batch@) =~= Seq::empty());
                    core::mem::swap(&mut batch, &mut self.pending);
                    out.push(LogEvent::Lines(batch));
                } else {
                    assert(before =~= Seq::empty());
                }
                out.push(LogEvent::Closed);
                assert(event_views(out@) =~= batch_of(before).push(LogEventView::Closed));
            },
            LogInput::Failed(error) => {
                let ghost text = error@;
                out.push(LogEvent::Failed(error));
                assert(event_views(out@) =~= seq![LogEventView::Failed(text)]);
            },
            LogInput::Tick => {
                if self.pending.len() > 0 {
                    let mut batch: Vec<String> = Vec::new();
                    assert(each(batch@) =~= Seq::empty());
                    core::mem::swap(&mut batch, &mut self.pending);
                    out.push(LogEvent::Lines(batch));
                } else {
                    assert(before =~= Seq::empty());
                }
                assert(event_views(out@) =~= batch_of(before));
            },
        }
        out
    }
}

/// The lines that events carry, one event after the other.
pub open spec fn carried(events: Seq<LogEventView>) -> Seq<Seq<char>> {
    events.map_values(
        |e: LogEventView|
            match e {
                LogEventView::Lines(lines) => lines,
                _ => Seq::empty(),
            },
    ).flatten()
}

/// The line that was met, where one was.
pub open spec fn met(input: LogInput) -> Seq<Seq<char>> {
    match input {
        LogInput::Line(line) => seq![line@],
        _ => Seq::empty(),
    }
}

/// All lines that were met.
pub open spec fn all_met(inputs: Seq<LogInput>) -> Seq<Seq<char>> {
    inputs.map_values(|input: LogInput| met(input)).flatten()
}

/// Everything that a batcher sends while it meets some inputs, and the lines
/// that wait behind them.
pub open spec fn run(inputs: Seq<LogInput>) -> (Seq<LogEventView>, Seq<Seq<char>>) {
    inputs.fold_left(
        (Seq::empty(), Seq::empty()),
        |state: (Seq<LogEventView>, Seq<Seq<char>>), input: LogInput|
            (state.0 + sent(state.1, input), waiting(state.1, input)),
    )
}

proof fn flatten_more<A>(a: Seq<Seq<A>>, b: Seq<Seq<A>>)
    ensures
        (a + b).flatten() == a.flatten() + b.flatten(),
    decreases a.len(),
{
    if a.len() == 0 {
        assert(a + b =~= b);
        assert(a.flatten() + b.flatten() =~= b.flatten());
    } else {
        flatten_more(a.drop_first(), b);
        assert((a + b).drop_first() =~= a.drop_first() + b);
        assert((a + b).first() == a.first());
        assert((a + b).flatten() =~= a.flatten() + b.flatten());
    }
}

proof fn flatten_single<A>(a: Seq<A>)
    ensures
        seq![a].flatten() == a,
{
    let one = seq![a];
    assert(one.drop_first() =~= Seq::empty());
    assert(one.drop_first().flatten() =~= Seq::<A>::empty());
    assert(one.flatten() =~= a);
}

proof fn carried_more(a: Seq<LogEventView>, b: Seq<LogEventView>)
    ensures
        carried(a + b) == carried(a) + carried(b),
{
    let lines = |e: LogEventView|
        match e {
            LogEventView::Lines(lines) => lines,
            _ => Seq::empty(),
        };
    assert((a + b).map_values(lines) =~= a.map_values(lines) + b.map_values(lines));
    flatten_more(a.map_values(lines), b.map_values(lines));
}

proof fn carried_single(e: LogEventView)
    ensures
        carried(seq![e]) == (match e {
            LogEventView::Lines(lines) => lines,
            _ => Seq::empty(),
        }),
{
    let lines = match e {
        LogEventView::Lines(lines) => lines,
        _ => Seq::empty(),
    };
    flatten_single(lines);
    assert(seq![e].map_values(
        |e: LogEventView|
            match e {
                LogEventView::Lines(lines) => lines,
                _ => Seq::empty(),
            },
    ) =~= seq![lines]);
}

/// A step loses, repeats and reorders no line: what it sends and then what still
/// waits is what waited and then what was met. After a tick and at the end
/// nothing waits, no batch is empty, and no more lines wait than make a batch.
/// The end is told last and only at the end. A failure is told at once, and what
/// waits stays.
pub proof fn a_step_loses_no_line(pending: Seq<Seq<char>>, input: LogInput)
    ensures
        !(input is Failed) ==> carried(sent(pending, input)) + waiting(pending, input) == pending
            + met(input),
        input is Tick ==> waiting(pending, input).len() == 0,
        input is End ==> waiting(pending, input).len() == 0 && sent(pending, input).len() > 0
            && sent(pending, input).last() is Closed,
        input matches LogInput::Failed(error) ==> sent(pending, input)
            =~= seq![LogEventView::Failed(error@)] && waiting(pending, input) == pending,
        pending.len() < 2000 ==> waiting(pending, input).len() < 2000,
        pending.len() + 1 < 2000 && input is Line ==> sent(pending, input).len() == 0,
        forall|i: int|
            0 <= i < sent(pending, input).len() ==> match #[trigger] sent(pending, input)[i] {
                LogEventView::Lines(lines) => lines.len() > 0,
                LogEventView::Closed => input is End && i == sent(pending, input).len() - 1,
                LogEventView::Failed(_) => input is Failed,
            },
{
    let events = sent(pending, input);
    let none = Seq::<LogEventView>::empty();
    assert(carried(none) =~= Seq::empty()) by {
        assert(none.map_values(
            |e: LogEventView|
                match e {
                    LogEventView::Lines(lines) => lines,
                    _ => Seq::<Seq<char>>::empty(),
                },
        ) =~= Seq::empty());
    }
    if events.len() == 0 {
        assert(events =~= none);
    }
    if events.len() == 1 {
        assert(events =~= seq![events[0]]);
        carried_single(events[0]);
    }
    if events.len() == 2 {
        assert(events =~= seq![events[0]] + seq![events[1]]);
        carried_more(seq![events[0]], seq![events[1]]);
        carried_single(events[0]);
        carried_single(events[1]);
    }
    if pending.len() == 0 {
        assert(pending =~= Seq::empty());
    }
    if !(input is Failed) {
        assert(carried(events) + waiting(pending, input) =~= pending + met(input));
    }
}

/// Over any run of inputs without a failure, the lines that were sent, in their
/// order, and then those that still wait are exactly the lines that were met.
pub proof fn no_line_is_lost(inputs: Seq<LogInput>)
    requires
        forall|i: int| 0 <= i < inputs.len() ==> !((#[trigger] inputs[i]) is Failed),
    ensures
        carried(run(inputs).0) + run(inputs).1 == all_met(inputs),
        inputs.len() > 0 && inputs.last() is Tick ==> run(inputs).1.len() == 0,
    decreases inputs.len(),
{
    let read = |input: LogInput| met(input);
    if inputs.len() == 0 {
        let none = Seq::<LogEventView>::empty();
        assert(none.map_values(
            |e: LogEventView|
                match e {
                    LogEventView::Lines(lines) => lines,
                    _ => Seq::<Seq<char>>::empty(),
                },
        ) =~= Seq::empty());
        assert(inputs.map_values(read) =~= Seq::empty());
        assert(carried(run(inputs).0) + run(inputs).1 =~= all_met(inputs));
    } else {
        let front = inputs.drop_last();
        let last = inputs.last();
        no_line_is_lost(front);
        let (events, pending) = run(front);
        assert(!(inputs[inputs.len() - 1] is Failed));
        a_step_loses_no_line(pending, last);
        carried_more(events, sent(pending, last));
        assert(inputs.map_values(read) =~= front.map_values(read) + seq![met(last)]);
        flatten_more(front.map_values(read), seq![met(last)]);
        flatten_single(met(last));
        assert(carried(run(inputs).0) + run(inputs).1 =~= carried(events) + (carried(
            sent(pending, last),
        ) + waiting(pending, last)));
        assert(carried(events) + (pending + met(last)) =~= (carried(events) + pending) + met(last));
    }
}

} // verus!
