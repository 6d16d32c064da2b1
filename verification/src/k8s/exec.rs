//! Running a command in a container.
//!
//! One-shot only: a command is sent, its output is collected, and the process
//! ends.
use vstd::prelude::*;
use vstd::string::*;

use crate::base::decimal::{decimal, natural};
use crate::base::text::{
    byte_length, bytes, chars, each, held, joined, lossy, lossy_text, same, three, white_space,
};
use crate::k8s::error::Error;

verus! {

/// How long a command is given before it is abandoned, in seconds.
pub const TIMEOUT: u64 = 30;

/// Beyond this many bytes the pane is not showing output any more, it is showing
/// a wall.
pub const MAX_OUTPUT: usize = 1024 * 1024;

/// What a command produced.
#[derive(Debug, PartialEq, Eq)]
pub struct Output {
    pub stdout: String,
    pub stderr: String,
    /// Set when the command was cut short rather than finishing.
    pub note: Option<String>,
}

impl Default for Output {
    fn default() -> (r: Output)
        ensures
            r.stdout@.len() == 0,
            r.stderr@.len() == 0,
            r.note is None,
    {
        Output { stdout: String::new(), stderr: String::new(), note: None }
    }
}

/// Two texts, one under the other; an empty one takes no line.
pub open spec fn stacked(a: Seq<char>, b: Seq<char>) -> Seq<char> {
    if a.len() == 0 {
        b
    } else if b.len() == 0 {
        a
    } else {
        a + "\n"@ + b
    }
}

impl Output {
    /// Everything, in the order a terminal would have shown it, which is not
    /// quite true of interleaved streams, but is what a pane can show.
    pub fn combined(&self) -> (out: String)
        ensures
            out@ == stacked(self.stdout@, self.stderr@),
    {
        if self.stdout.as_str().is_empty() {
            self.stderr.clone()
        } else if self.stderr.as_str().is_empty() {
            self.stdout.clone()
        } else {
            three(self.stdout.as_str(), "\n", self.stderr.as_str())
        }
    }

    pub fn is_empty(&self) -> (r: bool)
        ensures
            r == (self.stdout@.len() == 0 && self.stderr@.len() == 0),
    {
        self.stdout.as_str().is_empty() && self.stderr.as_str().is_empty()
    }
}

/// What has been read of a command line.
pub struct SplitState {
    pub parts: Seq<Seq<char>>,
    pub current: Seq<char>,
    /// The quote that is open.
    pub quote: Option<char>,
    /// Whether the current argument has been quoted: `""` is an argument, even
    /// though it adds no characters.
    pub any: bool,
}

/// What has been read after one more character.
pub open spec fn split_step(s: SplitState, c: char) -> SplitState {
    match s.quote {
        Some(open) => if c == open {
            SplitState { quote: None, ..s }
        } else {
            SplitState { current: s.current.push(c), ..s }
        },
        None => if c == '"' || c == '\'' {
            SplitState { quote: Some(c), any: true, ..s }
        } else if white_space(c) {
            ended(s)
        } else {
            SplitState { current: s.current.push(c), ..s }
        },
    }
}

/// What has been read once the current argument ends.
pub open spec fn ended(s: SplitState) -> SplitState {
    if s.current.len() > 0 || s.any {
        SplitState { parts: s.parts.push(s.current), current: Seq::empty(), any: false, ..s }
    } else {
        s
    }
}

/// What has been read of a command line after all of it.
pub open spec fn split_run(command: Seq<char>) -> SplitState
    decreases command.len(),
{
    if command.len() == 0 {
        SplitState { parts: Seq::empty(), current: Seq::empty(), quote: None, any: false }
    } else {
        split_step(split_run(command.drop_last()), command.last())
    }
}

/// The arguments of a command line: what white space separates, where a part in
/// quotes belongs to its argument whatever it holds.
pub open spec fn words(command: Seq<char>) -> Seq<Seq<char>> {
    ended(split_run(command)).parts
}

/// Splits a command line the way a shell would, as far as quoting goes.
///
/// Not a shell: there is no expansion, no pipes and no redirection. Quoting is
/// supported because paths have spaces in them.
pub fn split(command: &str) -> (out: Vec<String>)
    ensures
        each(out@) == words(command@),
{
    let cs = chars(command);
    let mut parts: Vec<String> = Vec::new();
    let mut current = String::new();
    let mut quote: Option<char> = None;
    let mut any = false;
    let mut i: usize = 0;
    assert(each(parts@) =~= Seq::empty());
    assert(cs@.take(0) =~= Seq::empty());
    while i < cs.len()
        invariant
            i <= cs.len(),
            cs@ == command@,
            split_run(cs@.take(i as int)) == (SplitState {
                parts: each(parts@),
                current: current@,
                quote,
                any,
            }),
        decreases cs.len() - i,
    {
        let c = cs[i];
        assert(cs@.take(i + 1).drop_last() =~= cs@.take(i as int));
        assert(cs@.take(i + 1).last() == c);
        match quote {
            Some(open) => {
                if c == open {
                    quote = None;
                } else {
                    current.push(c);
                }
            },
            None => {
                if c == '"' || c == '\'' {
                    quote = Some(c);
                    any = true;
                } else if c.is_whitespace() {
                    if !current.as_str().is_empty() || any {
                        let ghost before = parts@;
                        let ghost word = current@;
                        parts.push(current);
                        assert(each(parts@) =~= each(before).push(word));
                        current = String::new();
                        any = false;
                    }
                } else {
                    current.push(c);
                }
            },
        }
        i += 1;
    }
    assert(cs@.take(i as int) =~= cs@);
    if !current.as_str().is_empty() || any {
        let ghost before = parts@;
        let ghost word = current@;
        parts.push(current);
        assert(each(parts@) =~= each(before).push(word));
    }
    parts
}

/// Whether nothing of an argument has been read yet.
spec fn fresh(s: SplitState) -> bool {
    s.quote is None && s.current.len() == 0 && !s.any
}

/// What is read of an open quote and what follows it, between two arguments.
proof fn open_quote(before: Seq<char>, q: char, text: Seq<char>)
    requires
        q == '"' || q == '\'',
        !text.contains(q),
        fresh(split_run(before)),
    ensures
        split_run(before + seq![q] + text) == (SplitState {
            parts: split_run(before).parts,
            current: text,
            quote: Some(q),
            any: true,
        }),
    decreases text.len(),
{
    let whole = before + seq![q] + text;
    if text.len() == 0 {
        assert(whole.drop_last() =~= before);
        assert(text =~= Seq::empty());
        assert(split_run(before).current =~= Seq::empty());
    } else {
        let front = text.drop_last();
        assert(!front.contains(q)) by {
            assert forall|i: int| 0 <= i < front.len() implies front[i] != q by {
                assert(text[i] == front[i]);
            }
        }
        assert(text[text.len() - 1] != q);
        open_quote(before, q, front);
        assert(whole.drop_last() =~= before + seq![q] + front);
        assert(front.push(text.last()) =~= text);
    }
}

/// A text in quotes.
pub open spec fn in_quotes(q: char, text: Seq<char>) -> Seq<char> {
    seq![q] + text + seq![q]
}

/// What is read of a text in quotes between two arguments.
proof fn closed_quote(before: Seq<char>, q: char, text: Seq<char>)
    requires
        q == '"' || q == '\'',
        !text.contains(q),
        fresh(split_run(before)),
    ensures
        split_run(before + in_quotes(q, text)) == (SplitState {
            parts: split_run(before).parts,
            current: text,
            quote: None,
            any: true,
        }),
{
    let whole = before + in_quotes(q, text);
    open_quote(before, q, text);
    assert(whole.drop_last() =~= before + seq![q] + text);
}

/// A text in quotes that does not hold the quote is one argument, whatever else
/// it holds.
pub proof fn quoted_text_is_one_argument(q: char, text: Seq<char>)
    requires
        q == '"' || q == '\'',
        !text.contains(q),
    ensures
        words(in_quotes(q, text)) == seq![text],
{
    let none = Seq::<char>::empty();
    assert(none + in_quotes(q, text) =~= in_quotes(q, text));
    closed_quote(none, q, text);
    assert(ended(split_run(in_quotes(q, text))).parts =~= seq![text]);
}

/// A command line of arguments in quotes, with spaces between them.
pub open spec fn quoted_line(q: char, arguments: Seq<Seq<char>>) -> Seq<char> {
    joined(arguments.map_values(|a: Seq<char>| in_quotes(q, a)), seq![' '])
}

/// Splitting undoes quoting: arguments that are quoted and put behind each other
/// come back as they were, also empty ones and those with spaces.
pub proof fn splitting_undoes_quoting(q: char, arguments: Seq<Seq<char>>)
    requires
        q == '"' || q == '\'',
        forall|i: int| 0 <= i < arguments.len() ==> !(#[trigger] arguments[i]).contains(q),
    ensures
        words(quoted_line(q, arguments)) == arguments,
{
    if arguments.len() == 0 {
        assert(arguments =~= Seq::empty());
    } else {
        quoted_line_gathers(q, arguments);
        assert(arguments.drop_last().push(arguments.last()) =~= arguments);
    }
}

proof fn quoted_line_gathers(q: char, arguments: Seq<Seq<char>>)
    requires
        q == '"' || q == '\'',
        arguments.len() > 0,
        forall|i: int| 0 <= i < arguments.len() ==> !(#[trigger] arguments[i]).contains(q),
    ensures
        split_run(quoted_line(q, arguments)) == (SplitState {
            parts: arguments.drop_last(),
            current: arguments.last(),
            quote: None,
            any: true,
        }),
    decreases arguments.len(),
{
    let quoted = arguments.map_values(|a: Seq<char>| in_quotes(q, a));
    let last = arguments.last();
    assert(arguments[arguments.len() - 1] == last);
    assert(quoted.last() == in_quotes(q, last));
    if arguments.len() == 1 {
        let none = Seq::<char>::empty();
        assert(none + in_quotes(q, last) =~= in_quotes(q, last));
        closed_quote(none, q, last);
        assert(arguments.drop_last() =~= Seq::empty());
        assert(quoted[0] == in_quotes(q, last));
    } else {
        let front = arguments.drop_last();
        assert forall|i: int| 0 <= i < front.len() implies !(#[trigger] front[i]).contains(q) by {
            assert(front[i] == arguments[i]);
        }
        quoted_line_gathers(q, front);
        assert(quoted.drop_last() =~= front.map_values(|a: Seq<char>| in_quotes(q, a)));
        let before = quoted_line(q, front) + seq![' '];
        assert(before.drop_last() =~= quoted_line(q, front));
        assert(split_run(before) == ended(split_run(quoted_line(q, front))));
        assert(front.drop_last().push(front.last()) =~= front);
        closed_quote(before, q, last);
        assert(quoted_line(q, arguments) == before + in_quotes(q, last));
    }
}

/// A word without white space and quotes is one argument.
pub proof fn plain_word_is_one_argument(word: Seq<char>)
    requires
        word.len() > 0,
        forall|i: int|
            0 <= i < word.len() ==> !white_space(#[trigger] word[i]) && word[i] != '"' && word[i]
                != '\'',
    ensures
        words(word) == seq![word],
{
    plain_word_gathers(word);
    assert(ended(split_run(word)).parts =~= seq![word]);
}

proof fn plain_word_gathers(word: Seq<char>)
    requires
        forall|i: int|
            0 <= i < word.len() ==> !white_space(#[trigger] word[i]) && word[i] != '"' && word[i]
                != '\'',
    ensures
        split_run(word) == (SplitState {
            parts: Seq::empty(),
            current: word,
            quote: None,
            any: false,
        }),
    decreases word.len(),
{
    if word.len() == 0 {
        assert(word =~= Seq::empty());
    } else {
        let front = word.drop_last();
        assert forall|i: int| 0 <= i < front.len() implies !white_space(#[trigger] front[i])
            && front[i] != '"' && front[i] != '\'' by {
            assert(front[i] == word[i]);
        }
        plain_word_gathers(front);
        assert(word[word.len() - 1] == word.last());
        assert(front.push(word.last()) =~= word);
    }
}

/// How the API describes the end of a command.
#[derive(Debug, PartialEq, Eq)]
pub struct Status {
    pub status: Option<String>,
    pub reason: Option<String>,
    pub message: Option<String>,
}

impl Default for Status {
    fn default() -> (r: Status)
        ensures
            r.status is None,
            r.reason is None,
            r.message is None,
    {
        Status { status: None, reason: None, message: None }
    }
}

/// The message of a command that could not start. One that ran and exited
/// non-zero has already written its own diagnosis, so repeating the status
/// would be noise.
pub open spec fn start_failure(s: Status) -> Option<Seq<char>> {
    if held(s.status) == Some("Failure"@) && held(s.reason) != Some("NonZeroExitCode"@) {
        match held(s.message) {
            Some(message) => if message.len() > 0 {
                Some(message)
            } else {
                None
            },
            None => None,
        }
    } else {
        None
    }
}

/// The message from a command that could not start, or `None` where it ran.
pub fn failure_message(status: &Status) -> (r: Option<String>)
    ensures
        held(r) == start_failure(*status),
{
    let failed = match &status.status {
        Some(text) => same(text.as_str(), "Failure"),
        None => false,
    };
    let exited = match &status.reason {
        Some(reason) => same(reason.as_str(), "NonZeroExitCode"),
        None => false,
    };
    if !failed || exited {
        return None;
    }
    match &status.message {
        Some(message) => if message.as_str().is_empty() {
            None
        } else {
            Some(message.clone())
        },
        None => None,
    }
}

/// Refuses an empty command.
pub fn check(command: &Vec<String>) -> (r: Result<(), Error>)
    ensures
        r is Ok <==> command@.len() > 0,
        r matches Err(error) ==> error matches Error::Forward { what, cause } && what@
            == "nothing to run"@ && cause@ == "the command was empty"@,
{
    if command.len() == 0 {
        Err(
            Error::Forward {
                what: "nothing to run".to_owned(),
                cause: "the command was empty".to_owned(),
            },
        )
    } else {
        Ok(())
    }
}

/// Whether there is room for more output.
pub fn wants_more(collected: &Vec<u8>) -> (r: bool)
    ensures
        r == (collected@.len() < MAX_OUTPUT),
{
    collected.len() < MAX_OUTPUT
}

/// The collected bytes as text, cut at the limit. Container output is not
/// required to be UTF-8, and a lossy rendering beats refusing to show it.
pub fn rendered(collected: Vec<u8>) -> (out: String)
    ensures
        out@ == lossy_text(
            if collected@.len() <= MAX_OUTPUT {
                collected@
            } else {
                collected@.take(MAX_OUTPUT as int)
            },
        ),
{
    let mut collected = collected;
    let ghost given = collected@;
    if collected.len() > MAX_OUTPUT {
        collected.truncate(MAX_OUTPUT);
        assert(collected@ =~= given.take(MAX_OUTPUT as int));
    }
    lossy(&collected)
}

/// What the pane says about output of these sizes.
pub open spec fn size_note(stdout: Seq<char>, stderr: Seq<char>) -> Option<Seq<char>> {
    if byte_length(stdout) >= MAX_OUTPUT || byte_length(stderr) >= MAX_OUTPUT {
        Some("Output truncated at "@ + decimal(1024) + " KiB."@)
    } else {
        None
    }
}

/// What a command produced that ended: its output, and below its errors the
/// message of one that could not start.
pub fn finished(stdout: String, stderr: String, failure: Option<String>) -> (r: Output)
    ensures
        r.stdout@ == stdout@,
        r.stderr@ == (match failure {
            None => stderr@,
            Some(failure) => if stderr@.len() == 0 {
                failure@
            } else {
                stderr@ + "\n"@ + failure@
            },
        }),
        held(r.note) == size_note(r.stdout@, r.stderr@),
{
    let stderr = match failure {
        None => stderr,
        Some(failure) => if stderr.as_str().is_empty() {
            failure
        } else {
            three(stderr.as_str(), "\n", failure.as_str())
        },
    };
    let note = if bytes(stdout.as_str()) >= MAX_OUTPUT || bytes(stderr.as_str()) >= MAX_OUTPUT {
        Some(three("Output truncated at ", natural(1024).as_str(), " KiB."))
    } else {
        None
    };
    Output { stdout, stderr, note }
}

/// What stands for a command that was abandoned.
pub fn abandoned() -> (r: Output)
    ensures
        r.stdout@.len() == 0,
        r.stderr@.len() == 0,
        held(r.note) == Some("Stopped after "@ + decimal(30) + "s."@),
{
    Output {
        stdout: String::new(),
        stderr: String::new(),
        note: Some(three("Stopped after ", natural(TIMEOUT as u128).as_str(), "s.")),
    }
}

} // verus!
