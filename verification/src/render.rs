//! The redraw protocol: what one render writes to the terminal.
//!
//! Each render emits one frame: first the erase prefix (cursor-up and
//! line-clearing sequences that remove everything the previous render drew),
//! then the pending message (if any), then the bar line. `render_spec` pins
//! the frame down to the character; `render_text` computes it, and `render`
//! wires it to the live terminal.
//!
//! The erase budget carries over from one render to the next: a tracker
//! remembers how many lines its last frame occupied (message lines plus the
//! bar line) and clears exactly those. The terminal width is queried anew on
//! every render, since the terminal may be resized in between; on the very
//! first frame of a tracker vertical space is reserved with plain newlines
//! before any cursor-up runs, so the clears never touch scroll-back lines
//! the tracker does not own.

use std::io::Write;
use vstd::prelude::*;
use crate::bar::bar_line_spec;
use crate::bar::count_char;
use crate::bar::create_bar;
use crate::bar::spaces;
use crate::message::MessageBuffer;

verus! {

/// How many terminal lines `msg` occupies when printed: none when empty,
/// otherwise one more than its embedded line breaks.
pub open spec fn line_count(msg: Seq<char>) -> nat {
    if msg.len() == 0 {
        0
    } else {
        count_char(msg, '\n') + 1
    }
}

/// `s` repeated `n` times.
pub open spec fn repeat_seq(s: Seq<char>, n: nat) -> Seq<char>
    decreases n,
{
    if n == 0 {
        Seq::empty()
    } else {
        repeat_seq(s, (n - 1) as nat) + s
    }
}

/// What erases one previously drawn line: cursor up, carriage return,
/// a terminal width of spaces, carriage return.
pub open spec fn clear_line_spec(width: nat) -> Seq<char> {
    "\u{1b}[1A\r"@ + spaces(width) + "\r"@
}

/// The erase prefix of a frame. A repeat render erases every line the
/// previous render drew. A very first render with a message first reserves
/// the lines it is about to use (message lines plus the bar line) with plain
/// newlines, then blanks them; a very first render without a message has
/// nothing to erase.
pub open spec fn erase_spec(msg_lines: nat, drawn: nat, width: nat) -> Seq<char> {
    if drawn > 0 {
        repeat_seq(clear_line_spec(width), drawn)
    } else if msg_lines > 0 {
        repeat_seq("\n"@, msg_lines + 1) + repeat_seq(clear_line_spec(width), msg_lines + 1)
    } else {
        Seq::empty()
    }
}

/// The message portion of a frame: the pending text and a line break, or
/// nothing when no message is pending.
pub open spec fn message_part(msg: Seq<char>) -> Seq<char> {
    if msg.len() > 0 {
        msg + "\n"@
    } else {
        Seq::empty()
    }
}

/// One whole frame: erase prefix, message portion, bar line.
pub open spec fn render_spec(
    current: nat,
    total: nat,
    msg: Seq<char>,
    drawn: nat,
    width: nat,
) -> Seq<char> {
    erase_spec(line_count(msg), drawn, width) + message_part(msg) + bar_line_spec(current, total)
        + "\n"@
}

/// A written message is shown exactly once: the frame that consumes it
/// holds it right before the bar line, and a frame rendered with nothing
/// pending holds the bar line alone.
pub proof fn lemma_message_round_trip(
    current: nat,
    total: nat,
    msg: Seq<char>,
    drawn: nat,
    width: nat,
)
    requires
        msg.len() > 0,
    ensures
        render_spec(current, total, msg, drawn, width) == erase_spec(
            line_count(msg),
            drawn,
            width,
        ) + msg + "\n"@ + bar_line_spec(current, total) + "\n"@,
        render_spec(current, total, Seq::<char>::empty(), drawn, width) == erase_spec(
            0,
            drawn,
            width,
        ) + bar_line_spec(current, total) + "\n"@,
{
    assert(render_spec(current, total, msg, drawn, width) =~= erase_spec(
        line_count(msg),
        drawn,
        width,
    ) + msg + "\n"@ + bar_line_spec(current, total) + "\n"@);
    assert(render_spec(current, total, Seq::<char>::empty(), drawn, width) =~= erase_spec(
        0,
        drawn,
        width,
    ) + bar_line_spec(current, total) + "\n"@);
}

/// What a frame draws is exactly what the next render is told to erase:
/// the block it leaves behind — message portion plus bar line — ends
/// `line_count(msg) + 1` lines, the erase budget recorded for that render.
pub proof fn lemma_frame_height(current: nat, total: nat, msg: Seq<char>)
    ensures
        count_char(message_part(msg) + bar_line_spec(current, total) + "\n"@, '\n') == line_count(
            msg,
        ) + 1,
{
    let bar = bar_line_spec(current, total);
    crate::bar::lemma_count_char_concat(message_part(msg), bar, '\n');
    crate::bar::lemma_count_char_concat(message_part(msg) + bar, "\n"@, '\n');
    crate::bar::lemma_bar_line_single_line(current, total);
    reveal_strlit("\n");
    assert("\n"@.drop_last() =~= Seq::<char>::empty());
    assert(count_char(Seq::<char>::empty(), '\n') == 0);
    assert("\n"@.last() == '\n');
    assert(count_char("\n"@, '\n') == 1);
    if msg.len() > 0 {
        crate::bar::lemma_count_char_concat(msg, "\n"@, '\n');
    }
}

/// How many terminal lines `msg` will occupy, and the line-break count it
/// contributes to the next erase budget.
fn count_lines(msg: &str) -> (m: usize)
    requires
        msg@.len() + 1 < usize::MAX,
    ensures
        m == line_count(msg@),
        m <= msg@.len() + 1,
{
    let n = msg.unicode_len();
    if n == 0 {
        return 0;
    }
    let mut cnt: usize = 0;
    let mut i: usize = 0;
    while i < n
        invariant
            i <= n,
            n == msg@.len(),
            cnt == count_char(msg@.take(i as int), '\n'),
            cnt <= i,
        decreases n - i,
    {
        let c = msg.get_char(i);
        proof {
            assert(msg@.take(i + 1).drop_last() =~= msg@.take(i as int));
            assert(msg@.take(i + 1).last() == msg@[i as int]);
        }
        if c == '\n' {
            cnt = cnt + 1;
        }
        i = i + 1;
    }
    proof {
        assert(msg@.take(n as int) =~= msg@);
    }
    cnt + 1
}

/// Appends what erases one previously drawn line.
fn append_clear_line(out: &mut String, width: usize)
    ensures
        final(out)@ == old(out)@ + clear_line_spec(width as nat),
{
    out.append("\u{1b}[1A\r");
    crate::bar::append_spaces(out, width);
    out.append("\r");
    proof {
        assert(out@ =~= old(out)@ + clear_line_spec(width as nat));
    }
}

/// Appends `n` line erasures.
fn append_clear_lines(out: &mut String, n: usize, width: usize)
    ensures
        final(out)@ == old(out)@ + repeat_seq(clear_line_spec(width as nat), n as nat),
{
    let ghost orig: Seq<char> = out@;
    let mut i: usize = 0;
    while i < n
        invariant
            i <= n,
            out@ == orig + repeat_seq(clear_line_spec(width as nat), i as nat),
        decreases n - i,
    {
        append_clear_line(out, width);
        i += 1;
    }
}

/// Appends `n` plain newlines.
fn append_newlines(out: &mut String, n: usize)
    ensures
        final(out)@ == old(out)@ + repeat_seq("\n"@, n as nat),
{
    let ghost orig: Seq<char> = out@;
    let mut i: usize = 0;
    while i < n
        invariant
            i <= n,
            out@ == orig + repeat_seq("\n"@, i as nat),
        decreases n - i,
    {
        out.append("\n");
        i += 1;
    }
}

/// Computes one whole frame: exactly `render_spec` of the inputs, with
/// `drawn` the line count of the previous frame (0 on a first render) and
/// `width` the terminal's current column count.
pub fn render_text(current: usize, total: usize, msg: &str, drawn: usize, width: usize) -> (out:
    String)
    requires
        current <= total,
        msg@.len() + 1 < usize::MAX,
    ensures
        out@ == render_spec(current as nat, total as nat, msg@, drawn as nat, width as nat),
{
    let m = count_lines(msg);
    let mut out = String::new();
    if drawn > 0 {
        append_clear_lines(&mut out, drawn, width);
    } else if m > 0 {
        append_newlines(&mut out, m + 1);
        append_clear_lines(&mut out, m + 1, width);
    }
    if m > 0 {
        out.append(msg);
        out.append("\n");
    }
    let bar = create_bar(current, total);
    out.append(bar.as_str());
    out.append("\n");
    proof {
        assert(out@ =~= render_spec(
            current as nat,
            total as nat,
            msg@,
            drawn as nat,
            width as nat,
        ));
    }
    out
}

/// The one failure of this library: standard output has no terminal, so its
/// width cannot be queried and no frame can be drawn.
#[derive(Debug)]
pub struct TerminalUnavailable;

impl TerminalUnavailable {
    /// A description for the host to print when it gives up.
    pub fn message(&self) -> (m: String)
        ensures
            m@ == "Unable to get terminal size."@,
    {
        String::from_str("Unable to get terminal size.")
    }
}

/// Relies on terminal_size::terminal_size: the width in columns of the
/// terminal on standard output, or None when there is no terminal. The
/// result depends on the live terminal, so nothing is claimed of it.
#[verifier::external_body]
fn term_width() -> (r: Option<u16>) {
    match terminal_size::terminal_size() {
        Some((w, _)) => Some(w.0),
        None => None,
    }
}

/// Relies on std::io::Stdout's write_fmt (reached through the write macro)
/// to put the frame on standard output.
#[verifier::external_body]
fn emit(s: &str) {
    let _ = write!(std::io::stdout(), "{}", s);
}

/// Draws one frame on the terminal: reads and clears the message buffer,
/// queries the terminal width, and emits `render_spec` of the tracker state.
/// Returns the frame's line count, the erase budget of the next render.
/// Fails only when the width query fails, and that query is skipped when
/// nothing has to be erased; the message is consumed either way.
pub(crate) fn render(current: usize, total: usize, buf: &mut MessageBuffer, drawn: usize) -> (res:
    Result<usize, TerminalUnavailable>)
    requires
        current <= total,
        old(buf)@.len() + 1 < usize::MAX,
    ensures
        final(buf)@ == Seq::<char>::empty(),
        res matches Ok(d) ==> d == line_count(old(buf)@) + 1,
        drawn == 0 && old(buf)@.len() == 0 ==> res is Ok,
{
    let msg = buf.take_and_clear();
    let m = count_lines(msg.as_str());
    let width: usize;
    if drawn > 0 || m > 0 {
        match term_width() {
            Some(w) => {
                width = w as usize;
            },
            None => {
                return Err(TerminalUnavailable);
            },
        }
    } else {
        width = 0;
    }
    let out = render_text(current, total, msg.as_str(), drawn, width);
    emit(out.as_str());
    Ok(m + 1)
}

} // verus!
