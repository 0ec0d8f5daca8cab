//! A worker in a terminal: how it is started, what becomes of its output, and
//! what is left on its screen.

use alacritty_terminal::event::VoidListener;
use alacritty_terminal::grid::Dimensions;
use alacritty_terminal::index::{Column, Line};
use alacritty_terminal::term::cell::{Cell, Flags};
use alacritty_terminal::term::test::TermSize;
use alacritty_terminal::term::{Config, Term};
use alacritty_terminal::vte::ansi::Processor;
use vstd::prelude::*;
use vstd::string::*;
use vstd::utf8::encode_utf8;

use super::worker::{WorkerInput, WorkerMessage};
use crate::pty::PtyDimensions;
use crate::text;

verus! {

// ---------------------------------------------------------------------
// The last bytes of the output
// ---------------------------------------------------------------------

/// The last `n` bytes of `s`.
pub open spec fn last_bytes(s: Seq<u8>, n: nat) -> Seq<u8> {
    if s.len() <= n {
        s
    } else {
        s.skip(s.len() - n)
    }
}

/// Keeping the last bytes from time to time is as good as keeping them at the
/// end.
pub proof fn last_bytes_of_last_bytes(s: Seq<u8>, t: Seq<u8>, n: nat)
    ensures
        last_bytes(last_bytes(s, n) + t, n) == last_bytes(s + t, n),
{
    assert(last_bytes(last_bytes(s, n) + t, n) =~= last_bytes(s + t, n));
}

/// Holds the last bytes of an output, up to a number of them.
#[derive(Debug)]
pub struct PtyRingBuffer {
    buf: Vec<u8>,
    capacity: usize,
    write_pos: usize,
    full: bool,
}

/// What a ring holds: from the write position around, or up to it where the
/// ring has not been filled yet.
spec fn ring_contents(buf: Seq<u8>, write_pos: int, full: bool) -> Seq<u8> {
    if full {
        buf.skip(write_pos) + buf.take(write_pos)
    } else {
        buf.take(write_pos)
    }
}

impl View for PtyRingBuffer {
    type V = Seq<u8>;

    closed spec fn view(&self) -> Seq<u8> {
        ring_contents(self.buf@, self.write_pos as int, self.full)
    }
}

impl PtyRingBuffer {
    #[verifier::type_invariant]
    spec fn in_bounds(self) -> bool {
        &&& self.buf@.len() == self.capacity
        &&& self.write_pos < self.capacity || self.write_pos == 0
    }

    /// How many bytes it holds at most.
    pub closed spec fn limit(self) -> nat {
        self.capacity as nat
    }

    /// A buffer for the last `capacity` bytes.
    pub fn new(capacity: usize) -> (r: PtyRingBuffer)
        ensures
            r@ == Seq::<u8>::empty(),
            r.limit() == capacity,
    {
        let mut buf: Vec<u8> = Vec::new();
        let mut i: usize = 0;
        while i < capacity
            invariant
                i <= capacity,
                buf@.len() == i,
            decreases capacity - i,
        {
            buf.push(0);
            i = i + 1;
        }
        let r = PtyRingBuffer { buf, capacity, write_pos: 0, full: false };
        proof {
            assert(r@ =~= Seq::<u8>::empty());
        }
        r
    }

    /// Take more output.
    pub fn extend(&mut self, data: &[u8])
        requires
            old(self).limit() > 0 || data@.len() == 0,
        ensures
            final(self)@ == last_bytes(old(self)@ + data@, old(self).limit()),
            final(self).limit() == old(self).limit(),
    {
        proof {
            use_type_invariant(&*self);
        }
        let capacity: usize = self.capacity;
        let ghost start = self@;
        let mut fresh = PtyRingBuffer::new(0);
        std::mem::swap(self, &mut fresh);
        let PtyRingBuffer { buf, capacity: _, write_pos, full } = fresh;
        let mut buf: Vec<u8> = buf;
        let mut write_pos: usize = write_pos;
        let mut full: bool = full;
        let mut i: usize = 0;
        proof {
            assert(start + data@.take(0) =~= start);
            assert(last_bytes(start, capacity as nat) =~= start);
        }
        while i < data.len()
            invariant
                i <= data.len(),
                capacity > 0 || data@.len() == 0,
                buf@.len() == capacity,
                write_pos < capacity || write_pos == 0,
                ring_contents(buf@, write_pos as int, full) == last_bytes(
                    start + data@.take(i as int),
                    capacity as nat,
                ),
            decreases data.len() - i,
        {
            let ghost before = ring_contents(buf@, write_pos as int, full);
            let byte: u8 = data[i];
            buf.set(write_pos, byte);
            write_pos = if write_pos + 1 == capacity {
                0
            } else {
                write_pos + 1
            };
            if write_pos == 0 && !full {
                full = true;
            }
            proof {
                assert(ring_contents(buf@, write_pos as int, full) =~= last_bytes(
                    before.push(byte),
                    capacity as nat,
                ));
                assert(before + seq![byte] =~= before.push(byte));
                assert(start + data@.take(i + 1) =~= (start + data@.take(i as int)) + seq![byte]);
                last_bytes_of_last_bytes(
                    start + data@.take(i as int),
                    seq![byte],
                    capacity as nat,
                );
            }
            i = i + 1;
        }
        proof {
            assert(data@.take(data@.len() as int) =~= data@);
        }
        *self = PtyRingBuffer { buf, capacity, write_pos, full };
    }

    /// The bytes it holds, the oldest first.
    pub fn snapshot(&self) -> (r: Vec<u8>)
        ensures
            r@ == self@,
    {
        proof {
            use_type_invariant(self);
        }
        let mut out: Vec<u8> = Vec::new();
        let from: usize = if self.full {
            self.write_pos
        } else {
            self.capacity
        };
        let mut i: usize = from;
        while i < self.capacity
            invariant
                from <= i <= self.capacity,
                self.buf@.len() == self.capacity,
                out@ == self.buf@.subrange(from as int, i as int),
            decreases self.capacity - i,
        {
            out.push(self.buf[i]);
            proof {
                assert(out@ =~= self.buf@.subrange(from as int, i + 1));
            }
            i = i + 1;
        }
        let ghost first = out@;
        let mut j: usize = 0;
        proof {
            assert(out@ =~= first + self.buf@.take(0));
        }
        while j < self.write_pos
            invariant
                j <= self.write_pos <= self.buf@.len(),
                out@ == first + self.buf@.take(j as int),
            decreases self.write_pos - j,
        {
            out.push(self.buf[j]);
            proof {
                assert(out@ =~= first + self.buf@.take(j + 1));
            }
            j = j + 1;
        }
        proof {
            assert(out@ =~= self@);
        }
        out
    }
}

// ---------------------------------------------------------------------
// The screen
// ---------------------------------------------------------------------

/// Something that happened to a terminal.
#[derive(Debug, PartialEq)]
pub enum PtyOp {
    /// The worker wrote bytes.
    Output(Vec<u8>),
    /// The terminal got another size.
    Resize(PtyDimensions),
}

/// What a [`PtyOp`] holds.
pub ghost enum PtyOpView {
    Output(Seq<u8>),
    Resize { cols: usize, lines: usize },
}

impl View for PtyOp {
    type V = PtyOpView;

    open spec fn view(&self) -> PtyOpView {
        match *self {
            PtyOp::Output(bytes) => PtyOpView::Output(bytes@),
            PtyOp::Resize(d) => PtyOpView::Resize { cols: d.cols, lines: d.lines },
        }
    }
}

/// What a list of such things holds.
pub open spec fn op_views(ops: Seq<PtyOp>) -> Seq<PtyOpView> {
    ops.map_values(|o: PtyOp| o@)
}

/// A size that a terminal can have: a wide character fits into a line, and
/// there is a line.
pub open spec fn usable(cols: usize, lines: usize) -> bool {
    2 <= cols <= 65535 && 1 <= lines <= 65535
}

/// Whether all sizes among the operations can be had.
pub open spec fn usable_ops(ops: Seq<PtyOp>) -> bool {
    forall|i: int|
        0 <= i < ops.len() ==> (#[trigger] ops[i] matches PtyOp::Resize(d) ==> usable(
            d.cols,
            d.lines,
        ))
}

/// The cells of a screen after some operations, row by row: the character of
/// each cell, and whether it is the second half of a wide character.
pub uninterp spec fn screen_after(cols: usize, lines: usize, ops: Seq<PtyOpView>) -> Seq<
    Seq<(char, bool)>,
>;

/// What a list of rows holds.
pub open spec fn row_views(rows: Seq<Vec<(char, bool)>>) -> Seq<Seq<(char, bool)>> {
    rows.map_values(|r: Vec<(char, bool)>| r@)
}

/// The terminal emulator of `alacritty_terminal`: a `Term` of the given size,
/// which `Processor::advance` feeds the output and `Term::resize` gives its
/// new sizes, and then the cells of its grid. What escape sequences do to the
/// screen is left to the crate; the same operations always give the same
/// screen. A terminal has at least `MIN_COLUMNS` and `MIN_SCREEN_LINES`.
#[verifier::external_body]
fn replay(cols: usize, lines: usize, ops: &Vec<PtyOp>) -> (r: Vec<Vec<(char, bool)>>)
    requires
        usable(cols, lines),
        usable_ops(ops@),
    ensures
        row_views(r@) == screen_after(cols, lines, op_views(ops@)),
{
    let mut term = Term::new(Config::default(), &TermSize::new(cols, lines), VoidListener);
    let mut processor: Processor = Processor::new();
    for op in ops.iter() {
        match op {
            PtyOp::Output(bytes) => processor.advance(&mut term, bytes),
            PtyOp::Resize(d) => term.resize(TermSize::new(d.cols, d.lines)),
        }
    }
    let shown = |cell: &Cell| (cell.c, cell.flags.contains(Flags::WIDE_CHAR_SPACER));
    let row = |l| (0..term.columns()).map(|c| shown(&term.grid()[Line(l)][Column(c)])).collect();
    (0..term.screen_lines() as i32).map(row).collect()
}

/// The characters of a row; the second halves of wide characters are none.
pub open spec fn row_chars(row: Seq<(char, bool)>) -> Seq<char>
    decreases row.len(),
{
    if row.len() == 0 {
        Seq::empty()
    } else if row.last().1 {
        row_chars(row.drop_last())
    } else {
        row_chars(row.drop_last()).push(row.last().0)
    }
}

/// Lines without the empty ones at the end.
pub open spec fn without_empty_end(lines: Seq<Seq<char>>) -> Seq<Seq<char>>
    decreases lines.len(),
{
    if lines.len() > 0 && lines.last().len() == 0 {
        without_empty_end(lines.drop_last())
    } else {
        lines
    }
}

/// The lines of a screen, without the white space at their ends.
pub open spec fn screen_lines(rows: Seq<Seq<(char, bool)>>) -> Seq<Seq<char>> {
    rows.map_values(|r: Seq<(char, bool)>| text::trimmed_end(row_chars(r)))
}

/// The text on a screen.
pub open spec fn screen_text(rows: Seq<Seq<(char, bool)>>) -> Seq<char> {
    text::joined(without_empty_end(screen_lines(rows)), "\n"@)
}

/// The characters of a row.
fn read_row(row: &Vec<(char, bool)>) -> (r: String)
    ensures
        r@ == row_chars(row@),
{
    let mut out: String = String::new();
    let mut i: usize = 0;
    proof {
        assert(out@ =~= row_chars(row@.take(0)));
    }
    while i < row.len()
        invariant
            i <= row.len(),
            out@ == row_chars(row@.take(i as int)),
        decreases row.len() - i,
    {
        proof {
            assert(row@.take(i + 1).drop_last() =~= row@.take(i as int));
        }
        let (c, spacer) = row[i];
        if !spacer {
            out.push(c);
        }
        i = i + 1;
    }
    proof {
        assert(row@.take(row@.len() as int) =~= row@);
    }
    out
}

/// The text on a screen with the given cells.
pub fn read_screen(rows: &Vec<Vec<(char, bool)>>) -> (r: String)
    ensures
        r@ == screen_text(row_views(rows@)),
{
    let ghost all = screen_lines(row_views(rows@));
    let mut lines: Vec<String> = Vec::new();
    let mut i: usize = 0;
    while i < rows.len()
        invariant
            i <= rows.len(),
            all == screen_lines(row_views(rows@)),
            text::texts(lines@) == all.take(i as int),
        decreases rows.len() - i,
    {
        let ghost before = lines@;
        let line: String = read_row(&rows[i]);
        lines.push(text::owned(text::trim_end(line.as_str())));
        proof {
            assert(text::texts(lines@) =~= text::texts(before).push(lines@.last()@));
            assert(all.take(i + 1) =~= all.take(i as int).push(all[i as int]));
        }
        i = i + 1;
    }
    proof {
        assert(all.take(all.len() as int) =~= all);
    }
    while lines.len() > 0 && lines[lines.len() - 1].as_str().unicode_len() == 0
        invariant
            without_empty_end(text::texts(lines@)) == without_empty_end(all),
        decreases lines.len(),
    {
        proof {
            assert(text::texts(lines@).last() == lines@.last()@);
            assert(text::texts(lines@).drop_last() =~= text::texts(lines@.drop_last()));
        }
        lines.pop();
    }
    proof {
        if lines@.len() > 0 {
            assert(text::texts(lines@).last() == lines@.last()@);
        }
    }
    text::join(&lines, "\n")
}

/// The terminal of a worker: its first size, and all that happened to it.
#[derive(Debug, PartialEq)]
pub struct PtyState {
    pub size: PtyDimensions,
    pub ops: Vec<PtyOp>,
}

impl PtyState {
    /// Whether all sizes of the terminal can be had.
    pub open spec fn usable(self) -> bool {
        usable(self.size.cols, self.size.lines) && usable_ops(self.ops@)
    }

    /// A terminal that nothing happened to.
    pub fn new(size: PtyDimensions) -> (r: PtyState)
        ensures
            r.size == size,
            r.ops@ == Seq::<PtyOp>::empty(),
    {
        PtyState { size, ops: Vec::new() }
    }
}

/// The text on the screen of a terminal.
pub fn extract_text_from_term(state: &PtyState) -> (r: String)
    requires
        state.usable(),
    ensures
        r@ == screen_text(
            screen_after(state.size.cols, state.size.lines, op_views(state.ops@)),
        ),
{
    let rows: Vec<Vec<(char, bool)>> = replay(state.size.cols, state.size.lines, &state.ops);
    read_screen(&rows)
}

/// Give a terminal another size.
pub fn resize_pty(state: &mut PtyState, cols: u16, rows: u16)
    requires
        usable(cols as usize, rows as usize),
    ensures
        final(state).size == old(state).size,
        final(state).ops@ == old(state).ops@.push(
            PtyOp::Resize(PtyDimensions { cols: cols as usize, lines: rows as usize }),
        ),
        old(state).usable() ==> final(state).usable(),
{
    state.ops.push(PtyOp::Resize(PtyDimensions { cols: cols as usize, lines: rows as usize }));
}

// ---------------------------------------------------------------------
// The worker
// ---------------------------------------------------------------------

/// How many bytes of output are kept for those who join late.
pub const RING_CAPACITY: usize = 65_536;

/// The arguments for a worker in a terminal.
pub open spec fn terminal_args(prompt: Seq<char>, resume: Option<Seq<char>>) -> Seq<Seq<char>> {
    (match resume {
        Some(id) => if id.len() == 0 {
            seq!["--resume"@]
        } else {
            seq!["--resume"@, id]
        },
        None => seq![prompt],
    }).push("--dangerously-skip-permissions"@)
}

/// The arguments for a worker in a terminal: the prompt, or the session to go
/// on with.
pub fn pty_args(prompt_text: &str, resume_session_id: &Option<String>) -> (r: Vec<String>)
    ensures
        text::texts(r@) == terminal_args(prompt_text@, text::text_option(*resume_session_id)),
{
    let mut args: Vec<String> = Vec::new();
    match resume_session_id {
        Some(id) => {
            args.push(text::owned("--resume"));
            if id.as_str().unicode_len() > 0 {
                args.push(id.clone());
            }
        },
        None => {
            args.push(text::owned(prompt_text));
        },
    }
    args.push(text::owned("--dangerously-skip-permissions"));
    proof {
        assert(text::texts(args@) =~= terminal_args(
            prompt_text@,
            text::text_option(*resume_session_id),
        ));
    }
    args
}

/// What could not be done for a worker in a terminal.
#[derive(Debug, Clone, Copy, PartialEq, Eq, Structural)]
pub enum PtyFailure {
    Open,
    Spawn,
    CloneReader,
    TakeWriter,
}

/// The beginning of the message for a failure with the given program.
pub open spec fn failure_words(f: PtyFailure, program: Seq<char>) -> Seq<char> {
    match f {
        PtyFailure::Open => "Failed to open PTY: "@,
        PtyFailure::Spawn => "Failed to spawn "@ + program + " in PTY: "@,
        PtyFailure::CloneReader => "Failed to clone PTY reader: "@,
        PtyFailure::TakeWriter => "Failed to take PTY writer: "@,
    }
}

impl PtyFailure {
    /// The message for a failure with the given program and error.
    pub fn message(self, program: &str, error: &str) -> (r: String)
        ensures
            r@ == failure_words(self, program@) + error@,
    {
        match self {
            PtyFailure::Open => text::cat2("Failed to open PTY: ", error),
            PtyFailure::Spawn => text::cat4("Failed to spawn ", program, " in PTY: ", error),
            PtyFailure::CloneReader => text::cat2("Failed to clone PTY reader: ", error),
            PtyFailure::TakeWriter => text::cat2("Failed to take PTY writer: ", error),
        }
    }
}

/// What is kept of a worker in a terminal.
#[derive(Debug)]
pub struct PtyHandle {
    pub prompt_id: usize,
    pub state: PtyState,
    pub ring_buffer: PtyRingBuffer,
}

/// What to do about something read from a terminal.
#[derive(Debug, PartialEq)]
pub struct ReadStep {
    /// The bytes to send to those who watch.
    pub broadcast: Option<Vec<u8>>,
    /// The message for the daemon.
    pub message: WorkerMessage,
    /// Whether there is more to read.
    pub go_on: bool,
}

impl PtyHandle {
    /// The handle of a worker that was just started.
    pub fn new(prompt_id: usize, cols: u16, rows: u16) -> (r: PtyHandle)
        ensures
            r.prompt_id == prompt_id,
            r.state.size == (PtyDimensions { cols: cols as usize, lines: rows as usize }),
            r.state.ops@ == Seq::<PtyOp>::empty(),
            r.ring_buffer@ == Seq::<u8>::empty(),
            r.ring_buffer.limit() == RING_CAPACITY,
    {
        let size = PtyDimensions { cols: cols as usize, lines: rows as usize };
        PtyHandle {
            prompt_id,
            state: PtyState::new(size),
            ring_buffer: PtyRingBuffer::new(RING_CAPACITY),
        }
    }

    /// Take what was read from the terminal; nothing, or an error, is its end.
    pub fn on_read(&mut self, read: Result<Vec<u8>, ()>) -> (r: ReadStep)
        requires
            old(self).ring_buffer.limit() > 0,
        ensures
            final(self).prompt_id == old(self).prompt_id,
            final(self).state.size == old(self).state.size,
            final(self).ring_buffer.limit() == old(self).ring_buffer.limit(),
            match read {
                Ok(bytes) => if bytes@.len() == 0 {
                    &&& final(self).state.ops@ == old(self).state.ops@
                    &&& final(self).ring_buffer@ == old(self).ring_buffer@
                    &&& r == (ReadStep {
                        broadcast: None,
                        message: WorkerMessage::PtyEof { prompt_id: old(self).prompt_id },
                        go_on: false,
                    })
                } else {
                    &&& op_views(final(self).state.ops@) == op_views(old(self).state.ops@).push(
                        PtyOpView::Output(bytes@),
                    )
                    &&& final(self).ring_buffer@ == last_bytes(
                        old(self).ring_buffer@ + bytes@,
                        old(self).ring_buffer.limit(),
                    )
                    &&& r.go_on
                    &&& r.message == (WorkerMessage::PtyUpdate { prompt_id: old(self).prompt_id })
                    &&& r.broadcast matches Some(b) && b@ == bytes@
                },
                Err(_) => {
                    &&& final(self).state.ops@ == old(self).state.ops@
                    &&& final(self).ring_buffer@ == old(self).ring_buffer@
                    &&& r == (ReadStep {
                        broadcast: None,
                        message: WorkerMessage::PtyEof { prompt_id: old(self).prompt_id },
                        go_on: false,
                    })
                },
            },
            old(self).state.usable() ==> final(self).state.usable(),
    {
        let id: usize = self.prompt_id;
        match read {
            Ok(bytes) => {
                if bytes.len() == 0 {
                    return ReadStep {
                        broadcast: None,
                        message: WorkerMessage::PtyEof { prompt_id: id },
                        go_on: false,
                    };
                }
                self.ring_buffer.extend(bytes.as_slice());
                let copy: Vec<u8> = bytes.clone();
                proof {
                    assert(copy@ =~= bytes@);
                }
                let ghost ops0 = self.state.ops@;
                self.state.ops.push(PtyOp::Output(bytes));
                proof {
                    assert(op_views(self.state.ops@) =~= op_views(ops0).push(
                        PtyOpView::Output(bytes@),
                    ));
                }
                ReadStep {
                    broadcast: Some(copy),
                    message: WorkerMessage::PtyUpdate { prompt_id: id },
                    go_on: true,
                }
            },
            Err(_) => ReadStep {
                broadcast: None,
                message: WorkerMessage::PtyEof { prompt_id: id },
                go_on: false,
            },
        }
    }
}

/// The bytes to write to a terminal for an input, or `None` where the terminal
/// is to be closed.
pub fn input_bytes(input: WorkerInput) -> (r: Option<Vec<u8>>)
    ensures
        match input {
            WorkerInput::SendInput(text) => r matches Some(b) && b@ == encode_utf8(text@),
            WorkerInput::SendBytes(bytes) => r matches Some(b) && b@ == bytes@,
            WorkerInput::Kill => r is None,
        },
{
    match input {
        WorkerInput::SendInput(text) => {
            let bytes: &[u8] = text.as_str().as_bytes();
            let mut out: Vec<u8> = Vec::new();
            let mut i: usize = 0;
            while i < bytes.len()
                invariant
                    i <= bytes.len(),
                    out@ == bytes@.take(i as int),
                decreases bytes.len() - i,
            {
                out.push(bytes[i]);
                proof {
                    assert(out@ =~= bytes@.take(i + 1));
                }
                i = i + 1;
            }
            proof {
                assert(bytes@.take(bytes@.len() as int) =~= bytes@);
            }
            Some(out)
        },
        WorkerInput::SendBytes(bytes) => Some(bytes),
        WorkerInput::Kill => None,
    }
}

/// Late joiners are told no more than was put out, and the end of it.
pub proof fn replay_is_the_end_of_the_output(output: Seq<u8>)
    ensures
        last_bytes(output, RING_CAPACITY as nat).len() <= RING_CAPACITY,
        exists|before: Seq<u8>|
            output == #[trigger] (before + last_bytes(output, RING_CAPACITY as nat)),
{
    let end = last_bytes(output, RING_CAPACITY as nat);
    let before = output.take(output.len() - end.len());
    assert(output =~= before + end);
}

/// The last bytes are bytes of the end, as many as are asked for, or all.
pub proof fn last_bytes_are_the_end(s: Seq<u8>, n: nat)
    ensures
        last_bytes(s, n).len() == if s.len() < n {
            s.len()
        } else {
            n
        },
        forall|k: int|
            0 <= k < last_bytes(s, n).len() ==> (#[trigger] last_bytes(s, n)[k]) == s[s.len()
                - last_bytes(s, n).len() + k],
{
}

/// The text of a screen is its rows in order, one to a line, without the white
/// space at their ends and without the empty lines at the end. Of a wide
/// character only the first half counts.
pub proof fn screens_are_read_row_by_row(rows: Seq<Seq<(char, bool)>>)
    ensures
        forall|i: int|
            0 <= i < rows.len() ==> (#[trigger] screen_lines(rows)[i]) == text::trimmed_end(
                rows[i].filter(|c: (char, bool)| !c.1).map_values(|c: (char, bool)| c.0),
            ),
        screen_lines(rows).len() == rows.len(),
        exists|n: int|
            0 <= n <= rows.len() && screen_text(rows) == text::joined(
                #[trigger] screen_lines(rows).take(n),
                "\n"@,
            ) && (forall|k: int| n <= k < rows.len() ==> (#[trigger] screen_lines(rows)[k]).len()
                == 0) && (n > 0 ==> screen_lines(rows)[n - 1].len() > 0),
{
    assert forall|i: int| 0 <= i < rows.len() implies (#[trigger] screen_lines(rows)[i])
        == text::trimmed_end(
        rows[i].filter(|c: (char, bool)| !c.1).map_values(|c: (char, bool)| c.0),
    ) by {
        second_halves_are_passed_over(rows[i]);
    }
    let n = empty_end_is_dropped(screen_lines(rows));
    assert(screen_text(rows) == text::joined(screen_lines(rows).take(n), "\n"@));
}

/// The characters of a row are those of the cells that are no second halves.
proof fn second_halves_are_passed_over(row: Seq<(char, bool)>)
    ensures
        row_chars(row) == row.filter(|c: (char, bool)| !c.1).map_values(|c: (char, bool)| c.0),
    decreases row.len(),
{
    reveal(Seq::filter);
    let f = |c: (char, bool)| !c.1;
    let g = |c: (char, bool)| c.0;
    if row.len() > 0 {
        second_halves_are_passed_over(row.drop_last());
        assert(row_chars(row) =~= row.filter(f).map_values(g));
    } else {
        assert(row_chars(row) =~= row.filter(f).map_values(g));
    }
}

/// The empty lines at the end are dropped, and no others.
proof fn empty_end_is_dropped(lines: Seq<Seq<char>>) -> (n: int)
    ensures
        0 <= n <= lines.len(),
        without_empty_end(lines) == lines.take(n),
        forall|k: int| n <= k < lines.len() ==> (#[trigger] lines[k]).len() == 0,
        n > 0 ==> lines[n - 1].len() > 0,
    decreases lines.len(),
{
    if lines.len() > 0 && lines.last().len() == 0 {
        let t = lines.drop_last();
        let n = empty_end_is_dropped(t);
        assert(t.take(n) =~= lines.take(n));
        assert forall|k: int| n <= k < lines.len() implies (#[trigger] lines[k]).len() == 0 by {
            if k < t.len() {
                assert(t[k] == lines[k]);
            }
        }
        n
    } else {
        assert(lines.take(lines.len() as int) =~= lines);
        lines.len() as int
    }
}

/// A worker in a terminal is given its prompt, or, where a session is resumed,
/// is told so instead, with the session if that is known.
pub proof fn terminals_get_prompt_or_session(prompt: Seq<char>, resume: Option<Seq<char>>)
    ensures
        ({
            let args = terminal_args(prompt, resume);
            &&& args.last() == "--dangerously-skip-permissions"@
            &&& resume is None ==> args.len() == 2 && args[0] == prompt
            &&& resume matches Some(id) ==> args[0] == "--resume"@ && (id.len() == 0 ==> args.len()
                == 2) && (id.len() > 0 ==> args.len() == 3 && args[1] == id)
        }),
{
}

} // verus!
