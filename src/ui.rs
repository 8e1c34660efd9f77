use vstd::prelude::*;
use vstd::slice::slice_subrange;
use vstd::string::StrSliceExecFns;
use vstd::string::StringSliceAdditionalSpecFns;
use crate::constants::{CWIDTH, HEIGHT, HIST, LINE_WIDTH, SCREEN, WIDTH};

verus! {

broadcast use vstd::string::is_ascii_spec_bytes;

/// The command prompt
pub open spec fn prompt() -> Seq<u8> {
    "COMMAND => ".spec_bytes()
}

fn prompt_bytes() -> (r: Vec<u8>)
    ensures
        r@ == prompt(),
        r@.len() == CWIDTH,
{
    proof {
        reveal_strlit("COMMAND => ");
    }
    let r = "COMMAND => ".as_bytes_vec();
    assert(vstd::string::is_ascii("COMMAND => "));
    r
}

/// The command line as displayed: prompt, then the edited line with the cursor block
pub open spec fn console_spec(line: Seq<u8>, cursor: int) -> Seq<u8> {
    prompt() + line.update(cursor, 219u8)
}

/// The first line of `s`: the bytes before its first newline
pub open spec fn first_line(s: Seq<u8>) -> Seq<u8>
    decreases s.len(),
{
    if s.len() == 0 || s[0] == 10u8 {
        seq![]
    } else {
        seq![s[0]] + first_line(s.drop_first())
    }
}

/// What follows the first newline of `s` (empty if there is none)
pub open spec fn after_line(s: Seq<u8>) -> Seq<u8>
    decreases s.len(),
{
    if s.len() == 0 {
        seq![]
    } else if s[0] == 10u8 {
        s.drop_first()
    } else {
        after_line(s.drop_first())
    }
}

/// What follows the `i`-th newline of `s`
pub open spec fn rest_after(s: Seq<u8>, i: nat) -> Seq<u8>
    decreases i,
{
    if i == 0 {
        s
    } else {
        after_line(rest_after(s, (i - 1) as nat))
    }
}

/// Display row `i` of a message: its `i`-th line, truncated to the display width
/// and blanked with zeros after its end
pub open spec fn row_spec(msg: Seq<u8>, i: nat) -> Seq<u8> {
    let l = first_line(rest_after(msg, i));
    Seq::new(WIDTH as nat, |j: int| if j < l.len() { l[j] } else { 0u8 })
}

/// A terminal-like display offering a command-line interface
pub struct Terminal {
    buffer: Vec<u8>,
    history: Vec<Vec<u8>>,
    line: usize,
    cursor: usize,
}

impl Terminal {
    pub closed spec fn wf(&self) -> bool {
        &&& self.buffer@.len() == WIDTH * HEIGHT
        &&& self.history@.len() == HIST
        &&& forall|h: int| 0 <= h < HIST ==> (#[trigger] self.history@[h])@.len() == LINE_WIDTH
        &&& self.line < HIST
        &&& self.cursor < LINE_WIDTH
    }

    /// The whole display buffer
    pub closed spec fn buffer_view(&self) -> Seq<u8> {
        self.buffer@
    }

    /// The retained command lines
    pub closed spec fn history_view(&self) -> Seq<Seq<u8>> {
        self.history@.map_values(|h: Vec<u8>| h@)
    }

    /// The command line being edited
    pub closed spec fn line_spec(&self) -> int {
        self.line as int
    }

    /// The cursor position within the command line
    pub closed spec fn cursor_spec(&self) -> int {
        self.cursor as int
    }

    /// The display buffer shows `screen` above the current command line
    pub open spec fn shows_console(&self, screen: Seq<u8>) -> bool {
        self.buffer_view() == screen.subrange(0, SCREEN as int) + console_spec(
            self.history_view()[self.line_spec()],
            self.cursor_spec(),
        )
    }

    /// The screen above the command line shows `msg`, row by row
    pub open spec fn shows(&self, msg: Seq<u8>) -> bool {
        forall|p: int| 0 <= p < SCREEN ==> #[trigger] self.buffer_view()[p]
            == row_spec(msg, (p / WIDTH as int) as nat)[p % WIDTH as int]
    }

    /// What well-formedness guarantees to callers
    pub proof fn lemma_wf(&self)
        requires
            self.wf(),
        ensures
            self.buffer_view().len() == WIDTH * HEIGHT,
            self.history_view().len() == HIST,
            forall|h: int| 0 <= h < HIST ==> (#[trigger] self.history_view()[h]).len() == LINE_WIDTH,
            0 <= self.line_spec() < HIST,
            0 <= self.cursor_spec() < LINE_WIDTH,
    {
    }

    /// Shows `msg` above the command line and redraws the command line
    pub fn display(&mut self, msg: &[u8])
        requires
            old(self).wf(),
        ensures
            final(self).wf(),
            final(self).shows(msg@),
            final(self).history_view() == old(self).history_view(),
            final(self).line_spec() == old(self).line_spec(),
            final(self).cursor_spec() == old(self).cursor_spec(),
    {
        self.message(msg);
        let ghost b = self.buffer@;
        self.update_console();
        assert forall|p: int| 0 <= p < SCREEN implies #[trigger] self.buffer_view()[p]
            == row_spec(msg@, (p / WIDTH as int) as nat)[p % WIDTH as int] by {
            assert(self.buffer@[p] == b[p]);
        }
    }

    /// Creates a new instance with blank display
    pub fn new() -> (r: Terminal)
        ensures
            r.wf(),
            r.buffer_view() == Seq::new((WIDTH * HEIGHT) as nat, |i: int| 0u8),
            r.history_view() == Seq::new(HIST as nat, |h: int| Seq::new(LINE_WIDTH as nat, |i: int| 32u8)),
            r.line_spec() == 0,
            r.cursor_spec() == 0,
    {
        let buffer: Vec<u8> = vec![0u8; WIDTH * HEIGHT];
        let mut history: Vec<Vec<u8>> = Vec::new();
        while history.len() < HIST
            invariant
                history@.len() <= HIST,
                forall|h: int| 0 <= h < history@.len() ==> (#[trigger] history@[h])@ == Seq::new(
                    LINE_WIDTH as nat,
                    |i: int| 32u8,
                ),
            decreases HIST - history@.len(),
        {
            let blank: Vec<u8> = vec![32u8; LINE_WIDTH];
            assert(blank@ =~= Seq::new(LINE_WIDTH as nat, |i: int| 32u8));
            history.push(blank);
        }
        let r = Terminal { buffer, history, line: 0, cursor: 0 };
        assert(r.buffer_view() =~= Seq::new((WIDTH * HEIGHT) as nat, |i: int| 0u8));
        assert(r.history_view() =~= Seq::new(HIST as nat, |h: int| Seq::new(LINE_WIDTH as nat, |i: int| 32u8)));
        r
    }

    /// The display buffer above the command line
    pub fn screen(&self) -> (r: &[u8])
        requires
            self.wf(),
        ensures
            r@ == self.buffer_view().subrange(0, SCREEN as int),
    {
        slice_subrange(self.buffer.as_slice(), 0, SCREEN)
    }

    /// The command-line portion of the display buffer
    pub fn console(&self) -> (r: &[u8])
        requires
            self.wf(),
        ensures
            r@ == self.buffer_view().subrange(SCREEN as int, (WIDTH * HEIGHT) as int),
    {
        slice_subrange(self.buffer.as_slice(), SCREEN, WIDTH * HEIGHT)
    }

    /// Prints the command-line to the display buffer
    pub fn update_console(&mut self)
        requires
            old(self).wf(),
        ensures
            final(self).wf(),
            final(self).shows_console(old(self).buffer_view()),
            final(self).history_view() == old(self).history_view(),
            final(self).line_spec() == old(self).line_spec(),
            final(self).cursor_spec() == old(self).cursor_spec(),
    {
        let cmd = prompt_bytes();
        let ghost shown = console_spec(self.history_view()[self.line as int], self.cursor as int);
        let mut k: usize = 0;
        while k < WIDTH * HEIGHT - SCREEN
            invariant
                self.wf(),
                self.history == old(self).history,
                self.line == old(self).line,
                self.cursor == old(self).cursor,
                cmd@ == prompt(),
                cmd@.len() == CWIDTH,
                shown == console_spec(self.history@[self.line as int]@, self.cursor as int),
                shown.len() == WIDTH * HEIGHT - SCREEN,
                k <= WIDTH * HEIGHT - SCREEN,
                forall|p: int| 0 <= p < SCREEN ==> self.buffer@[p] == old(self).buffer@[p],
                forall|p: int| 0 <= p < k ==> self.buffer@[SCREEN + p] == shown[p],
            decreases WIDTH * HEIGHT - SCREEN - k,
        {
            let b: u8 = if k < CWIDTH {
                cmd[k]
            } else if k - CWIDTH == self.cursor {
                219u8
            } else {
                self.history[self.line][k - CWIDTH]
            };
            self.buffer.set(SCREEN + k, b);
            k = k + 1;
        }
        assert(self.buffer@ =~= old(self).buffer@.subrange(0, SCREEN as int) + shown);
    }

    /// Moves the command-line input cursor one character to the left
    pub fn left(&mut self)
        requires
            old(self).wf(),
        ensures
            final(self).wf(),
            final(self).history_view() == old(self).history_view(),
            final(self).line_spec() == old(self).line_spec(),
            old(self).cursor_spec() > 0 ==> final(self).cursor_spec() == old(self).cursor_spec() - 1
                && final(self).shows_console(old(self).buffer_view()),
            old(self).cursor_spec() == 0 ==> final(self).cursor_spec() == 0
                && final(self).buffer_view() == old(self).buffer_view(),
    {
        if self.cursor > 0 {
            self.cursor = self.cursor - 1;
            self.update_console();
        }
    }

    /// Moves the command-line input cursor one character to the right
    pub fn right(&mut self)
        requires
            old(self).wf(),
        ensures
            final(self).wf(),
            final(self).history_view() == old(self).history_view(),
            final(self).line_spec() == old(self).line_spec(),
            old(self).cursor_spec() < LINE_WIDTH - 1 ==> final(self).cursor_spec() == old(self).cursor_spec() + 1
                && final(self).shows_console(old(self).buffer_view()),
            old(self).cursor_spec() == LINE_WIDTH - 1 ==> final(self).cursor_spec() == LINE_WIDTH - 1
                && final(self).buffer_view() == old(self).buffer_view(),
    {
        if self.cursor < LINE_WIDTH - 1 {
            self.cursor = self.cursor + 1;
            self.update_console();
        }
    }

    /// Cycles forward through the command-line history
    pub fn down(&mut self)
        requires
            old(self).wf(),
        ensures
            final(self).wf(),
            final(self).history_view() == old(self).history_view(),
            final(self).line_spec() == (old(self).line_spec() + 1) % (HIST as int),
            final(self).cursor_spec() == 0,
            final(self).shows_console(old(self).buffer_view()),
    {
        self.cursor = 0;
        self.line = (self.line + 1) % HIST;
        self.update_console();
    }

    /// Cycles backward through the command-line history
    pub fn up(&mut self)
        requires
            old(self).wf(),
        ensures
            final(self).wf(),
            final(self).history_view() == old(self).history_view(),
            final(self).line_spec() == (old(self).line_spec() + HIST - 1) % (HIST as int),
            final(self).cursor_spec() == 0,
            final(self).shows_console(old(self).buffer_view()),
    {
        self.cursor = 0;
        self.line = (self.line + HIST - 1) % HIST;
        self.update_console();
    }

    /// Receives input, assuming code-page 437 encoding: a character below 256 is written
    /// at the cursor, which then moves right
    pub fn input(&mut self, c: u16)
        requires
            old(self).wf(),
        ensures
            final(self).wf(),
            final(self).line_spec() == old(self).line_spec(),
            c >= 256 ==> *final(self) == *old(self),
            c < 256 ==> final(self).history_view() == old(self).history_view().update(
                old(self).line_spec(),
                old(self).history_view()[old(self).line_spec()].update(old(self).cursor_spec(), c as u8),
            ),
            c < 256 ==> final(self).cursor_spec() == if old(self).cursor_spec() < LINE_WIDTH - 1 {
                old(self).cursor_spec() + 1
            } else {
                old(self).cursor_spec()
            },
    {
        if c < 256 {
            let mut h = self.history[self.line].clone();
            assert(h@ == self.history@[self.line as int]@);
            h.set(self.cursor, c as u8);
            self.history.set(self.line, h);
            proof {
                assert forall|k: int| 0 <= k < HIST implies (#[trigger] self.history@[k])@.len() == LINE_WIDTH by {
                    if k != self.line {
                        assert(self.history@[k] == old(self).history@[k]);
                    }
                }
                assert(self.history_view() =~= old(self).history_view().update(
                    old(self).line_spec(),
                    old(self).history_view()[old(self).line_spec()].update(old(self).cursor_spec(), c as u8),
                ));
            }
            self.right();
        }
    }

    /// Consumes the current command line: returns it, moves to the next history line
    /// and blanks that line
    pub fn enter(&mut self) -> (r: Vec<u8>)
        requires
            old(self).wf(),
        ensures
            final(self).wf(),
            r@ == old(self).history_view()[old(self).line_spec()],
            final(self).line_spec() == (old(self).line_spec() + 1) % (HIST as int),
            final(self).cursor_spec() == 0,
            final(self).history_view() == old(self).history_view().update(
                final(self).line_spec(),
                Seq::new(LINE_WIDTH as nat, |i: int| 32u8),
            ),
            final(self).buffer_view() == old(self).buffer_view().subrange(0, SCREEN as int) + console_spec(
                old(self).history_view()[final(self).line_spec()],
                0,
            ),
    {
        let ret = self.history[self.line].clone();
        self.down();
        let ghost mid = self.history@;
        let blank: Vec<u8> = vec![32u8; LINE_WIDTH];
        assert(blank@ =~= Seq::new(LINE_WIDTH as nat, |i: int| 32u8));
        self.history.set(self.line, blank);
        proof {
            assert forall|k: int| 0 <= k < HIST implies (#[trigger] self.history@[k])@.len() == LINE_WIDTH by {
                if k != self.line {
                    assert(self.history@[k] == mid[k]);
                    assert(mid.map_values(|h: Vec<u8>| h@)[k] == old(self).history_view()[k]);
                }
            }
            assert(self.history_view() =~= old(self).history_view().update(
                self.line as int,
                Seq::new(LINE_WIDTH as nat, |i: int| 32u8),
            )) by {
                assert forall|k: int| 0 <= k < HIST && k != self.line implies self.history_view()[k]
                    == old(self).history_view()[k] by {
                    assert(self.history@[k] == mid[k]);
                    assert(mid.map_values(|h: Vec<u8>| h@)[k] == old(self).history_view()[k]);
                }
            }
        }
        ret
    }

    /// Print the message to the display, accounting for newlines and truncating any
    /// long lines: display row `i` shows the `i`-th line of the message
    pub fn message(&mut self, msg: &[u8])
        requires
            old(self).wf(),
        ensures
            final(self).wf(),
            final(self).history_view() == old(self).history_view(),
            final(self).line_spec() == old(self).line_spec(),
            final(self).cursor_spec() == old(self).cursor_spec(),
            forall|p: int| 0 <= p < WIDTH * HEIGHT ==> #[trigger] final(self).buffer_view()[p]
                == row_spec(msg@, (p / WIDTH as int) as nat)[p % WIDTH as int],
    {
        let ghost m = msg@;
        let mut pos: usize = 0;
        let mut i: usize = 0;
        while i < HEIGHT
            invariant
                self.wf(),
                self.history == old(self).history,
                self.line == old(self).line,
                self.cursor == old(self).cursor,
                m == msg@,
                i <= HEIGHT,
                pos <= m.len(),
                m.subrange(pos as int, m.len() as int) == rest_after(m, i as nat),
                forall|p: int| 0 <= p < i * WIDTH ==> #[trigger] self.buffer@[p]
                    == row_spec(m, (p / WIDTH as int) as nat)[p % WIDTH as int],
            decreases HEIGHT - i,
        {
            let base: usize = i * WIDTH;
            let start: usize = pos;
            let mut j: usize = 0;
            while pos < msg.len() && msg[pos] != 10u8
                invariant
                    self.wf(),
                    self.history == old(self).history,
                    self.line == old(self).line,
                    self.cursor == old(self).cursor,
                    m == msg@,
                    i < HEIGHT,
                    base == i * WIDTH,
                    start <= pos <= m.len(),
                    j == pos - start,
                    m.subrange(start as int, m.len() as int) == rest_after(m, i as nat),
                    first_line(m.subrange(start as int, m.len() as int)) == m.subrange(start as int, pos as int)
                        + first_line(m.subrange(pos as int, m.len() as int)),
                    after_line(m.subrange(start as int, m.len() as int)) == after_line(
                        m.subrange(pos as int, m.len() as int)),
                    forall|p: int| 0 <= p < base ==> #[trigger] self.buffer@[p]
                        == row_spec(m, (p / WIDTH as int) as nat)[p % WIDTH as int],
                    forall|k: int| 0 <= k < j && k < WIDTH ==> #[trigger] self.buffer@[base + k] == m[start + k],
                decreases m.len() - pos,
            {
                let ghost sub = m.subrange(pos as int, m.len() as int);
                assert(sub.drop_first() =~= m.subrange(pos + 1, m.len() as int));
                assert(m.subrange(start as int, pos + 1) =~= m.subrange(start as int, pos as int) + seq![m[pos as int]]);
                if j < WIDTH {
                    self.buffer.set(base + j, msg[pos]);
                }
                j = j + 1;
                pos = pos + 1;
            }
            let ghost line_len = j;
            proof {
                let sub = m.subrange(pos as int, m.len() as int);
                assert(first_line(sub) =~= seq![]);
                assert(m.subrange(start as int, pos as int) + seq![] =~= m.subrange(start as int, pos as int));
            }
            if pos < msg.len() {
                assert(m.subrange(pos as int, m.len() as int).drop_first() =~= m.subrange(pos + 1, m.len() as int));
                pos = pos + 1;
            } else {
                assert(m.subrange(pos as int, m.len() as int) =~= seq![]);
            }
            while j < WIDTH
                invariant
                    self.wf(),
                    self.history == old(self).history,
                    self.line == old(self).line,
                    self.cursor == old(self).cursor,
                    i < HEIGHT,
                    base == i * WIDTH,
                    forall|p: int| 0 <= p < base ==> #[trigger] self.buffer@[p]
                        == row_spec(m, (p / WIDTH as int) as nat)[p % WIDTH as int],
                    forall|k: int| 0 <= k < line_len && k < WIDTH ==> #[trigger] self.buffer@[base + k] == m[start + k],
                    forall|k: int| line_len <= k < j && k < WIDTH ==> #[trigger] self.buffer@[base + k] == 0u8,
                    line_len <= j,
                    start + line_len <= m.len(),
                decreases WIDTH - j,
            {
                self.buffer.set(base + j, 0u8);
                j = j + 1;
            }
            proof {
                let l = first_line(rest_after(m, i as nat));
                assert(l == m.subrange(start as int, start + line_len));
                assert forall|p: int| 0 <= p < (i + 1) * WIDTH implies #[trigger] self.buffer@[p]
                    == row_spec(m, (p / WIDTH as int) as nat)[p % WIDTH as int] by {
                    if p >= base {
                        let k = p - base;
                        assert(p / WIDTH as int == i && p % WIDTH as int == k);
                        assert(self.buffer@[base + k] == self.buffer@[p]);
                    }
                }
            }
            i = i + 1;
        }
    }
}

} // verus!
