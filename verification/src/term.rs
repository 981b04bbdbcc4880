//! Terminal geometry negotiation.
//!
//! The probe writes three escape queries to the terminal (window size in
//! pixels, window size in cells, device attributes) and parses the response
//! stream byte by byte with a small state machine.  The device-attributes
//! reply reliably ends with the byte `c`, which terminates parsing.  The
//! parser itself is pure and fully verified; feeding it bytes read from the
//! terminal is left to the caller.

use vstd::prelude::*;

verus! {

/// Escape introducer.
pub const BYTE_ESC: u8 = 0x1b;
/// `[`, the control-sequence introducer's second byte.
pub const BYTE_BRACKET: u8 = 91;
/// `?`, introducing device-attribute parameters (ignored).
pub const BYTE_QUESTION: u8 = 63;
/// `;`, the numeric field separator.
pub const BYTE_SEMI: u8 = 59;
/// `c`, the final byte of the device-attributes reply.
pub const BYTE_DA1_END: u8 = 99;

/// Column count assumed when the terminal cannot be probed.
pub const FALLBACK_COLUMNS: u32 = 80;
/// Cell height in pixels assumed when the terminal cannot be probed.
pub const FALLBACK_CELL_HEIGHT: u32 = 16;
/// Cell width in pixels assumed when the terminal cannot be probed.
pub const FALLBACK_CELL_WIDTH: u32 = 8;

/// Terminal geometry: visible column count and the pixel size of one cell.
/// Computed once per invocation and immutable afterwards.
#[derive(Clone, Copy, Debug)]
pub struct Term {
    pub columns: u32,
    pub cell_height: u32,
    pub cell_width: u32,
}

impl Term {
    /// A geometry is usable only if no dimension is zero; the renderer
    /// divides pixel sizes by the cell size.
    pub open spec fn wf(self) -> bool {
        self.columns > 0 && self.cell_height > 0 && self.cell_width > 0
    }

    pub open spec fn spec_fallback() -> Term {
        Term {
            columns: FALLBACK_COLUMNS,
            cell_height: FALLBACK_CELL_HEIGHT,
            cell_width: FALLBACK_CELL_WIDTH,
        }
    }

    /// Hardcoded default geometry, used whenever the terminal is not
    /// interactive or does not answer the probe.
    pub fn fallback() -> (t: Term)
        ensures
            t == Term::spec_fallback(),
            t.wf(),
    {
        Term {
            columns: FALLBACK_COLUMNS,
            cell_height: FALLBACK_CELL_HEIGHT,
            cell_width: FALLBACK_CELL_WIDTH,
        }
    }
}

/// Parser position inside the terminal's response stream.
#[derive(PartialEq, Eq, Structural, Clone, Copy, Debug)]
pub enum ParseState {
    /// Not inside any recognized sequence.
    Idle,
    /// An escape byte was just seen.
    Esc,
    /// `ESC [` was seen.
    Bracket,
    /// `ESC [ ?`: device-attribute parameters, ignored until the final byte.
    Question,
    /// `ESC [ 4`: a window-size-in-pixels report; height follows the next `;`.
    BeforeWinHeight,
    /// Accumulating the window height in pixels.
    WinHeight,
    /// Accumulating the window width in pixels.
    WinWidth,
    /// `ESC [ 8`: a window-size-in-cells report; rows follow the next `;`.
    BeforeRows,
    /// Accumulating the row count.
    Rows,
    /// Accumulating the column count.
    Cols,
}

/// State of the response parser: the current position, the four numeric
/// fields accumulated so far, and whether the terminating byte was seen.
#[derive(PartialEq, Eq, Structural, Clone, Copy, Debug)]
pub struct Probe {
    pub state: ParseState,
    pub win_height: u32,
    pub win_width: u32,
    pub rows: u32,
    pub cols: u32,
    pub done: bool,
}

/// One more decimal digit appended to an accumulating field, saturating at
/// `u32::MAX` instead of wrapping.
pub open spec fn spec_accum(acc: u32, d: u32) -> u32 {
    if acc * 10 + d > u32::MAX {
        u32::MAX
    } else {
        (acc * 10 + d) as u32
    }
}

/// The parser's transition function for one input byte.  The terminating
/// byte `c` stops the parser in any state; an escape byte restarts sequence
/// recognition; `;` advances between numeric fields; digits either select
/// the report kind (after `ESC [`) or accumulate into the active field; any
/// other byte leaves the numeric fields untouched.
pub open spec fn spec_step(p: Probe, b: u8) -> Probe {
    if p.done {
        p
    } else if b == BYTE_DA1_END {
        Probe { done: true, ..p }
    } else if b == BYTE_ESC {
        Probe { state: ParseState::Esc, ..p }
    } else if b == BYTE_BRACKET && p.state == ParseState::Esc {
        Probe { state: ParseState::Bracket, ..p }
    } else if b == BYTE_QUESTION && p.state == ParseState::Bracket {
        Probe { state: ParseState::Question, ..p }
    } else if b == BYTE_SEMI {
        match p.state {
            ParseState::BeforeWinHeight => Probe { state: ParseState::WinHeight, ..p },
            ParseState::WinHeight => Probe { state: ParseState::WinWidth, ..p },
            ParseState::BeforeRows => Probe { state: ParseState::Rows, ..p },
            ParseState::Rows => Probe { state: ParseState::Cols, ..p },
            _ => p,
        }
    } else if 48 <= b && b <= 57 {
        let d = (b - 48) as u32;
        if d == 4 && p.state == ParseState::Bracket {
            Probe { state: ParseState::BeforeWinHeight, ..p }
        } else if d == 8 && p.state == ParseState::Bracket {
            Probe { state: ParseState::BeforeRows, ..p }
        } else if p.state == ParseState::WinHeight {
            Probe { win_height: spec_accum(p.win_height, d), ..p }
        } else if p.state == ParseState::WinWidth {
            Probe { win_width: spec_accum(p.win_width, d), ..p }
        } else if p.state == ParseState::Rows {
            Probe { rows: spec_accum(p.rows, d), ..p }
        } else if p.state == ParseState::Cols {
            Probe { cols: spec_accum(p.cols, d), ..p }
        } else {
            p
        }
    } else {
        p
    }
}

/// The parser applied to a whole byte sequence, stopping at the terminator.
pub open spec fn spec_feed(p: Probe, s: Seq<u8>) -> Probe
    decreases s.len(),
{
    if s.len() == 0 || p.done {
        p
    } else {
        spec_feed(spec_step(p, s[0]), s.drop_first())
    }
}

impl Probe {
    pub open spec fn spec_init() -> Probe {
        Probe {
            state: ParseState::Idle,
            win_height: 0,
            win_width: 0,
            rows: 0,
            cols: 0,
            done: false,
        }
    }

    /// The geometry a finished parse yields: `None` unless the terminator
    /// was seen and every field is non-zero; otherwise the cell size is the
    /// window pixel size divided by the cell counts.
    pub open spec fn spec_geometry(self) -> Option<Term> {
        if self.done && self.win_height > 0 && self.win_width > 0 && self.rows > 0 && self.cols
            > 0 {
            Some(
                Term {
                    columns: self.cols,
                    cell_height: (self.win_height / self.rows) as u32,
                    cell_width: (self.win_width / self.cols) as u32,
                },
            )
        } else {
            None
        }
    }

    pub fn new() -> (p: Probe)
        ensures
            p == Probe::spec_init(),
    {
        Probe {
            state: ParseState::Idle,
            win_height: 0,
            win_width: 0,
            rows: 0,
            cols: 0,
            done: false,
        }
    }

    /// Whether the terminating byte has been seen; no further input changes
    /// the parse.
    pub fn is_done(&self) -> (b: bool)
        ensures
            b == self.done,
    {
        self.done
    }

    /// Advance the parser by one response byte.
    pub fn step(&mut self, b: u8)
        ensures
            *final(self) == spec_step(*old(self), b),
    {
        if self.done {
            return;
        }
        if b == BYTE_DA1_END {
            self.done = true;
        } else if b == BYTE_ESC {
            self.state = ParseState::Esc;
        } else if b == BYTE_BRACKET && self.state == ParseState::Esc {
            self.state = ParseState::Bracket;
        } else if b == BYTE_QUESTION && self.state == ParseState::Bracket {
            self.state = ParseState::Question;
        } else if b == BYTE_SEMI {
            match self.state {
                ParseState::BeforeWinHeight => {
                    self.state = ParseState::WinHeight;
                },
                ParseState::WinHeight => {
                    self.state = ParseState::WinWidth;
                },
                ParseState::BeforeRows => {
                    self.state = ParseState::Rows;
                },
                ParseState::Rows => {
                    self.state = ParseState::Cols;
                },
                _ => {},
            }
        } else if 48 <= b && b <= 57 {
            let d = (b - 48) as u32;
            if d == 4 && self.state == ParseState::Bracket {
                self.state = ParseState::BeforeWinHeight;
            } else if d == 8 && self.state == ParseState::Bracket {
                self.state = ParseState::BeforeRows;
            } else if self.state == ParseState::WinHeight {
                self.win_height = accum(self.win_height, d);
            } else if self.state == ParseState::WinWidth {
                self.win_width = accum(self.win_width, d);
            } else if self.state == ParseState::Rows {
                self.rows = accum(self.rows, d);
            } else if self.state == ParseState::Cols {
                self.cols = accum(self.cols, d);
            }
        }
    }

    /// Advance the parser over a buffer of response bytes.
    pub fn feed(&mut self, data: &[u8])
        ensures
            *final(self) == spec_feed(*old(self), data@),
    {
        let n = data.len();
        let mut i: usize = 0;
        proof {
            assert(data@.skip(0) =~= data@);
        }
        while i < n
            invariant
                i <= n,
                n == data@.len(),
                spec_feed(*old(self), data@) == spec_feed(*self, data@.skip(i as int)),
            decreases n - i,
        {
            proof {
                assert(data@.skip(i as int).len() > 0);
                assert(data@.skip(i as int)[0] == data@[i as int]);
                assert(data@.skip(i as int).drop_first() =~= data@.skip(i + 1));
            }
            let b = data[i];
            self.step(b);
            i = i + 1;
        }
        proof {
            assert(data@.skip(n as int) =~= Seq::<u8>::empty());
        }
    }

    /// The geometry of a finished parse, if the response was complete.
    pub fn geometry(&self) -> (t: Option<Term>)
        ensures
            t == self.spec_geometry(),
    {
        if self.done && self.win_height > 0 && self.win_width > 0 && self.rows > 0 && self.cols
            > 0 {
            Some(
                Term {
                    columns: self.cols,
                    cell_height: self.win_height / self.rows,
                    cell_width: self.win_width / self.cols,
                },
            )
        } else {
            None
        }
    }
}

fn accum(acc: u32, d: u32) -> (r: u32)
    requires
        d < 10,
    ensures
        r == spec_accum(acc, d),
{
    let v: u64 = acc as u64 * 10 + d as u64;
    if v > u32::MAX as u64 {
        u32::MAX
    } else {
        v as u32
    }
}

/// The geometry obtained from a complete captured response stream: the
/// parsed geometry when the stream contains a terminated, fully numeric
/// response whose computed cell size is non-zero, and the fallback geometry
/// otherwise.
pub open spec fn spec_probe_geometry(input: Seq<u8>) -> Term {
    match spec_feed(Probe::spec_init(), input).spec_geometry() {
        Some(t) => if t.cell_height > 0 && t.cell_width > 0 {
            t
        } else {
            Term::spec_fallback()
        },
        None => Term::spec_fallback(),
    }
}

/// Parse a captured response stream into a geometry, never failing: any
/// absent, unterminated or degenerate response yields the fallback.  The
/// input acts as the bounded substitute for the terminal's reply; a caller
/// that reads from a live terminal may instead feed a [`Probe`] directly.
pub fn probe_geometry(input: &[u8]) -> (t: Term)
    ensures
        t == spec_probe_geometry(input@),
        t.wf(),
{
    let mut p = Probe::new();
    p.feed(input);
    match p.geometry() {
        Some(t) => {
            if t.cell_height > 0 && t.cell_width > 0 {
                t
            } else {
                Term::fallback()
            }
        },
        None => Term::fallback(),
    }
}

/// Feeding a response stream in chunks parses exactly as feeding it
/// whole, so a caller reading from a terminal may hand over whatever each
/// read returns.
pub proof fn lemma_feed_concat(p: Probe, a: Seq<u8>, b: Seq<u8>)
    ensures
        spec_feed(p, a + b) == spec_feed(spec_feed(p, a), b),
    decreases a.len(),
{
    if a.len() == 0 {
        assert(a + b =~= b);
    } else if p.done {
    } else {
        assert((a + b)[0] == a[0]);
        assert((a + b).drop_first() =~= a.drop_first() + b);
        lemma_feed_concat(spec_step(p, a[0]), a.drop_first(), b);
    }
}

proof fn lemma_step_not_done(p: Probe, b: u8)
    requires
        !p.done,
        b != BYTE_DA1_END,
    ensures
        !spec_step(p, b).done,
{
}

proof fn lemma_feed_not_done(p: Probe, s: Seq<u8>)
    requires
        !p.done,
        forall|i: int| 0 <= i < s.len() ==> s[i] != BYTE_DA1_END,
    ensures
        !spec_feed(p, s).done,
    decreases s.len(),
{
    if s.len() > 0 {
        lemma_step_not_done(p, s[0]);
        assert(forall|i: int|
            0 <= i < s.drop_first().len() ==> s.drop_first()[i] == s[i + 1]);
        lemma_feed_not_done(spec_step(p, s[0]), s.drop_first());
    }
}

/// An input stream that never delivers the terminating byte leaves the
/// probe unfinished, so the geometry falls back to the documented default.
pub proof fn lemma_probe_without_terminator(input: Seq<u8>)
    requires
        forall|i: int| 0 <= i < input.len() ==> input[i] != BYTE_DA1_END,
    ensures
        spec_probe_geometry(input) == Term::spec_fallback(),
{
    lemma_feed_not_done(Probe::spec_init(), input);
}

} // verus!
