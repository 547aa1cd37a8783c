//! A text grid over the panel, drawn with an 8 by 16 pixel font.

use crate::display::{HEIGHT, WIDTH};
use vga_framebuffer::freebsd_cp850::FONT_DATA;
use vstd::prelude::*;

verus! {

pub const FONT_WIDTH: usize = 8;

pub const FONT_HEIGHT: usize = 16;

/// Characters in a line.
pub const COLS: usize = WIDTH / FONT_WIDTH;

/// Lines on the panel.
pub const LINES: usize = HEIGHT / FONT_HEIGHT;

/// Glyphs in the font.
pub const GLYPHS: usize = 256;

/// The grid and the place of the next character.
pub struct Console {
    pub buffer: [[char; COLS]; LINES],
    pub line: usize,
    pub col: usize,
}

/// A console as mathematics: the lines from top to bottom, and the cursor.
pub struct ConsoleView {
    pub rows: Seq<Seq<char>>,
    pub line: int,
    pub col: int,
}

/// A line of spaces.
pub open spec fn blank_row() -> Seq<char> {
    Seq::new(COLS as nat, |k: int| ' ')
}

impl ConsoleView {
    /// The grid moved up by one line, with a blank line at the bottom.
    pub open spec fn scrolled(self) -> Seq<Seq<char>> {
        self.rows.skip(1).push(blank_row())
    }

    /// The console after one more character. A full line wraps to the next
    /// one first, and a full grid scrolls.
    pub open spec fn put(self, ch: char) -> ConsoleView {
        let wrap = self.col >= COLS;
        let col = if wrap {
            0
        } else {
            self.col
        };
        let line = if wrap {
            self.line + 1
        } else {
            self.line
        };
        let scroll = line >= LINES;
        let rows = if scroll {
            self.scrolled()
        } else {
            self.rows
        };
        let line = if scroll {
            LINES - 1
        } else {
            line
        };
        ConsoleView { rows: rows.update(line, rows[line].update(col, ch)), line, col: col + 1 }
    }

    /// The console after a line break: the line counts as full, so that the
    /// next character wraps.
    pub open spec fn newline(self) -> ConsoleView {
        ConsoleView { col: COLS as int, ..self }
    }

    /// The console after a text, in which `'\n'` breaks the line.
    pub open spec fn write(self, text: Seq<char>) -> ConsoleView
        decreases text.len(),
    {
        if text.len() == 0 {
            self
        } else {
            let before = self.write(text.drop_last());
            if text.last() == '\n' {
                before.newline()
            } else {
                before.put(text.last())
            }
        }
    }
}

impl View for Console {
    type V = ConsoleView;

    open spec fn view(&self) -> ConsoleView {
        ConsoleView {
            rows: Seq::new(LINES as nat, |l: int| self.buffer[l]@),
            line: self.line as int,
            col: self.col as int,
        }
    }
}

/// The row of font data at `index`: glyph `index / 16`, pixel line
/// `index % 16`, leftmost pixel in the top bit.
pub uninterp spec fn font_row(index: int) -> u8;

/// Reads `vga_framebuffer::freebsd_cp850::FONT_DATA`, the 8 by 16 pixel
/// code page 850 font: 256 glyphs of 16 bytes each. The entry read is the
/// one `font_row` names.
#[verifier::external_body]
fn font_data(index: usize) -> (row: u8)
    requires
        index < GLYPHS * FONT_HEIGHT,
    ensures
        row == font_row(index as int),
{
    FONT_DATA[index]
}

/// Whether pixel `x1` of a font row is set, counted from the left.
pub open spec fn spec_glyph_bit(row: u8, x1: usize) -> bool {
    (row & (0x80u8 >> x1)) != 0
}

#[verifier::when_used_as_spec(spec_glyph_bit)]
pub fn glyph_bit(row: u8, x1: usize) -> (set: bool)
    requires
        x1 < FONT_WIDTH,
    ensures
        set == spec_glyph_bit(row, x1),
{
    (row & (0x80u8 >> x1)) != 0
}

impl Console {
    /// The cursor is on the grid, or just behind the end of a line.
    pub open spec fn wf(&self) -> bool {
        &&& self.line < LINES
        &&& self.col <= COLS
    }

    /// Whether the pixel at `(x, y)` belongs to the character drawn there.
    /// Nothing is drawn off the grid, nor for a character the font lacks.
    pub open spec fn spec_get_pixel(&self, x: usize, y: usize) -> bool {
        let col = x as int / FONT_WIDTH as int;
        let line = y as int / FONT_HEIGHT as int;
        if col < COLS && line < LINES {
            let ch = self.buffer[line][col];
            if (ch as u32) < GLYPHS {
                glyph_bit(
                    font_row((ch as u32) * FONT_HEIGHT + y as int % FONT_HEIGHT as int),
                    (x % FONT_WIDTH) as usize,
                )
            } else {
                false
            }
        } else {
            false
        }
    }

    /// An empty grid with the cursor at the top left.
    pub fn new() -> (console: Self)
        ensures
            console.wf(),
            console@.line == 0,
            console@.col == 0,
            console@.rows == Seq::new(LINES as nat, |l: int| blank_row()),
    {
        let console = Console { buffer: [[' ';COLS];LINES], line: 0, col: 0 };
        assert(console@.rows =~~= Seq::new(LINES as nat, |l: int| blank_row()));
        console
    }

    fn scroll(&mut self)
        requires
            old(self).line >= 1,
        ensures
            final(self)@.rows == old(self)@.scrolled(),
            final(self).line == old(self).line - 1,
            final(self).col == old(self).col,
    {
        let mut line: usize = 0;
        while line < LINES - 1
            invariant
                line <= LINES - 1,
                self.line == old(self).line,
                self.col == old(self).col,
                forall|l: int| 0 <= l < line ==> self.buffer[l] == old(self).buffer[l + 1],
                forall|l: int| line <= l < LINES ==> self.buffer[l] == old(self).buffer[l],
            decreases LINES - 1 - line,
        {
            self.buffer[line] = self.buffer[line + 1];
            line += 1;
        }
        self.buffer[LINES - 1] = [' ';COLS];
        self.line -= 1;
        assert(self@.rows =~~= old(self)@.scrolled());
    }

    /// Puts a character at the cursor and moves the cursor on.
    pub fn add_char(&mut self, ch: char)
        requires
            old(self).wf(),
        ensures
            final(self).wf(),
            final(self)@ == old(self)@.put(ch),
    {
        if self.col >= COLS {
            self.col = 0;
            self.line += 1;
        }
        while self.line >= LINES
            invariant
                self.line <= LINES,
                self.col < COLS,
                self.col == (if old(self).col >= COLS {
                    0
                } else {
                    old(self).col
                }),
                self.line == LINES ==> old(self).line == LINES - 1 && old(self).col >= COLS
                    && self@.rows == old(self)@.rows,
                self.line < LINES ==> self@.line == old(self)@.put(ch).line,
                self.line < LINES ==> self@.rows == (if old(self).col >= COLS && old(self).line + 1
                    >= LINES {
                    old(self)@.scrolled()
                } else {
                    old(self)@.rows
                }),
            decreases self.line,
        {
            self.scroll();
        }

        self.buffer[self.line][self.col] = ch;
        self.col += 1;
        assert(self@.rows =~~= old(self)@.put(ch).rows);
    }

    /// Breaks the line.
    pub fn add_nl(&mut self)
        ensures
            final(self)@ == old(self)@.newline(),
            old(self).wf() ==> final(self).wf(),
    {
        // Cause scrolling in the next `add_char()` invokation
        self.col = COLS;
        assert(self@.rows =~~= old(self)@.rows);
    }

    /// Whether the pixel at `(x, y)` is lit.
    #[verifier::when_used_as_spec(spec_get_pixel)]
    pub fn get_pixel(&self, x: usize, y: usize) -> (lit: bool)
        ensures
            lit == self.spec_get_pixel(x, y),
    {
        let col = x / FONT_WIDTH;
        let line = y / FONT_HEIGHT;
        if col < COLS && line < LINES {
            let ch = self.buffer[line][col];
            let code = ch as u32;
            if code < GLYPHS as u32 {
                let y1 = y % FONT_HEIGHT;
                let row = font_data((code as usize) * FONT_HEIGHT + y1);
                let x1 = x % FONT_WIDTH;
                glyph_bit(row, x1)
            } else {
                false
            }
        } else {
            false
        }
    }

    /// Writes a text, in which `'\n'` breaks the line.
    pub fn write_str(&mut self, s: &str)
        requires
            old(self).wf(),
        ensures
            final(self).wf(),
            final(self)@ == old(self)@.write(s@),
    {
        for ch in it: s.chars()
            invariant
                self.wf(),
                it.seq() == s@,
                self@ == old(self)@.write(s@.take(it.index() as int)),
        {
            proof {
                let done = s@.take(it.index() as int + 1);
                assert(done.drop_last() =~= s@.take(it.index() as int));
                assert(done.last() == ch);
            }
            if ch == '\n' {
                self.add_nl();
            } else {
                self.add_char(ch);
            }
        }
        assert(s@.take(s@.len() as int) =~= s@);
    }
}

} // verus!
