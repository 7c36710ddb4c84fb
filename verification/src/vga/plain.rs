use vstd::prelude::*;
use vstd::string::StrSliceExecFns;
use crate::vga::{
    VgaView, VGA_ADDR, VGA_CELLS, VGA_COLS, VGA_ROWS, cell_index, cleared, obtained, newline, wf,
    is_printable,
};

verus! {

/// Glyph shown for characters that are not printable ASCII.
pub const BLOCK_GLYPH: u16 = 219;

/// The fixed attribute: white on black.
pub const WHITE_ON_BLACK: u16 = 0x0f00;

/// The cell value for `c`: printable ASCII as itself, anything else as a
/// solid block, white on black.
pub open spec fn plain_glyph(c: char) -> u16 {
    ((if is_printable(c) {
        c as u32 as int
    } else {
        BLOCK_GLYPH as int
    }) + WHITE_ON_BLACK) as u16
}

/// Putting a character without scrolling: past the last column it goes to
/// the start of the next row.
pub open spec fn plain_put(v: VgaView, c: char) -> VgaView {
    let wraps = v.col >= VGA_COLS;
    let x = if wraps {
        v.col - VGA_COLS
    } else {
        v.col
    };
    let y = if wraps {
        v.row + 1
    } else {
        v.row
    };
    VgaView {
        cells: v.cells.update(cell_index(y, x), plain_glyph(c)),
        row: y,
        col: if wraps {
            v.col + 1 - VGA_COLS
        } else {
            v.col + 1
        },
        ..v
    }
}

/// The console after writing `c`.
pub open spec fn plain_write_char(v: VgaView, c: char) -> VgaView {
    let (w, buf) = obtained(v);
    let after = if c == '\n' {
        newline(w)
    } else {
        plain_put(w, c)
    };
    VgaView { ptr: buf, ..after }
}

/// Whether writing `c` stays on the screen: this console never goes back
/// to the top, so neither a line end nor a character may land below the
/// last row.
pub open spec fn plain_write_char_ok(v: VgaView, c: char) -> bool {
    let w = obtained(v).0;
    if c == '\n' {
        w.row < VGA_ROWS
    } else if w.col >= VGA_COLS {
        w.row + 1 < VGA_ROWS
    } else {
        w.row < VGA_ROWS
    }
}

/// The console after writing the characters of `s` in order.
pub open spec fn plain_write_str(v: VgaView, s: Seq<char>) -> VgaView
    decreases s.len(),
{
    if s.len() == 0 {
        v
    } else {
        plain_write_char(plain_write_str(v, s.drop_last()), s.last())
    }
}

/// Whether every character of `s`, written in order, stays on the screen.
pub open spec fn plain_write_str_ok(v: VgaView, s: Seq<char>) -> bool
    decreases s.len(),
{
    s.len() == 0 || (plain_write_str_ok(v, s.drop_last()) && plain_write_char_ok(
        plain_write_str(v, s.drop_last()),
        s.last(),
    ))
}

proof fn lemma_plain_ok_prefix(v: VgaView, s: Seq<char>, i: int)
    requires
        plain_write_str_ok(v, s),
        0 <= i <= s.len(),
    ensures
        plain_write_str_ok(v, s.take(i)),
    decreases s.len(),
{
    if i == s.len() {
        assert(s.take(i) =~= s);
    } else {
        assert(s.drop_last().take(i) =~= s.take(i));
        lemma_plain_ok_prefix(v, s.drop_last(), i);
    }
}

/// The text console with a fixed white-on-black attribute.
pub struct VGA {
    cells: Vec<u16>,
    ptr: usize,
    curr_row: usize,
    curr_column: usize,
}

impl View for VGA {
    type V = VgaView;

    closed spec fn view(&self) -> VgaView {
        VgaView {
            cells: self.cells@,
            row: self.curr_row as int,
            col: self.curr_column as int,
            color: 0x0f,
            ptr: self.ptr,
        }
    }
}

fn plain_glyph_of(c: char) -> (r: u16)
    ensures
        r == plain_glyph(c),
{
    let code = c as u32;
    let base: u16 = if code < 128 && !(code < 32 || code == 127) {
        code as u16
    } else {
        BLOCK_GLYPH
    };
    assert(base | 0x0f00u16 == base + 0x0f00u16) by (bit_vector)
        requires
            base < 256,
    ;
    base | WHITE_ON_BLACK
}

impl VGA {
    /// A console with a blank screen, the cursor home, and the buffer at the
    /// fixed address.
    pub fn new() -> (r: Self)
        ensures
            wf(r@),
            r@ == (VgaView {
                cells: Seq::new(VGA_CELLS as nat, |i: int| 0u16),
                row: 0,
                col: 0,
                color: 0x0f,
                ptr: VGA_ADDR,
            }),
    {
        let mut cells: Vec<u16> = Vec::new();
        let mut i: usize = 0;
        while i < VGA_CELLS
            invariant
                i <= VGA_CELLS,
                cells@ == Seq::new(i as nat, |j: int| 0u16),
            decreases VGA_CELLS - i,
        {
            cells.push(0);
            i = i + 1;
        }
        VGA { cells, ptr: VGA_ADDR, curr_row: 0, curr_column: 0 }
    }

    /// The value of the cell at `row`, `col`.
    pub fn cell(&self, row: usize, col: usize) -> (r: u16)
        requires
            wf(self@),
            row < VGA_ROWS,
            col < VGA_COLS,
        ensures
            r == self@.cells[cell_index(row as int, col as int)],
    {
        self.cells[Self::index(row, col)]
    }

    /// The cursor as (row, column).
    pub fn cursor(&self) -> (r: (usize, usize))
        ensures
            r.0 == self@.row,
            r.1 == self@.col,
    {
        (self.curr_row, self.curr_column)
    }

    /// A writer that sends text to this console.
    pub fn writer(&mut self) -> (w: VGAWriter<'_>)
        ensures
            *w.0 == *old(self),
            *final(self) == *final(w.0),
    {
        VGAWriter(self)
    }

    /// Blanks the screen and sends the cursor home.
    fn clear(&mut self)
        requires
            wf(old(self)@),
        ensures
            final(self)@ == cleared(old(self)@),
    {
        let mut i: usize = 0;
        while i < VGA_CELLS
            invariant
                i <= VGA_CELLS,
                self.cells@.len() == VGA_CELLS,
                forall|j: int| 0 <= j < i ==> self.cells@[j] == 0u16,
                self.ptr == old(self).ptr,
            decreases VGA_CELLS - i,
        {
            self.cells.set(i, 0);
            i = i + 1;
        }
        self.curr_row = 0;
        self.curr_column = 0;
        assert(self.cells@ =~= Seq::new(VGA_CELLS as nat, |i: int| 0u16));
    }

    /// Takes the buffer for a write, starting over at the fixed address
    /// with a clear screen when it was already taken.
    fn obtain(&mut self) -> (buf: usize)
        requires
            wf(old(self)@),
        ensures
            (final(self)@, buf) == obtained(old(self)@),
    {
        let mut res = self.ptr;
        self.ptr = 0;
        if res == 0 {
            res = VGA_ADDR;
            self.clear();
        }
        res
    }

    /// Hands the buffer back to the console; the rest of its state is kept.
    pub fn release(&mut self, buf: usize)
        ensures
            final(self)@ == (VgaView { ptr: buf, ..old(self)@ }),
    {
        self.ptr = buf;
    }

    /// The position of the cell at row `y`, column `x`.
    fn index(y: usize, x: usize) -> (r: usize)
        requires
            y < VGA_ROWS,
            x <= VGA_COLS,
        ensures
            r == cell_index(y as int, x as int),
    {
        y * VGA_COLS + x
    }

    /// The position of the cursor's cell.
    fn cur_index(&self) -> (r: usize)
        requires
            self.curr_row < VGA_ROWS,
            self.curr_column <= VGA_COLS,
        ensures
            r == cell_index(self@.row, self@.col),
    {
        Self::index(self.curr_row, self.curr_column)
    }

    /// Blanks the rest of the cursor's row and moves to the next row.
    fn new_line(&mut self)
        requires
            wf(old(self)@),
            old(self)@.row < VGA_ROWS,
        ensures
            final(self)@ == newline(old(self)@),
    {
        let start = self.cur_index();
        let stop = Self::index(self.curr_row, VGA_COLS);
        let ghost before = self.cells@;
        let mut i: usize = start;
        while i < stop
            invariant
                start <= i <= stop,
                stop == cell_index(self.curr_row as int, VGA_COLS as int),
                stop <= VGA_CELLS,
                self.cells@.len() == VGA_CELLS,
                self.curr_row == old(self).curr_row,
                self.curr_column == old(self).curr_column,
                self.ptr == old(self).ptr,
                forall|j: int| 0 <= j < self.cells@.len() ==> self.cells@[j] == (if start <= j < i {
                    0u16
                } else {
                    before[j]
                }),
            decreases stop - i,
        {
            self.cells.set(i, 0);
            i = i + 1;
        }
        self.curr_column = 0;
        self.curr_row = self.curr_row + 1;
        assert(self.cells@ =~= newline(old(self)@).cells);
    }

    /// Writes one character: a newline ends the line; anything else is put
    /// at the cursor, printable ASCII as itself and everything else as a
    /// solid block, white on black.
    pub fn write_char(&mut self, c: char)
        requires
            wf(old(self)@),
            plain_write_char_ok(old(self)@, c),
        ensures
            final(self)@ == plain_write_char(old(self)@, c),
            wf(final(self)@),
    {
        let buf = self.obtain();
        if c == '\n' {
            self.new_line();
            self.release(buf);
            return;
        }
        let ch = plain_glyph_of(c);
        let mut x = self.curr_column;
        self.curr_column = self.curr_column + 1;
        let mut y = self.curr_row;
        if x >= VGA_COLS {
            x = x - VGA_COLS;
            y = self.curr_row + 1;
            self.curr_row = self.curr_row + 1;
            if y >= VGA_ROWS {
                x = x - VGA_ROWS;
                self.curr_row = self.curr_row - VGA_ROWS;
            }
            self.curr_column = self.curr_column - VGA_COLS;
        }
        let at = Self::index(y, x);
        self.cells.set(at, ch);
        self.release(buf);
    }
}

/// A writer that sends text to a console.
pub struct VGAWriter<'a>(pub &'a mut VGA);

impl<'a> VGAWriter<'a> {
    /// Writes each character of `s` in order; always succeeds.
    pub fn write_str(&mut self, s: &str) -> (r: core::fmt::Result)
        requires
            wf(old(self).0@),
            plain_write_str_ok(old(self).0@, s@),
        ensures
            final(self).0@ == plain_write_str(old(self).0@, s@),
            wf(final(self).0@),
            r is Ok,
    {
        let n = s.unicode_len();
        let mut i: usize = 0;
        while i < n
            invariant
                i <= n,
                n == s@.len(),
                wf(self.0@),
                plain_write_str_ok(old(self).0@, s@),
                self.0@ == plain_write_str(old(self).0@, s@.take(i as int)),
            decreases n - i,
        {
            let c = s.get_char(i);
            proof {
                lemma_plain_ok_prefix(old(self).0@, s@, i + 1);
                assert(s@.take(i + 1).drop_last() =~= s@.take(i as int));
            }
            self.0.write_char(c);
            i = i + 1;
        }
        proof {
            assert(s@.take(n as int) =~= s@);
        }
        Ok(())
    }

    /// Writes one character; always succeeds.
    pub fn write_char(&mut self, c: char) -> (r: core::fmt::Result)
        requires
            wf(old(self).0@),
            plain_write_char_ok(old(self).0@, c),
        ensures
            final(self).0@ == plain_write_char(old(self).0@, c),
            wf(final(self).0@),
            r is Ok,
    {
        self.0.write_char(c);
        Ok(())
    }
}

/// Writing one text after another is writing the two joined.
pub proof fn lemma_plain_write_str_concat(v: VgaView, s1: Seq<char>, s2: Seq<char>)
    ensures
        plain_write_str(v, s1 + s2) == plain_write_str(plain_write_str(v, s1), s2),
        plain_write_str_ok(v, s1 + s2) <==> plain_write_str_ok(v, s1) && plain_write_str_ok(
            plain_write_str(v, s1),
            s2,
        ),
    decreases s2.len(),
{
    if s2.len() == 0 {
        assert(s1 + s2 =~= s1);
    } else {
        lemma_plain_write_str_concat(v, s1, s2.drop_last());
        assert((s1 + s2).drop_last() =~= s1 + s2.drop_last());
        assert((s1 + s2).last() == s2.last());
    }
}

/// This console never goes back to the top: a character that does not fit
/// after the last column of the last row cannot be written.
pub proof fn lemma_plain_no_wrap_at_bottom(v: VgaView, c: char)
    requires
        v.ptr != 0,
        v.row == VGA_ROWS - 1,
        v.col == VGA_COLS,
        c != '\n',
    ensures
        !plain_write_char_ok(v, c),
{
}

/// The cell value of a character: a printable ASCII character, space
/// included (codes 32 to 126), is stored as its own code; every other
/// character as 219; the attribute byte is always white on black (0x0f).
pub proof fn lemma_plain_glyph_codes(c: char)
    ensures
        32 <= (c as u32) < 127 ==> plain_glyph(c) == (c as u32) + 0x0f00,
        !(32 <= (c as u32) < 127) ==> plain_glyph(c) == 219 + 0x0f00,
        plain_glyph(c) / 256 == 0x0f,
{
}

} // verus!
