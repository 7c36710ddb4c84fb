use vstd::prelude::*;
use vstd::string::StrSliceExecFns;

pub mod plain;

verus! {

/// Columns of the text screen.
pub const VGA_COLS: usize = 80;

/// Rows of the text screen.
pub const VGA_ROWS: usize = 25;

/// Cells of the text screen.
pub const VGA_CELLS: usize = 2000;

/// Address of the text buffer.
pub const VGA_ADDR: usize = 0xb8000;

/// Glyph shown for characters that are not printable ASCII.
pub const REPLACEMENT_GLYPH: u16 = 168;

/// The abstract state of the console: the screen cells in row-major order,
/// the cursor, the attribute byte, and the buffer address the console holds
/// (0 while a write has taken it).
pub struct VgaView {
    pub cells: Seq<u16>,
    pub row: int,
    pub col: int,
    pub color: u8,
    pub ptr: usize,
}

/// The text console: a 25 by 80 screen of cells with a cursor and an
/// attribute byte for new characters.
pub struct VGA {
    cells: Vec<u16>,
    ptr: usize,
    curr_row: usize,
    curr_column: usize,
    pub color: u8,
}

impl View for VGA {
    type V = VgaView;

    closed spec fn view(&self) -> VgaView {
        VgaView {
            cells: self.cells@,
            row: self.curr_row as int,
            col: self.curr_column as int,
            color: self.color,
            ptr: self.ptr,
        }
    }
}

/// The position of a cell in row-major order.
pub open spec fn cell_index(row: int, col: int) -> int {
    row * 80 + col
}

/// A console state every operation keeps: a full screen, the column at most
/// one past the last, the row at most one past the last, and the cursor at
/// the start of that extra row when it is there.
pub open spec fn wf(v: VgaView) -> bool {
    &&& v.cells.len() == VGA_CELLS
    &&& 0 <= v.col <= VGA_COLS
    &&& 0 <= v.row <= VGA_ROWS
    &&& v.row == VGA_ROWS ==> v.col == 0
}

/// Printable ASCII: not a control character and below 128.
pub open spec fn is_printable(c: char) -> bool {
    32 <= (c as u32) < 127
}

/// The cell value for `c` under attribute `color`.
pub open spec fn glyph(c: char, color: u8) -> u16 {
    ((if is_printable(c) {
        c as u32 as int
    } else {
        REPLACEMENT_GLYPH as int
    }) + 256 * color) as u16
}

/// The screen after clearing: every cell 0 and the cursor home.
pub open spec fn cleared(v: VgaView) -> VgaView {
    VgaView { cells: Seq::new(VGA_CELLS as nat, |i: int| 0u16), row: 0, col: 0, ..v }
}

/// Taking the buffer: the console's address and the state left behind. A
/// console whose buffer was already taken starts over with a clear screen
/// at the fixed address.
pub open spec fn obtained(v: VgaView) -> (VgaView, usize) {
    if v.ptr == 0 {
        (VgaView { ptr: 0, ..cleared(v) }, VGA_ADDR)
    } else {
        (VgaView { ptr: 0, ..v }, v.ptr)
    }
}

/// Ending the line: the rest of the cursor's row is blanked and the cursor
/// moves to the start of the next row.
pub open spec fn newline(v: VgaView) -> VgaView {
    VgaView {
        cells: Seq::new(
            v.cells.len(),
            |i: int|
                if cell_index(v.row, v.col) <= i < cell_index(v.row, VGA_COLS as int) {
                    0u16
                } else {
                    v.cells[i]
                },
        ),
        row: v.row + 1,
        col: 0,
        ..v
    }
}

/// Putting a character: past the last column it goes to the start of the
/// next row, past the last row to the top row; the cursor moves past it.
pub open spec fn put(v: VgaView, c: char) -> VgaView {
    let wraps = v.col >= VGA_COLS;
    let x = if wraps {
        v.col - VGA_COLS
    } else {
        v.col
    };
    let y0 = if wraps {
        v.row + 1
    } else {
        v.row
    };
    let y = if y0 >= VGA_ROWS {
        y0 - VGA_ROWS
    } else {
        y0
    };
    VgaView {
        cells: v.cells.update(cell_index(y, x), glyph(c, v.color)),
        row: y,
        col: if wraps {
            v.col + 1 - VGA_COLS
        } else {
            v.col + 1
        },
        ..v
    }
}

/// The console after writing `c`.
pub open spec fn spec_write_char(v: VgaView, c: char) -> VgaView {
    let (w, buf) = obtained(v);
    let after = if c == '\n' {
        newline(w)
    } else {
        put(w, c)
    };
    VgaView { ptr: buf, ..after }
}

/// Whether writing `c` stays on the screen: a line can only end on one of
/// its 25 rows.
pub open spec fn write_char_ok(v: VgaView, c: char) -> bool {
    c == '\n' ==> obtained(v).0.row < VGA_ROWS
}

/// The console after writing the characters of `s` in order.
pub open spec fn spec_write_str(v: VgaView, s: Seq<char>) -> VgaView
    decreases s.len(),
{
    if s.len() == 0 {
        v
    } else {
        spec_write_char(spec_write_str(v, s.drop_last()), s.last())
    }
}

/// Whether every character of `s`, written in order, stays on the screen.
pub open spec fn write_str_ok(v: VgaView, s: Seq<char>) -> bool
    decreases s.len(),
{
    s.len() == 0 || (write_str_ok(v, s.drop_last()) && write_char_ok(
        spec_write_str(v, s.drop_last()),
        s.last(),
    ))
}

/// A write that stays on the screen does so for each of its prefixes.
proof fn lemma_write_ok_prefix(v: VgaView, s: Seq<char>, i: int)
    requires
        write_str_ok(v, s),
        0 <= i <= s.len(),
    ensures
        write_str_ok(v, s.take(i)),
    decreases s.len(),
{
    if i == s.len() {
        assert(s.take(i) =~= s);
    } else {
        assert(s.drop_last().take(i) =~= s.take(i));
        lemma_write_ok_prefix(v, s.drop_last(), i);
    }
}

/// Writing a character keeps a console well formed.
pub proof fn lemma_write_char_keeps_wf(v: VgaView, c: char)
    requires
        wf(v),
        write_char_ok(v, c),
    ensures
        wf(spec_write_char(v, c)),
{
}

/// The cell value for `c` under attribute `color`.
fn glyph_of(c: char, color: u8) -> (r: u16)
    ensures
        r == glyph(c, color),
{
    let code = c as u32;
    let base: u16 = if code < 128 && !(code < 32 || code == 127) {
        code as u16
    } else {
        REPLACEMENT_GLYPH
    };
    let attr = (color as u16) << 8;
    assert(attr == 256 * color) by (bit_vector)
        requires
            attr == (color as u16) << 8,
    ;
    assert(base | attr == base + attr) by (bit_vector)
        requires
            base < 256,
            attr == 256 * color,
    ;
    base | attr
}

impl VGA {
    /// A console with a blank screen, the cursor home, white on black, and
    /// the buffer at the fixed address.
    pub fn new() -> (r: Self)
        ensures
            wf(r@),
            r@ == (VgaView {
                cells: Seq::new(VGA_CELLS as nat, |i: int| 0u16),
                row: 0,
                col: 0,
                color: 0x0f,
                ptr: VGA_ADDR,
            }),
    {
        let mut cells: Vec<u16> = Vec::new();
        let mut i: usize = 0;
        while i < VGA_CELLS
            invariant
                i <= VGA_CELLS,
                cells@ == Seq::new(i as nat, |j: int| 0u16),
            decreases VGA_CELLS - i,
        {
            cells.push(0);
            i = i + 1;
        }
        VGA { cells, ptr: VGA_ADDR, curr_row: 0, curr_column: 0, color: 0x0f }
    }

    /// The value of the cell at `row`, `col`.
    pub fn cell(&self, row: usize, col: usize) -> (r: u16)
        requires
            wf(self@),
            row < VGA_ROWS,
            col < VGA_COLS,
        ensures
            r == self@.cells[cell_index(row as int, col as int)],
    {
        self.cells[Self::index(row, col)]
    }

    /// The cursor as (row, column).
    pub fn cursor(&self) -> (r: (usize, usize))
        ensures
            r.0 == self@.row,
            r.1 == self@.col,
    {
        (self.curr_row, self.curr_column)
    }

    /// The buffer address the console holds (0 while it is taken).
    pub fn buffer(&self) -> (r: usize)
        ensures
            r == self@.ptr,
    {
        self.ptr
    }

    /// A writer that sends text to this console.
    pub fn writer(&mut self) -> (w: VGAWriter<'_>)
        ensures
            *w.0 == *old(self),
            *final(self) == *final(w.0),
    {
        VGAWriter(self)
    }

    /// Blanks the screen and sends the cursor home.
    fn clear(&mut self)
        requires
            wf(old(self)@),
        ensures
            final(self)@ == cleared(old(self)@),
    {
        let mut i: usize = 0;
        while i < VGA_CELLS
            invariant
                i <= VGA_CELLS,
                self.cells@.len() == VGA_CELLS,
                forall|j: int| 0 <= j < i ==> self.cells@[j] == 0u16,
                self.ptr == old(self).ptr,
                self.color == old(self).color,
            decreases VGA_CELLS - i,
        {
            self.cells.set(i, 0);
            i = i + 1;
        }
        self.curr_row = 0;
        self.curr_column = 0;
        assert(self.cells@ =~= Seq::new(VGA_CELLS as nat, |i: int| 0u16));
    }

    /// Takes the buffer for a write, starting over at the fixed address
    /// with a clear screen when it was already taken.
    fn obtain(&mut self) -> (buf: usize)
        requires
            wf(old(self)@),
        ensures
            (final(self)@, buf) == obtained(old(self)@),
    {
        let mut res = self.ptr;
        self.ptr = 0;
        if res == 0 {
            res = VGA_ADDR;
            self.clear();
        }
        res
    }

    /// Hands the buffer back to the console; the rest of its state is kept.
    pub fn release(&mut self, buf: usize)
        ensures
            final(self)@ == (VgaView { ptr: buf, ..old(self)@ }),
    {
        self.ptr = buf;
    }

    /// The position of the cell at row `y`, column `x`.
    fn index(y: usize, x: usize) -> (r: usize)
        requires
            y < VGA_ROWS,
            x <= VGA_COLS,
        ensures
            r == cell_index(y as int, x as int),
    {
        y * VGA_COLS + x
    }

    /// The position of the cursor's cell.
    fn cur_index(&self) -> (r: usize)
        requires
            self.curr_row < VGA_ROWS,
            self.curr_column <= VGA_COLS,
        ensures
            r == cell_index(self@.row, self@.col),
    {
        Self::index(self.curr_row, self.curr_column)
    }

    /// Blanks the rest of the cursor's row and moves to the next row.
    fn new_line(&mut self)
        requires
            wf(old(self)@),
            old(self)@.row < VGA_ROWS,
        ensures
            final(self)@ == newline(old(self)@),
    {
        let start = self.cur_index();
        let stop = Self::index(self.curr_row, VGA_COLS);
        let ghost before = self.cells@;
        let mut i: usize = start;
        while i < stop
            invariant
                start <= i <= stop,
                stop == cell_index(self.curr_row as int, VGA_COLS as int),
                stop <= VGA_CELLS,
                self.cells@.len() == VGA_CELLS,
                self.curr_row == old(self).curr_row,
                self.curr_column == old(self).curr_column,
                self.color == old(self).color,
                self.ptr == old(self).ptr,
                forall|j: int| 0 <= j < self.cells@.len() ==> self.cells@[j] == (if start <= j < i {
                    0u16
                } else {
                    before[j]
                }),
            decreases stop - i,
        {
            self.cells.set(i, 0);
            i = i + 1;
        }
        self.curr_column = 0;
        self.curr_row = self.curr_row + 1;
        assert(self.cells@ =~= newline(old(self)@).cells);
    }

    /// Writes one character: a newline ends the line; anything else is put
    /// at the cursor, printable ASCII as itself and everything else as the
    /// replacement glyph, under the current attribute.
    pub fn write_char(&mut self, c: char)
        requires
            wf(old(self)@),
            write_char_ok(old(self)@, c),
        ensures
            final(self)@ == spec_write_char(old(self)@, c),
            wf(final(self)@),
    {
        let buf = self.obtain();
        if c == '\n' {
            self.new_line();
            self.release(buf);
            return;
        }
        let ch = glyph_of(c, self.color);
        let mut x = self.curr_column;
        self.curr_column = self.curr_column + 1;
        let mut y = self.curr_row;
        if x >= VGA_COLS {
            x = x - VGA_COLS;
            y = self.curr_row + 1;
            self.curr_row = self.curr_row + 1;
            self.curr_column = self.curr_column - VGA_COLS;
        }
        if y >= VGA_ROWS {
            y = y - VGA_ROWS;
            self.curr_row = self.curr_row - VGA_ROWS;
        }
        let at = Self::index(y, x);
        self.cells.set(at, ch);
        self.release(buf);
    }
}

/// A writer that sends text to a console.
pub struct VGAWriter<'a>(pub &'a mut VGA);

impl<'a> VGAWriter<'a> {
    /// Writes each character of `s` in order; always succeeds.
    pub fn write_str(&mut self, s: &str) -> (r: core::fmt::Result)
        requires
            wf(old(self).0@),
            write_str_ok(old(self).0@, s@),
        ensures
            final(self).0@ == spec_write_str(old(self).0@, s@),
            wf(final(self).0@),
            r is Ok,
    {
        let n = s.unicode_len();
        let mut i: usize = 0;
        while i < n
            invariant
                i <= n,
                n == s@.len(),
                wf(self.0@),
                write_str_ok(old(self).0@, s@),
                self.0@ == spec_write_str(old(self).0@, s@.take(i as int)),
            decreases n - i,
        {
            let c = s.get_char(i);
            proof {
                lemma_write_ok_prefix(old(self).0@, s@, i + 1);
                assert(s@.take(i + 1).drop_last() =~= s@.take(i as int));
            }
            self.0.write_char(c);
            i = i + 1;
        }
        proof {
            assert(s@.take(n as int) =~= s@);
        }
        Ok(())
    }

    /// Writes one character; always succeeds.
    pub fn write_char(&mut self, c: char) -> (r: core::fmt::Result)
        requires
            wf(old(self).0@),
            write_char_ok(old(self).0@, c),
        ensures
            final(self).0@ == spec_write_char(old(self).0@, c),
            wf(final(self).0@),
            r is Ok,
    {
        self.0.write_char(c);
        Ok(())
    }
}

/// `core::fmt::Error`, the error of `core::fmt::Result`, declared so that
/// the writers can return that type; nothing is claimed about its values,
/// and the writers never produce one.
#[verifier::external_type_specification]
#[verifier::external_body]
pub struct ExFmtError(core::fmt::Error);

/// Writing one text after another is writing the two joined.
pub proof fn lemma_write_str_concat(v: VgaView, s1: Seq<char>, s2: Seq<char>)
    ensures
        spec_write_str(v, s1 + s2) == spec_write_str(spec_write_str(v, s1), s2),
        write_str_ok(v, s1 + s2) <==> write_str_ok(v, s1) && write_str_ok(
            spec_write_str(v, s1),
            s2,
        ),
    decreases s2.len(),
{
    if s2.len() == 0 {
        assert(s1 + s2 =~= s1);
    } else {
        lemma_write_str_concat(v, s1, s2.drop_last());
        assert((s1 + s2).drop_last() =~= s1 + s2.drop_last());
        assert((s1 + s2).last() == s2.last());
    }
}

/// On a console that holds its buffer, a character other than a newline
/// written with the cursor inside the screen shows at the cursor under the
/// current attribute, the cursor moves one column right, every other cell
/// is kept, and the console holds the same buffer afterwards.
pub proof fn lemma_put_at_cursor(v: VgaView, c: char)
    requires
        wf(v),
        v.ptr != 0,
        c != '\n',
        v.row < VGA_ROWS,
        v.col < VGA_COLS,
    ensures
        ({
            let w = spec_write_char(v, c);
            &&& w.cells[cell_index(v.row, v.col)] == glyph(c, v.color)
            &&& forall|i: int|
                0 <= i < VGA_CELLS && i != cell_index(v.row, v.col) ==> w.cells[i] == v.cells[i]
            &&& w.row == v.row
            &&& w.col == v.col + 1
            &&& w.ptr == v.ptr
            &&& w.color == v.color
        }),
{
}

/// On a console that holds its buffer, a newline blanks the rest of the
/// cursor's row, keeps every other cell and moves the cursor to the start
/// of the next row.
pub proof fn lemma_newline_at_cursor(v: VgaView)
    requires
        wf(v),
        v.ptr != 0,
        v.row < VGA_ROWS,
    ensures
        ({
            let w = spec_write_char(v, '\n');
            &&& forall|i: int|
                0 <= i < VGA_CELLS ==> w.cells[i] == (if cell_index(v.row, v.col) <= i
                    < cell_index(v.row, VGA_COLS as int) {
                    0u16
                } else {
                    v.cells[i]
                })
            &&& w.row == v.row + 1
            &&& w.col == 0
            &&& w.ptr == v.ptr
        }),
{
}

/// A console whose buffer was taken starts over: the next write sees a
/// blank screen with the cursor home, and the console ends up holding the
/// buffer at the fixed address.
pub proof fn lemma_taken_buffer_restarts(v: VgaView, c: char)
    requires
        v.ptr == 0,
    ensures
        spec_write_char(v, c) == ({
            let w = VgaView { ptr: 0, ..cleared(v) };
            let after = if c == '\n' {
                newline(w)
            } else {
                put(w, c)
            };
            VgaView { ptr: VGA_ADDR, ..after }
        }),
{
}

/// The cell value of a character: a printable ASCII character, space
/// included (codes 32 to 126), is stored as its own code; every other
/// character (controls, DEL, anything beyond ASCII) as 168. The attribute
/// is the high byte.
pub proof fn lemma_glyph_codes(c: char, color: u8)
    ensures
        32 <= (c as u32) < 127 ==> glyph(c, color) == (c as u32) + 256 * color,
        !(32 <= (c as u32) < 127) ==> glyph(c, color) == 168 + 256 * color,
        glyph(c, color) / 256 == color,
{
}

/// Where a character other than a newline lands on a console that holds
/// its buffer: at the cursor while the cursor is inside a row; at the start
/// of the next row once the cursor is past the last column, and at the
/// start of the top row when that next row would be below the screen or
/// the cursor already is. The cursor ends one column past the character.
pub proof fn lemma_put_position(v: VgaView, c: char)
    requires
        wf(v),
        v.ptr != 0,
        c != '\n',
    ensures
        ({
            let w = spec_write_char(v, c);
            let (r, k) = if v.col == VGA_COLS {
                if v.row + 1 < VGA_ROWS {
                    (v.row + 1, 0int)
                } else {
                    (0int, 0int)
                }
            } else if v.row == VGA_ROWS {
                (0int, v.col)
            } else {
                (v.row, v.col)
            };
            &&& w.cells[cell_index(r, k)] == glyph(c, v.color)
            &&& forall|i: int|
                0 <= i < VGA_CELLS && i != cell_index(r, k) ==> w.cells[i] == v.cells[i]
            &&& w.row == r
            &&& w.col == k + 1
            &&& w.ptr == v.ptr
        }),
{
}

/// Writing to a console whose buffer was taken leaves only the written
/// character on an otherwise blank screen (or a blank screen for a
/// newline), and the console holds the buffer at the fixed address.
pub proof fn lemma_taken_buffer_blank_screen(v: VgaView, c: char)
    requires
        v.ptr == 0,
    ensures
        ({
            let w = spec_write_char(v, c);
            &&& w.ptr == VGA_ADDR
            &&& c == '\n' ==> w.row == 1 && w.col == 0 && forall|i: int|
                0 <= i < VGA_CELLS ==> w.cells[i] == 0
            &&& c != '\n' ==> w.row == 0 && w.col == 1 && w.cells[0] == glyph(c, v.color)
                && forall|i: int| 0 < i < VGA_CELLS ==> w.cells[i] == 0
        }),
{
}

} // verus!
