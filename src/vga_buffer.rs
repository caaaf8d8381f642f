//! Text-mode screen writer: an 80 by 25 grid of character cells with a
//! cursor, line wrapping and scrolling. The grid is held in memory; copying
//! it to the display's memory is left to the caller.
use vstd::prelude::*;
use vstd::string::StringSliceAdditionalSpecFns;

verus! {

pub const SCREEN_HEIGHT: usize = 25;

pub const SCREEN_WIDTH: usize = 80;

/// Cells on the screen, row after row.
pub const SCREEN_CELLS: usize = SCREEN_HEIGHT * SCREEN_WIDTH;

/// White on black.
pub const DEFAULT_COLOR: u8 = 0x0f;

/// Shown in place of a byte that is neither printable ASCII nor a newline.
pub const UNPRINTABLE: u8 = 0xfe;

/// One cell: a character and its colour attribute.
#[derive(Clone, Copy, Debug, PartialEq, Eq, Structural)]
pub struct ScreenChar {
    pub ascii_char: u8,
    pub color_code: u8,
}

/// The writer's state as a value: cells row after row, cursor and colour.
pub struct ScreenView {
    pub cells: Seq<ScreenChar>,
    pub row: nat,
    pub col: nat,
    pub color: u8,
}

pub open spec fn blank(color: u8) -> ScreenChar {
    ScreenChar { ascii_char: 0, color_code: color }
}

pub open spec fn blank_row(color: u8) -> Seq<ScreenChar> {
    Seq::new(SCREEN_WIDTH as nat, |i: int| blank(color))
}

/// `cells` with row `row` blanked.
pub open spec fn row_cleared(cells: Seq<ScreenChar>, row: int, color: u8) -> Seq<ScreenChar> {
    Seq::new(
        cells.len(),
        |i: int|
            if row * SCREEN_WIDTH <= i < (row + 1) * SCREEN_WIDTH {
                blank(color)
            } else {
                cells[i]
            },
    )
}

/// Cursor to the start of the next line; on the last line every row moves
/// up one and the last row is blanked.
pub open spec fn line_fed(v: ScreenView) -> ScreenView {
    if v.row >= SCREEN_HEIGHT - 1 {
        ScreenView {
            cells: v.cells.subrange(SCREEN_WIDTH as int, SCREEN_CELLS as int) + blank_row(v.color),
            row: v.row,
            col: 0,
            color: v.color,
        }
    } else {
        ScreenView { cells: v.cells, row: v.row + 1, col: 0, color: v.color }
    }
}

/// Screen after writing byte `b`: a newline feeds the line, a carriage
/// return moves the cursor to the start of the line, anything else is put
/// under the cursor, which moves on and wraps at the end of the line.
pub open spec fn after_byte(v: ScreenView, b: u8) -> ScreenView {
    if b == 10 {
        line_fed(v)
    } else if b == 13 {
        ScreenView { cells: v.cells, row: v.row, col: 0, color: v.color }
    } else {
        let w = ScreenView {
            cells: v.cells.update(
                v.row * SCREEN_WIDTH + v.col,
                ScreenChar { ascii_char: b, color_code: v.color },
            ),
            row: v.row,
            col: v.col + 1,
            color: v.color,
        };
        if w.col >= SCREEN_WIDTH {
            line_fed(w)
        } else {
            w
        }
    }
}

/// Screen after writing each of `bytes` as it is, in order.
pub open spec fn after_bytes(v: ScreenView, bytes: Seq<u8>) -> ScreenView
    decreases bytes.len(),
{
    if bytes.len() == 0 {
        v
    } else {
        after_byte(after_bytes(v, bytes.drop_last()), bytes.last())
    }
}

/// Byte written for `b` by `write_string`.
pub open spec fn shown(b: u8) -> u8 {
    if (0x20 <= b && b <= 0x7e) || b == 10 {
        b
    } else {
        UNPRINTABLE
    }
}

pub open spec fn after_string(v: ScreenView, bytes: Seq<u8>) -> ScreenView
    decreases bytes.len(),
{
    if bytes.len() == 0 {
        v
    } else {
        after_byte(after_string(v, bytes.drop_last()), shown(bytes.last()))
    }
}

pub struct Writer {
    row: usize,
    col: usize,
    color_code: u8,
    cells: Vec<ScreenChar>,
}

impl View for Writer {
    type V = ScreenView;

    closed spec fn view(&self) -> ScreenView {
        ScreenView {
            cells: self.cells@,
            row: self.row as nat,
            col: self.col as nat,
            color: self.color_code,
        }
    }
}

impl Writer {
    /// The grid is whole and the cursor lies on it.
    pub open spec fn wf(&self) -> bool {
        &&& self@.cells.len() == SCREEN_CELLS
        &&& self@.row < SCREEN_HEIGHT
        &&& self@.col < SCREEN_WIDTH
    }

    /// A blank screen in colour `color_code`, cursor at the top left.
    pub fn new(color_code: u8) -> (w: Self)
        ensures
            w.wf(),
            w@.cells == Seq::new(SCREEN_CELLS as nat, |i: int| blank(color_code)),
            w@.row == 0,
            w@.col == 0,
            w@.color == color_code,
    {
        let mut cells: Vec<ScreenChar> = Vec::new();
        let mut i: usize = 0;
        while i < SCREEN_CELLS
            invariant
                i <= SCREEN_CELLS,
                cells@ == Seq::new(i as nat, |j: int| blank(color_code)),
            decreases SCREEN_CELLS - i,
        {
            cells.push(ScreenChar { ascii_char: 0, color_code });
            i = i + 1;
            assert(cells@ =~= Seq::new(i as nat, |j: int| blank(color_code)));
        }
        Writer { row: 0, col: 0, color_code, cells }
    }

    /// The cells, row after row.
    pub fn cells(&self) -> (r: &Vec<ScreenChar>)
        ensures
            r@ == self@.cells,
    {
        &self.cells
    }

    /// Cursor as (row, column).
    pub fn cursor(&self) -> (r: (usize, usize))
        ensures
            r.0 == self@.row,
            r.1 == self@.col,
    {
        (self.row, self.col)
    }

    /// Blanks row `row`.
    pub fn clear_row(&mut self, row: usize)
        requires
            old(self).wf(),
            row < SCREEN_HEIGHT,
        ensures
            final(self).wf(),
            final(self)@.cells == row_cleared(old(self)@.cells, row as int, old(self)@.color),
            final(self)@.row == old(self)@.row,
            final(self)@.col == old(self)@.col,
            final(self)@.color == old(self)@.color,
    {
        let ghost before = self.cells@;
        let start: usize = row * SCREEN_WIDTH;
        let mut col: usize = 0;
        while col < SCREEN_WIDTH
            invariant
                col <= SCREEN_WIDTH,
                start == row * SCREEN_WIDTH,
                row < SCREEN_HEIGHT,
                self.cells@.len() == SCREEN_CELLS,
                self.row == old(self).row,
                self.col == old(self).col,
                self.color_code == old(self).color_code,
                before == old(self).cells@,
                forall|i: int|
                    0 <= i < SCREEN_CELLS ==> #[trigger] self.cells@[i] == if start <= i < start
                        + col {
                        blank(self.color_code)
                    } else {
                        before[i]
                    },
            decreases SCREEN_WIDTH - col,
        {
            self.cells.set(start + col, ScreenChar { ascii_char: 0, color_code: self.color_code });
            col = col + 1;
        }
        assert(self.cells@ =~= row_cleared(before, row as int, self.color_code));
    }

    /// Blanks every row and puts the cursor at the top left.
    pub fn clear_screen(&mut self)
        requires
            old(self).wf(),
        ensures
            final(self).wf(),
            final(self)@.cells == Seq::new(SCREEN_CELLS as nat, |i: int| blank(old(self)@.color)),
            final(self)@.row == 0,
            final(self)@.col == 0,
            final(self)@.color == old(self)@.color,
    {
        let mut row: usize = 0;
        while row < SCREEN_HEIGHT
            invariant
                row <= SCREEN_HEIGHT,
                self.wf(),
                self.color_code == old(self).color_code,
                forall|i: int|
                    0 <= i < row * SCREEN_WIDTH ==> #[trigger] self.cells@[i] == blank(
                        self.color_code,
                    ),
            decreases SCREEN_HEIGHT - row,
        {
            self.clear_row(row);
            row = row + 1;
        }
        self.row = 0;
        self.col = 0;
        assert(self.cells@ =~= Seq::new(SCREEN_CELLS as nat, |i: int| blank(self.color_code)));
    }

    /// Moves the cursor to the start of the line.
    pub fn carriage_return(&mut self)
        requires
            old(self).wf(),
        ensures
            final(self).wf(),
            final(self)@ == (ScreenView { col: 0, ..old(self)@ }),
    {
        self.col = 0;
    }

    /// Moves the cursor to the start of the next line, scrolling when it is
    /// on the last one.
    pub fn new_line(&mut self)
        requires
            old(self).wf(),
        ensures
            final(self).wf(),
            final(self)@ == line_fed(old(self)@),
    {
        if self.row >= SCREEN_HEIGHT - 1 {
            let ghost before = self.cells@;
            let mut i: usize = 0;
            while i < SCREEN_CELLS - SCREEN_WIDTH
                invariant
                    i <= SCREEN_CELLS - SCREEN_WIDTH,
                    self.wf(),
                    self.row == old(self).row,
                    self.col == old(self).col,
                    self.color_code == old(self).color_code,
                    before == old(self).cells@,
                    forall|j: int|
                        0 <= j < SCREEN_CELLS ==> #[trigger] self.cells@[j] == if j < i {
                            before[j + SCREEN_WIDTH]
                        } else {
                            before[j]
                        },
                decreases SCREEN_CELLS - SCREEN_WIDTH - i,
            {
                let ch = self.cells[i + SCREEN_WIDTH];
                self.cells.set(i, ch);
                i = i + 1;
            }
            self.clear_row(SCREEN_HEIGHT - 1);
            assert(self.cells@ =~= before.subrange(SCREEN_WIDTH as int, SCREEN_CELLS as int)
                + blank_row(self.color_code));
        } else {
            self.row = self.row + 1;
        }
        self.col = 0;
    }

    /// Writes one byte as `after_byte` describes.
    pub fn write_byte(&mut self, b: u8)
        requires
            old(self).wf(),
        ensures
            final(self).wf(),
            final(self)@ == after_byte(old(self)@, b),
    {
        if b == 10 {
            self.new_line();
        } else if b == 13 {
            self.carriage_return();
        } else {
            let pos: usize = self.row * SCREEN_WIDTH + self.col;
            self.cells.set(pos, ScreenChar { ascii_char: b, color_code: self.color_code });
            self.col = self.col + 1;
            if self.col >= SCREEN_WIDTH {
                // the line feed resets the column; keep it on the grid until then
                self.col = SCREEN_WIDTH - 1;
                let ghost w = ScreenView { col: SCREEN_WIDTH as nat, ..self@ };
                self.new_line();
                assert(self@ == line_fed(w));
            }
        }
    }

    /// Writes every byte of `s` as it is, in order; the path formatted
    /// output takes.
    pub fn write_str(&mut self, s: &str)
        requires
            old(self).wf(),
        ensures
            final(self).wf(),
            final(self)@ == after_bytes(old(self)@, s.spec_bytes()),
    {
        let bytes = s.as_bytes();
        let mut i: usize = 0;
        while i < bytes.len()
            invariant
                i <= bytes@.len(),
                bytes@ == s.spec_bytes(),
                self.wf(),
                self@ == after_bytes(old(self)@, bytes@.take(i as int)),
            decreases bytes@.len() - i,
        {
            self.write_byte(bytes[i]);
            assert(bytes@.take(i + 1).drop_last() =~= bytes@.take(i as int));
            i = i + 1;
        }
        assert(bytes@.take(i as int) =~= bytes@);
    }

    /// Writes the bytes of `s` for a text screen that shows only printable
    /// ASCII: each byte that is neither printable ASCII nor a newline (a tab
    /// or a carriage return too) is shown as `UNPRINTABLE`.
    pub fn write_string(&mut self, s: &str)
        requires
            old(self).wf(),
        ensures
            final(self).wf(),
            final(self)@ == after_string(old(self)@, s.spec_bytes()),
    {
        let bytes = s.as_bytes();
        let mut i: usize = 0;
        while i < bytes.len()
            invariant
                i <= bytes@.len(),
                bytes@ == s.spec_bytes(),
                self.wf(),
                self@ == after_string(old(self)@, bytes@.take(i as int)),
            decreases bytes@.len() - i,
        {
            let b = bytes[i];
            let shown_b: u8 = if (0x20 <= b && b <= 0x7e) || b == 10 {
                b
            } else {
                UNPRINTABLE
            };
            self.write_byte(shown_b);
            assert(bytes@.take(i + 1).drop_last() =~= bytes@.take(i as int));
            i = i + 1;
        }
        assert(bytes@.take(i as int) =~= bytes@);
    }
}

} // verus!
