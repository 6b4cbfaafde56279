//! Text-mode console: an 80x25 grid of characters with a cursor.
//!
//! The grid kept here is the console's content; the caller copies it to the
//! display memory after each change.
use vstd::prelude::*;
use vstd::string::StringSliceAdditionalSpecFns;

verus! {

pub const VGA_WIDTH: usize = 80;
pub const VGA_HEIGHT: usize = 25;
/// Number of cells in the grid.
pub const VGA_CELLS: usize = 2000;
/// Shown in place of bytes that are neither printable ASCII nor a newline.
pub const REPLACEMENT_BYTE: u8 = 0xfe;

#[derive(Clone, Copy, Debug, PartialEq, Eq, Structural)]
pub enum Color {
    Black,
    Blue,
    Green,
    Cyan,
    Red,
    Magenta,
    Brown,
    LightGray,
    DarkGray,
    LightBlue,
    LightGreen,
    LightCyan,
    LightRed,
    Pink,
    Yellow,
    White,
}

/// The 4-bit code of each color in the attribute byte.
pub open spec fn color_value(c: Color) -> u8 {
    match c {
        Color::Black => 0,
        Color::Blue => 1,
        Color::Green => 2,
        Color::Cyan => 3,
        Color::Red => 4,
        Color::Magenta => 5,
        Color::Brown => 6,
        Color::LightGray => 7,
        Color::DarkGray => 8,
        Color::LightBlue => 9,
        Color::LightGreen => 10,
        Color::LightCyan => 11,
        Color::LightRed => 12,
        Color::Pink => 13,
        Color::Yellow => 14,
        Color::White => 15,
    }
}

impl Color {
    /// The color's 4-bit code.
    pub fn value(self) -> (r: u8)
        ensures
            r == color_value(self),
    {
        match self {
            Color::Black => 0,
            Color::Blue => 1,
            Color::Green => 2,
            Color::Cyan => 3,
            Color::Red => 4,
            Color::Magenta => 5,
            Color::Brown => 6,
            Color::LightGray => 7,
            Color::DarkGray => 8,
            Color::LightBlue => 9,
            Color::LightGreen => 10,
            Color::LightCyan => 11,
            Color::LightRed => 12,
            Color::Pink => 13,
            Color::Yellow => 14,
            Color::White => 15,
        }
    }
}

/// Attribute byte of a cell: background in the high four bits, foreground
/// in the low four.
pub fn color_code(foreground: Color, background: Color) -> (r: u8)
    ensures
        r == color_value(background) * 16 + color_value(foreground),
{
    let f = foreground.value();
    let b = background.value();
    assert((b << 4u8) | f == b * 16 + f) by (bit_vector)
        requires
            b < 16,
            f < 16,
    ;
    (b << 4u8) | f
}

/// One cell: a character and its attribute byte.
#[derive(Clone, Copy, Debug, PartialEq, Eq, Structural)]
pub struct ScreenChar {
    pub ascii_character: u8,
    pub color_code: u8,
}

/// An empty cell in color `color`.
pub open spec fn blank(color: u8) -> ScreenChar {
    ScreenChar { ascii_character: 0x20, color_code: color }
}

/// The grid moved up one row: the top row dropped, a blank bottom row.
pub open spec fn scrolled(cells: Seq<ScreenChar>, color: u8) -> Seq<ScreenChar> {
    Seq::new(
        VGA_CELLS as nat,
        |i: int|
            if i < VGA_CELLS - VGA_WIDTH {
                cells[i + VGA_WIDTH]
            } else {
                blank(color)
            },
    )
}

/// Grid, row and column after a line feed: the next row, or a scroll when
/// the cursor is on the bottom row.
pub open spec fn after_new_line(cells: Seq<ScreenChar>, row: int, color: u8) -> (Seq<ScreenChar>, int, int) {
    if row < VGA_HEIGHT - 1 {
        (cells, row + 1, 0)
    } else {
        (scrolled(cells, color), row, 0)
    }
}

/// Grid, row and column after writing `byte` at the cursor.
pub open spec fn after_byte(
    cells: Seq<ScreenChar>,
    row: int,
    column: int,
    color: u8,
    byte: u8,
) -> (Seq<ScreenChar>, int, int) {
    if byte == 0x0A {
        after_new_line(cells, row, color)
    } else {
        let (c, r, k) = if column >= VGA_WIDTH {
            after_new_line(cells, row, color)
        } else {
            (cells, row, column)
        };
        (c.update(r * VGA_WIDTH + k, ScreenChar { ascii_character: byte, color_code: color }), r, k + 1)
    }
}

/// Grid, row and column after writing `bytes` one after the other.
pub open spec fn after_bytes(
    cells: Seq<ScreenChar>,
    row: int,
    column: int,
    color: u8,
    bytes: Seq<u8>,
) -> (Seq<ScreenChar>, int, int)
    decreases bytes.len(),
{
    if bytes.len() == 0 {
        (cells, row, column)
    } else {
        let (c, r, k) = after_bytes(cells, row, column, color, bytes.drop_last());
        after_byte(c, r, k, color, bytes.last())
    }
}

/// What the console shows for `byte`: printable ASCII and newline as they
/// are, anything else as the replacement byte.
pub open spec fn shown_byte(byte: u8) -> u8 {
    if (0x20 <= byte && byte <= 0x7e) || byte == 0x0A {
        byte
    } else {
        REPLACEMENT_BYTE
    }
}

/// Content and cursor of the text console.
pub struct VgaBuffer {
    chars: Vec<ScreenChar>,
    column_position: usize,
    row_position: usize,
    color_code: u8,
}

impl VgaBuffer {
    /// The cells, row by row.
    pub closed spec fn cells(&self) -> Seq<ScreenChar> {
        self.chars@
    }

    pub closed spec fn row(&self) -> int {
        self.row_position as int
    }

    pub closed spec fn column(&self) -> int {
        self.column_position as int
    }

    pub closed spec fn color(&self) -> u8 {
        self.color_code
    }

    /// Grid, row and column.
    pub open spec fn state(&self) -> (Seq<ScreenChar>, int, int) {
        (self.cells(), self.row(), self.column())
    }

    pub closed spec fn wf(&self) -> bool {
        &&& self.chars@.len() == VGA_CELLS
        &&& self.row_position < VGA_HEIGHT
        &&& self.column_position <= VGA_WIDTH
    }

    /// A blank screen in white on black, cursor at the top left.
    pub fn new() -> (r: Self)
        ensures
            r.wf(),
            r.row() == 0,
            r.column() == 0,
            r.color() == 15,
            forall|i: int| 0 <= i < VGA_CELLS ==> #[trigger] r.cells()[i] == blank(15),
    {
        let color = color_code(Color::White, Color::Black);
        let mut chars: Vec<ScreenChar> = Vec::new();
        let mut i: usize = 0;
        while i < VGA_CELLS
            invariant
                i <= VGA_CELLS,
                chars@.len() == i,
                forall|k: int| 0 <= k < i ==> #[trigger] chars@[k] == blank(color),
            decreases VGA_CELLS - i,
        {
            chars.push(ScreenChar { ascii_character: 0x20, color_code: color });
            i += 1;
        }
        VgaBuffer { chars, column_position: 0, row_position: 0, color_code: color }
    }

    /// Cell at `row`, `column`.
    pub fn cell(&self, row: usize, column: usize) -> (r: ScreenChar)
        requires
            self.wf(),
            row < VGA_HEIGHT,
            column < VGA_WIDTH,
        ensures
            r == self.cells()[row * VGA_WIDTH + column],
    {
        self.chars[row * VGA_WIDTH + column]
    }

    /// The cursor: row and column where the next character goes.
    pub fn cursor(&self) -> (r: (usize, usize))
        ensures
            r.0 == self.row(),
            r.1 == self.column(),
    {
        (self.row_position, self.column_position)
    }

    /// Fills row `row` with blanks; the other rows keep their cells.
    fn clear_row(&mut self, row: usize)
        requires
            old(self).wf(),
            row < VGA_HEIGHT,
        ensures
            final(self).wf(),
            final(self).row() == old(self).row(),
            final(self).column() == old(self).column(),
            final(self).color() == old(self).color(),
            forall|i: int|
                0 <= i < VGA_CELLS ==> #[trigger] final(self).cells()[i] == if row * VGA_WIDTH <= i
                    < row * VGA_WIDTH + VGA_WIDTH {
                    blank(old(self).color())
                } else {
                    old(self).cells()[i]
                },
    {
        let blank = ScreenChar { ascii_character: 0x20, color_code: self.color_code };
        let mut col: usize = 0;
        while col < VGA_WIDTH
            invariant
                self.wf(),
                row < VGA_HEIGHT,
                col <= VGA_WIDTH,
                blank == crate::vga::blank(old(self).color()),
                self.row() == old(self).row(),
                self.column() == old(self).column(),
                self.color() == old(self).color(),
                forall|i: int|
                    0 <= i < VGA_CELLS ==> #[trigger] self.cells()[i] == if row * VGA_WIDTH <= i
                        < row * VGA_WIDTH + col {
                        blank
                    } else {
                        old(self).cells()[i]
                    },
            decreases VGA_WIDTH - col,
        {
            let ghost before = self.cells();
            self.chars.set(row * VGA_WIDTH + col, blank);
            assert forall|i: int| 0 <= i < VGA_CELLS implies #[trigger] self.cells()[i] == if row
                * VGA_WIDTH <= i < row * VGA_WIDTH + col + 1 {
                blank
            } else {
                old(self).cells()[i]
            } by {
                if i != row * VGA_WIDTH + col {
                    assert(self.cells()[i] == before[i]);
                }
            }
            col += 1;
        }
    }

    /// Moves every row up by one, dropping the top row; the bottom row
    /// becomes blank.
    fn scroll_up(&mut self)
        requires
            old(self).wf(),
        ensures
            final(self).wf(),
            final(self).row() == old(self).row(),
            final(self).column() == old(self).column(),
            final(self).color() == old(self).color(),
            forall|i: int|
                0 <= i < VGA_CELLS ==> #[trigger] final(self).cells()[i] == if i < VGA_CELLS
                    - VGA_WIDTH {
                    old(self).cells()[i + VGA_WIDTH]
                } else {
                    blank(old(self).color())
                },
    {
        let mut i: usize = VGA_WIDTH;
        while i < VGA_CELLS
            invariant
                self.wf(),
                VGA_WIDTH <= i <= VGA_CELLS,
                self.row() == old(self).row(),
                self.column() == old(self).column(),
                self.color() == old(self).color(),
                forall|k: int|
                    0 <= k < VGA_CELLS ==> #[trigger] self.cells()[k] == if k < i - VGA_WIDTH {
                        old(self).cells()[k + VGA_WIDTH]
                    } else {
                        old(self).cells()[k]
                    },
            decreases VGA_CELLS - i,
        {
            let c = self.chars[i];
            let ghost before = self.cells();
            self.chars.set(i - VGA_WIDTH, c);
            assert forall|k: int| 0 <= k < VGA_CELLS implies #[trigger] self.cells()[k] == if k < i
                + 1 - VGA_WIDTH {
                old(self).cells()[k + VGA_WIDTH]
            } else {
                old(self).cells()[k]
            } by {
                if k != i - VGA_WIDTH {
                    assert(self.cells()[k] == before[k]);
                }
            }
            i += 1;
        }
        self.clear_row(VGA_HEIGHT - 1);
    }

    /// Moves the cursor to the start of the next row, scrolling when it is
    /// on the bottom row.
    pub fn new_line(&mut self)
        requires
            old(self).wf(),
        ensures
            final(self).wf(),
            final(self).color() == old(self).color(),
            final(self).state() == after_new_line(old(self).cells(), old(self).row(), old(self).color()),
    {
        if self.row_position < VGA_HEIGHT - 1 {
            self.row_position += 1;
        } else {
            self.scroll_up();
        }
        let ghost mid = self.cells();
        self.column_position = 0;
        assert(self.cells() == mid);
    }

    /// Writes one byte at the cursor: a newline moves to the next row;
    /// another byte is stored with the current color, after wrapping to the
    /// next row when the current one is full, and the cursor advances.
    pub fn write_byte(&mut self, byte: u8)
        requires
            old(self).wf(),
        ensures
            final(self).wf(),
            final(self).color() == old(self).color(),
            final(self).state() == after_byte(
                old(self).cells(),
                old(self).row(),
                old(self).column(),
                old(self).color(),
                byte,
            ),
    {
        if byte == 0x0A {
            self.new_line();
        } else {
            if self.column_position >= VGA_WIDTH {
                self.new_line();
            }
            let row = self.row_position;
            let col = self.column_position;
            let cell = ScreenChar { ascii_character: byte, color_code: self.color_code };
            self.chars.set(row * VGA_WIDTH + col, cell);
            self.column_position += 1;
        }
    }

    /// Writes the bytes of `s`, each printable ASCII byte and newline as it
    /// is and every other byte as the replacement byte.
    pub fn write_string(&mut self, s: &str)
        requires
            old(self).wf(),
        ensures
            final(self).wf(),
            final(self).color() == old(self).color(),
            final(self).state() == after_bytes(
                old(self).cells(),
                old(self).row(),
                old(self).column(),
                old(self).color(),
                s.spec_bytes().map_values(|b: u8| shown_byte(b)),
            ),
    {
        let bytes = s.as_bytes();
        let mut i: usize = 0;
        while i < bytes.len()
            invariant
                self.wf(),
                self.color() == old(self).color(),
                i <= bytes@.len(),
                bytes@ == s.spec_bytes(),
                self.state() == after_bytes(
                    old(self).cells(),
                    old(self).row(),
                    old(self).column(),
                    old(self).color(),
                    bytes@.subrange(0, i as int).map_values(|b: u8| shown_byte(b)),
                ),
            decreases bytes@.len() - i,
        {
            proof {
                let shown = bytes@.subrange(0, i + 1).map_values(|b: u8| shown_byte(b));
                assert(shown.drop_last() =~= bytes@.subrange(0, i as int).map_values(
                    |b: u8| shown_byte(b),
                ));
            }
            let byte = bytes[i];
            if (0x20 <= byte && byte <= 0x7e) || byte == 0x0A {
                self.write_byte(byte);
            } else {
                self.write_byte(REPLACEMENT_BYTE);
            }
            i += 1;
        }
        assert(bytes@.subrange(0, i as int) =~= bytes@);
    }

    /// Blanks the whole screen and puts the cursor at the top left.
    pub fn clear(&mut self)
        requires
            old(self).wf(),
        ensures
            final(self).wf(),
            final(self).row() == 0,
            final(self).column() == 0,
            final(self).color() == old(self).color(),
            forall|i: int| 0 <= i < VGA_CELLS ==> #[trigger] final(self).cells()[i] == blank(old(self).color()),
    {
        let mut row: usize = 0;
        while row < VGA_HEIGHT
            invariant
                self.wf(),
                row <= VGA_HEIGHT,
                self.color() == old(self).color(),
                forall|i: int| 0 <= i < row * VGA_WIDTH ==> #[trigger] self.cells()[i] == blank(old(self).color()),
            decreases VGA_HEIGHT - row,
        {
            let ghost before = self.cells();
            self.clear_row(row);
            assert forall|i: int| 0 <= i < (row + 1) * VGA_WIDTH implies #[trigger] self.cells()[i]
                == blank(old(self).color()) by {
                if i < row * VGA_WIDTH {
                    assert(before[i] == blank(old(self).color()));
                }
            }
            row += 1;
        }
        assert(row == VGA_HEIGHT);
        let ghost mid = self.cells();
        self.column_position = 0;
        self.row_position = 0;
        assert(self.cells() == mid);
    }
}

} // verus!
