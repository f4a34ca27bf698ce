//! The text-mode screen: a grid of character cells that scrolls up by one
//! row when a line is finished, and the writer that fills its bottom row.
use vstd::prelude::*;
use vstd::string::StringSliceAdditionalSpecFns;

verus! {

pub const BUF_HEIGHT: usize = 25;

pub const BUF_WIDTH: usize = 80;

/// Cells on the screen, row by row.
pub const SCREEN_CELLS: usize = 2000;

/// Shown in place of a byte that the screen's character set lacks.
pub const REPLACEMENT_BYTE: u8 = 0xfe;

#[derive(Clone, Copy, Debug, PartialEq, Eq, Structural)]
pub enum Color {
    Black,
    Blue,
    Green,
    Cyan,
    Red,
    Magenta,
    Brown,
    LightGray,
    DarkGray,
    LightBlue,
    LightGreen,
    LightCyan,
    LightRed,
    Pink,
    Yellow,
    White,
}

/// The hardware's four-bit number for each color.
pub open spec fn color_value(c: Color) -> u8 {
    match c {
        Color::Black => 0,
        Color::Blue => 1,
        Color::Green => 2,
        Color::Cyan => 3,
        Color::Red => 4,
        Color::Magenta => 5,
        Color::Brown => 6,
        Color::LightGray => 7,
        Color::DarkGray => 8,
        Color::LightBlue => 9,
        Color::LightGreen => 10,
        Color::LightCyan => 11,
        Color::LightRed => 12,
        Color::Pink => 13,
        Color::Yellow => 14,
        Color::White => 15,
    }
}

impl Color {
    pub fn value(self) -> (r: u8)
        ensures
            r == color_value(self),
    {
        match self {
            Color::Black => 0,
            Color::Blue => 1,
            Color::Green => 2,
            Color::Cyan => 3,
            Color::Red => 4,
            Color::Magenta => 5,
            Color::Brown => 6,
            Color::LightGray => 7,
            Color::DarkGray => 8,
            Color::LightBlue => 9,
            Color::LightGreen => 10,
            Color::LightCyan => 11,
            Color::LightRed => 12,
            Color::Pink => 13,
            Color::Yellow => 14,
            Color::White => 15,
        }
    }
}

/// A foreground color in the low four bits, a background color in the high four.
#[derive(Clone, Copy, Debug, PartialEq, Eq, Structural)]
pub struct ColorCode(pub u8);

impl ColorCode {
    pub fn new(foreground: Color, background: Color) -> (r: ColorCode)
        ensures
            r.0 == color_value(foreground) + 16 * color_value(background),
    {
        let f = foreground.value();
        let b = background.value();
        assert(f | (b << 4u8) == f + 16 * b) by (bit_vector)
            requires
                f < 16,
                b < 16,
        ;
        ColorCode(f | (b << 4u8))
    }
}

/// One cell of the screen.
#[derive(Clone, Copy, Debug, PartialEq, Eq, Structural)]
pub struct ScreenChar {
    pub ascii_char: u8,
    pub color_code: ColorCode,
}

/// The cells of the screen, row by row.
pub struct ScreenBuffer {
    cells: [ScreenChar; SCREEN_CELLS],
}

impl View for ScreenBuffer {
    type V = Seq<ScreenChar>;

    closed spec fn view(&self) -> Seq<ScreenChar> {
        self.cells@
    }
}

/// The index of the cell at `row` and `col`.
pub open spec fn cell_index(row: int, col: int) -> int {
    row * BUF_WIDTH + col
}

impl ScreenBuffer {
    /// A screen whose every cell is `fill`.
    pub fn new(fill: ScreenChar) -> (b: ScreenBuffer)
        ensures
            b@ == Seq::new(SCREEN_CELLS as nat, |_k: int| fill),
    {
        let b = ScreenBuffer { cells: [fill; SCREEN_CELLS] };
        assert(b@ =~= Seq::new(SCREEN_CELLS as nat, |_k: int| fill));
        b
    }

    pub proof fn lemma_len(&self)
        ensures
            self@.len() == SCREEN_CELLS,
    {
    }
}

/// Writes a character into the cell at `row` and `col`.
pub fn write_char(buffer: &mut ScreenBuffer, screen_char: ScreenChar, row: usize, col: usize)
    requires
        row < BUF_HEIGHT,
        col < BUF_WIDTH,
    ensures
        final(buffer)@ == old(buffer)@.update(cell_index(row as int, col as int), screen_char),
{
    buffer.cells[row * BUF_WIDTH + col] = screen_char;
}

/// Reads the character in the cell at `row` and `col`.
pub fn read_char(buffer: &ScreenBuffer, row: usize, col: usize) -> (c: ScreenChar)
    requires
        row < BUF_HEIGHT,
        col < BUF_WIDTH,
    ensures
        c == buffer@[cell_index(row as int, col as int)],
{
    buffer.cells[row * BUF_WIDTH + col]
}

/// An empty cell in `color`.
pub open spec fn blank(color: ColorCode) -> ScreenChar {
    ScreenChar { ascii_char: 0x20, color_code: color }
}

/// The screen moved up by one row, with a blank bottom row.
pub open spec fn scrolled(cells: Seq<ScreenChar>, color: ColorCode) -> Seq<ScreenChar> {
    cells.subrange(BUF_WIDTH as int, SCREEN_CELLS as int) + Seq::new(
        BUF_WIDTH as nat,
        |_k: int| blank(color),
    )
}

/// The column and cells after one byte is written at `column` of the bottom
/// row: a newline scrolls; any other byte scrolls first when the row is
/// full, then takes the next cell.
pub open spec fn put_byte(column: nat, cells: Seq<ScreenChar>, color: ColorCode, byte: u8) -> (
    nat,
    Seq<ScreenChar>,
) {
    if byte == 0x0a {
        (0, scrolled(cells, color))
    } else {
        let col: nat = if column >= BUF_WIDTH {
            0
        } else {
            column
        };
        let cs = if column >= BUF_WIDTH {
            scrolled(cells, color)
        } else {
            cells
        };
        (
            col + 1,
            cs.update(
                cell_index(BUF_HEIGHT - 1, col as int),
                ScreenChar { ascii_char: byte, color_code: color },
            ),
        )
    }
}

/// The byte shown for `b`: printable ASCII and newline as they are, any
/// other byte as the replacement byte.
pub open spec fn shown_byte(b: u8) -> u8 {
    if (0x20 <= b && b <= 0x7e) || b == 0x0a {
        b
    } else {
        REPLACEMENT_BYTE
    }
}

/// The column and cells after the bytes of a text are written in order.
pub open spec fn put_bytes(column: nat, cells: Seq<ScreenChar>, color: ColorCode, bytes: Seq<u8>) -> (
    nat,
    Seq<ScreenChar>,
)
    decreases bytes.len(),
{
    if bytes.len() == 0 {
        (column, cells)
    } else {
        let before = put_bytes(column, cells, color, bytes.drop_last());
        put_byte(before.0, before.1, color, shown_byte(bytes.last()))
    }
}

/// Writes text at the bottom row of a screen, scrolling it as lines end.
pub struct Writer {
    pub column_position: usize,
    pub color_code: ColorCode,
    pub buffer: ScreenBuffer,
}

impl Writer {
    pub fn new(color_code: ColorCode, buffer: ScreenBuffer) -> (w: Writer)
        ensures
            w.column_position == 0,
            w.color_code == color_code,
            w.buffer@ == buffer@,
    {
        Writer { column_position: 0, color_code, buffer }
    }

    /// Fills `row` with blanks in the writer's color.
    pub fn clear_row(&mut self, row: usize)
        requires
            row < BUF_HEIGHT,
        ensures
            final(self).column_position == old(self).column_position,
            final(self).color_code == old(self).color_code,
            final(self).buffer@.len() == old(self).buffer@.len(),
            forall|k: int|
                0 <= k < old(self).buffer@.len() ==> #[trigger] final(self).buffer@[k] == if row
                    * BUF_WIDTH <= k < row * BUF_WIDTH + BUF_WIDTH {
                    blank(old(self).color_code)
                } else {
                    old(self).buffer@[k]
                },
    {
        let space = ScreenChar { ascii_char: 0x20, color_code: self.color_code };
        let ghost before = self.buffer@;
        let mut col: usize = 0;
        while col < BUF_WIDTH
            invariant
                row < BUF_HEIGHT,
                col <= BUF_WIDTH,
                space == blank(self.color_code),
                self.color_code == old(self).color_code,
                self.column_position == old(self).column_position,
                before == old(self).buffer@,
                self.buffer@.len() == before.len(),
                forall|k: int|
                    0 <= k < before.len() ==> #[trigger] self.buffer@[k] == if row * BUF_WIDTH
                        <= k < row * BUF_WIDTH + col {
                        space
                    } else {
                        before[k]
                    },
            decreases BUF_WIDTH - col,
        {
            write_char(&mut self.buffer, space, row, col);
            col = col + 1;
        }
    }

    /// Moves every row up by one, blanks the bottom row and returns to its
    /// first column.
    pub fn new_line(&mut self)
        ensures
            final(self).column_position == 0,
            final(self).color_code == old(self).color_code,
            final(self).buffer@ == scrolled(old(self).buffer@, old(self).color_code),
    {
        let ghost before = self.buffer@;
        proof {
            self.buffer.lemma_len();
        }
        let mut row: usize = 1;
        while row < BUF_HEIGHT
            invariant
                1 <= row <= BUF_HEIGHT,
                self.color_code == old(self).color_code,
                before == old(self).buffer@,
                before.len() == SCREEN_CELLS,
                self.buffer@.len() == SCREEN_CELLS,
                forall|k: int|
                    0 <= k < SCREEN_CELLS ==> #[trigger] self.buffer@[k] == if k < (row - 1)
                        * BUF_WIDTH {
                        before[k + BUF_WIDTH]
                    } else {
                        before[k]
                    },
            decreases BUF_HEIGHT - row,
        {
            let mut col: usize = 0;
            while col < BUF_WIDTH
                invariant
                    1 <= row < BUF_HEIGHT,
                    col <= BUF_WIDTH,
                    self.color_code == old(self).color_code,
                    before == old(self).buffer@,
                    before.len() == SCREEN_CELLS,
                    self.buffer@.len() == SCREEN_CELLS,
                    forall|k: int|
                        0 <= k < SCREEN_CELLS ==> #[trigger] self.buffer@[k] == if k < (row - 1)
                            * BUF_WIDTH + col {
                            before[k + BUF_WIDTH]
                        } else {
                            before[k]
                        },
                decreases BUF_WIDTH - col,
            {
                let c = read_char(&self.buffer, row, col);
                write_char(&mut self.buffer, c, row - 1, col);
                col = col + 1;
            }
            row = row + 1;
        }
        self.clear_row(BUF_HEIGHT - 1);
        self.column_position = 0;
        assert(self.buffer@ =~= scrolled(before, self.color_code));
    }

    /// Writes one byte at the bottom row.
    pub fn write_byte(&mut self, byte: u8)
        ensures
            final(self).color_code == old(self).color_code,
            (final(self).column_position as nat, final(self).buffer@) == put_byte(
                old(self).column_position as nat,
                old(self).buffer@,
                old(self).color_code,
                byte,
            ),
    {
        if byte == 0x0a {
            self.new_line();
        } else {
            if self.column_position >= BUF_WIDTH {
                self.new_line();
            }
            let col = self.column_position;
            let screen_char = ScreenChar { ascii_char: byte, color_code: self.color_code };
            write_char(&mut self.buffer, screen_char, BUF_HEIGHT - 1, col);
            self.column_position = col + 1;
        }
    }

    /// Writes the bytes of `s` in order, each byte the screen cannot show
    /// as the replacement byte.
    pub fn write_str(&mut self, s: &str)
        ensures
            final(self).color_code == old(self).color_code,
            (final(self).column_position as nat, final(self).buffer@) == put_bytes(
                old(self).column_position as nat,
                old(self).buffer@,
                old(self).color_code,
                s.spec_bytes(),
            ),
    {
        let bytes = s.as_bytes();
        let n = bytes.len();
        let mut i: usize = 0;
        while i < n
            invariant
                n == bytes@.len(),
                bytes@ == s.spec_bytes(),
                i <= n,
                self.color_code == old(self).color_code,
                (self.column_position as nat, self.buffer@) == put_bytes(
                    old(self).column_position as nat,
                    old(self).buffer@,
                    old(self).color_code,
                    bytes@.subrange(0, i as int),
                ),
            decreases n - i,
        {
            let byte = bytes[i];
            let shown = if (0x20 <= byte && byte <= 0x7e) || byte == 0x0a {
                byte
            } else {
                REPLACEMENT_BYTE
            };
            assert(bytes@.subrange(0, i + 1).drop_last() =~= bytes@.subrange(0, i as int));
            self.write_byte(shown);
            i = i + 1;
        }
        assert(bytes@.subrange(0, n as int) =~= bytes@);
    }
}

} // verus!
