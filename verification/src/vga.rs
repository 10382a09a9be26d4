//! The text screen: 25 rows of 80 characters, written at the bottom row and
//! scrolled upwards.

use vstd::prelude::*;
use crate::mem::volatile::Volatile;
use vstd::string::StringSliceAdditionalSpecFns;

verus! {

/// The number of rows of the screen.
pub const BUFFER_HEIGHT: usize = 25;

/// The number of columns of the screen.
pub const BUFFER_WIDTH: usize = 80;

/// A foreground color.
#[derive(Clone, Copy, Debug, PartialEq, Eq, Structural)]
pub enum FgColor {
    Black,
    Blue,
    Green,
    Cyan,
    Red,
    Magenta,
    Brown,
    LightGray,
    DarkGray,
    LightBlue,
    LightGreen,
    LightCyan,
    LightRed,
    Pink,
    Yellow,
    White,
}

/// A background color.
#[derive(Clone, Copy, Debug, PartialEq, Eq, Structural)]
pub enum BgColor {
    Black,
    Blue,
    Green,
    Cyan,
    Red,
    Magenta,
    Brown,
    LightGray,
}

impl FgColor {
    /// The number of the color in the hardware's palette.
    pub open spec fn spec_code(self) -> u8 {
        match self {
            FgColor::Black => 0,
            FgColor::Blue => 1,
            FgColor::Green => 2,
            FgColor::Cyan => 3,
            FgColor::Red => 4,
            FgColor::Magenta => 5,
            FgColor::Brown => 6,
            FgColor::LightGray => 7,
            FgColor::DarkGray => 8,
            FgColor::LightBlue => 9,
            FgColor::LightGreen => 10,
            FgColor::LightCyan => 11,
            FgColor::LightRed => 12,
            FgColor::Pink => 13,
            FgColor::Yellow => 14,
            FgColor::White => 15,
        }
    }

    /// The number of the color in the hardware's palette.
    #[verifier::when_used_as_spec(spec_code)]
    pub fn code(self) -> (code: u8)
        ensures
            code == self.spec_code(),
            code < 16,
    {
        match self {
            FgColor::Black => 0,
            FgColor::Blue => 1,
            FgColor::Green => 2,
            FgColor::Cyan => 3,
            FgColor::Red => 4,
            FgColor::Magenta => 5,
            FgColor::Brown => 6,
            FgColor::LightGray => 7,
            FgColor::DarkGray => 8,
            FgColor::LightBlue => 9,
            FgColor::LightGreen => 10,
            FgColor::LightCyan => 11,
            FgColor::LightRed => 12,
            FgColor::Pink => 13,
            FgColor::Yellow => 14,
            FgColor::White => 15,
        }
    }
}

impl BgColor {
    /// The number of the color in the hardware's palette.
    pub open spec fn spec_code(self) -> u8 {
        match self {
            BgColor::Black => 0,
            BgColor::Blue => 1,
            BgColor::Green => 2,
            BgColor::Cyan => 3,
            BgColor::Red => 4,
            BgColor::Magenta => 5,
            BgColor::Brown => 6,
            BgColor::LightGray => 7,
        }
    }

    /// The number of the color in the hardware's palette.
    #[verifier::when_used_as_spec(spec_code)]
    pub fn code(self) -> (code: u8)
        ensures
            code == self.spec_code(),
            code < 8,
    {
        match self {
            BgColor::Black => 0,
            BgColor::Blue => 1,
            BgColor::Green => 2,
            BgColor::Cyan => 3,
            BgColor::Red => 4,
            BgColor::Magenta => 5,
            BgColor::Brown => 6,
            BgColor::LightGray => 7,
        }
    }
}

/// The color attribute of a character: bit 7 blinks, bits 6 to 4 are the
/// background color, bits 3 to 0 the foreground color.
#[derive(Clone, Copy, Debug, PartialEq, Eq, Structural)]
pub struct Color(u8);

impl View for Color {
    type V = u8;

    closed spec fn view(&self) -> u8 {
        self.0
    }
}

impl Color {
    /// The attribute byte of `fg` on `bg`, blinking or not.
    pub fn new(fg: FgColor, bg: BgColor, blink: bool) -> (color: Self)
        ensures
            color@ == (if blink {
                128int
            } else {
                0
            }) + 16 * bg.code() + fg.code(),
    {
        let high: u8 = if blink {
            0b1000_0000
        } else {
            0
        };
        let b = bg.code();
        let f = fg.code();
        assert((high | b << 4 | f) == high + 16 * b + f) by (bit_vector)
            requires
                high == 0 || high == 128,
                b < 8,
                f < 16,
        ;
        Color(high | b << 4 | f)
    }

    /// The attribute byte.
    pub fn bits(self) -> (bits: u8)
        ensures
            bits == self@,
    {
        self.0
    }
}

/// One cell of the screen.
#[derive(Clone, Copy, Debug, PartialEq, Eq, Structural)]
pub struct ScreenChar {
    pub character: u8,
    pub color: Color,
}

impl ScreenChar {
    /// The cell as the adapter holds it in memory: the character in the low
    /// byte of a word, the color in the high byte.
    pub fn word(self) -> (word: u16)
        ensures
            word == 256 * self.color@ + self.character,
    {
        let color = self.color.bits();
        let character = self.character;
        assert(((color as u16) << 8 | (character as u16)) == 256 * color + character)
            by (bit_vector);
        (color as u16) << 8 | (character as u16)
    }
}

/// The screen as a writer sees it.
pub struct Screen {
    /// The cells, row by row from the top.
    pub rows: Seq<Seq<ScreenChar>>,
    /// The column of the bottom row that the next character goes to.
    pub col: int,
    /// The color that characters are written in.
    pub color: Color,
}

impl Screen {
    /// The byte that is shown for `byte`: itself if it is printable ASCII or
    /// a line feed, and a filled box otherwise.
    pub open spec fn shown(byte: u8) -> u8 {
        if 0x20 <= byte <= 0x7e || byte == 0x0a {
            byte
        } else {
            0xfe
        }
    }

    /// A row of blanks in the writer's color.
    pub open spec fn blank_row(self) -> Seq<ScreenChar> {
        Seq::new(80, |c: int| ScreenChar { character: 0x20, color: self.color })
    }

    /// The screen after a line break: every row has moved up by one, the
    /// top row is gone, the bottom row is blank, and the column is 0.
    pub open spec fn new_line(self) -> Screen {
        Screen {
            rows: Seq::new(
                25,
                |r: int|
                    if r < 24 {
                        self.rows[r + 1]
                    } else {
                        self.blank_row()
                    },
            ),
            col: 0,
            ..self
        }
    }

    /// The screen after `byte` is written: a line feed breaks the line; any
    /// other byte goes to the bottom row at the column, after a line break
    /// if the row is full, and moves the column on by one.
    pub open spec fn write_byte(self, byte: u8) -> Screen {
        if byte == 0x0a {
            self.new_line()
        } else {
            let at = if self.col >= 80 {
                self.new_line()
            } else {
                self
            };
            Screen {
                rows: at.rows.update(
                    24,
                    at.rows[24].update(at.col, ScreenChar { character: byte, color: self.color }),
                ),
                col: at.col + 1,
                ..at
            }
        }
    }

    /// The screen after the bytes of `bytes` are written in order, each as
    /// it is shown.
    pub open spec fn write_bytes(self, bytes: Seq<u8>) -> Screen
        decreases bytes.len(),
    {
        if bytes.len() == 0 {
            self
        } else {
            self.write_bytes(bytes.drop_last()).write_byte(Self::shown(bytes.last()))
        }
    }
}

/// The cells of the screen.
struct Buffer {
    chars: [[Volatile<ScreenChar>; 80]; 25],
}

/// Writes text to the screen.
pub struct Writer {
    buffer: Buffer,
    col: usize,
    color: Color,
}

impl View for Writer {
    type V = Screen;

    closed spec fn view(&self) -> Screen {
        Screen {
            rows: Seq::new(25, |r: int| Seq::new(80, |c: int| self.buffer.chars@[r]@[c]@)),
            col: self.col as int,
            color: self.color,
        }
    }
}

impl Writer {
    /// The column is on the screen or just past its right edge.
    pub open spec fn wf(&self) -> bool {
        0 <= self@.col <= 80
    }

    /// A writer at the start of the bottom row of a blank screen, writing
    /// white on black.
    pub fn new() -> (writer: Self)
        ensures
            writer.wf(),
            writer@.col == 0,
            writer@.color@ == 15,
            writer@.rows == Seq::new(25, |r: int| writer@.blank_row()),
    {
        let color = Color::new(FgColor::White, BgColor::Black, false);
        let blank = Volatile::new(ScreenChar { character: 0x20, color });
        let writer = Writer { col: 0, color, buffer: Buffer { chars: [[blank; 80]; 25] } };
        assert(writer@.rows =~~= Seq::new(25, |r: int| writer@.blank_row()));
        writer
    }

    /// The column of the bottom row that the next character goes to.
    pub fn column(&self) -> (col: usize)
        ensures
            col == self@.col,
    {
        self.col
    }

    /// The cell in row `row` and column `col`.
    pub fn read(&self, row: usize, col: usize) -> (cell: ScreenChar)
        requires
            row < 25,
            col < 80,
        ensures
            cell == self@.rows[row as int][col as int],
    {
        self.buffer.chars[row][col].read()
    }

    /// Writes one byte: a line feed breaks the line, any other byte is put
    /// at the column of the bottom row, on a new line if the row is full.
    pub fn write_byte(&mut self, byte: u8)
        requires
            old(self).wf(),
        ensures
            final(self).wf(),
            final(self)@ == old(self)@.write_byte(byte),
    {
        if byte == 0x0a {
            self.new_line();
        } else {
            if self.col >= BUFFER_WIDTH {
                self.new_line();
            }
            let row = BUFFER_HEIGHT - 1;
            let col = self.col;
            let color = self.color;
            let ghost at = *self;
            self.put(row, col, ScreenChar { character: byte, color });
            let ghost written = *self;
            self.col += 1;
            proof {
                let goal = at@.rows.update(
                    24,
                    at@.rows[24].update(at@.col, ScreenChar { character: byte, color }),
                );
                assert forall|r: int, c: int| 0 <= r < 25 && 0 <= c < 80 implies self@.rows[r][c]
                    == goal[r][c] by {
                    if !(r == 24 && c == col) {
                        assert(written.cell(r, c) == at.cell(r, c));
                    }
                }
                assert(self@.rows =~~= goal);
            }
        }
    }

    /// Writes the bytes of `s` in order. A byte that is neither printable
    /// ASCII nor a line feed is written as a filled box.
    pub fn write_bytes(&mut self, s: &[u8])
        requires
            old(self).wf(),
        ensures
            final(self).wf(),
            final(self)@ == old(self)@.write_bytes(s@),
    {
        let mut i: usize = 0;
        while i < s.len()
            invariant
                0 <= i <= s@.len(),
                self.wf(),
                self@ == old(self)@.write_bytes(s@.take(i as int)),
            decreases s@.len() - i,
        {
            let b = s[i];
            proof {
                assert(s@.take(i + 1).drop_last() =~= s@.take(i as int));
            }
            if (0x20 <= b && b <= 0x7e) || b == 0x0a {
                self.write_byte(b);
            } else {
                self.write_byte(0xfe);
            }
            i += 1;
        }
        proof {
            assert(s@.take(i as int) =~= s@);
        }
    }

    /// Writes the bytes of the string `s`.
    pub fn write_str(&mut self, s: &str)
        requires
            old(self).wf(),
        ensures
            final(self).wf(),
            final(self)@ == old(self)@.write_bytes(s.spec_bytes()),
    {
        self.write_bytes(s.as_bytes());
    }

    /// The cell in row `r` and column `c`.
    spec fn cell(&self, r: int, c: int) -> ScreenChar {
        self.buffer.chars@[r]@[c]@
    }

    /// Puts `character` in row `row` and column `col`.
    fn put(&mut self, row: usize, col: usize, character: ScreenChar)
        requires
            row < 25,
            col < 80,
        ensures
            final(self).col == old(self).col,
            final(self).color == old(self).color,
            final(self).cell(row as int, col as int) == character,
            forall|r: int, c: int|
                0 <= r < 25 && 0 <= c < 80 && !(r == row && c == col)
                    ==> #[trigger] final(self).cell(r, c) == old(self).cell(r, c),
    {
        self.buffer.chars[row][col].write(character);
        proof {
            assert(forall|c: int|
                0 <= c < 80 && c != col ==> self.buffer.chars@[row as int]@[c]
                    == old(self).buffer.chars@[row as int]@[c]);
            assert(forall|r: int|
                0 <= r < 25 && r != row ==> self.buffer.chars@[r] == old(self).buffer.chars@[r]);
        }
    }

    /// Breaks the line: moves every row up by one, blanks the bottom row
    /// and goes back to column 0.
    fn new_line(&mut self)
        ensures
            final(self)@ == old(self)@.new_line(),
    {
        let mut row: usize = 1;
        while row < BUFFER_HEIGHT
            invariant
                1 <= row <= 25,
                self.col == old(self).col,
                self.color == old(self).color,
                forall|r: int, c: int|
                    0 <= r < row - 1 && 0 <= c < 80
                        ==> #[trigger] self.cell(r, c) == old(self).cell(r + 1, c),
                forall|r: int, c: int|
                    row - 1 <= r < 25 && 0 <= c < 80
                        ==> #[trigger] self.cell(r, c) == old(self).cell(r, c),
            decreases 25 - row,
        {
            let mut col: usize = 0;
            while col < BUFFER_WIDTH
                invariant
                    1 <= row < 25,
                    0 <= col <= 80,
                    self.col == old(self).col,
                    self.color == old(self).color,
                    forall|r: int, c: int|
                        0 <= r < row - 1 && 0 <= c < 80
                        ==> #[trigger] self.cell(r, c) == old(self).cell(r + 1, c),
                    forall|r: int, c: int|
                        row <= r < 25 && 0 <= c < 80
                            ==> #[trigger] self.cell(r, c) == old(self).cell(r, c),
                    forall|c: int|
                        0 <= c < col ==> #[trigger] self.cell(row - 1, c) == old(self).cell(
                            row as int,
                            c,
                        ),
                    forall|c: int|
                        col <= c < 80 ==> #[trigger] self.cell(row - 1, c) == old(self).cell(
                            row - 1,
                            c,
                        ),
                decreases 80 - col,
            {
                let character = self.buffer.chars[row][col].read();
                assert(character == self.cell(row as int, col as int));
                self.put(row - 1, col, character);
                col += 1;
            }
            row += 1;
        }
        let ghost moved = *self;
        self.clear_row(BUFFER_HEIGHT - 1);
        self.col = 0;
        proof {
            assert forall|r: int, c: int| 0 <= r < 24 && 0 <= c < 80 implies self@.rows[r][c]
                == old(self)@.rows[r + 1][c] by {
                assert(moved@.rows[r][c] == moved.cell(r, c));
            }
            assert(self@.rows =~~= old(self)@.new_line().rows);
        }
    }

    /// Fills the row `row` with blanks in the writer's color.
    fn clear_row(&mut self, row: usize)
        requires
            row < 25,
        ensures
            final(self)@ == (Screen {
                rows: old(self)@.rows.update(row as int, old(self)@.blank_row()),
                ..old(self)@
            }),
    {
        let blank = ScreenChar { character: 0x20, color: self.color };
        let mut col: usize = 0;
        while col < BUFFER_WIDTH
            invariant
                row < 25,
                0 <= col <= 80,
                blank == (ScreenChar { character: 0x20, color: self.color }),
                self.col == old(self).col,
                self.color == old(self).color,
                forall|r: int, c: int|
                    0 <= r < 25 && r != row && 0 <= c < 80
                        ==> #[trigger] self.cell(r, c) == old(self).cell(r, c),
                forall|c: int| 0 <= c < col ==> #[trigger] self.cell(row as int, c) == blank,
            decreases 80 - col,
        {
            self.put(row, col, blank);
            col += 1;
        }
        proof {
            let goal = old(self)@.rows.update(row as int, old(self)@.blank_row());
            assert forall|r: int, c: int| 0 <= r < 25 && 0 <= c < 80 implies self@.rows[r][c]
                == goal[r][c] by {
                assert(self@.rows[r][c] == self.cell(r, c));
            }
            assert(self@.rows =~~= goal);
        }
    }
}

impl Default for Writer {
    fn default() -> (writer: Self)
        ensures
            writer.wf(),
            writer@.col == 0,
    {
        Writer::new()
    }
}

} // verus!
