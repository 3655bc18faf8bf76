//! The text-mode display writer.
//!
//! The display is a fixed grid of character cells, each a byte and a color
//! attribute. The writer appends at the bottom row: printable bytes advance
//! the column, a newline (or a full row) scrolls every row up by one and
//! blanks the bottom row, and bytes outside the printable range render as a
//! placeholder. The hardware's memory-mapped grid belongs to the embedder;
//! the writer computes every cell of it.

use vstd::prelude::*;
use vstd::string::StringSliceAdditionalSpecFns;

verus! {

/// Rows of the text grid.
pub const BUFFER_HEIGHT: usize = 25;

/// Columns of the text grid.
pub const BUFFER_WIDTH: usize = 80;

/// The text-mode palette.
#[derive(Debug, Clone, Copy, PartialEq, Eq, Structural)]
pub enum Color {
    /// Palette entry 0.
    Black,
    /// Palette entry 1.
    Blue,
    /// Palette entry 2.
    Green,
    /// Palette entry 3.
    Cyan,
    /// Palette entry 4.
    Red,
    /// Palette entry 5.
    Magenta,
    /// Palette entry 6.
    Brown,
    /// Palette entry 7.
    LightGray,
    /// Palette entry 8.
    DarkGray,
    /// Palette entry 9.
    LightBlue,
    /// Palette entry 10.
    LightGreen,
    /// Palette entry 11.
    LightCyan,
    /// Palette entry 12.
    LightRed,
    /// Palette entry 13.
    Pink,
    /// Palette entry 14.
    Yellow,
    /// Palette entry 15.
    White,
}

impl Color {
    /// The palette index of this color.
    pub open spec fn spec_u8(self) -> u8 {
        match self {
            Color::Black => 0,
            Color::Blue => 1,
            Color::Green => 2,
            Color::Cyan => 3,
            Color::Red => 4,
            Color::Magenta => 5,
            Color::Brown => 6,
            Color::LightGray => 7,
            Color::DarkGray => 8,
            Color::LightBlue => 9,
            Color::LightGreen => 10,
            Color::LightCyan => 11,
            Color::LightRed => 12,
            Color::Pink => 13,
            Color::Yellow => 14,
            Color::White => 15,
        }
    }

    /// The palette index of this color.
    pub fn as_u8(self) -> (r: u8)
        ensures
            r == self.spec_u8(),
    {
        match self {
            Color::Black => 0,
            Color::Blue => 1,
            Color::Green => 2,
            Color::Cyan => 3,
            Color::Red => 4,
            Color::Magenta => 5,
            Color::Brown => 6,
            Color::LightGray => 7,
            Color::DarkGray => 8,
            Color::LightBlue => 9,
            Color::LightGreen => 10,
            Color::LightCyan => 11,
            Color::LightRed => 12,
            Color::Pink => 13,
            Color::Yellow => 14,
            Color::White => 15,
        }
    }
}

/// A foreground and a background color packed into one attribute byte: the
/// background in the high four bits, the foreground in the low four.
#[derive(Debug, Clone, Copy, PartialEq, Eq, Structural)]
pub struct ColorCode(pub u8);

impl ColorCode {
    /// Pack a foreground and a background color.
    pub fn new(foreground: Color, background: Color) -> (r: Self)
        ensures
            r.0 == background.spec_u8() * 16 + foreground.spec_u8(),
    {
        ColorCode(background.as_u8() * 16 + foreground.as_u8())
    }
}

/// One cell of the text grid.
#[derive(Debug, Clone, Copy, PartialEq, Eq, Structural)]
pub struct ScreenChar {
    /// The byte shown in the cell.
    pub ascii_character: u8,
    /// The cell's color attribute.
    pub color_code: ColorCode,
}

/// The blank cell a cleared position shows.
pub open spec fn blank_char(cc: ColorCode) -> ScreenChar {
    ScreenChar { ascii_character: 0x20, color_code: cc }
}

/// A cleared row.
pub open spec fn blank_row(cc: ColorCode) -> Seq<ScreenChar> {
    Seq::new(BUFFER_WIDTH as nat, |c: int| blank_char(cc))
}

/// The grid a row-major cell sequence denotes.
pub open spec fn screen_of(cells: Seq<ScreenChar>) -> Seq<Seq<ScreenChar>> {
    Seq::new(
        BUFFER_HEIGHT as nat,
        |r: int| Seq::new(BUFFER_WIDTH as nat, |c: int| cells[r * BUFFER_WIDTH + c]),
    )
}

/// The grid scrolled up one row, the bottom row cleared.
pub open spec fn scrolled(s: Seq<Seq<ScreenChar>>, cc: ColorCode) -> Seq<Seq<ScreenChar>> {
    Seq::new(
        BUFFER_HEIGHT as nat,
        |r: int|
            if r < BUFFER_HEIGHT - 1 {
                s[r + 1]
            } else {
                blank_row(cc)
            },
    )
}

/// The grid with one cell rewritten.
pub open spec fn written_at(s: Seq<Seq<ScreenChar>>, row: int, col: int, ch: ScreenChar) -> Seq<
    Seq<ScreenChar>,
> {
    s.update(row, s[row].update(col, ch))
}

/// What one byte does to the grid and the column: a newline scrolls, a full
/// row scrolls first, anything else lands in the bottom row at the current
/// column.
pub open spec fn write_byte_state(s: Seq<Seq<ScreenChar>>, col: int, cc: ColorCode, byte: u8) -> (
    Seq<Seq<ScreenChar>>,
    int,
) {
    if byte == 0x0a {
        (scrolled(s, cc), 0)
    } else if col >= BUFFER_WIDTH {
        (
            written_at(
                scrolled(s, cc),
                BUFFER_HEIGHT - 1,
                0,
                ScreenChar { ascii_character: byte, color_code: cc },
            ),
            1,
        )
    } else {
        (
            written_at(
                s,
                BUFFER_HEIGHT - 1,
                col,
                ScreenChar { ascii_character: byte, color_code: cc },
            ),
            col + 1,
        )
    }
}

/// How a string byte renders: printable bytes and newline pass, everything
/// else becomes the placeholder cell.
pub open spec fn vga_byte(b: u8) -> u8 {
    if 0x20 <= b <= 0x7e || b == 0x0a {
        b
    } else {
        0xfe
    }
}

/// What a whole byte string does to the grid and the column.
pub open spec fn write_bytes_state(
    s: Seq<Seq<ScreenChar>>,
    col: int,
    cc: ColorCode,
    bytes: Seq<u8>,
) -> (Seq<Seq<ScreenChar>>, int)
    decreases bytes.len(),
{
    if bytes.len() == 0 {
        (s, col)
    } else {
        let step = write_byte_state(s, col, cc, vga_byte(bytes[0]));
        write_bytes_state(step.0, step.1, cc, bytes.skip(1))
    }
}

/// The writer: the cursor column, the active color, and the full cell grid
/// it maintains for the display.
pub struct Writer {
    /// The column the next byte lands in, within the bottom row.
    pub column_position: usize,
    /// The attribute every written and cleared cell receives.
    pub color_code: ColorCode,
    /// The grid's cells, row-major.
    pub cells: Vec<ScreenChar>,
}

impl Writer {
    /// The grid the writer maintains.
    pub open spec fn screen(&self) -> Seq<Seq<ScreenChar>> {
        screen_of(self.cells@)
    }

    /// The writer's invariant: a full grid and an in-range cursor.
    pub open spec fn wf(&self) -> bool {
        &&& self.cells@.len() == BUFFER_HEIGHT * BUFFER_WIDTH
        &&& self.column_position <= BUFFER_WIDTH
    }

    /// A writer over a cleared grid.
    pub fn new(color_code: ColorCode) -> (r: Writer)
        ensures
            r.wf(),
            r.column_position == 0,
            r.color_code == color_code,
            forall|row: int|
                0 <= row < BUFFER_HEIGHT ==> #[trigger] r.screen()[row] =~= blank_row(color_code),
    {
        let mut cells: Vec<ScreenChar> = Vec::new();
        let blank = ScreenChar { ascii_character: 0x20, color_code: color_code };
        let mut i: usize = 0;
        while i < BUFFER_HEIGHT * BUFFER_WIDTH
            invariant
                0 <= i <= BUFFER_HEIGHT * BUFFER_WIDTH,
                cells@.len() == i,
                blank == blank_char(color_code),
                forall|k: int| 0 <= k < i ==> #[trigger] cells@[k] == blank_char(color_code),
            decreases BUFFER_HEIGHT * BUFFER_WIDTH - i,
        {
            cells.push(blank);
            proof {
                assert(cells@[i as int] == blank_char(color_code));
            }
            i = i + 1;
        }
        Writer { column_position: 0, color_code, cells }
    }

    /// Clear one row to blanks in the active color.
    fn clear_row(&mut self, row: usize)
        requires
            old(self).wf(),
            row < BUFFER_HEIGHT,
        ensures
            final(self).wf(),
            final(self).color_code == old(self).color_code,
            final(self).column_position == old(self).column_position,
            final(self).screen() =~~= old(self).screen().update(
                row as int,
                blank_row(old(self).color_code),
            ),
    {
        let ghost cells0 = self.cells@;
        let blank = ScreenChar { ascii_character: 0x20, color_code: self.color_code };
        let mut col: usize = 0;
        while col < BUFFER_WIDTH
            invariant
                self.wf(),
                row < BUFFER_HEIGHT,
                0 <= col <= BUFFER_WIDTH,
                self.color_code == old(self).color_code,
                self.column_position == old(self).column_position,
                blank == blank_char(old(self).color_code),
                cells0 == old(self).cells@,
                self.cells@.len() == cells0.len(),
                forall|k: int|
                    0 <= k < cells0.len() ==> #[trigger] self.cells@[k] == if row * BUFFER_WIDTH
                        <= k < row * BUFFER_WIDTH + col {
                        blank_char(old(self).color_code)
                    } else {
                        cells0[k]
                    },
            decreases BUFFER_WIDTH - col,
        {
            self.cells.set(row * BUFFER_WIDTH + col, blank);
            col = col + 1;
        }
        proof {
            assert forall|r2: int| 0 <= r2 < BUFFER_HEIGHT implies #[trigger] self.screen()[r2]
                =~= old(self).screen().update(row as int, blank_row(old(self).color_code))[r2] by {
                assert forall|c: int| 0 <= c < BUFFER_WIDTH implies self.screen()[r2][c]
                    == old(self).screen().update(
                    row as int,
                    blank_row(old(self).color_code),
                )[r2][c] by {
                    assert(self.cells@[r2 * BUFFER_WIDTH + c] == if row * BUFFER_WIDTH <= r2
                        * BUFFER_WIDTH + c < row * BUFFER_WIDTH + BUFFER_WIDTH {
                        blank_char(old(self).color_code)
                    } else {
                        cells0[r2 * BUFFER_WIDTH + c]
                    });
                };
            };
        }
    }

    /// Scroll: move every row up by one, clear the bottom row, return the
    /// cursor to the left edge.
    fn new_line(&mut self)
        requires
            old(self).wf(),
        ensures
            final(self).wf(),
            final(self).color_code == old(self).color_code,
            final(self).column_position == 0,
            final(self).screen() =~~= scrolled(old(self).screen(), old(self).color_code),
    {
        let ghost cells0 = self.cells@;
        let mut next: Vec<ScreenChar> = Vec::new();
        let mut i: usize = 0;
        while i < BUFFER_HEIGHT * BUFFER_WIDTH
            invariant
                self.wf(),
                cells0 == self.cells@,
                0 <= i <= BUFFER_HEIGHT * BUFFER_WIDTH,
                next@.len() == i,
                forall|k: int|
                    0 <= k < i ==> #[trigger] next@[k] == if k < (BUFFER_HEIGHT - 1)
                        * BUFFER_WIDTH {
                        cells0[k + BUFFER_WIDTH]
                    } else {
                        cells0[k]
                    },
            decreases BUFFER_HEIGHT * BUFFER_WIDTH - i,
        {
            if i < (BUFFER_HEIGHT - 1) * BUFFER_WIDTH {
                let ch = self.cells[i + BUFFER_WIDTH];
                next.push(ch);
            } else {
                let ch = self.cells[i];
                next.push(ch);
            }
            i = i + 1;
        }
        self.cells = next;
        self.clear_row(BUFFER_HEIGHT - 1);
        self.column_position = 0;
        proof {
            assert forall|r2: int| 0 <= r2 < BUFFER_HEIGHT implies #[trigger] self.screen()[r2]
                =~= scrolled(screen_of(cells0), old(self).color_code)[r2] by {
                if r2 < BUFFER_HEIGHT - 1 {
                    assert forall|c: int| 0 <= c < BUFFER_WIDTH implies self.screen()[r2][c]
                        == screen_of(cells0)[r2 + 1][c] by {
                        assert(r2 * BUFFER_WIDTH + c < (BUFFER_HEIGHT - 1) * BUFFER_WIDTH);
                        assert(r2 * BUFFER_WIDTH + c + BUFFER_WIDTH == (r2 + 1) * BUFFER_WIDTH
                            + c);
                    };
                }
            };
        }
    }

    /// Write one byte: newline scrolls; a full bottom row scrolls first;
    /// anything else lands at the cursor in the bottom row and advances it.
    pub fn write_byte(&mut self, byte: u8)
        requires
            old(self).wf(),
        ensures
            final(self).wf(),
            final(self).color_code == old(self).color_code,
            final(self).screen() =~~= write_byte_state(
                old(self).screen(),
                old(self).column_position as int,
                old(self).color_code,
                byte,
            ).0,
            final(self).column_position as int == write_byte_state(
                old(self).screen(),
                old(self).column_position as int,
                old(self).color_code,
                byte,
            ).1,
    {
        if byte == 0x0a {
            self.new_line();
        } else {
            let ghost scrolled_once = self.column_position >= BUFFER_WIDTH;
            if self.column_position >= BUFFER_WIDTH {
                self.new_line();
            }
            let ghost mid = self.screen();
            let row = BUFFER_HEIGHT - 1;
            let col = self.column_position;
            let color_code = self.color_code;
            let ch = ScreenChar { ascii_character: byte, color_code: color_code };
            self.cells.set(row * BUFFER_WIDTH + col, ch);
            self.column_position = col + 1;
            proof {
                assert forall|r2: int| 0 <= r2 < BUFFER_HEIGHT implies #[trigger] self.screen()[r2]
                    =~= written_at(mid, row as int, col as int, ch)[r2] by {
                    assert forall|c: int| 0 <= c < BUFFER_WIDTH implies self.screen()[r2][c]
                        == written_at(mid, row as int, col as int, ch)[r2][c] by {
                        if r2 == row as int && c == col as int {
                        } else {
                            assert(r2 * BUFFER_WIDTH + c != row as int * BUFFER_WIDTH
                                + col as int);
                        }
                    };
                };
                assert(self.screen() =~~= written_at(mid, row as int, col as int, ch));
            }
        }
    }

    /// Write a whole string: printable bytes and newlines as they are,
    /// anything else as the placeholder byte.
    pub fn write_string(&mut self, s: &str)
        requires
            old(self).wf(),
        ensures
            final(self).wf(),
            final(self).color_code == old(self).color_code,
            final(self).screen() =~~= write_bytes_state(
                old(self).screen(),
                old(self).column_position as int,
                old(self).color_code,
                s.spec_bytes(),
            ).0,
            final(self).column_position as int == write_bytes_state(
                old(self).screen(),
                old(self).column_position as int,
                old(self).color_code,
                s.spec_bytes(),
            ).1,
    {
        let bytes = s.as_bytes();
        let ghost all = s.spec_bytes();
        let mut i: usize = 0;
        proof {
            assert(all.skip(0) =~= all);
        }
        while i < bytes.len()
            invariant
                self.wf(),
                bytes@ == all,
                self.color_code == old(self).color_code,
                0 <= i <= all.len(),
                write_bytes_state(
                    old(self).screen(),
                    old(self).column_position as int,
                    old(self).color_code,
                    all,
                ) == write_bytes_state(
                    self.screen(),
                    self.column_position as int,
                    self.color_code,
                    all.skip(i as int),
                ),
            decreases all.len() - i,
        {
            let b = bytes[i];
            proof {
                assert(all.skip(i as int)[0] == b);
                assert(all.skip(i as int).skip(1) =~= all.skip(i as int + 1));
            }
            if (0x20 <= b && b <= 0x7e) || b == 0x0a {
                self.write_byte(b);
            } else {
                self.write_byte(0xfe);
            }
            i = i + 1;
        }
        proof {
            assert(all.skip(all.len() as int) =~= Seq::<u8>::empty());
        }
    }
}

} // verus!
