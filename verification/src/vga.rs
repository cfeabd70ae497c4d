//! Text-mode console driver over a grid of volatile display cells.

use vstd::prelude::*;
use vstd::string::StringSliceAdditionalSpecFns;
use volatile::Volatile;
use crate::text::fragment_bytes;
use crate::screen::{
    blank_row, sanitized, text_byte, Screen, BLANK, DEFAULT_ATTRIBUTE, LINE_FEED, UNKNOWN_GLYPH,
};
pub use crate::screen::{Color, ColorCode, ScreenChar, VGA_HEIGHT, VGA_WIDTH};

verus! {

/// `volatile::Volatile`: a cell whose loads and stores the compiler may
/// neither drop nor reorder. Nothing is known of what is inside but
/// through `cell_value`.
#[verifier::external_type_specification]
#[verifier::external_body]
#[verifier::reject_recursive_types(T)]
pub struct ExVolatile<T: Copy>(Volatile<T>);

/// What a display cell holds: what `Volatile::read` loads from it. The
/// cell is taken to be memory, which keeps what was last stored in it, as
/// display memory does.
pub uninterp spec fn cell_value(cell: Volatile<ScreenChar>) -> ScreenChar;

/// `Volatile::new`, once for each cell of a grid: every cell of the new
/// grid holds the value it was made from.
#[verifier::external_body]
fn cells_new(value: ScreenChar) -> (cells: [[Volatile<ScreenChar>; 80]; 25])
    ensures
        forall|r: int, c: int|
            0 <= r < VGA_HEIGHT && 0 <= c < VGA_WIDTH ==>
                cell_value(#[trigger] cells[r][c]) == value,
{
    core::array::from_fn(|_| core::array::from_fn(|_| Volatile::new(value)))
}

/// `Volatile::read`: a volatile load of what the cell holds; the cell is
/// left as it is.
#[verifier::external_body]
fn cell_read(cell: &Volatile<ScreenChar>) -> (value: ScreenChar)
    ensures
        value == cell_value(*cell),
{
    cell.read()
}

/// `Volatile::write`: a volatile store, after which the cell holds the
/// value. The store cannot panic.
#[verifier::external_body]
fn cell_write(cell: &mut Volatile<ScreenChar>, value: ScreenChar)
    ensures
        cell_value(*final(cell)) == value,
    no_unwind
{
    cell.write(value)
}

/// The display surface: 25 rows of 80 volatile cells.
pub struct Buffer {
    chars: [[Volatile<ScreenChar>; 80]; 25],
}

impl Buffer {
    /// The cells by row and column.
    pub closed spec fn view(&self) -> Seq<Seq<ScreenChar>> {
        Seq::new(
            VGA_HEIGHT as nat,
            |r: int| Seq::new(VGA_WIDTH as nat, |c: int| cell_value(self.chars[r][c])),
        )
    }

    /// The view is always a grid of 25 by 80.
    pub broadcast proof fn lemma_view_dimensions(&self)
        ensures
            #![trigger self.view()]
            self@.len() == VGA_HEIGHT,
            forall|r: int| 0 <= r < VGA_HEIGHT ==> (#[trigger] self@[r]).len() == VGA_WIDTH,
    {
    }

    /// A surface of blank cells in the default attribute.
    pub fn new() -> (buffer: Buffer)
        ensures
            buffer@ ==
                Seq::new(VGA_HEIGHT as nat, |r: int| blank_row(ColorCode(DEFAULT_ATTRIBUTE))),
    {
        let blank = ScreenChar {
            ascii_character: BLANK,
            color_code: ColorCode(DEFAULT_ATTRIBUTE),
        };
        let buffer = Buffer { chars: cells_new(blank) };
        proof {
            assert forall|r: int| 0 <= r < VGA_HEIGHT implies #[trigger] buffer@[r] =~= blank_row(
                ColorCode(DEFAULT_ATTRIBUTE),
            ) by {
                assert forall|c: int| 0 <= c < VGA_WIDTH
                    implies #[trigger] buffer@[r][c] == blank by {
                    assert(cell_value(buffer.chars[r][c]) == blank);
                }
            }
            assert(buffer@ =~=
                Seq::new(VGA_HEIGHT as nat, |r: int| blank_row(ColorCode(DEFAULT_ATTRIBUTE))));
        }
        buffer
    }

    /// Reads one cell.
    fn read(&self, row: usize, col: usize) -> (ch: ScreenChar)
        requires
            row < VGA_HEIGHT,
            col < VGA_WIDTH,
        ensures
            ch == self@[row as int][col as int],
    {
        cell_read(&self.chars[row][col])
    }

    /// Writes one cell and leaves the others as they are.
    fn write(&mut self, row: usize, col: usize, ch: ScreenChar)
        requires
            row < VGA_HEIGHT,
            col < VGA_WIDTH,
        ensures
            final(self)@ ==
                old(self)@.update(row as int, old(self)@[row as int].update(col as int, ch)),
        no_unwind
    {
        cell_write(&mut self.chars[row][col], ch);
        assert(self@ =~~=
            old(self)@.update(row as int, old(self)@[row as int].update(col as int, ch)));
    }
}

/// The console: the cursor, the current attribute and the display surface
/// that it alone writes to.
pub struct Writer {
    column_position: usize,
    row_position: usize,
    color_code: ColorCode,
    buffer: &'static mut Buffer,
}

impl Writer {
    /// The console as a value of the model.
    pub closed spec fn view(&self) -> Screen {
        Screen {
            cells: self.buffer@,
            row: self.row_position as int,
            col: self.column_position as int,
            color: self.color_code,
        }
    }

    /// The cursor is on the grid, or just past the end of its row.
    #[verifier::type_invariant]
    closed spec fn cursor_on_grid(&self) -> bool {
        self.row_position < VGA_HEIGHT && self.column_position <= VGA_WIDTH
    }

    /// The console is a well-formed screen. This holds of every console.
    pub open spec fn wf(&self) -> bool {
        self@.wf()
    }

    /// A console over a display surface, with the cursor at the origin and
    /// white on black as the current attribute. The surface keeps what it
    /// shows.
    pub fn new(buffer: &'static mut Buffer) -> (w: Writer)
        ensures
            w.wf(),
            w@ == (Screen {
                cells: old(buffer)@,
                row: 0,
                col: 0,
                color: ColorCode(DEFAULT_ATTRIBUTE),
            }),
    {
        broadcast use Buffer::lemma_view_dimensions;

        Writer {
            column_position: 0,
            row_position: 0,
            color_code: ColorCode(DEFAULT_ATTRIBUTE),
            buffer,
        }
    }

    /// The row of the cursor.
    pub fn row_position(&self) -> (row: usize)
        ensures
            row == self@.row,
            self.wf(),
    {
        proof {
            use_type_invariant(self);
            self.buffer.lemma_view_dimensions();
        }
        self.row_position
    }

    /// The column of the cursor.
    pub fn column_position(&self) -> (col: usize)
        ensures
            col == self@.col,
            self.wf(),
    {
        proof {
            use_type_invariant(self);
            self.buffer.lemma_view_dimensions();
        }
        self.column_position
    }

    /// The current attribute.
    pub fn color_code(&self) -> (color: ColorCode)
        ensures
            color == self@.color,
    {
        self.color_code
    }

    /// Reads back one cell of the display surface.
    pub fn read_cell(&self, row: usize, col: usize) -> (ch: Option<ScreenChar>)
        ensures
            ch == if row < VGA_HEIGHT && col < VGA_WIDTH {
                Some(self@.cells[row as int][col as int])
            } else {
                None
            },
    {
        if row < VGA_HEIGHT && col < VGA_WIDTH {
            Some(self.buffer.read(row, col))
        } else {
            None
        }
    }

    /// Sets the attribute of the cells written from now on.
    pub fn set_color(&mut self, color: ColorCode)
        ensures
            final(self)@ == (Screen { color: color, ..old(self)@ }),
            final(self).wf(),
    {
        broadcast use Buffer::lemma_view_dimensions;
        proof {
            use_type_invariant(&*self);
        }

        self.color_code = color;
    }

    /// Fills one row with blanks in the given attribute.
    fn clear_row(&mut self, row: usize, color: ColorCode)
        requires
            row < VGA_HEIGHT,
        ensures
            final(self)@ == (Screen {
                cells: old(self)@.cells.update(row as int, blank_row(color)),
                ..old(self)@
            }),
            final(self).wf(),
    {
        broadcast use Buffer::lemma_view_dimensions;
        proof {
            use_type_invariant(&*self);
        }

        let blank = ScreenChar { ascii_character: BLANK, color_code: color };
        let mut col: usize = 0;
        while col < VGA_WIDTH
            invariant
                row < VGA_HEIGHT,
                col <= VGA_WIDTH,
                blank == (ScreenChar { ascii_character: BLANK, color_code: color }),
                self.row_position == old(self).row_position,
                self.column_position == old(self).column_position,
                self.color_code == old(self).color_code,
                self.cursor_on_grid(),
                forall|r: int| 0 <= r < VGA_HEIGHT && r != row ==>
                    self.buffer@[r] == old(self).buffer@[r],
                forall|c: int| 0 <= c < col ==> self.buffer@[row as int][c] == blank,
                forall|c: int| col <= c < VGA_WIDTH ==>
                    self.buffer@[row as int][c] == old(self).buffer@[row as int][c],
            decreases VGA_WIDTH - col,
        {
            self.buffer.write(row, col, blank);
            col += 1;
        }
        proof {
            assert(self.buffer@[row as int] =~= blank_row(color));
            assert(self.buffer@ =~= old(self).buffer@.update(row as int, blank_row(color)));
        }
    }

    /// Moves every row up by one and blanks the last row in the current
    /// attribute.
    fn scroll(&mut self)
        ensures
            final(self)@ == old(self)@.scrolled(),
            final(self).wf(),
    {
        broadcast use Buffer::lemma_view_dimensions;
        proof {
            use_type_invariant(&*self);
        }

        let mut row: usize = 1;
        while row < VGA_HEIGHT
            invariant
                1 <= row <= VGA_HEIGHT,
                self.row_position == old(self).row_position,
                self.column_position == old(self).column_position,
                self.color_code == old(self).color_code,
                self.cursor_on_grid(),
                forall|r: int| 0 <= r < row - 1 ==> self.buffer@[r] == old(self).buffer@[r + 1],
                forall|r: int| row - 1 <= r < VGA_HEIGHT ==>
                    self.buffer@[r] == old(self).buffer@[r],
            decreases VGA_HEIGHT - row,
        {
            let ghost before = self.buffer@;
            let ghost up = row - 1;
            let mut col: usize = 0;
            while col < VGA_WIDTH
                invariant
                    1 <= row < VGA_HEIGHT,
                    col <= VGA_WIDTH,
                    self.row_position == old(self).row_position,
                    self.column_position == old(self).column_position,
                    self.color_code == old(self).color_code,
                    self.cursor_on_grid(),
                self.cursor_on_grid(),
                    up == row - 1,
                    before.len() == VGA_HEIGHT,
                    forall|r: int| 0 <= r < VGA_HEIGHT ==>
                        (#[trigger] before[r]).len() == VGA_WIDTH,
                    forall|r: int| 0 <= r < VGA_HEIGHT && r != up ==> self.buffer@[r] == before[r],
                    forall|c: int| 0 <= c < col ==> self.buffer@[up][c] == before[row as int][c],
                    forall|c: int| col <= c < VGA_WIDTH ==> self.buffer@[up][c] == before[up][c],
                decreases VGA_WIDTH - col,
            {
                let character = self.buffer.read(row, col);
                self.buffer.write(row - 1, col, character);
                col += 1;
            }
            proof {
                assert(self.buffer@[up] =~= before[row as int]);
                assert forall|r: int| 0 <= r < row
                    implies self.buffer@[r] == old(self).buffer@[r + 1] by {
                    if r < up {
                        assert(self.buffer@[r] == before[r]);
                    }
                }
                assert forall|r: int| row <= r < VGA_HEIGHT
                    implies self.buffer@[r] == old(self).buffer@[r] by {
                    assert(self.buffer@[r] == before[r]);
                }
            }
            row += 1;
        }
        self.clear_row(VGA_HEIGHT - 1, self.color_code);
        proof {
            assert(self.buffer@ =~= old(self)@.scrolled().cells);
        }
    }

    /// The newline transition: down one row, or a scroll on the last row;
    /// the column back to the start.
    fn new_line(&mut self)
        ensures
            final(self).wf(),
            final(self)@ == old(self)@.newline(),
    {
        broadcast use Buffer::lemma_view_dimensions;
        proof {
            use_type_invariant(&*self);
        }

        if self.row_position < VGA_HEIGHT - 1 {
            self.row_position += 1;
        } else {
            self.scroll();
        }
        self.column_position = 0;
    }

    /// Writes one byte at the cursor: a line feed is the newline
    /// transition; any other byte fills the cell at the cursor in the
    /// current attribute, after a newline transition if the row is full,
    /// and moves the cursor one column on.
    pub fn write_byte(&mut self, byte: u8)
        ensures
            final(self).wf(),
            final(self)@ == old(self)@.put_byte(byte),
    {
        broadcast use Buffer::lemma_view_dimensions;
        proof {
            use_type_invariant(&*self);
        }

        if byte == LINE_FEED {
            self.new_line();
        } else {
            if self.column_position >= VGA_WIDTH {
                self.new_line();
            }
            let row = self.row_position;
            let col = self.column_position;
            let ch = ScreenChar { ascii_character: byte, color_code: self.color_code };
            self.buffer.write(row, col, ch);
            self.column_position += 1;
        }
    }

    /// Writes a text at the cursor. Printable ASCII and line feeds are
    /// written as they are, every other byte as the unknown glyph; the
    /// whole text is consumed.
    pub fn write_string(&mut self, s: &str)
        ensures
            final(self).wf(),
            final(self)@ == old(self)@.put_bytes(s.spec_bytes()),
    {
        broadcast use Buffer::lemma_view_dimensions;
        proof {
            use_type_invariant(&*self);
        }

        let bytes = s.as_bytes();
        let mut i: usize = 0;
        while i < bytes.len()
            invariant
                i <= bytes.len(),
                bytes@ == s.spec_bytes(),
                self.wf(),
                self@ == old(self)@.put_raw(sanitized(bytes@).take(i as int)),
            decreases bytes.len() - i,
        {
            let byte = bytes[i];
            proof {
                let next = sanitized(bytes@).take(i + 1);
                assert(next.drop_last() =~= sanitized(bytes@).take(i as int));
                assert(next.last() == text_byte(byte));
            }
            if (0x20 <= byte && byte <= 0x7e) || byte == LINE_FEED {
                self.write_byte(byte);
            } else {
                self.write_byte(UNKNOWN_GLYPH);
            }
            i += 1;
        }
        proof {
            assert(sanitized(bytes@).take(i as int) =~= sanitized(bytes@));
        }
    }

    /// Writes a text at a given place in a given attribute. A row off the
    /// surface makes the call do nothing; what would pass the end of the
    /// row is dropped; bytes that are not printable ASCII are written as
    /// the unknown glyph. The cursor and the current attribute stay.
    pub fn write_string_at(&mut self, s: &str, row: usize, col: usize, color: ColorCode)
        ensures
            final(self)@ == old(self)@.put_at(s.spec_bytes(), row as int, col as int, color),
            final(self).wf(),
    {
        broadcast use Buffer::lemma_view_dimensions;
        proof {
            use_type_invariant(&*self);
        }

        if row >= VGA_HEIGHT {
            return ;
        }
        let bytes = s.as_bytes();
        let mut current_col: usize = col;
        let mut i: usize = 0;
        proof {
            let now = old(self)@.put_at(bytes@.take(0), row as int, col as int, color).cells;
            assert(now[row as int] =~= self.buffer@[row as int]);
            assert(now =~= self.buffer@);
        }
        while i < bytes.len() && current_col < VGA_WIDTH
            invariant
                row < VGA_HEIGHT,
                i <= bytes.len(),
                current_col == col + i,
                bytes@ == s.spec_bytes(),
                self.row_position == old(self).row_position,
                self.column_position == old(self).column_position,
                self.color_code == old(self).color_code,
                self.cursor_on_grid(),
                self.buffer@ ==
                    old(self)@.put_at(bytes@.take(i as int), row as int, col as int, color).cells,
            decreases bytes.len() - i,
        {
            let byte = bytes[i];
            let char_to_write = if 0x20 <= byte && byte <= 0x7e {
                byte
            } else {
                UNKNOWN_GLYPH
            };
            let ch = ScreenChar { ascii_character: char_to_write, color_code: color };
            self.buffer.write(row, current_col, ch);
            proof {
                let next = bytes@.take(i + 1);
                let now = old(self)@.put_at(next, row as int, col as int, color).cells;
                assert(self.buffer@[row as int] =~= now[row as int]);
                assert(self.buffer@ =~= now);
            }
            current_col += 1;
            i += 1;
        }
        proof {
            let now = old(self)@.put_at(bytes@, row as int, col as int, color).cells;
            let got = old(self)@.put_at(bytes@.take(i as int), row as int, col as int, color).cells;
            assert(got[row as int] =~= now[row as int]);
            assert(got =~= now);
        }
    }

    /// Fills the whole surface with blanks in the default attribute and
    /// puts the cursor at the origin.
    pub fn clear_screen(&mut self)
        ensures
            final(self).wf(),
            final(self)@ == old(self)@.cleared(),
    {
        broadcast use Buffer::lemma_view_dimensions;
        proof {
            use_type_invariant(&*self);
        }

        let mut row: usize = 0;
        while row < VGA_HEIGHT
            invariant
                row <= VGA_HEIGHT,
                self.color_code == old(self).color_code,
                self.cursor_on_grid(),
                forall|r: int| 0 <= r < row ==>
                    self.buffer@[r] == blank_row(ColorCode(DEFAULT_ATTRIBUTE)),
            decreases VGA_HEIGHT - row,
        {
            self.clear_row(row, ColorCode(DEFAULT_ATTRIBUTE));
            row += 1;
        }
        self.column_position = 0;
        self.row_position = 0;
        proof {
            assert(self.buffer@ =~= old(self)@.cleared().cells);
        }
    }
}

/// Clears the console: every cell blank in the default attribute, the
/// cursor at the origin.
pub fn clear_screen(writer: &mut Writer)
    ensures
        final(writer).wf(),
        final(writer)@ == old(writer)@.cleared(),
{
    writer.clear_screen();
}

/// Writes a text at a given place of the console, in the attribute given
/// as a byte: background in the high four bits, foreground in the low four.
pub fn write_string_at(writer: &mut Writer, s: &str, row: usize, col: usize, color_byte: u8)
    ensures
        final(writer)@ == old(writer)@.put_at(
            s.spec_bytes(),
            row as int,
            col as int,
            ColorCode(color_byte),
        ),
        final(writer).wf(),
{
    writer.write_string_at(s, row, col, ColorCode(color_byte));
}

/// Writes the fragments of a formatted text at the cursor, in their order.
pub fn _print(writer: &mut Writer, fragments: &[&str])
    ensures
        final(writer).wf(),
        final(writer)@ == old(writer)@.put_fragments(fragment_bytes(fragments@)),
{
    proof {
        use_type_invariant(&*writer);
        writer.buffer.lemma_view_dimensions();
    }
    let mut i: usize = 0;
    while i < fragments.len()
        invariant
            i <= fragments.len(),
            writer.wf(),
            writer@ == old(writer)@.put_fragments(fragment_bytes(fragments@).take(i as int)),
        decreases fragments.len() - i,
    {
        proof {
            let next = fragment_bytes(fragments@).take(i + 1);
            assert(next.drop_last() =~= fragment_bytes(fragments@).take(i as int));
            assert(next.last() == fragments@[i as int].spec_bytes());
        }
        writer.write_string(fragments[i]);
        i += 1;
    }
    proof {
        assert(fragment_bytes(fragments@).take(i as int) =~= fragment_bytes(fragments@));
    }
}

} // verus!
