//! Mathematical model of the text console: the grid of cells, the cursor
//! and the transitions that the driver performs on them.

use vstd::prelude::*;
use crate::text::joined;

verus! {

/// Number of columns of the display surface.
pub const VGA_WIDTH: usize = 80;

/// Number of rows of the display surface.
pub const VGA_HEIGHT: usize = 25;

/// The byte that moves the cursor to the start of the next row.
pub const LINE_FEED: u8 = 0x0a;

/// The character code of an empty cell.
pub const BLANK: u8 = 0x20;

/// The glyph shown in place of a byte that has no printable form.
pub const UNKNOWN_GLYPH: u8 = 0xfe;

/// The attribute of a cleared screen: white on black.
pub const DEFAULT_ATTRIBUTE: u8 = 0x0f;

/// The sixteen colors of the text mode, in the order of their codes.
#[derive(Debug, Clone, Copy, PartialEq, Eq, Structural)]
pub enum Color {
    Black,
    Blue,
    Green,
    Cyan,
    Red,
    Magenta,
    Brown,
    LightGray,
    DarkGray,
    LightBlue,
    LightGreen,
    LightCyan,
    LightRed,
    Pink,
    Yellow,
    White,
}

impl Color {
    /// The four-bit hardware code of the color.
    pub open spec fn spec_code(self) -> u8 {
        match self {
            Color::Black => 0,
            Color::Blue => 1,
            Color::Green => 2,
            Color::Cyan => 3,
            Color::Red => 4,
            Color::Magenta => 5,
            Color::Brown => 6,
            Color::LightGray => 7,
            Color::DarkGray => 8,
            Color::LightBlue => 9,
            Color::LightGreen => 10,
            Color::LightCyan => 11,
            Color::LightRed => 12,
            Color::Pink => 13,
            Color::Yellow => 14,
            Color::White => 15,
        }
    }

    /// The four-bit hardware code of the color.
    #[verifier::when_used_as_spec(spec_code)]
    pub fn code(self) -> (c: u8)
        ensures
            c == self.spec_code(),
            c < 16,
    {
        match self {
            Color::Black => 0,
            Color::Blue => 1,
            Color::Green => 2,
            Color::Cyan => 3,
            Color::Red => 4,
            Color::Magenta => 5,
            Color::Brown => 6,
            Color::LightGray => 7,
            Color::DarkGray => 8,
            Color::LightBlue => 9,
            Color::LightGreen => 10,
            Color::LightCyan => 11,
            Color::LightRed => 12,
            Color::Pink => 13,
            Color::Yellow => 14,
            Color::White => 15,
        }
    }
}

/// An attribute byte: background in the high four bits, foreground in the
/// low four.
#[derive(Debug, Clone, Copy, PartialEq, Eq, Structural)]
pub struct ColorCode(pub u8);

impl ColorCode {
    /// The attribute of a foreground on a background.
    pub fn new(foreground: Color, background: Color) -> (c: ColorCode)
        ensures
            c.0 == 16 * background.spec_code() + foreground.spec_code(),
            c.0 & 0x0f == foreground.spec_code(),
            c.0 >> 4 == background.spec_code(),
    {
        let fg: u8 = foreground.code();
        let bg: u8 = background.code();
        assert((bg << 4 | fg) == 16 * bg + fg && (bg << 4 | fg) & 0x0f == fg && (bg << 4 | fg) >> 4
            == bg) by (bit_vector)
            requires
                fg < 16,
                bg < 16,
        ;
        ColorCode(bg << 4 | fg)
    }
}

/// One cell of the display: a character code and its attribute.
#[derive(Debug, Clone, Copy, PartialEq, Eq, Structural)]
pub struct ScreenChar {
    pub ascii_character: u8,
    pub color_code: ColorCode,
}

/// Whether a byte is printable ASCII.
pub open spec fn printable(b: u8) -> bool {
    0x20 <= b <= 0x7e
}

/// What a positioned write shows for a byte.
pub open spec fn glyph(b: u8) -> u8 {
    if printable(b) {
        b
    } else {
        UNKNOWN_GLYPH
    }
}

/// What a cursor write hands on for a byte: line feeds pass, other bytes
/// are shown as `glyph` shows them.
pub open spec fn text_byte(b: u8) -> u8 {
    if b == LINE_FEED {
        b
    } else {
        glyph(b)
    }
}

/// Whether a character code can stand in a cell: printable ASCII or the
/// unknown glyph.
pub open spec fn displayable(b: u8) -> bool {
    printable(b) || b == UNKNOWN_GLYPH
}

/// A byte sequence with every byte replaced by its `text_byte`.
pub open spec fn sanitized(bytes: Seq<u8>) -> Seq<u8> {
    Seq::new(bytes.len(), |i: int| text_byte(bytes[i]))
}

/// A row of blank cells in one attribute.
pub open spec fn blank_row(color: ColorCode) -> Seq<ScreenChar> {
    Seq::new(VGA_WIDTH as nat, |c: int| ScreenChar { ascii_character: BLANK, color_code: color })
}

/// The console as a value: the cells by row and column, the cursor and the
/// current attribute.
pub struct Screen {
    pub cells: Seq<Seq<ScreenChar>>,
    pub row: int,
    pub col: int,
    pub color: ColorCode,
}

impl Screen {
    /// The grid is 25 by 80, the cursor row is on the grid and the cursor
    /// column is on the grid or just past the end of its row.
    pub open spec fn wf(self) -> bool {
        &&& self.cells.len() == VGA_HEIGHT
        &&& forall|r: int| 0 <= r < VGA_HEIGHT ==> (#[trigger] self.cells[r]).len() == VGA_WIDTH
        &&& 0 <= self.row < VGA_HEIGHT
        &&& 0 <= self.col <= VGA_WIDTH
    }

    /// Every cell holds a character code that can stand in a cell.
    pub open spec fn displayable(self) -> bool {
        forall|r: int, c: int|
            0 <= r < VGA_HEIGHT && 0 <= c < VGA_WIDTH ==> displayable(
                (#[trigger] self.cells[r][c]).ascii_character,
            )
    }

    /// One cell replaced.
    pub open spec fn with_cell(self, row: int, col: int, ch: ScreenChar) -> Screen {
        Screen { cells: self.cells.update(row, self.cells[row].update(col, ch)), ..self }
    }

    /// The cursor moved.
    pub open spec fn put_cursor(self, row: int, col: int) -> Screen {
        Screen { row: row, col: col, ..self }
    }

    /// Every row moved up by one, the top row lost and the bottom row blank
    /// in the current attribute.
    pub open spec fn scrolled(self) -> Screen {
        Screen {
            cells: Seq::new(
                VGA_HEIGHT as nat,
                |r: int|
                    if r < VGA_HEIGHT - 1 {
                        self.cells[r + 1]
                    } else {
                        blank_row(self.color)
                    },
            ),
            ..self
        }
    }

    /// The newline transition.
    pub open spec fn newline(self) -> Screen {
        if self.row < VGA_HEIGHT - 1 {
            Screen { row: self.row + 1, col: 0, ..self }
        } else {
            Screen { col: 0, ..self.scrolled() }
        }
    }

    /// One byte written at the cursor.
    pub open spec fn put_byte(self, b: u8) -> Screen {
        if b == LINE_FEED {
            self.newline()
        } else {
            let s = if self.col >= VGA_WIDTH {
                self.newline()
            } else {
                self
            };
            Screen {
                col: s.col + 1,
                ..s.with_cell(s.row, s.col, ScreenChar { ascii_character: b, color_code: s.color })
            }
        }
    }

    /// The bytes written at the cursor one after the other, as they are.
    pub open spec fn put_raw(self, bytes: Seq<u8>) -> Screen
        decreases bytes.len(),
    {
        if bytes.len() == 0 {
            self
        } else {
            self.put_raw(bytes.drop_last()).put_byte(bytes.last())
        }
    }

    /// A text written at the cursor: each byte as its `text_byte`.
    pub open spec fn put_bytes(self, bytes: Seq<u8>) -> Screen {
        self.put_raw(sanitized(bytes))
    }

    /// The fragments of a text written at the cursor one after the other.
    pub open spec fn put_fragments(self, fragments: Seq<Seq<u8>>) -> Screen
        decreases fragments.len(),
    {
        if fragments.len() == 0 {
            self
        } else {
            self.put_fragments(fragments.drop_last()).put_bytes(fragments.last())
        }
    }

    /// A text written at a given place in a given attribute: nothing if the
    /// row is off the grid, cut at the end of the row, the cursor left alone.
    pub open spec fn put_at(self, bytes: Seq<u8>, row: int, col: int, color: ColorCode) -> Screen {
        if 0 <= row < VGA_HEIGHT {
            Screen {
                cells: self.cells.update(
                    row,
                    Seq::new(
                        VGA_WIDTH as nat,
                        |c: int|
                            if col <= c < col + bytes.len() {
                                ScreenChar {
                                    ascii_character: glyph(bytes[c - col]),
                                    color_code: color,
                                }
                            } else {
                                self.cells[row][c]
                            },
                    ),
                ),
                ..self
            }
        } else {
            self
        }
    }

    /// Every cell blank in the default attribute and the cursor at the
    /// origin.
    pub open spec fn cleared(self) -> Screen {
        Screen {
            cells: Seq::new(VGA_HEIGHT as nat, |r: int| blank_row(ColorCode(DEFAULT_ATTRIBUTE))),
            row: 0,
            col: 0,
            color: self.color,
        }
    }
}

/// A positioned write can be read back: on a row of the grid, each byte of
/// the text that falls on the row is found at its place as its glyph, in
/// the attribute of the call; a printable byte is found unchanged.
pub proof fn lemma_put_at_read_back(
    s: Screen,
    bytes: Seq<u8>,
    row: int,
    col: int,
    color: ColorCode,
    i: int,
)
    requires
        s.wf(),
        0 <= row < VGA_HEIGHT,
        0 <= col < VGA_WIDTH,
        0 <= i < bytes.len(),
        col + i < VGA_WIDTH,
    ensures
        s.put_at(bytes, row, col, color).cells[row][col + i] == (ScreenChar {
            ascii_character: glyph(bytes[i]),
            color_code: color,
        }),
        printable(bytes[i]) ==> s.put_at(bytes, row, col, color).cells[row][col + i].ascii_character
            == bytes[i],
{
}

/// A positioned write touches nothing but the cells under the text: every
/// other cell, the cursor and the current attribute stay.
pub proof fn lemma_put_at_frame(
    s: Screen,
    bytes: Seq<u8>,
    row: int,
    col: int,
    color: ColorCode,
    r: int,
    c: int,
)
    requires
        s.wf(),
        0 <= col,
        0 <= r < VGA_HEIGHT,
        0 <= c < VGA_WIDTH,
        !(r == row && col <= c < col + bytes.len()),
    ensures
        s.put_at(bytes, row, col, color).wf(),
        s.put_at(bytes, row, col, color).cells[r][c] == s.cells[r][c],
        s.put_at(bytes, row, col, color).row == s.row,
        s.put_at(bytes, row, col, color).col == s.col,
        s.put_at(bytes, row, col, color).color == s.color,
{
}

/// Writing one byte keeps the screen well formed and the attribute.
pub proof fn lemma_put_byte_wf(s: Screen, b: u8)
    requires
        s.wf(),
    ensures
        s.put_byte(b).wf(),
        s.put_byte(b).color == s.color,
{
}

/// Writing bytes keeps the screen well formed and the attribute.
pub proof fn lemma_put_raw_wf(s: Screen, bytes: Seq<u8>)
    requires
        s.wf(),
    ensures
        s.put_raw(bytes).wf(),
        s.put_raw(bytes).color == s.color,
    decreases bytes.len(),
{
    if bytes.len() > 0 {
        lemma_put_raw_wf(s, bytes.drop_last());
        lemma_put_byte_wf(s.put_raw(bytes.drop_last()), bytes.last());
    }
}

/// Whatever was written before, a cleared screen shows blanks in the
/// default attribute in every cell, with the cursor at the origin.
pub proof fn lemma_clear_after_text(s: Screen, bytes: Seq<u8>)
    requires
        s.wf(),
    ensures
        s.put_bytes(bytes).cleared().wf(),
        s.put_bytes(bytes).cleared() == s.cleared(),
        s.put_bytes(bytes).cleared().row == 0,
        s.put_bytes(bytes).cleared().col == 0,
        forall|r: int, c: int|
            0 <= r < VGA_HEIGHT && 0 <= c < VGA_WIDTH ==> #[trigger] s.put_bytes(
                bytes,
            ).cleared().cells[r][c] == (ScreenChar {
                ascii_character: BLANK,
                color_code: ColorCode(DEFAULT_ATTRIBUTE),
            }),
{
    lemma_put_raw_wf(s, sanitized(bytes));
}

/// A text without line feeds that fits in what is left of the cursor's row
/// is written as a positioned write at the cursor in the current attribute
/// would write it, and the cursor moves on by its length: nothing scrolls.
pub proof fn lemma_text_within_row(s: Screen, bytes: Seq<u8>)
    requires
        s.wf(),
        s.col + bytes.len() <= VGA_WIDTH,
        forall|i: int| 0 <= i < bytes.len() ==> bytes[i] != LINE_FEED,
    ensures
        s.put_bytes(bytes) == (Screen {
            col: s.col + bytes.len(),
            ..s.put_at(bytes, s.row, s.col, s.color)
        }),
    decreases bytes.len(),
{
    let want = Screen { col: s.col + bytes.len(), ..s.put_at(bytes, s.row, s.col, s.color) };
    if bytes.len() == 0 {
        assert(want.cells[s.row] =~= s.cells[s.row]);
        assert(want.cells =~= s.cells);
    } else {
        let front = bytes.drop_last();
        lemma_text_within_row(s, front);
        assert(sanitized(bytes).drop_last() =~= sanitized(front));
        let mid = s.put_bytes(front);
        let got = mid.put_byte(sanitized(bytes).last());
        assert(got == s.put_bytes(bytes));
        assert(got.cells[s.row] =~= want.cells[s.row]);
        assert(got.cells =~= want.cells);
    }
}

/// On a full row the next byte that is no line feed goes to the start of
/// the row below, as if the cursor already stood there.
pub proof fn lemma_wrap_pending(s: Screen, bytes: Seq<u8>)
    requires
        s.wf(),
        s.col == VGA_WIDTH,
        bytes.len() > 0,
        bytes[0] != LINE_FEED,
    ensures
        s.put_raw(bytes) == s.newline().put_raw(bytes),
    decreases bytes.len(),
{
    if bytes.len() == 1 {
        assert(bytes.drop_last().len() == 0);
        assert(s.put_raw(bytes.drop_last()) == s);
        assert(s.newline().put_raw(bytes.drop_last()) == s.newline());
    } else {
        lemma_wrap_pending(s, bytes.drop_last());
    }
}

/// A text as long as a row and without line feeds, written anywhere but
/// past the start of the last row, scrolls nothing. It fills what is left
/// of the cursor's row and goes on at the start of the row below: the
/// cells under it hold its glyphs in the current attribute, every other
/// row is as it was, and the cursor is behind its last byte. From the
/// start of a row it fills that row and the cursor stays on it, just past
/// its end.
pub proof fn lemma_row_width_text(s: Screen, bytes: Seq<u8>)
    requires
        s.wf(),
        bytes.len() == VGA_WIDTH,
        forall|i: int| 0 <= i < bytes.len() ==> bytes[i] != LINE_FEED,
        s.col == 0 || s.row < VGA_HEIGHT - 1,
    ensures
        s.put_bytes(bytes).row == if s.col == 0 {
            s.row
        } else {
            s.row + 1
        },
        s.put_bytes(bytes).col == if s.col == 0 {
            VGA_WIDTH as int
        } else {
            s.col
        },
        s.put_bytes(bytes).cells == s.put_at(
            bytes.take(VGA_WIDTH - s.col),
            s.row,
            s.col,
            s.color,
        ).put_at(bytes.skip(VGA_WIDTH - s.col), s.row + 1, 0, s.color).cells,
        forall|r: int|
            0 <= r < VGA_HEIGHT && r != s.row && r != s.row + 1 ==> #[trigger] s.put_bytes(
                bytes,
            ).cells[r] == s.cells[r],
        s.col == 0 ==> forall|c: int|
            0 <= c < VGA_WIDTH ==> #[trigger] s.put_bytes(bytes).cells[s.row][c] == (ScreenChar {
                ascii_character: glyph(bytes[c]),
                color_code: s.color,
            }),
{
    let head = bytes.take(VGA_WIDTH - s.col);
    let tail = bytes.skip(VGA_WIDTH - s.col);
    assert(bytes =~= head + tail);
    assert(sanitized(bytes) =~= sanitized(head) + sanitized(tail));
    lemma_put_raw_concat(s, sanitized(head), sanitized(tail));
    lemma_text_within_row(s, head);
    lemma_put_raw_wf(s, sanitized(head));
    let filled = s.put_bytes(head);
    let want = s.put_at(head, s.row, s.col, s.color).put_at(tail, s.row + 1, 0, s.color);
    if s.col == 0 {
        assert(sanitized(tail).len() == 0);
        assert(filled.put_raw(sanitized(tail)) == filled);
        if s.row + 1 < VGA_HEIGHT {
            assert(want.cells[s.row + 1] =~= filled.cells[s.row + 1]);
        }
        assert(want.cells =~= filled.cells);
        assert(head =~= bytes);
    } else {
        lemma_wrap_pending(filled, sanitized(tail));
        lemma_text_within_row(filled.newline(), tail);
    }
}

/// One more byte on a full last row scrolls exactly once: every row moves
/// up by one, the old top row is gone, the byte stands at the start of the
/// otherwise blank last row, and the cursor is behind it on the last row.
pub proof fn lemma_wrap_on_last_row(s: Screen, b: u8)
    requires
        s.wf(),
        s.row == VGA_HEIGHT - 1,
        s.col == VGA_WIDTH,
        b != LINE_FEED,
    ensures
        s.put_byte(b).row == VGA_HEIGHT - 1,
        s.put_byte(b).col == 1,
        forall|r: int| 0 <= r < VGA_HEIGHT - 1 ==>
            #[trigger] s.put_byte(b).cells[r] == s.cells[r + 1],
        s.put_byte(b).cells[VGA_HEIGHT - 1] == blank_row(s.color).update(
            0,
            ScreenChar { ascii_character: b, color_code: s.color },
        ),
        s.put_byte(b) == s.scrolled().with_cell(
            VGA_HEIGHT - 1,
            0,
            ScreenChar { ascii_character: b, color_code: s.color },
        ).put_cursor(VGA_HEIGHT - 1, 1),
{
}

/// A line feed puts the cursor at the start of a row: of the next row,
/// with every cell as it was, or, on the last row, of the same row after
/// one scroll.
pub proof fn lemma_line_feed(s: Screen)
    requires
        s.wf(),
    ensures
        s.put_byte(LINE_FEED).col == 0,
        s.put_byte(LINE_FEED).color == s.color,
        s.row < VGA_HEIGHT - 1 ==>
            s.put_byte(LINE_FEED).row == s.row + 1 && s.put_byte(LINE_FEED).cells
            == s.cells,
        s.row == VGA_HEIGHT - 1 ==>
            s.put_byte(LINE_FEED).row == VGA_HEIGHT - 1 && s.put_byte(LINE_FEED).cells
            == s.scrolled().cells,
{
}

/// A byte that is neither printable nor a line feed is written as the
/// unknown glyph would be, and the bytes around it as they would be
/// without it.
pub proof fn lemma_unknown_glyph(s: Screen, bytes: Seq<u8>, i: int)
    requires
        0 <= i < bytes.len(),
        !printable(bytes[i]),
        bytes[i] != LINE_FEED,
    ensures
        sanitized(bytes)[i] == UNKNOWN_GLYPH,
        forall|j: int|
            0 <= j < bytes.len() && (printable(bytes[j]) || bytes[j] == LINE_FEED)
                ==> #[trigger] sanitized(bytes)[j] == bytes[j],
        s.put_bytes(bytes) == s.put_bytes(bytes.update(i, UNKNOWN_GLYPH)),
        s.put_bytes(bytes) == s.put_bytes(bytes.take(i)).put_byte(UNKNOWN_GLYPH).put_bytes(
            bytes.skip(i + 1),
        ),
{
    assert(sanitized(bytes) =~= sanitized(bytes.update(i, UNKNOWN_GLYPH)));
    let head = sanitized(bytes.take(i));
    let tail = sanitized(bytes.skip(i + 1));
    assert(sanitized(bytes) =~= head.push(UNKNOWN_GLYPH) + tail);
    lemma_put_raw_concat(s, head.push(UNKNOWN_GLYPH), tail);
    assert(head.push(UNKNOWN_GLYPH).drop_last() =~= head);
}

/// Bytes that are line feeds or can stand in a cell leave a screen of
/// such cells a screen of such cells.
pub proof fn lemma_put_raw_displayable(s: Screen, bytes: Seq<u8>)
    requires
        s.wf(),
        s.displayable(),
        forall|i: int| 0 <= i < bytes.len() ==> bytes[i] == LINE_FEED || displayable(bytes[i]),
    ensures
        s.put_raw(bytes).wf(),
        s.put_raw(bytes).displayable(),
    decreases bytes.len(),
{
    if bytes.len() > 0 {
        lemma_put_raw_displayable(s, bytes.drop_last());
        let mid = s.put_raw(bytes.drop_last());
        let b = bytes.last();
        let after = mid.put_byte(b);
        assert forall|r: int, c: int| 0 <= r < VGA_HEIGHT && 0 <= c < VGA_WIDTH implies displayable(
            (#[trigger] after.cells[r][c]).ascii_character,
        ) by {
            if r + 1 < VGA_HEIGHT {
                assert(displayable(mid.cells[r + 1][c].ascii_character));
            }
            assert(displayable(mid.cells[r][c].ascii_character));
        }
    }
}

/// No text can put into a cell a character code that cannot stand there:
/// cursor writes, positioned writes and clearing all keep a screen whose
/// cells hold printable ASCII or the unknown glyph such a screen.
pub proof fn lemma_cells_stay_displayable(
    s: Screen,
    bytes: Seq<u8>,
    row: int,
    col: int,
    color: ColorCode,
)
    requires
        s.wf(),
        s.displayable(),
    ensures
        s.put_bytes(bytes).displayable(),
        s.put_at(bytes, row, col, color).displayable(),
        s.cleared().displayable(),
{
    lemma_put_raw_displayable(s, sanitized(bytes));
    let at = s.put_at(bytes, row, col, color);
    assert forall|r: int, c: int| 0 <= r < VGA_HEIGHT && 0 <= c < VGA_WIDTH implies displayable(
        (#[trigger] at.cells[r][c]).ascii_character,
    ) by {
        assert(displayable(s.cells[r][c].ascii_character));
    }
}

/// Fragments written in their order show what the joined text shows.
pub proof fn lemma_fragments_in_order(s: Screen, fragments: Seq<Seq<u8>>)
    ensures
        s.put_fragments(fragments) == s.put_bytes(joined(fragments)),
    decreases fragments.len(),
{
    if fragments.len() > 0 {
        let front = fragments.drop_last();
        lemma_fragments_in_order(s, front);
        assert(sanitized(joined(fragments)) =~= sanitized(joined(front)) + sanitized(
            fragments.last(),
        ));
        lemma_put_raw_concat(s, sanitized(joined(front)), sanitized(fragments.last()));
    } else {
        assert(sanitized(joined(fragments)) =~= Seq::<u8>::empty());
    }
}

/// Writing one text after another is writing the two texts joined.
pub proof fn lemma_put_raw_concat(s: Screen, first: Seq<u8>, second: Seq<u8>)
    ensures
        s.put_raw(first + second) == s.put_raw(first).put_raw(second),
    decreases second.len(),
{
    if second.len() == 0 {
        assert(first + second =~= first);
    } else {
        lemma_put_raw_concat(s, first, second.drop_last());
        assert((first + second).drop_last() =~= first + second.drop_last());
    }
}

} // verus!
