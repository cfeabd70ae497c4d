use gwenos::screen::{Color, ColorCode, ScreenChar};
use gwenos::vga::{clear_screen, write_string_at, Buffer, Writer, _print};

const WHITE_ON_BLACK: u8 = 0x0f;
const GREEN_ON_BLACK: u8 = 0x0a;

fn console() -> Writer {
    Writer::new(Box::leak(Box::new(Buffer::new())))
}

fn cell(w: &Writer, row: usize, col: usize) -> (u8, u8) {
    let ch = w.read_cell(row, col).unwrap();
    (ch.ascii_character, ch.color_code.0)
}

fn row_text(w: &Writer, row: usize) -> String {
    let mut s = String::new();
    for col in 0..80 {
        s.push(cell(w, row, col).0 as char);
    }
    s
}

#[test]
fn new_surface_is_blank() {
    let w = console();
    for row in 0..25 {
        for col in 0..80 {
            assert_eq!(cell(&w, row, col), (b' ', WHITE_ON_BLACK));
        }
    }
    assert_eq!(w.row_position(), 0);
    assert_eq!(w.column_position(), 0);
    assert_eq!(w.color_code(), ColorCode(WHITE_ON_BLACK));
}

#[test]
fn read_cell_off_the_grid_is_none() {
    let w = console();
    assert_eq!(w.read_cell(25, 0), None);
    assert_eq!(w.read_cell(0, 80), None);
    assert_eq!(
        w.read_cell(24, 79),
        Some(ScreenChar { ascii_character: b' ', color_code: ColorCode(WHITE_ON_BLACK) })
    );
}

#[test]
fn color_code_packs_background_high_foreground_low() {
    assert_eq!(ColorCode::new(Color::White, Color::Black), ColorCode(0x0f));
    assert_eq!(ColorCode::new(Color::LightGreen, Color::Black), ColorCode(0x0a));
    assert_eq!(ColorCode::new(Color::Green, Color::Black), ColorCode(0x02));
    assert_eq!(ColorCode::new(Color::White, Color::Red), ColorCode(0x4f));
    assert_eq!(ColorCode::new(Color::LightRed, Color::Black), ColorCode(0x0c));
    assert_eq!(ColorCode::new(Color::Black, Color::White), ColorCode(0xf0));
    assert_eq!(ColorCode::new(Color::Yellow, Color::Blue), ColorCode(0x1e));
}

#[test]
fn color_codes_follow_the_hardware_order() {
    let all = [
        Color::Black,
        Color::Blue,
        Color::Green,
        Color::Cyan,
        Color::Red,
        Color::Magenta,
        Color::Brown,
        Color::LightGray,
        Color::DarkGray,
        Color::LightBlue,
        Color::LightGreen,
        Color::LightCyan,
        Color::LightRed,
        Color::Pink,
        Color::Yellow,
        Color::White,
    ];
    for (i, color) in all.iter().enumerate() {
        assert_eq!(color.code() as usize, i);
    }
}

#[test]
fn hello_in_the_middle_of_a_cleared_screen() {
    let mut w = console();
    w.write_string("noise\nmore noise");
    clear_screen(&mut w);
    let text = "Hello, GwenOS!";
    assert_eq!(text.len(), 14);
    write_string_at(&mut w, text, 12, 33, GREEN_ON_BLACK);
    for row in 0..25 {
        for col in 0..80 {
            if row == 12 && (33..47).contains(&col) {
                assert_eq!(cell(&w, row, col), (text.as_bytes()[col - 33], GREEN_ON_BLACK));
            } else {
                assert_eq!(cell(&w, row, col), (b' ', WHITE_ON_BLACK));
            }
        }
    }
    assert_eq!(w.row_position(), 0);
    assert_eq!(w.column_position(), 0);
}

#[test]
fn positioned_write_reads_back() {
    for &(row, col) in &[(0usize, 0usize), (0, 79), (24, 0), (24, 79), (7, 40), (12, 76)] {
        let mut w = console();
        w.write_string_at("abcd", row, col, ColorCode(0x4f));
        for (i, b) in "abcd".bytes().enumerate() {
            if col + i < 80 {
                assert_eq!(cell(&w, row, col + i), (b, 0x4f));
            }
        }
        if col > 0 {
            assert_eq!(cell(&w, row, col - 1), (b' ', WHITE_ON_BLACK));
        }
        if col + 4 < 80 {
            assert_eq!(cell(&w, row, col + 4), (b' ', WHITE_ON_BLACK));
        }
    }
}

#[test]
fn positioned_write_is_cut_at_the_end_of_the_row() {
    let mut w = console();
    w.write_string_at("abcdef", 3, 77, ColorCode(0x07));
    assert_eq!(cell(&w, 3, 77), (b'a', 0x07));
    assert_eq!(cell(&w, 3, 78), (b'b', 0x07));
    assert_eq!(cell(&w, 3, 79), (b'c', 0x07));
    for col in 0..80 {
        assert_eq!(cell(&w, 4, col), (b' ', WHITE_ON_BLACK));
    }
}

#[test]
fn positioned_write_off_the_grid_does_nothing() {
    let mut w = console();
    w.write_string_at("lost", 25, 0, ColorCode(0x07));
    w.write_string_at("lost", usize::MAX, 0, ColorCode(0x07));
    w.write_string_at("lost", 3, 80, ColorCode(0x07));
    w.write_string_at("lost", 3, usize::MAX, ColorCode(0x07));
    for row in 0..25 {
        for col in 0..80 {
            assert_eq!(cell(&w, row, col), (b' ', WHITE_ON_BLACK));
        }
    }
}

#[test]
fn positioned_write_leaves_the_cursor_alone() {
    let mut w = console();
    w.write_string("ab");
    w.set_color(ColorCode(0x1e));
    w.write_string_at("xyz", 10, 10, ColorCode(0x4f));
    assert_eq!(w.row_position(), 0);
    assert_eq!(w.column_position(), 2);
    assert_eq!(w.color_code(), ColorCode(0x1e));
    w.write_string("c");
    assert_eq!(cell(&w, 0, 2), (b'c', 0x1e));
    assert_eq!(cell(&w, 10, 13), (b' ', WHITE_ON_BLACK));
}

#[test]
fn positioned_write_shows_the_unknown_glyph() {
    let mut w = console();
    w.write_string_at("a\n\tb\u{7f}~ ", 1, 0, ColorCode(0x07));
    let want = [b'a', 0xfe, 0xfe, b'b', 0xfe, b'~', b' '];
    for (i, &b) in want.iter().enumerate() {
        assert_eq!(cell(&w, 1, i), (b, 0x07));
    }
}

#[test]
fn clear_after_text_blanks_every_cell() {
    let mut w = console();
    w.set_color(ColorCode(0x4f));
    w.write_string("first line\nsecond line\n\n\nand more");
    for _ in 0..30 {
        w.write_string("scrolling\n");
    }
    w.clear_screen();
    for row in 0..25 {
        for col in 0..80 {
            assert_eq!(cell(&w, row, col), (b' ', WHITE_ON_BLACK));
        }
    }
    assert_eq!(w.row_position(), 0);
    assert_eq!(w.column_position(), 0);
    assert_eq!(w.color_code(), ColorCode(0x4f));
}

#[test]
fn full_row_does_not_scroll() {
    let mut w = console();
    w.write_string("top\n");
    let line = "x".repeat(80);
    w.write_string(&line);
    assert_eq!(w.row_position(), 1);
    assert_eq!(w.column_position(), 80);
    assert_eq!(row_text(&w, 1), line);
    assert_eq!(&row_text(&w, 0)[..3], "top");
    assert_eq!(row_text(&w, 2), " ".repeat(80));
}

#[test]
fn full_last_row_does_not_scroll() {
    let mut w = console();
    w.write_string("top");
    for _ in 0..24 {
        w.write_byte(b'\n');
    }
    assert_eq!(w.row_position(), 24);
    let line = "y".repeat(80);
    w.write_string(&line);
    assert_eq!(w.row_position(), 24);
    assert_eq!(w.column_position(), 80);
    assert_eq!(&row_text(&w, 0)[..3], "top");
    assert_eq!(row_text(&w, 24), line);
}

#[test]
fn one_more_byte_on_a_full_last_row_scrolls_once() {
    let mut w = console();
    w.write_string("top\nsecond");
    for _ in 0..23 {
        w.write_byte(b'\n');
    }
    let line = "y".repeat(80);
    w.write_string(&line);
    w.write_byte(b'z');
    assert_eq!(w.row_position(), 24);
    assert_eq!(w.column_position(), 1);
    assert_eq!(&row_text(&w, 0)[..6], "second");
    assert_eq!(row_text(&w, 23), line);
    let mut last = " ".repeat(80);
    last.replace_range(0..1, "z");
    assert_eq!(row_text(&w, 24), last);
}

#[test]
fn line_feed_moves_to_the_start_of_the_next_row() {
    let mut w = console();
    w.write_string("abc");
    w.write_byte(b'\n');
    assert_eq!(w.row_position(), 1);
    assert_eq!(w.column_position(), 0);
    assert_eq!(&row_text(&w, 0)[..3], "abc");
    w.write_byte(b'\n');
    assert_eq!(w.row_position(), 2);
    assert_eq!(w.column_position(), 0);
}

#[test]
fn line_feed_on_the_last_row_scrolls() {
    let mut w = console();
    for row in 0..25 {
        w.write_string(&format!("row {}", row));
        if row < 24 {
            w.write_byte(b'\n');
        }
    }
    assert_eq!(w.row_position(), 24);
    w.set_color(ColorCode(0x2a));
    w.write_byte(b'\n');
    assert_eq!(w.row_position(), 24);
    assert_eq!(w.column_position(), 0);
    assert_eq!(&row_text(&w, 0)[..5], "row 1");
    assert_eq!(&row_text(&w, 23)[..6], "row 24");
    for col in 0..80 {
        assert_eq!(cell(&w, 24, col), (b' ', 0x2a));
    }
    assert_eq!(cell(&w, 23, 0), (b'r', WHITE_ON_BLACK));
}

#[test]
fn write_byte_wraps_at_the_end_of_a_row() {
    let mut w = console();
    for _ in 0..80 {
        w.write_byte(b'a');
    }
    assert_eq!((w.row_position(), w.column_position()), (0, 80));
    w.write_byte(b'b');
    assert_eq!((w.row_position(), w.column_position()), (1, 1));
    assert_eq!(cell(&w, 0, 79), (b'a', WHITE_ON_BLACK));
    assert_eq!(cell(&w, 1, 0), (b'b', WHITE_ON_BLACK));
}

#[test]
fn write_string_shows_the_unknown_glyph() {
    let mut w = console();
    w.write_string("a\u{1}b\tc\u{7f}d");
    let want = [b'a', 0xfe, b'b', 0xfe, b'c', 0xfe, b'd'];
    for (i, &b) in want.iter().enumerate() {
        assert_eq!(cell(&w, 0, i), (b, WHITE_ON_BLACK));
    }
    assert_eq!(w.column_position(), 7);
}

#[test]
fn write_string_shows_one_glyph_for_each_byte_of_a_character() {
    let mut w = console();
    w.write_string("h\u{e9}!");
    let want = [b'h', 0xfe, 0xfe, b'!'];
    for (i, &b) in want.iter().enumerate() {
        assert_eq!(cell(&w, 0, i), (b, WHITE_ON_BLACK));
    }
    assert_eq!(w.column_position(), 4);
}

#[test]
fn write_string_keeps_the_edges_of_the_printable_range() {
    let mut w = console();
    w.write_string(" ~\u{1f}");
    assert_eq!(cell(&w, 0, 0), (0x20, WHITE_ON_BLACK));
    assert_eq!(cell(&w, 0, 1), (0x7e, WHITE_ON_BLACK));
    assert_eq!(cell(&w, 0, 2), (0xfe, WHITE_ON_BLACK));
}

#[test]
fn write_string_uses_the_current_attribute() {
    let mut w = console();
    w.write_string("a");
    w.set_color(ColorCode::new(Color::Yellow, Color::Blue));
    w.write_string("b");
    assert_eq!(cell(&w, 0, 0), (b'a', WHITE_ON_BLACK));
    assert_eq!(cell(&w, 0, 1), (b'b', 0x1e));
}

#[test]
fn empty_text_changes_nothing() {
    let mut w = console();
    w.write_string("ab");
    w.write_string("");
    w.write_string_at("", 0, 0, ColorCode(0x4f));
    assert_eq!((w.row_position(), w.column_position()), (0, 2));
    assert_eq!(cell(&w, 0, 0), (b'a', WHITE_ON_BLACK));
}

#[test]
fn fragments_appear_in_their_order() {
    let mut w = console();
    _print(&mut w, &["x = ", "42", "\n", "done"]);
    assert_eq!(&row_text(&w, 0)[..6], "x = 42");
    assert_eq!(&row_text(&w, 1)[..4], "done");
    assert_eq!((w.row_position(), w.column_position()), (1, 4));

    let mut whole = console();
    whole.write_string("x = 42\ndone");
    for row in 0..25 {
        assert_eq!(row_text(&w, row), row_text(&whole, row));
    }
}

#[test]
fn no_text_puts_an_undisplayable_code_into_a_cell() {
    let mut w = console();
    let all: Vec<u8> = (0u8..=0x7f).collect();
    let text = String::from_utf8(all).unwrap();
    w.write_string(&text);
    w.write_string("\u{80}\u{7ff}\u{ffff}\u{10ffff}");
    w.write_string_at(&text, 20, 0, ColorCode(0x07));
    w.write_string_at(&text[80..], 21, 0, ColorCode(0x07));
    for row in 0..25 {
        for col in 0..80 {
            let code = cell(&w, row, col).0;
            assert!((0x20..=0x7e).contains(&code) || code == 0xfe);
        }
    }
}
