use bootcore::vga_buffer::{
    Char, Color, ColorSet, Output, BUFFER_HEIGHT, BUFFER_SIZE, BUFFER_WIDTH,
};

fn blank() -> Char {
    Char::new(0x20, ColorSet::new(Color::LightGray, Color::Black))
}

#[test]
fn write_byte_stores_byte_and_style_and_advances() {
    for byte in 0x20u8..=0x7e {
        let mut out = Output::new();
        let before = out.cursor();
        out.write_byte(byte);
        let cell = out.char_at(before);
        assert_eq!(cell.character, byte);
        assert_eq!(cell.appearance, ColorSet::new(Color::LightGray, Color::Black));
        assert_eq!(out.cursor(), before + 1);
    }
}

#[test]
fn write_byte_uses_current_style() {
    let mut out = Output::new();
    let style = ColorSet::new(Color::Yellow, Color::Blue);
    out.set_style(style);
    out.write_byte(b'Z');
    assert_eq!(out.char_at(0).appearance, style);
    assert_eq!(out.char_at(0).character, b'Z');
}

#[test]
fn write_str_substitutes_sentinel_for_unprintable_bytes() {
    let mut out = Output::new();
    out.write_str("\x01\x1f\x7f");
    for i in 0..3 {
        assert_eq!(out.char_at(i).character, 0xfe);
        assert_eq!(out.char_at(i).appearance, ColorSet::new(Color::LightGray, Color::Black));
    }
    assert_eq!(out.cursor(), 3);
}

#[test]
fn write_str_substitutes_sentinel_per_byte_of_multibyte_chars() {
    let mut out = Output::new();
    // a two-byte encoding: both bytes are outside 0x20..=0x7E
    out.write_str("é");
    assert_eq!(out.char_at(0).character, 0xfe);
    assert_eq!(out.char_at(1).character, 0xfe);
    assert_eq!(out.cursor(), 2);
}

#[test]
fn new_line_advances_to_next_row_even_at_column_zero() {
    let mut out = Output::new();
    assert_eq!(out.cursor(), 0);
    out.new_line();
    assert_eq!(out.cursor(), BUFFER_WIDTH);
    out.new_line();
    assert_eq!(out.cursor(), 2 * BUFFER_WIDTH);
    out.write_str("abc");
    out.new_line();
    assert_eq!(out.cursor(), 3 * BUFFER_WIDTH);
}

#[test]
fn filling_the_grid_exactly_triggers_no_scroll() {
    let mut out = Output::new();
    for i in 0..BUFFER_SIZE {
        out.write_byte(b'!' + (i % 10) as u8);
    }
    assert_eq!(out.cursor(), BUFFER_SIZE);
    for i in 0..BUFFER_SIZE {
        assert_eq!(out.char_at(i).character, b'!' + (i % 10) as u8);
    }
}

#[test]
fn one_byte_past_the_full_grid_scrolls_exactly_once() {
    let mut out = Output::new();
    for i in 0..BUFFER_SIZE {
        out.write_byte(b'!' + (i % 10) as u8);
    }
    out.write_byte(b'X');
    // one scroll of one row happened before the byte was placed
    assert_eq!(out.cursor(), BUFFER_SIZE - BUFFER_WIDTH + 1);
    assert_eq!(out.char_at(BUFFER_SIZE - BUFFER_WIDTH).character, b'X');
    // every surviving row moved up by one row
    for i in 0..BUFFER_SIZE - BUFFER_WIDTH {
        let expected = b'!' + ((i + BUFFER_WIDTH) % 10) as u8;
        assert_eq!(out.char_at(i).character, expected, "cell {}", i);
    }
}

#[test]
fn scroll_moves_rows_up_and_keeps_bottom_rows_stale() {
    let mut out = Output::new();
    // give each row a distinguishable first byte
    for row in 0..BUFFER_HEIGHT {
        for _col in 0..BUFFER_WIDTH {
            out.write_byte(b'A' + row as u8);
        }
    }
    out.set_cursor(10, 5);
    let p = out.cursor();
    out.scroll(3);
    assert_eq!(out.cursor(), p - 3 * BUFFER_WIDTH);
    for row in 3..BUFFER_HEIGHT {
        for col in 0..BUFFER_WIDTH {
            assert_eq!(
                out.char_at((row - 3) * BUFFER_WIDTH + col).character,
                b'A' + row as u8
            );
        }
    }
    // the vacated bottom rows are not cleared: they keep their old content
    for row in BUFFER_HEIGHT - 3..BUFFER_HEIGHT {
        for col in 0..BUFFER_WIDTH {
            assert_eq!(out.char_at(row * BUFFER_WIDTH + col).character, b'A' + row as u8);
        }
    }
}

#[test]
fn scroll_of_zero_rows_changes_nothing() {
    let mut out = Output::new();
    out.write_str("abc");
    let p = out.cursor();
    out.scroll(0);
    assert_eq!(out.cursor(), p);
    assert_eq!(out.char_at(0).character, b'a');
    assert_eq!(out.char_at(1).character, b'b');
    assert_eq!(out.char_at(2).character, b'c');
}

#[test]
fn set_cursor_is_row_major() {
    let mut out = Output::new();
    out.set_cursor(7, 13);
    assert_eq!(out.cursor(), 7 * BUFFER_WIDTH + 13);
    out.set_cursor(0, 0);
    assert_eq!(out.cursor(), 0);
}

#[test]
fn try_write_str_refuses_out_of_bounds_cursor_and_leaves_state() {
    let mut out = Output::new();
    out.set_cursor(BUFFER_HEIGHT + 1, 0);
    let p = out.cursor();
    assert!(!out.try_write_str("x"));
    assert_eq!(out.cursor(), p);
    assert_eq!(out.char_at(0), blank());
}

#[test]
fn try_write_str_writes_when_in_bounds() {
    let mut out = Output::new();
    assert!(out.try_write_str("ok\n"));
    assert_eq!(out.char_at(0).character, b'o');
    assert_eq!(out.char_at(1).character, b'k');
    assert_eq!(out.cursor(), BUFFER_WIDTH);
}

#[test]
fn style_byte_packs_background_high_and_foreground_low() {
    assert_eq!(ColorSet::new(Color::White, Color::Red).0, 0x4f);
    assert_eq!(ColorSet::new(Color::LightGray, Color::Black).0, 0x07);
    assert_eq!(ColorSet::new(Color::Black, Color::White).0, 0xf0);
    assert_eq!(ColorSet::new(Color::Yellow, Color::Blue).0, 0x1e);
}

#[test]
fn hello_world_boot_message_lands_in_row_zero() {
    let mut out = Output::new();
    out.write_str("Hello World!\n");
    let expected = b"Hello World!";
    for (i, byte) in expected.iter().enumerate() {
        let cell = out.char_at(i);
        assert_eq!(cell.character, *byte);
        assert_eq!(cell.appearance, ColorSet::new(Color::LightGray, Color::Black));
    }
    for i in expected.len()..BUFFER_WIDTH {
        assert_eq!(out.char_at(i), blank());
    }
    assert_eq!(out.cursor(), BUFFER_WIDTH);
}
