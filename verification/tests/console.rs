use theta::vga_buffer::{Char, Color, Colors, Writer, BUFFER_HEIGHT, BUFFER_WIDTH};

const DEFAULT_ATTRIBUTE: u8 = 0x0a;

#[test]
fn fresh_console_is_blank() {
    let w = Writer::new();
    assert_eq!(w.column_position(), 0);
    assert_eq!(w.current_color(), Color(DEFAULT_ATTRIBUTE));
    for r in 0..BUFFER_HEIGHT {
        for c in 0..BUFFER_WIDTH {
            let cell = w.char_at(r, c);
            assert_eq!(cell.ascii_character, 0x20);
            assert_eq!(cell.color, Color(DEFAULT_ATTRIBUTE));
        }
    }
}

#[test]
fn color_packing() {
    assert_eq!(Color::new(Colors::LightGreen, Colors::Black), Color(0x0a));
    assert_eq!(Color::new(Colors::White, Colors::Blue), Color(0x1f));
    assert_eq!(Color::new(Colors::Black, Colors::White), Color(0xf0));
    assert_eq!(Color::new(Colors::Yellow, Colors::Red), Color(0x4e));
}

#[test]
fn color_values_are_the_palette_indices() {
    assert_eq!(Colors::Black.value(), 0);
    assert_eq!(Colors::Blue.value(), 1);
    assert_eq!(Colors::LightGreen.value(), 10);
    assert_eq!(Colors::White.value(), 15);
}

#[test]
fn short_string_lands_on_last_row() {
    let mut w = Writer::new();
    w.write_string("hello");
    assert_eq!(w.column_position(), 5);
    let expected = b"hello";
    for (i, &b) in expected.iter().enumerate() {
        assert_eq!(w.char_at(BUFFER_HEIGHT - 1, i).ascii_character, b);
    }
    // the rest of the row stays blank
    assert_eq!(w.char_at(BUFFER_HEIGHT - 1, 5).ascii_character, 0x20);
}

#[test]
fn cursor_column_equals_string_length() {
    // a string shorter than the row width leaves the cursor at its length
    for len in [0usize, 1, 10, 79] {
        let mut w = Writer::new();
        let s: String = std::iter::repeat('x').take(len).collect();
        w.write_string(&s);
        assert_eq!(w.column_position(), len);
    }
}

#[test]
fn unprintable_bytes_become_the_sentinel() {
    let mut w = Writer::new();
    w.write_bytes(&[0x01, 0x1f, 0x7f, 0xff, b'A']);
    assert_eq!(w.char_at(BUFFER_HEIGHT - 1, 0).ascii_character, 0xfe);
    assert_eq!(w.char_at(BUFFER_HEIGHT - 1, 1).ascii_character, 0xfe);
    assert_eq!(w.char_at(BUFFER_HEIGHT - 1, 2).ascii_character, 0xfe);
    assert_eq!(w.char_at(BUFFER_HEIGHT - 1, 3).ascii_character, 0xfe);
    assert_eq!(w.char_at(BUFFER_HEIGHT - 1, 4).ascii_character, b'A');
}

#[test]
fn write_text_never_panics_on_arbitrary_bytes() {
    // every byte value is accepted: rendered verbatim or as the sentinel
    let mut w = Writer::new();
    let all: Vec<u8> = (0u8..=255).collect();
    w.write_bytes(&all);
    let mut w2 = Writer::new();
    let s: String = (0u8..=255).map(|b| b as char).collect();
    w2.write_string(&s);
}

#[test]
fn newline_scrolls_and_resets_cursor() {
    let mut w = Writer::new();
    w.write_string("abc\n");
    assert_eq!(w.column_position(), 0);
    // the line moved up to the second-to-last row
    assert_eq!(w.char_at(BUFFER_HEIGHT - 2, 0).ascii_character, b'a');
    assert_eq!(w.char_at(BUFFER_HEIGHT - 2, 1).ascii_character, b'b');
    assert_eq!(w.char_at(BUFFER_HEIGHT - 2, 2).ascii_character, b'c');
    // the last row is blank again
    for c in 0..BUFFER_WIDTH {
        assert_eq!(w.char_at(BUFFER_HEIGHT - 1, c).ascii_character, 0x20);
    }
}

#[test]
fn scroll_shifts_every_interior_row() {
    let mut w = Writer::new();
    // lay down distinguishable rows, newest at the bottom
    for i in 0..4u8 {
        let line: String = std::iter::repeat((b'a' + i) as char).take(3).collect();
        w.write_string(&line);
        w.write_string("\n");
    }
    // rows ...-5..-2 hold 'a', 'b', 'c', 'd'; one more scroll moves each up
    let before: Vec<Char> = (0..BUFFER_HEIGHT).map(|r| w.char_at(r, 0)).collect();
    w.write_string("\n");
    for r in 1..BUFFER_HEIGHT {
        assert_eq!(w.char_at(r - 1, 0), before[r]);
    }
    for c in 0..BUFFER_WIDTH {
        let cell = w.char_at(BUFFER_HEIGHT - 1, c);
        assert_eq!(cell.ascii_character, 0x20);
        assert_eq!(cell.color, w.current_color());
    }
}

#[test]
fn long_line_wraps_by_scrolling() {
    let mut w = Writer::new();
    let s: String = std::iter::repeat('x').take(100).collect();
    w.write_string(&s);
    // 100 printable bytes from column 0: one scroll, cursor at 100 - 80
    assert_eq!(w.column_position(), 20);
    for c in 0..BUFFER_WIDTH {
        assert_eq!(w.char_at(BUFFER_HEIGHT - 2, c).ascii_character, b'x');
    }
    for c in 0..20 {
        assert_eq!(w.char_at(BUFFER_HEIGHT - 1, c).ascii_character, b'x');
    }
    assert_eq!(w.char_at(BUFFER_HEIGHT - 1, 20).ascii_character, 0x20);
}

#[test]
fn exactly_full_row_does_not_scroll_until_next_byte() {
    let mut w = Writer::new();
    let s: String = std::iter::repeat('y').take(BUFFER_WIDTH).collect();
    w.write_string(&s);
    assert_eq!(w.column_position(), BUFFER_WIDTH);
    for c in 0..BUFFER_WIDTH {
        assert_eq!(w.char_at(BUFFER_HEIGHT - 1, c).ascii_character, b'y');
    }
    // the 81st byte forces the scroll
    w.write_string("z");
    assert_eq!(w.column_position(), 1);
    assert_eq!(w.char_at(BUFFER_HEIGHT - 1, 0).ascii_character, b'z');
    assert_eq!(w.char_at(BUFFER_HEIGHT - 2, 0).ascii_character, b'y');
}

#[test]
fn println_output_lands_on_second_to_last_row() {
    let s = "Some test string that fits on a single line";
    let mut w = Writer::new();
    w.write_string("\n");
    w.write_string(s);
    w.write_string("\n");
    for (i, c) in s.chars().enumerate() {
        let cell = w.char_at(BUFFER_HEIGHT - 2, i);
        assert_eq!(char::from(cell.ascii_character), c);
    }
}
