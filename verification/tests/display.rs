use self_rust_os::vga_buffer::{
    Color, ColorCode, Writer, BUFFER_HEIGHT, BUFFER_WIDTH,
};

fn yellow_on_black() -> ColorCode {
    ColorCode::new(Color::Yellow, Color::Black)
}

fn cell(w: &Writer, row: usize, col: usize) -> u8 {
    w.cells[row * BUFFER_WIDTH + col].ascii_character
}

#[test]
fn color_code_packs_background_high_and_foreground_low() {
    assert_eq!(yellow_on_black().0, 14);
    assert_eq!(ColorCode::new(Color::White, Color::Blue).0, (1 << 4) | 15);
    assert_eq!(ColorCode::new(Color::Black, Color::White).0, 15 << 4);
}

#[test]
fn test_when_printing_many_lines_should_not_panic() {
    let mut writer = Writer::new(yellow_on_black());
    for _ in 0..200 {
        writer.write_string("test many print output.\n");
    }
    assert_eq!(writer.column_position, 0);
}

#[test]
fn test_when_printing_a_line_should_appear_in_vga_buffer() {
    let line = "Some line that fits on a single line";
    let mut writer = Writer::new(yellow_on_black());
    writer.write_string("\n");
    writer.write_string(line);
    writer.write_string("\n");
    for (i, c) in line.chars().enumerate() {
        let screen_char = cell(&writer, BUFFER_HEIGHT - 2, i);
        assert_eq!(
            char::from(screen_char),
            c,
            "Character mismatch at position {i}.",
        );
    }
}

#[test]
fn bytes_advance_the_column_in_the_bottom_row() {
    let mut writer = Writer::new(yellow_on_black());
    writer.write_byte(b'H');
    writer.write_byte(b'i');
    assert_eq!(writer.column_position, 2);
    assert_eq!(cell(&writer, BUFFER_HEIGHT - 1, 0), b'H');
    assert_eq!(cell(&writer, BUFFER_HEIGHT - 1, 1), b'i');
}

#[test]
fn newline_scrolls_the_grid_up() {
    let mut writer = Writer::new(yellow_on_black());
    writer.write_byte(b'X');
    writer.write_byte(b'\n');
    assert_eq!(writer.column_position, 0);
    assert_eq!(cell(&writer, BUFFER_HEIGHT - 2, 0), b'X');
    assert_eq!(cell(&writer, BUFFER_HEIGHT - 1, 0), b' ');
}

#[test]
fn a_full_row_wraps_onto_a_fresh_line() {
    let mut writer = Writer::new(yellow_on_black());
    for _ in 0..BUFFER_WIDTH {
        writer.write_byte(b'a');
    }
    assert_eq!(writer.column_position, BUFFER_WIDTH);
    writer.write_byte(b'b');
    assert_eq!(writer.column_position, 1);
    assert_eq!(cell(&writer, BUFFER_HEIGHT - 2, 0), b'a');
    assert_eq!(cell(&writer, BUFFER_HEIGHT - 2, BUFFER_WIDTH - 1), b'a');
    assert_eq!(cell(&writer, BUFFER_HEIGHT - 1, 0), b'b');
}

#[test]
fn unprintable_bytes_render_as_the_placeholder() {
    let mut writer = Writer::new(yellow_on_black());
    writer.write_string("a\u{7f}b");
    assert_eq!(cell(&writer, BUFFER_HEIGHT - 1, 0), b'a');
    assert_eq!(cell(&writer, BUFFER_HEIGHT - 1, 1), 0xfe);
    assert_eq!(cell(&writer, BUFFER_HEIGHT - 1, 2), b'b');
}
