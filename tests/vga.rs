use bootloader::vga::{
    read_char, write_char, Color, ColorCode, ScreenBuffer, ScreenChar, Writer, BUF_HEIGHT,
    BUF_WIDTH, REPLACEMENT_BYTE,
};

fn cell(b: u8, color: ColorCode) -> ScreenChar {
    ScreenChar { ascii_char: b, color_code: color }
}

fn yellow() -> ColorCode {
    ColorCode::new(Color::Yellow, Color::Black)
}

fn fresh_writer() -> Writer {
    let color = yellow();
    Writer::new(color, ScreenBuffer::new(cell(b' ', color)))
}

fn bottom_row(w: &Writer) -> Vec<u8> {
    (0..BUF_WIDTH).map(|c| read_char(&w.buffer, BUF_HEIGHT - 1, c).ascii_char).collect()
}

#[test]
fn color_code_packs_foreground_and_background() {
    assert_eq!(yellow(), ColorCode(0x0e));
    assert_eq!(ColorCode::new(Color::White, Color::Blue), ColorCode(0x1f));
    assert_eq!(ColorCode::new(Color::Black, Color::White), ColorCode(0xf0));
    assert_eq!(Color::LightRed.value(), 12);
}

#[test]
fn write_then_read_cell() {
    let mut b = ScreenBuffer::new(cell(b' ', yellow()));
    let c = cell(b'Q', ColorCode(0x42));
    write_char(&mut b, c, 3, 79);
    assert_eq!(read_char(&b, 3, 79), c);
    assert_eq!(read_char(&b, 3, 78), cell(b' ', yellow()));
    assert_eq!(read_char(&b, 4, 0), cell(b' ', yellow()));
}

#[test]
fn text_goes_to_bottom_row() {
    let mut w = fresh_writer();
    w.write_str("hi");
    assert_eq!(w.column_position, 2);
    let row = bottom_row(&w);
    assert_eq!(&row[..3], b"hi ");
    assert_eq!(read_char(&w.buffer, BUF_HEIGHT - 1, 0), cell(b'h', yellow()));
}

#[test]
fn newline_scrolls_up_one_row() {
    let mut w = fresh_writer();
    w.write_str("ab\ncd");
    assert_eq!(read_char(&w.buffer, BUF_HEIGHT - 2, 0).ascii_char, b'a');
    assert_eq!(read_char(&w.buffer, BUF_HEIGHT - 2, 1).ascii_char, b'b');
    assert_eq!(&bottom_row(&w)[..3], b"cd ");
    assert_eq!(w.column_position, 2);
}

#[test]
fn full_row_wraps_before_next_byte() {
    let mut w = fresh_writer();
    let text = "x".repeat(BUF_WIDTH);
    w.write_str(&text);
    assert_eq!(w.column_position, BUF_WIDTH);
    w.write_byte(b'y');
    assert_eq!(w.column_position, 1);
    assert!(
        (0..BUF_WIDTH).all(|c| read_char(&w.buffer, BUF_HEIGHT - 2, c).ascii_char == b'x')
    );
    assert_eq!(&bottom_row(&w)[..2], b"y ");
}

#[test]
fn unprintable_bytes_are_replaced() {
    let mut w = fresh_writer();
    w.write_str("a\té");
    let row = bottom_row(&w);
    assert_eq!(&row[..4], &[b'a', REPLACEMENT_BYTE, REPLACEMENT_BYTE, REPLACEMENT_BYTE]);
    assert_eq!(w.column_position, 4);
}

#[test]
fn clear_row_blanks_only_that_row() {
    let mut w = fresh_writer();
    let other = ColorCode(0x21);
    for col in 0..BUF_WIDTH {
        write_char(&mut w.buffer, cell(b'#', other), 5, col);
        write_char(&mut w.buffer, cell(b'#', other), 6, col);
    }
    w.clear_row(5);
    assert_eq!(read_char(&w.buffer, 5, 10), cell(b' ', yellow()));
    assert_eq!(read_char(&w.buffer, 6, 10), cell(b'#', other));
}

#[test]
fn new_line_moves_every_row_up() {
    let mut w = fresh_writer();
    for row in 0..BUF_HEIGHT {
        write_char(&mut w.buffer, cell(b'a' + row as u8, yellow()), row, 0);
    }
    w.column_position = 17;
    w.new_line();
    assert_eq!(w.column_position, 0);
    for row in 0..BUF_HEIGHT - 1 {
        assert_eq!(read_char(&w.buffer, row, 0).ascii_char, b'a' + row as u8 + 1);
    }
    assert_eq!(read_char(&w.buffer, BUF_HEIGHT - 1, 0), cell(b' ', yellow()));
}
