use rm_os::vga_buf::{Buffer, Color, ScreenChar, Style, Writer, BUFFER_HEIGHT, BUFFER_WIDTH};

fn blank_writer() -> Writer {
    Writer {
        col_pos: 0,
        style: Style::new(Color::Yellow, Color::Black, true, false),
        vga_buf: Buffer::new(),
    }
}

#[test]
fn style1() {
    assert_eq!(0b01011100u8, Style::new(Color::Red, Color::Magenta, true, false).code());
}

#[test]
fn print1() {
    let mut writer = blank_writer();
    let printable = "abcdefghijklmnopqrstuvwxyz";
    for ch in printable.chars() {
        writer.write_string(&format!("{ch}\n"));
    }

    let mut bytes = printable.bytes();
    bytes.next();
    bytes.next();
    for i in 0..BUFFER_HEIGHT {
        if let Some(byte) = bytes.next() {
            assert_eq!(byte, writer.vga_buf.read(i, 0).ch);
        } else {
            assert_eq!(' ' as u8, writer.vga_buf.read(i, 0).ch);
        }
    }
}

#[test]
fn style_flags_and_colors() {
    assert_eq!(Style::new(Color::Black, Color::Black, false, false).code(), 0);
    assert_eq!(Style::new(Color::Gray, Color::Gray, true, true).code(), 0xff);
    assert_eq!(Style::new(Color::Yellow, Color::Black, true, false).code(), 0x0e);
    assert_eq!(Style::new(Color::Blue, Color::Cyan, false, true).code(), 0b1011_0001);
    assert_eq!(Style::default().code(), 0);
    assert_eq!(Color::Magenta.as_u8(), 5);
    assert_eq!(Color::Gray.as_u8(), 7);
}

#[test]
fn style_fields_read_back() {
    let code = Style::new(Color::Green, Color::Red, false, true).code();
    assert_eq!(code & 7, Color::Green.as_u8());
    assert_eq!((code >> 4) & 7, Color::Red.as_u8());
    assert_eq!(code & 8, 0);
    assert_ne!(code & 128, 0);
}

#[test]
fn new_buffer_is_blank() {
    let buf = Buffer::new();
    assert_eq!(buf.len(), BUFFER_HEIGHT * BUFFER_WIDTH);
    for row in 0..BUFFER_HEIGHT {
        for col in 0..BUFFER_WIDTH {
            assert_eq!(buf.read(row, col), ScreenChar { ch: b' ', style: Style::default() });
        }
    }
}

#[test]
fn write_byte_at_cursor() {
    let mut writer = blank_writer();
    let style = writer.style;
    writer.write_byte(b'H');
    writer.write_byte(b'i');
    assert_eq!(writer.col_pos, 2);
    assert_eq!(writer.vga_buf.read(BUFFER_HEIGHT - 1, 0), ScreenChar { ch: b'H', style });
    assert_eq!(writer.vga_buf.read(BUFFER_HEIGHT - 1, 1), ScreenChar { ch: b'i', style });
    assert_eq!(writer.vga_buf.read(BUFFER_HEIGHT - 2, 0).ch, b' ');
}

#[test]
fn newline_scrolls_up() {
    let mut writer = blank_writer();
    writer.write_string("ab\ncd");
    assert_eq!(writer.col_pos, 2);
    assert_eq!(writer.vga_buf.read(BUFFER_HEIGHT - 2, 0).ch, b'a');
    assert_eq!(writer.vga_buf.read(BUFFER_HEIGHT - 2, 1).ch, b'b');
    assert_eq!(writer.vga_buf.read(BUFFER_HEIGHT - 1, 0).ch, b'c');
    assert_eq!(writer.vga_buf.read(BUFFER_HEIGHT - 1, 1).ch, b'd');
    writer.new_line();
    assert_eq!(writer.col_pos, 0);
    assert_eq!(writer.vga_buf.read(BUFFER_HEIGHT - 2, 0).ch, b'c');
    assert_eq!(writer.vga_buf.read(BUFFER_HEIGHT - 3, 1).ch, b'b');
    assert_eq!(writer.vga_buf.read(BUFFER_HEIGHT - 1, 0), ScreenChar { ch: b' ', style: Style::default() });
}

#[test]
fn full_line_wraps() {
    let mut writer = blank_writer();
    let line: String = std::iter::repeat('x').take(BUFFER_WIDTH).collect();
    writer.write_string(&line);
    assert_eq!(writer.col_pos, BUFFER_WIDTH);
    assert_eq!(writer.vga_buf.read(BUFFER_HEIGHT - 1, BUFFER_WIDTH - 1).ch, b'x');
    writer.write_byte(b'y');
    assert_eq!(writer.col_pos, 1);
    assert_eq!(writer.vga_buf.read(BUFFER_HEIGHT - 1, 0).ch, b'y');
    assert_eq!(writer.vga_buf.read(BUFFER_HEIGHT - 1, 1).ch, b' ');
    assert_eq!(writer.vga_buf.read(BUFFER_HEIGHT - 2, BUFFER_WIDTH - 1).ch, b'x');
}

#[test]
fn unprintable_bytes_show_as_block() {
    let mut writer = blank_writer();
    writer.write_string("a\tü~");
    // 'ü' is two bytes in UTF-8, each shown as a block.
    assert_eq!(writer.col_pos, 5);
    assert_eq!(writer.vga_buf.read(BUFFER_HEIGHT - 1, 0).ch, b'a');
    assert_eq!(writer.vga_buf.read(BUFFER_HEIGHT - 1, 1).ch, 0xfe);
    assert_eq!(writer.vga_buf.read(BUFFER_HEIGHT - 1, 2).ch, 0xfe);
    assert_eq!(writer.vga_buf.read(BUFFER_HEIGHT - 1, 3).ch, 0xfe);
    assert_eq!(writer.vga_buf.read(BUFFER_HEIGHT - 1, 4).ch, b'~');
}

#[test]
fn writing_in_pieces_matches_writing_at_once() {
    let mut once = blank_writer();
    once.write_string("hello\nworld, this is a longer line");
    let mut pieces = blank_writer();
    pieces.write_string("hello\nwor");
    pieces.write_string("ld, this is a longer line");
    assert_eq!(once.col_pos, pieces.col_pos);
    for row in 0..BUFFER_HEIGHT {
        for col in 0..BUFFER_WIDTH {
            assert_eq!(once.vga_buf.read(row, col), pieces.vga_buf.read(row, col));
        }
    }
}

#[test]
fn buffer_write_then_read() {
    let mut buf = Buffer::new();
    let ch = ScreenChar { ch: b'Q', style: Style::new(Color::Red, Color::Blue, false, false) };
    buf.write(3, 7, ch);
    assert_eq!(buf.read(3, 7), ch);
    assert_eq!(buf.read(3, 8).ch, b' ');
}
