use toy_os::vga_buffer::{
    ScreenChar, Writer, DEFAULT_COLOR, SCREEN_CELLS, SCREEN_HEIGHT, SCREEN_WIDTH, UNPRINTABLE,
};

fn ch(b: u8) -> ScreenChar {
    ScreenChar { ascii_char: b, color_code: DEFAULT_COLOR }
}

fn blank() -> ScreenChar {
    ScreenChar { ascii_char: 0, color_code: DEFAULT_COLOR }
}

#[test]
fn new_screen_is_blank() {
    let w = Writer::new(DEFAULT_COLOR);
    assert_eq!(w.cells().len(), SCREEN_CELLS);
    assert_eq!(SCREEN_CELLS, 2000);
    assert!(w.cells().iter().all(|c| *c == blank()));
    assert_eq!(w.cursor(), (0, 0));
}

#[test]
fn bytes_go_under_the_cursor() {
    let mut w = Writer::new(0x1e);
    w.write_byte(b'H');
    w.write_byte(b'i');
    assert_eq!(w.cells()[0], ScreenChar { ascii_char: b'H', color_code: 0x1e });
    assert_eq!(w.cells()[1], ScreenChar { ascii_char: b'i', color_code: 0x1e });
    assert_eq!(w.cursor(), (0, 2));
    w.write_byte(b'\n');
    assert_eq!(w.cursor(), (1, 0));
    w.write_byte(b'x');
    w.write_byte(b'\r');
    assert_eq!(w.cursor(), (1, 0));
    assert_eq!(w.cells()[SCREEN_WIDTH], ScreenChar { ascii_char: b'x', color_code: 0x1e });
}

#[test]
fn full_line_wraps() {
    let mut w = Writer::new(DEFAULT_COLOR);
    for _ in 0..SCREEN_WIDTH {
        w.write_byte(b'x');
    }
    assert_eq!(w.cursor(), (1, 0));
    assert_eq!(w.cells()[SCREEN_WIDTH - 1], ch(b'x'));
    assert_eq!(w.cells()[SCREEN_WIDTH], blank());
}

#[test]
fn newline_on_last_row_scrolls() {
    let mut w = Writer::new(DEFAULT_COLOR);
    w.write_byte(b't');
    for _ in 0..SCREEN_HEIGHT - 1 {
        w.write_byte(b'\n');
    }
    assert_eq!(w.cursor(), (SCREEN_HEIGHT - 1, 0));
    w.write_byte(b'a');
    w.write_byte(b'\n');
    assert_eq!(w.cursor(), (SCREEN_HEIGHT - 1, 0));
    assert_eq!(w.cells()[(SCREEN_HEIGHT - 2) * SCREEN_WIDTH], ch(b'a'));
    assert_eq!(w.cells()[0], blank());
    assert!(w.cells()[(SCREEN_HEIGHT - 1) * SCREEN_WIDTH..].iter().all(|c| *c == blank()));
}

#[test]
fn unprintable_bytes_show_a_block() {
    let mut w = Writer::new(DEFAULT_COLOR);
    w.write_string("a\u{e9}\r~");
    assert_eq!(w.cells()[0], ch(b'a'));
    assert_eq!(w.cells()[1], ch(UNPRINTABLE));
    assert_eq!(w.cells()[2], ch(UNPRINTABLE));
    assert_eq!(w.cells()[3], ch(UNPRINTABLE));
    assert_eq!(w.cells()[4], ch(b'~'));
    assert_eq!(w.cursor(), (0, 5));
    w.write_string("\nok");
    assert_eq!(w.cursor(), (1, 2));
}

#[test]
fn clear_row_and_clear_screen() {
    let mut w = Writer::new(DEFAULT_COLOR);
    w.write_string("ab\ncd");
    w.clear_row(0);
    assert_eq!(w.cells()[0], blank());
    assert_eq!(w.cells()[SCREEN_WIDTH], ch(b'c'));
    assert_eq!(w.cursor(), (1, 2));
    w.clear_screen();
    assert!(w.cells().iter().all(|c| *c == blank()));
    assert_eq!(w.cursor(), (0, 0));
}

#[test]
fn write_str_keeps_every_byte() {
    let mut w = Writer::new(DEFAULT_COLOR);
    w.write_str("a\tb\u{e9}");
    assert_eq!(w.cells()[0], ch(b'a'));
    assert_eq!(w.cells()[1], ch(b'\t'));
    assert_eq!(w.cells()[2], ch(b'b'));
    assert_eq!(w.cells()[3], ch(0xc3));
    assert_eq!(w.cells()[4], ch(0xa9));
    assert_eq!(w.cursor(), (0, 5));
    w.write_str("x\r\ny");
    assert_eq!(w.cursor(), (1, 1));
    assert_eq!(w.cells()[SCREEN_WIDTH], ch(b'y'));
}

#[test]
fn write_string_shows_tab_as_block() {
    let mut w = Writer::new(DEFAULT_COLOR);
    w.write_string("\t");
    assert_eq!(w.cells()[0], ch(UNPRINTABLE));
}
