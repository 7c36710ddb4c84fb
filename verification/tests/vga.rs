use kernel::vga::{VGA, VGA_ADDR};

#[test]
fn new_console_is_blank() {
    let v = VGA::new();
    assert_eq!(v.cursor(), (0, 0));
    assert_eq!(v.cell(0, 0), 0);
    assert_eq!(v.cell(24, 79), 0);
    assert_eq!(v.color, 0x0f);
    assert_eq!(v.buffer(), VGA_ADDR);
}

#[test]
fn text_shows_with_attribute() {
    let mut v = VGA::new();
    assert!(v.writer().write_str("Hi").is_ok());
    assert_eq!(v.cell(0, 0), 0x0f48);
    assert_eq!(v.cell(0, 1), 0x0f69);
    assert_eq!(v.cursor(), (0, 2));
    assert_eq!(v.buffer(), VGA_ADDR);
}

#[test]
fn unprintable_shows_replacement() {
    let mut v = VGA::new();
    v.writer().write_str("\u{e9}\t\u{7f}").unwrap();
    assert_eq!(v.cell(0, 0), 0x0fa8);
    assert_eq!(v.cell(0, 1), 0x0fa8);
    assert_eq!(v.cell(0, 2), 0x0fa8);
    assert_eq!(v.cursor(), (0, 3));
}

#[test]
fn newline_blanks_rest_of_row() {
    let mut v = VGA::new();
    v.writer().write_str(&"x".repeat(80)).unwrap();
    v.writer().write_str(&"\n".repeat(25)).unwrap();
    assert_eq!(v.cursor(), (25, 0));
    v.writer().write_char('e').unwrap();
    assert_eq!(v.cell(0, 1), 0x0f78);
    v.writer().write_char('\n').unwrap();
    assert_eq!(v.cell(0, 0), 0x0f65);
    assert_eq!(v.cell(0, 1), 0);
    assert_eq!(v.cell(0, 79), 0);
    assert_eq!(v.cursor(), (1, 0));
}

#[test]
fn newline_clears_cells_after_cursor() {
    let mut v = VGA::new();
    v.writer().write_str("abc\n").unwrap();
    assert_eq!(v.cursor(), (1, 0));
    assert_eq!(v.cell(0, 2), 0x0f63);
    v.writer().write_str(&"z".repeat(80)).unwrap();
    assert_eq!(v.cursor(), (1, 80));
    v.writer().write_str("\n\n").unwrap();
    assert_eq!(v.cursor(), (3, 0));
    assert_eq!(v.cell(1, 79), 0x0f7a);
}

#[test]
fn line_wraps_after_80_columns() {
    let mut v = VGA::new();
    v.writer().write_str(&"a".repeat(80)).unwrap();
    assert_eq!(v.cursor(), (0, 80));
    v.writer().write_char('b').unwrap();
    assert_eq!(v.cell(1, 0), 0x0f62);
    assert_eq!(v.cursor(), (1, 1));
}

#[test]
fn bottom_wraps_to_top() {
    let mut v = VGA::new();
    v.writer().write_str(&"\n".repeat(24)).unwrap();
    assert_eq!(v.cursor(), (24, 0));
    v.writer().write_str(&"c".repeat(80)).unwrap();
    assert_eq!(v.cursor(), (24, 80));
    v.writer().write_char('d').unwrap();
    assert_eq!(v.cell(0, 0), 0x0f64);
    assert_eq!(v.cursor(), (0, 1));
}

#[test]
fn newline_on_last_row_then_text_goes_to_top() {
    let mut v = VGA::new();
    v.writer().write_str(&"\n".repeat(25)).unwrap();
    assert_eq!(v.cursor(), (25, 0));
    v.writer().write_char('e').unwrap();
    assert_eq!(v.cell(0, 0), 0x0f65);
    assert_eq!(v.cursor(), (0, 1));
}

#[test]
fn color_applies_to_new_text() {
    let mut v = VGA::new();
    v.color = 0x1e;
    v.writer().write_char('A').unwrap();
    assert_eq!(v.cell(0, 0), 0x1e41);
}

#[test]
fn taken_buffer_restarts_clear() {
    let mut v = VGA::new();
    v.writer().write_str("xyz").unwrap();
    v.release(0);
    assert_eq!(v.buffer(), 0);
    v.writer().write_char('q').unwrap();
    assert_eq!(v.buffer(), VGA_ADDR);
    assert_eq!(v.cell(0, 0), 0x0f71);
    assert_eq!(v.cell(0, 1), 0);
    assert_eq!(v.cursor(), (0, 1));
}

#[test]
fn release_keeps_screen() {
    let mut v = VGA::new();
    v.writer().write_str("k").unwrap();
    v.release(0x1234);
    assert_eq!(v.buffer(), 0x1234);
    assert_eq!(v.cell(0, 0), 0x0f6b);
    assert_eq!(v.cursor(), (0, 1));
}

#[test]
fn writing_in_pieces_matches_writing_joined() {
    let mut a = VGA::new();
    a.writer().write_str("ab\nc").unwrap();
    a.writer().write_str("d\u{e9}e").unwrap();
    let mut b = VGA::new();
    b.writer().write_str("ab\ncd\u{e9}e").unwrap();
    assert_eq!(a.cursor(), b.cursor());
    for row in 0..3 {
        for col in 0..80 {
            assert_eq!(a.cell(row, col), b.cell(row, col));
        }
    }
}
