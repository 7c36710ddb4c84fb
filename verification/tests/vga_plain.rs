use kernel::vga::plain::VGA as PlainVga;

#[test]
fn plain_text_is_white_on_black() {
    let mut v = PlainVga::new();
    v.writer().write_str("Ok").unwrap();
    assert_eq!(v.cell(0, 0), 0x0f4f);
    assert_eq!(v.cell(0, 1), 0x0f6b);
    assert_eq!(v.cursor(), (0, 2));
}

#[test]
fn plain_unprintable_is_block() {
    let mut v = PlainVga::new();
    v.writer().write_char('\u{e9}').unwrap();
    assert_eq!(v.cell(0, 0), 0x0fdb);
}

#[test]
fn plain_line_wraps() {
    let mut v = PlainVga::new();
    v.writer().write_str(&"a".repeat(81)).unwrap();
    assert_eq!(v.cell(1, 0), 0x0f61);
    assert_eq!(v.cursor(), (1, 1));
}

#[test]
fn plain_newline() {
    let mut v = PlainVga::new();
    v.writer().write_str("ab\ncd").unwrap();
    assert_eq!(v.cursor(), (1, 2));
    assert_eq!(v.cell(1, 1), 0x0f64);
}

#[test]
fn plain_release_and_restart() {
    let mut v = PlainVga::new();
    v.writer().write_str("ab").unwrap();
    v.release(0);
    v.writer().write_char('c').unwrap();
    assert_eq!(v.cell(0, 0), 0x0f63);
    assert_eq!(v.cell(0, 1), 0);
}
