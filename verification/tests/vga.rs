use obamas::mem::volatile::Volatile;
use obamas::vga::BgColor;
use obamas::vga::Color;
use obamas::vga::FgColor;
use obamas::vga::ScreenChar;
use obamas::vga::Writer;
use obamas::vga::BUFFER_HEIGHT;
use obamas::vga::BUFFER_WIDTH;

fn row(writer: &Writer, row: usize) -> String {
    let text: String =
        (0..BUFFER_WIDTH).map(|col| char::from(writer.read(row, col).character)).collect();
    text.trim_end().to_string()
}

#[test]
fn color_bits() {
    assert_eq!(Color::new(FgColor::White, BgColor::Black, false).bits(), 0x0f);
    assert_eq!(Color::new(FgColor::Black, BgColor::Black, false).bits(), 0x00);
    assert_eq!(Color::new(FgColor::Black, BgColor::Black, true).bits(), 0x80);
    assert_eq!(Color::new(FgColor::Yellow, BgColor::Blue, false).bits(), 0x1e);
    assert_eq!(Color::new(FgColor::LightRed, BgColor::LightGray, true).bits(), 0xfc);
    assert_eq!(Color::new(FgColor::White, BgColor::LightGray, true).bits(), 0xff);
}

#[test]
fn color_codes() {
    let fg = [
        FgColor::Black,
        FgColor::Blue,
        FgColor::Green,
        FgColor::Cyan,
        FgColor::Red,
        FgColor::Magenta,
        FgColor::Brown,
        FgColor::LightGray,
        FgColor::DarkGray,
        FgColor::LightBlue,
        FgColor::LightGreen,
        FgColor::LightCyan,
        FgColor::LightRed,
        FgColor::Pink,
        FgColor::Yellow,
        FgColor::White,
    ];
    for (code, color) in fg.iter().enumerate() {
        assert_eq!(color.code() as usize, code);
    }
    let bg = [
        BgColor::Black,
        BgColor::Blue,
        BgColor::Green,
        BgColor::Cyan,
        BgColor::Red,
        BgColor::Magenta,
        BgColor::Brown,
        BgColor::LightGray,
    ];
    for (code, color) in bg.iter().enumerate() {
        assert_eq!(color.code() as usize, code);
    }
}

#[test]
fn a_new_screen_is_blank() {
    let writer = Writer::new();
    assert_eq!(writer.column(), 0);
    let white = Color::new(FgColor::White, BgColor::Black, false);
    for r in 0..BUFFER_HEIGHT {
        for c in 0..BUFFER_WIDTH {
            assert_eq!(writer.read(r, c), ScreenChar { character: b' ', color: white });
        }
    }
    assert_eq!(Writer::default().column(), 0);
}

#[test]
fn bytes_go_to_the_bottom_row() {
    let mut writer = Writer::new();
    writer.write_byte(b'H');
    writer.write_byte(b'i');
    assert_eq!(writer.column(), 2);
    assert_eq!(row(&writer, BUFFER_HEIGHT - 1), "Hi");
    assert_eq!(writer.read(24, 0).color.bits(), 0x0f);
    assert_eq!(row(&writer, BUFFER_HEIGHT - 2), "");
}

#[test]
fn println_single() {
    let mut writer = Writer::new();
    writer.write_str("Hello, World!\n");
    assert_eq!(row(&writer, BUFFER_HEIGHT - 2), "Hello, World!");
    assert_eq!(row(&writer, BUFFER_HEIGHT - 1), "");
}

#[test]
fn println_output() {
    let s = "Hello, World!";
    let mut writer = Writer::new();
    writer.write_str("\n");
    writer.write_str(s);
    writer.write_str("\n");
    for (i, c) in s.chars().enumerate() {
        let sc = writer.read(BUFFER_HEIGHT - 2, i);
        assert_eq!(char::from(sc.character), c);
    }
    assert_eq!(row(&writer, BUFFER_HEIGHT - 1), "");
    assert_eq!(writer.column(), 0);
}

#[test]
fn println_many() {
    let mut writer = Writer::new();
    for i in 0..200 {
        writer.write_str(&i.to_string());
        writer.write_str("\n");
    }
    for r in 0..BUFFER_HEIGHT - 1 {
        assert_eq!(row(&writer, r), (200 - (BUFFER_HEIGHT - 1) + r).to_string());
    }
    assert_eq!(row(&writer, BUFFER_HEIGHT - 1), "");
}

#[test]
fn a_full_row_wraps_before_the_next_byte() {
    let mut writer = Writer::new();
    for _ in 0..BUFFER_WIDTH {
        writer.write_byte(b'x');
    }
    assert_eq!(writer.column(), BUFFER_WIDTH);
    assert_eq!(row(&writer, BUFFER_HEIGHT - 1), "x".repeat(BUFFER_WIDTH));
    writer.write_byte(b'y');
    assert_eq!(writer.column(), 1);
    assert_eq!(row(&writer, BUFFER_HEIGHT - 2), "x".repeat(BUFFER_WIDTH));
    assert_eq!(row(&writer, BUFFER_HEIGHT - 1), "y");
}

#[test]
fn unprintable_bytes_become_boxes() {
    let mut writer = Writer::new();
    writer.write_bytes(&[b'a', 0x1f, 0x7f, 0x80, 0xff, 0x00, b'~', b' ']);
    let shown: Vec<u8> = (0..8).map(|c| writer.read(24, c).character).collect();
    assert_eq!(shown, vec![b'a', 0xfe, 0xfe, 0xfe, 0xfe, 0xfe, b'~', b' ']);
    writer.write_str("é");
    assert_eq!(writer.read(24, 8).character, 0xfe);
    assert_eq!(writer.read(24, 9).character, 0xfe);
    assert_eq!(writer.column(), 10);
}

#[test]
fn write_byte_takes_any_byte_as_it_is() {
    let mut writer = Writer::new();
    writer.write_byte(0x01);
    assert_eq!(writer.read(24, 0).character, 0x01);
}

#[test]
fn top_row_scrolls_away() {
    let mut writer = Writer::new();
    for i in 0..BUFFER_HEIGHT {
        writer.write_str(&format!("line {}\n", i));
    }
    assert_eq!(row(&writer, 0), "line 1");
    assert_eq!(row(&writer, BUFFER_HEIGHT - 2), "line 24");
}

#[test]
fn volatile_cell() {
    let mut cell = Volatile::new(3u16);
    assert_eq!(cell.read(), 3);
    cell.write(9);
    assert_eq!(cell.read(), 9);
}
