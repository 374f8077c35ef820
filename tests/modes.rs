use hexdump::line::{is_control, render_line, word_value};
use hexdump::mode::{select_mode, DisplayMode};

fn spaces(n: usize) -> String {
    " ".repeat(n)
}

#[test]
fn mode_priority() {
    assert_eq!(select_mode(true, true, true, true, true, true), DisplayMode::OneByteOctal);
    assert_eq!(select_mode(false, true, true, true, true, true), DisplayMode::OneByteChar);
    assert_eq!(select_mode(false, false, true, true, true, true), DisplayMode::CanonicalHex);
    assert_eq!(select_mode(false, false, false, true, true, true), DisplayMode::TwoByteDecimal);
    assert_eq!(select_mode(false, false, false, true, false, true), DisplayMode::TwoByteOctal);
    assert_eq!(select_mode(false, false, false, false, true, false), DisplayMode::TwoByteDecimal);
    assert_eq!(select_mode(false, false, false, true, false, false), DisplayMode::TwoByteHex);
    assert_eq!(select_mode(false, false, false, false, false, false), DisplayMode::TwoByteHex);
}

#[test]
fn word_sizes() {
    assert_eq!(DisplayMode::OneByteOctal.word_bytes(), 1);
    assert_eq!(DisplayMode::TwoByteOctal.word_bytes(), 2);
    assert_eq!(DisplayMode::TwoByteDecimal.column_width(), 8);
    assert_eq!(DisplayMode::CanonicalHex.column_width(), 3);
}

#[test]
fn one_byte_octal_row() {
    let row = render_line(&[0x41, 0xff, 0x00], 0, DisplayMode::OneByteOctal, false);
    let expected = format!("\n00000000: 101 377 000{}  A\u{ff}.", spaces(52));
    assert_eq!(row, expected);
}

#[test]
fn two_byte_decimal_row() {
    let row = render_line(&[0x01, 0x02], 0, DisplayMode::TwoByteDecimal, false);
    let expected = format!("\n00000000:  00258 {}  ..", spaces(56));
    assert_eq!(row, expected);
}

#[test]
fn two_byte_octal_row() {
    let row = render_line(&[0xff, 0xff, 0x30], 0, DisplayMode::TwoByteOctal, false);
    let expected = format!("\n00000000: 177777  030000 {}  \u{ff}\u{ff}0", spaces(48));
    assert_eq!(row, expected);
}

#[test]
fn odd_trailing_byte_takes_high_half() {
    assert_eq!(word_value(&[0xab], 2, 0), 0xab00);
    assert_eq!(word_value(&[0x12, 0x34, 0xab], 2, 1), 0xab00);
    assert_eq!(word_value(&[0x12, 0x34], 2, 0), 0x1234);
    let row = render_line(&[0xab], 0, DisplayMode::TwoByteHex, false);
    let expected = format!("\n00000000: ab00{}  \u{ab}", spaces(35));
    assert_eq!(row, expected);
}

#[test]
fn char_mode_blanks_control_bytes_and_has_no_char_column() {
    let row = render_line(&[0x00, 0x41, 0x7f, 0x0a, 0x85, 0xe9], 0, DisplayMode::OneByteChar, false);
    assert_eq!(row, "\n00000000:  A      \u{e9}  ");
}

#[test]
fn char_column_dots_control_bytes() {
    let row = render_line(&[0x0a, 0x20, 0x7f, 0x85, 0xa0, 0x7e], 0, DisplayMode::CanonicalHex, false);
    let expected = format!("\n00000000: 0a 20 7f 85 a0 7e{}  . ..\u{a0}~", spaces(30));
    assert_eq!(row, expected);
}

#[test]
fn control_bytes() {
    for b in 0u8..=255 {
        let expected = b <= 0x1f || (0x7f..=0x9f).contains(&b);
        assert_eq!(is_control(b), expected);
        assert_eq!(is_control(b), (b as char).is_control());
    }
}

#[test]
fn color_paints_address_digits_and_characters() {
    let row = render_line(&[0x41, 0x00], 0x10, DisplayMode::CanonicalHex, true);
    let expected = format!(
        "\n\u{1b}[34m00000010\u{1b}[0m: 41 00{}  \u{1b}[38;5;202mA\u{1b}[0m.",
        spaces(42)
    );
    assert_eq!(row, expected);
}

fn decode_hex_fields(text: &str, width: usize, base: u32) -> Vec<u32> {
    let chars: Vec<char> = text.chars().collect();
    chars
        .chunks(width)
        .map(|f| {
            let digits: String = f[1..].iter().collect();
            u32::from_str_radix(&digits, base).unwrap()
        })
        .collect()
}

#[test]
fn printed_words_read_back_to_bytes() {
    let data: Vec<u8> = vec![0x00, 0x7f, 0x80, 0xff, 0x12, 0x34, 0x56];
    let prefix = "\n00000000:".len();

    let row = render_line(&data, 0, DisplayMode::OneByteOctal, false);
    let words = decode_hex_fields(&row[prefix..prefix + 4 * data.len()], 4, 8);
    let bytes: Vec<u8> = words.iter().map(|w| *w as u8).collect();
    assert_eq!(bytes, data);

    let row = render_line(&data, 0, DisplayMode::CanonicalHex, false);
    let words = decode_hex_fields(&row[prefix..prefix + 3 * data.len()], 3, 16);
    let bytes: Vec<u8> = words.iter().map(|w| *w as u8).collect();
    assert_eq!(bytes, data);

    let row = render_line(&data, 0, DisplayMode::TwoByteHex, false);
    let words = decode_hex_fields(&row[prefix..prefix + 5 * 4], 5, 16);
    let mut bytes: Vec<u8> = Vec::new();
    for w in words {
        bytes.push((w >> 8) as u8);
        bytes.push((w & 0xff) as u8);
    }
    bytes.truncate(data.len());
    assert_eq!(bytes, data);
}
