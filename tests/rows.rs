use hexdump::dump::{dump_window, hexdump, select_range};
use hexdump::line::render_line;
use hexdump::mode::{select_mode, DisplayMode};

fn spaces(n: usize) -> String {
    " ".repeat(n)
}

#[test]
fn hello_default_mode() {
    let data = vec![0x48u8, 0x65, 0x6c, 0x6c, 0x6f];
    let mode = select_mode(false, false, false, false, false, false);
    assert_eq!(mode, DisplayMode::TwoByteHex);
    let rows = hexdump(&data, 0, None, mode, false);
    assert_eq!(rows.len(), 1);
    let expected = format!("\n00000000: 4865 6c6c 6f00{}  Hello", spaces(25));
    assert_eq!(rows[0], expected);
}

#[test]
fn offset_past_end_gives_no_rows() {
    let data = vec![7u8; 10];
    let rows = hexdump(&data, 9999, None, DisplayMode::TwoByteHex, false);
    assert!(rows.is_empty());
}

#[test]
fn zero_length_gives_no_rows() {
    let data = vec![7u8; 10];
    assert!(hexdump(&data, 0, Some(0), DisplayMode::TwoByteHex, false).is_empty());
    assert!(hexdump(&data, 3, Some(0), DisplayMode::TwoByteHex, false).is_empty());
}

#[test]
fn offset_at_end_gives_no_rows() {
    let data = vec![7u8; 10];
    assert!(hexdump(&data, 10, None, DisplayMode::CanonicalHex, false).is_empty());
}

#[test]
fn empty_data_gives_no_rows() {
    let data: Vec<u8> = Vec::new();
    assert!(hexdump(&data, 0, None, DisplayMode::TwoByteHex, false).is_empty());
}

#[test]
fn row_counts_follow_length() {
    for (n, rows) in [(1usize, 1usize), (15, 1), (16, 2), (17, 2), (31, 2), (32, 3), (33, 3)] {
        let data = vec![0x41u8; n];
        assert_eq!(hexdump(&data, 0, None, DisplayMode::TwoByteHex, false).len(), rows);
    }
}

#[test]
fn multiple_of_sixteen_ends_with_empty_row() {
    let data = vec![0x41u8; 16];
    let rows = hexdump(&data, 0, None, DisplayMode::CanonicalHex, false);
    assert_eq!(rows.len(), 2);
    assert_eq!(rows[1], "\n00000010:  ");
}

#[test]
fn window_driver_draws_one_row_for_empty_window() {
    let rows = dump_window(&[], 32, DisplayMode::TwoByteHex, false);
    assert_eq!(rows, vec!["\n00000020:  ".to_string()]);
}

#[test]
fn row_addresses_step_by_sixteen_from_offset() {
    let data: Vec<u8> = (0u8..40).collect();
    let rows = hexdump(&data, 4, None, DisplayMode::CanonicalHex, false);
    assert_eq!(rows.len(), 3);
    assert!(rows[0].starts_with("\n00000004:"));
    assert!(rows[1].starts_with("\n00000014:"));
    assert!(rows[2].starts_with("\n00000024:"));
}

#[test]
fn length_limits_the_range() {
    let data: Vec<u8> = (0x41u8..0x51).collect();
    let rows = hexdump(&data, 2, Some(3), DisplayMode::CanonicalHex, false);
    assert_eq!(rows.len(), 1);
    let expected = format!("\n00000002: 43 44 45{}  CDE", spaces(39));
    assert_eq!(rows[0], expected);
}

#[test]
fn length_past_end_is_cut_at_end() {
    let data = vec![0x41u8, 0x42];
    let rows = hexdump(&data, 1, Some(100), DisplayMode::CanonicalHex, false);
    assert_eq!(rows.len(), 1);
    let expected = format!("\n00000001: 42{}  B", spaces(45));
    assert_eq!(rows[0], expected);
}

#[test]
fn select_range_cases() {
    assert_eq!(select_range(10, 9999, None), None);
    assert_eq!(select_range(10, 0, Some(0)), None);
    assert_eq!(select_range(10, 10, None), None);
    assert_eq!(select_range(10, 0, None), Some((0, 10)));
    assert_eq!(select_range(10, 2, Some(5)), Some((2, 7)));
    assert_eq!(select_range(10, 2, Some(50)), Some((2, 10)));
    assert_eq!(select_range(10, 2, Some(usize::MAX)), Some((2, 10)));
}

#[test]
fn rerun_gives_identical_rows() {
    let data: Vec<u8> = (0u8..=255).collect();
    for mode in [
        DisplayMode::OneByteOctal,
        DisplayMode::OneByteChar,
        DisplayMode::CanonicalHex,
        DisplayMode::TwoByteDecimal,
        DisplayMode::TwoByteOctal,
        DisplayMode::TwoByteHex,
    ] {
        for color in [false, true] {
            let a = hexdump(&data, 3, Some(100), mode, color);
            let b = hexdump(&data, 3, Some(100), mode, color);
            assert_eq!(a, b);
        }
    }
}

#[test]
fn full_row_has_no_padding() {
    let data: Vec<u8> = (0x30u8..0x40).collect();
    let row = render_line(&data, 0, DisplayMode::CanonicalHex, false);
    let expected =
        "\n00000000: 30 31 32 33 34 35 36 37 38 39 3a 3b 3c 3d 3e 3f  0123456789:;<=>?";
    assert_eq!(row, expected);
}

#[test]
fn large_address_keeps_all_digits() {
    let row = render_line(&[], 0x1_2345_6789, DisplayMode::TwoByteHex, false);
    assert_eq!(row, "\n123456789:  ");
}
