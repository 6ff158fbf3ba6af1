//! The connection log's tab.

use open_ntrip_client::state::Ring;
use open_ntrip_client::ui::connlog_window::{
    copy_text, direction, direction_color, hex_dump, hex_row, hex_rows, join_lines, row_line, tab,
    toggle_hex, Direction, ViewState,
};
use open_ntrip_client::ui::theme;

#[test]
fn hex_row_full_row_exact() {
    let data = b"HTTP/1.1 302 Fou";
    assert_eq!(
        hex_row(data, 0),
        "00000000  48 54 54 50 2F 31 2E 31  20 33 30 32 20 46 6F 75  |HTTP/1.1 302 Fou|"
    );
}

#[test]
fn hex_row_final_partial_row_pads_hex_column() {
    // 20 bytes: the second row holds 4 and must align its ASCII gutter
    // with the full first row.
    let mut data = b"HTTP/1.1 302 Fou".to_vec();
    data.extend_from_slice(b"nd\r\n");
    let full = hex_row(&data, 0);
    let partial = hex_row(&data, 1);
    // 12 missing bytes pad 3 columns each, +1 for the mid-row gap, +2
    // before the gutter: 39 spaces between the last byte and the bar.
    assert_eq!(
        partial,
        format!("00000010  6E 64 0D 0A{}|nd..|", " ".repeat(39))
    );
    // The gutter opens at the same column in both rows.
    assert_eq!(full.find('|'), partial.find('|'));
    // Offset advances by one row of bytes.
    assert!(partial.starts_with("00000010 "));
}

#[test]
fn hex_row_masks_non_printables() {
    let data = [0x00u8, 0x1F, 0x20, 0x7E, 0x7F, 0xFF];
    let row = hex_row(&data, 0);
    assert!(row.ends_with("|.. ~..|"), "{row}");
    assert!(row.contains("00 1F 20 7E 7F FF"), "{row}");
}

#[test]
fn hex_rows_counts_partial_rows() {
    assert_eq!(hex_rows(0), 0);
    assert_eq!(hex_rows(1), 1);
    assert_eq!(hex_rows(16), 1);
    assert_eq!(hex_rows(17), 2);
    assert_eq!(hex_rows(32), 2);
}

#[test]
fn hex_dump_joins_rows_with_newlines() {
    let data = [0x41u8; 17];
    let dump = hex_dump(&data);
    assert_eq!(dump.lines().count(), 2);
    assert!(dump.ends_with("|A|\n"), "{dump:?}");
}

/// TX/RX lines take theme tokens, never ad-hoc literals. Notes keep the
/// default ink (`None`).
#[test]
fn direction_colors_are_theme_tokens() {
    assert_eq!(direction_color(&Direction::Tx), Some(theme::ACCENT));
    assert_eq!(direction_color(&Direction::Rx), Some(theme::SUCCESS));
    assert_eq!(direction_color(&Direction::Note), None);
}

#[test]
fn direction_classifies_stamped_and_unstamped_lines() {
    assert!(matches!(
        direction("12:34:56 > GET /RTCM32 HTTP/1.1"),
        Direction::Tx
    ));
    assert!(matches!(direction("12:34:56 < ICY 200 OK"), Direction::Rx));
    assert!(matches!(
        direction("12:34:56 Reconnecting in 10 s (attempt 2 of 100)"),
        Direction::Note
    ));
    // Unstamped fallbacks still classify by prefix.
    assert!(matches!(direction("> $GPGGA,..."), Direction::Tx));
    assert!(matches!(
        direction("< Transfer-Encoding: chunked"),
        Direction::Rx
    ));
    // A payload merely containing "> " stays a Note.
    assert!(matches!(
        direction("12:34:56 TLS handshake failed: cert > expired"),
        Direction::Note
    ));
    assert!(matches!(direction(""), Direction::Note));
}

fn log() -> Ring {
    let mut r = Ring::new(10);
    for line in ["12:00:00 > GET /A", "12:00:01 < ICY 200 OK", "12:00:02 > $GPGGA"] {
        r.push(line.to_string());
    }
    r
}

fn view(filter: &str, show_hex: bool) -> ViewState {
    ViewState { filter: filter.to_string(), show_hex }
}

#[test]
fn the_filter_narrows_the_rows_and_the_copy() {
    let conn = log();
    let all = tab(&view("", false), &conn, None);
    assert!(!all.hex_active && !all.toggle_enabled && all.filtered.is_none());
    assert_eq!(copy_text(&view("", false), &conn, None), conn.join());

    let v = view("icy", false);
    let t = tab(&v, &conn, None);
    assert_eq!(t.filtered, Some(vec![1]));
    assert_eq!(
        row_line(&conn, &t.filtered, 0).map(String::as_str),
        Some("12:00:01 < ICY 200 OK")
    );
    assert!(row_line(&conn, &t.filtered, 1).is_none());
    assert_eq!(copy_text(&v, &conn, None), "12:00:01 < ICY 200 OK\n");
    assert_eq!(
        join_lines(&conn, &vec![2, 0]),
        "12:00:02 > $GPGGA\n12:00:00 > GET /A\n"
    );
}

#[test]
fn the_hex_view_needs_a_captured_response() {
    let conn = log();
    let raw = b"HTTP/1.1 302".to_vec();
    assert!(!tab(&view("", true), &conn, None).hex_active);
    let t = tab(&view("", true), &conn, Some(&raw));
    assert!(t.hex_active && t.toggle_enabled);
    assert_eq!(copy_text(&view("", true), &conn, Some(&raw)), hex_dump(&raw));
    let mut v = view("", false);
    toggle_hex(&mut v);
    assert!(v.show_hex);
    toggle_hex(&mut v);
    assert!(!v.show_hex);
}

#[test]
fn a_hex_dump_reads_back() {
    assert_eq!(hex_dump(&[]), "");
    for len in [1, 8, 9, 16, 17, 40, 256] {
        let data: Vec<u8> = (0..len).map(|i: usize| (i * 37 + 5) as u8).collect();
        let dump = hex_dump(&data);
        assert_eq!(dump.lines().count(), hex_rows(len));
        let mut read: Vec<u8> = Vec::new();
        for (k, line) in dump.lines().enumerate() {
            assert_eq!(line, hex_row(&data, k));
            for field in line[10..58].split_whitespace() {
                read.push(u8::from_str_radix(field, 16).unwrap());
            }
        }
        assert_eq!(read, data);
    }
}
