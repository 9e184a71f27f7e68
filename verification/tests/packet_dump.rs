use furina::packet_dump::{
    direction_label, format_packet_dump, packet_length, packet_preview, MAX_PACKET_LEN,
};

#[test]
fn empty_packet_has_a_header_alone() {
    assert_eq!(format_packet_dump("X", &[]), "[X] 0 bytes\n");
}

#[test]
fn short_row_is_filled_with_blanks() {
    assert_eq!(
        format_packet_dump(direction_label(false), b"Hi \x00\x7f~!"),
        "[>>>> SEND] 7 bytes\n\
         00000000  48 69 20 00 7F 7E 21                              Hi ..~!\n"
    );
}

#[test]
fn rows_hold_sixteen_bytes() {
    let bytes: Vec<u8> = (0u8..18).collect();
    let text = format_packet_dump(direction_label(true), &bytes);
    assert_eq!(
        text,
        "[<<<< RECEIVE] 18 bytes\n\
         00000000  00 01 02 03 04 05 06 07  08 09 0A 0B 0C 0D 0E 0F  ................\n\
         00000010  10 11                                             ..\n"
    );
}

#[test]
fn columns_line_up() {
    let bytes: Vec<u8> = (0..4096usize).map(|i| (i % 251) as u8).collect();
    let text = format_packet_dump("d", &bytes);
    let lines: Vec<&str> = text.lines().collect();
    assert_eq!(lines.len(), 1 + 256);
    for line in &lines[1..] {
        assert_eq!(line.len(), 76);
    }
    let exact = format_packet_dump("d", &bytes[..32]);
    assert_eq!(exact.lines().count(), 3);
}

#[test]
fn only_packets_of_reasonable_length_are_looked_at() {
    assert_eq!(MAX_PACKET_LEN, 50_000);
    assert_eq!(packet_length(-1), None);
    assert_eq!(packet_length(0), None);
    assert_eq!(packet_length(1), Some(1));
    assert_eq!(packet_length(49_999), Some(49_999));
    assert_eq!(packet_length(50_000), None);
    assert_eq!(packet_length(i32::MAX), None);
}

#[test]
fn packets_are_printed_on_request() {
    assert_eq!(packet_preview(false, "d", b"a"), None);
    assert_eq!(packet_preview(true, "d", b"a"), Some(format_packet_dump("d", b"a")));
}
