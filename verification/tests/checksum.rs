//! The Internet checksum: self-verification, computation, odd lengths, and
//! corruption detection.

use ustack::util::{cksum16, debugdump};

#[test]
fn test_cksum16_valid_ip_header() {
    // Valid IP header with correct checksum
    let ip_header = [
        0x45, 0x00, 0x00, 0x30, // vhl, tos, total length
        0x00, 0x80, 0x00, 0x00, // id, flags/offset
        0xff, 0x01, 0xbd, 0x4a, // ttl, protocol, checksum
        0x7f, 0x00, 0x00, 0x01, // src: 127.0.0.1
        0x7f, 0x00, 0x00, 0x01, // dst: 127.0.0.1
    ];
    // Valid checksum should result in 0
    assert_eq!(cksum16(&ip_header, 0), 0);
}

#[test]
fn test_cksum16_compute() {
    // IP header without checksum (checksum field = 0)
    let mut ip_header = [
        0x45, 0x00, 0x00, 0x30, // vhl, tos, total length
        0x00, 0x80, 0x00, 0x00, // id, flags/offset
        0xff, 0x01, 0x00, 0x00, // ttl, protocol, checksum (0)
        0x7f, 0x00, 0x00, 0x01, // src: 127.0.0.1
        0x7f, 0x00, 0x00, 0x01, // dst: 127.0.0.1
    ];

    // Compute checksum
    let checksum = cksum16(&ip_header, 0);
    ip_header[10] = (checksum >> 8) as u8;
    ip_header[11] = (checksum & 0xff) as u8;

    // Verify: checksum of header with correct checksum should be 0
    assert_eq!(cksum16(&ip_header, 0), 0);
}

#[test]
fn test_cksum16_odd_length() {
    // Test with odd number of bytes
    let data = [0x01, 0x02, 0x03];
    let _ = cksum16(&data, 0); // Should not panic
}

#[test]
fn test_cksum16_known_value() {
    // One word 0x0102, one word 0x0304: sum 0x0406, complement 0xfbf9.
    let data = [0x01u8, 0x02, 0x03, 0x04];
    assert_eq!(cksum16(&data, 0), 0xfbf9);
    // The same buffer with the odd trailing byte padded on the right.
    let odd = [0x01u8, 0x02, 0x03];
    assert_eq!(cksum16(&odd, 0), !0x0402u16);
}

#[test]
fn test_cksum16_initial_accumulator() {
    // A nonzero initial accumulator joins the sum before folding.
    let data = [0x00u8, 0x01];
    assert_eq!(cksum16(&data, 0x0002), !0x0003u16);
    // An initial value with carries folds down first.
    assert_eq!(cksum16(&[], 0x0001_0001), !0x0002u16);
}

#[test]
fn test_cksum16_detects_corruption() {
    let mut buf = [
        0x45u8, 0x00, 0x00, 0x30, 0x00, 0x80, 0x00, 0x00, 0xff, 0x01, 0xbd, 0x4a, 0x7f, 0x00,
        0x00, 0x01, 0x7f, 0x00, 0x00, 0x01,
    ];
    assert_eq!(cksum16(&buf, 0), 0);
    // Corrupt each byte in turn; the checksum must catch every one.
    for i in 0..buf.len() {
        let orig = buf[i];
        buf[i] = orig.wrapping_add(1);
        assert_ne!(cksum16(&buf, 0), 0, "corruption at byte {i} undetected");
        buf[i] = orig;
    }
}

#[test]
fn test_debugdump_layout() {
    let border =
        "+------+-------------------------------------------------+------------------+\n";
    let dump = String::from_utf8(debugdump(&[0x41, 0x00, 0xff])).unwrap();
    let expected = format!(
        "{border}| 0000 | 41 00 ff {pad}| A..{spaces} |\n{border}",
        pad = "   ".repeat(13),
        spaces = " ".repeat(13),
    );
    assert_eq!(dump, expected);

    // An empty buffer dumps as the two border lines alone.
    let empty = String::from_utf8(debugdump(&[])).unwrap();
    assert_eq!(empty, format!("{border}{border}"));

    // Seventeen bytes need two rows.
    let two_rows = String::from_utf8(debugdump(&[0u8; 17])).unwrap();
    assert_eq!(two_rows.lines().count(), 4);
    assert!(two_rows.contains("| 0010 | 00 "));
}
