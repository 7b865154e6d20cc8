//! ICMP header decoding, type classification, and the input checks.

use ustack::context::ProtocolContexts;
use ustack::device::{Device, DeviceManager};
use ustack::protocol::icmp::{icmp_type_ntoa, input, IcmpHdr, IcmpType};
use ustack::protocol::ip::IpAddr;
use ustack::util::cksum16;

#[test]
fn test_icmp_hdr_from_bytes() {
    // ICMP Echo Request
    let icmp_data = [
        0x08, 0x00, 0x35, 0x64, // type=8 (Echo), code=0, checksum=0x3564
        0x00, 0x80, 0x00, 0x01, // id=128, seq=1
        0x31, 0x32, 0x33, 0x34, // payload: "1234..."
    ];

    let hdr = IcmpHdr::from_bytes(&icmp_data).unwrap();
    assert_eq!(hdr.type_, 8); // Echo Request
    assert_eq!(hdr.code, 0);
    assert_eq!(hdr.type_enum(), Some(IcmpType::Echo));
    assert_eq!(hdr.echo_id(), 128);
    assert_eq!(hdr.echo_seq(), 1);
}

#[test]
fn test_icmp_hdr_too_short() {
    let short_data = [0x08, 0x00, 0x35]; // Only 3 bytes
    assert!(IcmpHdr::from_bytes(&short_data).is_none());
}

#[test]
fn test_icmp_checksum() {
    // Valid ICMP packet with correct checksum
    let icmp_data = [
        0x08, 0x00, 0x35, 0x64, 0x00, 0x80, 0x00, 0x01, 0x31, 0x32, 0x33, 0x34, 0x35, 0x36, 0x37,
        0x38, 0x39, 0x30, 0x21, 0x40, 0x23, 0x24, 0x25, 0x5e, 0x26, 0x2a, 0x28, 0x29,
    ];
    assert_eq!(cksum16(&icmp_data, 0), 0);
}

#[test]
fn test_icmp_type_conversion() {
    assert_eq!(IcmpType::from_u8(0), Some(IcmpType::EchoReply));
    assert_eq!(IcmpType::from_u8(8), Some(IcmpType::Echo));
    assert_eq!(IcmpType::from_u8(3), Some(IcmpType::DestUnreachable));
    assert_eq!(IcmpType::from_u8(255), None);
}

#[test]
fn test_icmp_type_ntoa() {
    assert_eq!(icmp_type_ntoa(0), "EchoReply");
    assert_eq!(icmp_type_ntoa(3), "DestinationUnreachable");
    assert_eq!(icmp_type_ntoa(8), "Echo");
    assert_eq!(icmp_type_ntoa(11), "TimeExceeded");
    assert_eq!(icmp_type_ntoa(255), "Unknown");
}

#[test]
fn test_icmp_input_accepts_valid_payload() {
    let icmp_data = [
        0x08, 0x00, 0x35, 0x64, 0x00, 0x80, 0x00, 0x01, 0x31, 0x32, 0x33, 0x34, 0x35, 0x36, 0x37,
        0x38, 0x39, 0x30, 0x21, 0x40, 0x23, 0x24, 0x25, 0x5e, 0x26, 0x2a, 0x28, 0x29,
    ];
    let mut devices = DeviceManager::new();
    devices.register(Device::default()).unwrap();
    let ctx = ProtocolContexts::new();
    let src = IpAddr::from_str("127.0.0.1").unwrap();
    let dst = IpAddr::from_str("127.0.0.1").unwrap();
    let dev = devices.get(ustack::device::DeviceIndex(0)).unwrap();
    let hdr = input(&icmp_data, src, dst, dev, &ctx).unwrap();
    assert_eq!(hdr.type_enum(), Some(IcmpType::Echo));
    assert_eq!(hdr.echo_id(), 128);
    assert_eq!(hdr.echo_seq(), 1);
}

#[test]
fn test_icmp_input_rejects_short_and_corrupt_payloads() {
    let mut devices = DeviceManager::new();
    devices.register(Device::default()).unwrap();
    let ctx = ProtocolContexts::new();
    let src = IpAddr::from_str("127.0.0.1").unwrap();
    let dst = IpAddr::from_str("127.0.0.1").unwrap();
    let dev = devices.get(ustack::device::DeviceIndex(0)).unwrap();

    // Shorter than the 8-byte header.
    assert!(input(&[8, 0, 0], src, dst, dev, &ctx).is_none());

    // Correct length, corrupted checksum.
    let bad = [
        0x08, 0x00, 0x35, 0x65, 0x00, 0x80, 0x00, 0x01, 0x31, 0x32, 0x33, 0x34,
    ];
    assert!(input(&bad, src, dst, dev, &ctx).is_none());
}
