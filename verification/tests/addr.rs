//! Address text conversions: parsing, formatting, and their round trips.

use ustack::ip::{ip_addr_ntop, ip_addr_pton, IP_ADDR_ANY, IP_ADDR_BROADCAST};
use ustack::protocol::ip::IpAddr;

#[test]
fn test_ip_addr_pton() {
    // Test valid addresses
    assert_eq!(ip_addr_pton("0.0.0.0").unwrap(), IP_ADDR_ANY);
    assert_eq!(ip_addr_pton("255.255.255.255").unwrap(), IP_ADDR_BROADCAST);
    assert_eq!(
        ip_addr_pton("127.0.0.1").unwrap(),
        u32::from_be_bytes([127, 0, 0, 1])
    );
    assert_eq!(
        ip_addr_pton("192.168.1.1").unwrap(),
        u32::from_be_bytes([192, 168, 1, 1])
    );

    // Test invalid addresses
    assert!(ip_addr_pton("").is_err());
    assert!(ip_addr_pton("1.2.3").is_err());
    assert!(ip_addr_pton("1.2.3.4.5").is_err());
    assert!(ip_addr_pton("256.0.0.1").is_err());
    assert!(ip_addr_pton("a.b.c.d").is_err());
}

#[test]
fn test_ip_addr_ntop() {
    assert_eq!(ip_addr_ntop(IP_ADDR_ANY), "0.0.0.0");
    assert_eq!(ip_addr_ntop(IP_ADDR_BROADCAST), "255.255.255.255");
    assert_eq!(ip_addr_ntop(u32::from_be_bytes([127, 0, 0, 1])), "127.0.0.1");
    assert_eq!(
        ip_addr_ntop(u32::from_be_bytes([192, 168, 1, 1])),
        "192.168.1.1"
    );
}

#[test]
fn ip_test_ip_addr_roundtrip() {
    let addrs = ["0.0.0.0", "127.0.0.1", "192.168.1.1", "255.255.255.255"];
    for addr_str in addrs {
        let addr = ip_addr_pton(addr_str).unwrap();
        assert_eq!(ip_addr_ntop(addr), addr_str);
    }
}

#[test]
fn test_ip_addr_from_str() {
    assert_eq!(IpAddr::from_str("0.0.0.0").unwrap(), IpAddr::any());
    assert_eq!(
        IpAddr::from_str("255.255.255.255").unwrap(),
        IpAddr::broadcast_all()
    );
    assert_eq!(
        IpAddr::from_str("127.0.0.1").unwrap(),
        IpAddr::from_ne_bytes([127, 0, 0, 1])
    );
    assert_eq!(
        IpAddr::from_str("192.168.1.1").unwrap(),
        IpAddr::from_ne_bytes([192, 168, 1, 1])
    );

    assert!(IpAddr::from_str("").is_err());
    assert!(IpAddr::from_str("1.2.3").is_err());
    assert!(IpAddr::from_str("1.2.3.4.5").is_err());
    assert!(IpAddr::from_str("256.0.0.1").is_err());
    assert!(IpAddr::from_str("a.b.c.d").is_err());
}

#[test]
fn test_ip_addr_to_string() {
    assert_eq!(IpAddr::to_string(IpAddr::any()), "0.0.0.0");
    assert_eq!(IpAddr::to_string(IpAddr::broadcast_all()), "255.255.255.255");
    assert_eq!(
        IpAddr::to_string(IpAddr::from_ne_bytes([127, 0, 0, 1])),
        "127.0.0.1"
    );
    assert_eq!(
        IpAddr::to_string(IpAddr::from_ne_bytes([192, 168, 1, 1])),
        "192.168.1.1"
    );
}

#[test]
fn test_ip_addr_roundtrip() {
    let addrs = ["0.0.0.0", "127.0.0.1", "192.168.1.1", "255.255.255.255"];
    for addr_str in addrs {
        let addr = IpAddr::from_str(addr_str).unwrap();
        assert_eq!(IpAddr::to_string(addr), addr_str);
    }
}

#[test]
fn test_ip_addr_bytes_roundtrip() {
    let bytes = [10u8, 0, 200, 7];
    assert_eq!(IpAddr::from_ne_bytes(bytes).to_ne_bytes(), bytes);
}

#[test]
fn test_ip_addr_pton_leading_zeros_and_sign() {
    // Octets may carry leading zeros or a plus sign, as an integer literal
    // would; the canonical form is produced on the way back out.
    assert_eq!(
        ip_addr_pton("007.0.0.1").unwrap(),
        u32::from_be_bytes([7, 0, 0, 1])
    );
    assert_eq!(
        ip_addr_pton("+1.2.3.4").unwrap(),
        u32::from_be_bytes([1, 2, 3, 4])
    );
    assert!(ip_addr_pton("+.2.3.4").is_err());
    assert!(ip_addr_pton("1..3.4").is_err());
    assert!(ip_addr_pton("9999999999.0.0.1").is_err());
}
