//! The IP input and output pipelines, gate by gate, and the loopback
//! scenarios that run a packet through both.

use ustack::context::ProtocolContexts;
use ustack::device::{
    self, Device, DeviceIndex, DeviceManager, NET_DEVICE_FLAG_NEED_ARP,
};
use ustack::error::NetError;
use ustack::iface::{IpIface, NetIface};
use ustack::protocol::icmp::IcmpType;
use ustack::protocol::ip::{
    ip_input, ip_output, register_iface, IpDelivery, IpHdr, IpInputEvent, IpProtocol,
};
use ustack::protocol::{DispatchEvent, ProtocolManager, PROTOCOL_TYPE_IP};
use ustack::util::cksum16;

/// A valid ICMP echo request datagram: 20-byte IP header, 8-byte ICMP
/// header, 20 bytes of payload, both checksums correct, src = dst =
/// 127.0.0.1.
const TEST_ICMP_PACKET: &[u8] = &[
    0x45, 0x00, 0x00, 0x30, 0x00, 0x80, 0x00, 0x00, 0xff, 0x01, 0xbd, 0x4a, 0x7f, 0x00, 0x00,
    0x01, 0x7f, 0x00, 0x00, 0x01, 0x08, 0x00, 0x35, 0x64, 0x00, 0x80, 0x00, 0x01, 0x31, 0x32,
    0x33, 0x34, 0x35, 0x36, 0x37, 0x38, 0x39, 0x30, 0x21, 0x40, 0x23, 0x24, 0x25, 0x5e, 0x26,
    0x2a, 0x28, 0x29,
];

/// A stack with one loopback device carrying 127.0.0.1/255.0.0.0, opened.
fn loopback_stack() -> (DeviceManager, ProtocolManager, ProtocolContexts, DeviceIndex) {
    let mut devices = DeviceManager::new();
    let mut protocols = ProtocolManager::new();
    let mut ctx = ProtocolContexts::new();
    protocols.init().unwrap();
    let index = ustack::device::loopback::init(&mut devices).unwrap();
    let dev = devices.get_mut(index).unwrap();
    register_iface(dev, "127.0.0.1", "255.0.0.0", &mut ctx).unwrap();
    devices.run().unwrap();
    (devices, protocols, ctx, index)
}

#[test]
fn test_scenario_loopback_echo_roundtrip() {
    // Scenario: output a pre-built ICMP echo request on the loopback
    // device; transmit re-enters input, every gate passes, the unicast
    // address matches, and the ICMP layer decodes an Echo.
    let (devices, protocols, ctx, index) = loopback_stack();
    let r = device::output(
        &devices,
        &protocols,
        &ctx,
        index,
        PROTOCOL_TYPE_IP,
        TEST_ICMP_PACKET,
        None,
    );
    let event = r.unwrap().unwrap();
    match event {
        DispatchEvent::Ip(Ok(IpInputEvent::Delivered { src, dst, delivery })) => {
            assert_eq!(src.to_ne_bytes(), [127, 0, 0, 1]);
            assert_eq!(dst.to_ne_bytes(), [127, 0, 0, 1]);
            match delivery {
                IpDelivery::Icmp(Some(hdr)) => {
                    assert_eq!(hdr.type_enum(), Some(IcmpType::Echo));
                    assert_eq!(
                        ustack::protocol::icmp::icmp_type_ntoa(hdr.type_),
                        "Echo"
                    );
                }
                other => panic!("expected a decoded ICMP header, got {other:?}"),
            }
        }
        other => panic!("expected a delivered IP packet, got {other:?}"),
    }
}

#[test]
fn test_scenario_output_with_unspecified_source() {
    // Scenario: IP output with source 0.0.0.0 fails with no-route; nothing
    // is transmitted and no identifier is drawn.
    let (devices, protocols, mut ctx, _index) = loopback_stack();
    let payload = [0u8; 8];
    let r = ip_output(
        IpProtocol::Icmp,
        &payload,
        ustack::protocol::ip::IpAddr::any(),
        ustack::protocol::ip::IpAddr::from_str("127.0.0.1").unwrap(),
        &mut ctx,
        &devices,
        &protocols,
    );
    assert_eq!(r.unwrap_err(), NetError::NoRoute);
}

#[test]
fn test_scenario_truncated_total_length() {
    // Scenario: a header that claims more bytes than are present fails at
    // the total-length gate.  The checksum is restamped so the earlier
    // integrity gate passes.
    let (devices, _protocols, ctx, index) = loopback_stack();
    let src = ustack::protocol::ip::IpAddr::from_str("127.0.0.1").unwrap();
    let hdr = IpHdr::new(IpProtocol::Icmp, 100, 7, 0, src, src).with_checksum();
    let mut packet = hdr.to_bytes();
    packet.extend_from_slice(&[0u8; 28]);
    assert!(packet.len() < 100);
    let dev = devices.get(index).unwrap();
    assert_eq!(ip_input(&packet, dev, &ctx).unwrap_err(), NetError::TooShort);
}

#[test]
fn test_scenario_duplicate_family() {
    // Scenario: attaching a second interface of the same family to the same
    // device fails with family-already-registered.
    let mut devices = DeviceManager::new();
    let index = ustack::device::loopback::init(&mut devices).unwrap();
    let dev = devices.get_mut(index).unwrap();
    let first = IpIface::new("10.0.0.1", "255.0.0.0", index).unwrap();
    dev.register_iface(NetIface::Ip(first)).unwrap();
    let second = IpIface::new("10.0.0.2", "255.0.0.0", index).unwrap();
    assert_eq!(
        dev.register_iface(NetIface::Ip(second)).unwrap_err(),
        NetError::FamilyAlreadyRegistered
    );
}

#[test]
fn test_scenario_output_before_open() {
    // Scenario: device output before opening fails with not-up; after
    // opening, the identical call succeeds.
    let mut devices = DeviceManager::new();
    let mut protocols = ProtocolManager::new();
    let mut ctx = ProtocolContexts::new();
    protocols.init().unwrap();
    let index = ustack::device::loopback::init(&mut devices).unwrap();
    let dev = devices.get_mut(index).unwrap();
    register_iface(dev, "127.0.0.1", "255.0.0.0", &mut ctx).unwrap();

    let r = device::output(
        &devices,
        &protocols,
        &ctx,
        index,
        PROTOCOL_TYPE_IP,
        TEST_ICMP_PACKET,
        None,
    );
    assert_eq!(r.unwrap_err(), NetError::NotUp);

    devices.get_mut(index).unwrap().open().unwrap();
    let r = device::output(
        &devices,
        &protocols,
        &ctx,
        index,
        PROTOCOL_TYPE_IP,
        TEST_ICMP_PACKET,
        None,
    );
    assert!(r.is_ok());
}

#[test]
fn test_fragmented_packet_rejected() {
    // A packet with the more-fragments flag set is rejected with the
    // fragmentation-unsupported error even though everything else is valid.
    let (devices, _protocols, ctx, index) = loopback_stack();
    let src = ustack::protocol::ip::IpAddr::from_str("127.0.0.1").unwrap();
    let hdr = IpHdr::new(IpProtocol::Icmp, 24, 7, 0x2000, src, src).with_checksum();
    let mut packet = hdr.to_bytes();
    packet.extend_from_slice(&[0u8; 4]);
    let dev = devices.get(index).unwrap();
    assert_eq!(
        ip_input(&packet, dev, &ctx).unwrap_err(),
        NetError::FragmentationUnsupported
    );

    // A nonzero fragment offset is rejected the same way.
    let hdr = IpHdr::new(IpProtocol::Icmp, 24, 7, 0x0001, src, src).with_checksum();
    let mut packet = hdr.to_bytes();
    packet.extend_from_slice(&[0u8; 4]);
    assert_eq!(
        ip_input(&packet, dev, &ctx).unwrap_err(),
        NetError::FragmentationUnsupported
    );
}

#[test]
fn test_unmatched_destination_is_silently_dropped() {
    // A well-formed packet for another host produces no error and no
    // delivery.
    let (devices, _protocols, ctx, index) = loopback_stack();
    let src = ustack::protocol::ip::IpAddr::from_str("10.0.0.1").unwrap();
    let dst = ustack::protocol::ip::IpAddr::from_str("10.0.0.2").unwrap();
    let hdr = IpHdr::new(IpProtocol::Icmp, 24, 7, 0, src, dst).with_checksum();
    let mut packet = hdr.to_bytes();
    packet.extend_from_slice(&[0u8; 4]);
    let dev = devices.get(index).unwrap();
    assert_eq!(ip_input(&packet, dev, &ctx).unwrap(), IpInputEvent::NotForUs);
}

#[test]
fn test_input_gate_errors() {
    let (devices, _protocols, ctx, index) = loopback_stack();
    let dev = devices.get(index).unwrap();

    // Shorter than the minimum header.
    assert_eq!(
        ip_input(&[0u8; 10], dev, &ctx).unwrap_err(),
        NetError::TooShort
    );

    // Wrong version nibble.
    let mut packet = TEST_ICMP_PACKET.to_vec();
    packet[0] = 0x55;
    assert_eq!(
        ip_input(&packet, dev, &ctx).unwrap_err(),
        NetError::UnsupportedVersion
    );

    // Corrupted checksum field.
    let mut packet = TEST_ICMP_PACKET.to_vec();
    packet[10] = packet[10].wrapping_add(1);
    assert_eq!(
        ip_input(&packet, dev, &ctx).unwrap_err(),
        NetError::ChecksumError
    );

    // Declared header length exceeding the buffer.
    let src = ustack::protocol::ip::IpAddr::from_str("127.0.0.1").unwrap();
    let mut hdr = IpHdr::new(IpProtocol::Icmp, 20, 7, 0, src, src);
    hdr.vhl = 0x4f; // 60-byte header claimed
    let hdr = hdr.with_checksum();
    let packet = hdr.to_bytes();
    assert_eq!(ip_input(&packet, dev, &ctx).unwrap_err(), NetError::TooShort);
}

#[test]
fn test_output_pipeline_errors() {
    let (devices, protocols, mut ctx, _index) = loopback_stack();
    let payload = [0u8; 8];
    let here = ustack::protocol::ip::IpAddr::from_str("127.0.0.1").unwrap();

    // A source address no interface carries.
    let elsewhere = ustack::protocol::ip::IpAddr::from_str("10.0.0.1").unwrap();
    assert_eq!(
        ip_output(
            IpProtocol::Icmp,
            &payload,
            elsewhere,
            here,
            &mut ctx,
            &devices,
            &protocols
        )
        .unwrap_err(),
        NetError::InterfaceNotFound
    );

    // A destination off the interface's subnet that is not the global
    // broadcast.
    let off_subnet = ustack::protocol::ip::IpAddr::from_str("10.0.0.2").unwrap();
    assert_eq!(
        ip_output(
            IpProtocol::Icmp,
            &payload,
            here,
            off_subnet,
            &mut ctx,
            &devices,
            &protocols
        )
        .unwrap_err(),
        NetError::Unreachable
    );

    // A successful send on the loopback returns the bytes put on the wire.
    let sent = ip_output(
        IpProtocol::Icmp,
        &payload,
        here,
        here,
        &mut ctx,
        &devices,
        &protocols,
    )
    .unwrap();
    assert_eq!(sent, 28);
}

#[test]
fn test_output_mtu_and_resolution_errors() {
    // A device with a small MTU rejects a packet that does not fit, and a
    // device that needs address resolution rejects a unicast destination.
    let mut devices = DeviceManager::new();
    let mut protocols = ProtocolManager::new();
    let mut ctx = ProtocolContexts::new();
    protocols.init().unwrap();

    let mut dev = Device::default();
    dev.mtu = 30;
    dev.flags = NET_DEVICE_FLAG_NEED_ARP;
    let index = devices.register(dev).unwrap();
    {
        let dev = devices.get_mut(index).unwrap();
        register_iface(dev, "10.0.0.1", "255.0.0.0", &mut ctx).unwrap();
        dev.open().unwrap();
    }
    let here = ustack::protocol::ip::IpAddr::from_str("10.0.0.1").unwrap();
    let peer = ustack::protocol::ip::IpAddr::from_str("10.0.0.2").unwrap();

    // 20 + 16 > 30: too large for the device.
    let big = [0u8; 16];
    assert_eq!(
        ip_output(
            IpProtocol::Icmp,
            &big,
            here,
            peer,
            &mut ctx,
            &devices,
            &protocols
        )
        .unwrap_err(),
        NetError::PacketTooLarge
    );

    // Fits, but the unicast target needs address resolution.
    let small = [0u8; 8];
    assert_eq!(
        ip_output(
            IpProtocol::Icmp,
            &small,
            here,
            peer,
            &mut ctx,
            &devices,
            &protocols
        )
        .unwrap_err(),
        NetError::AddressResolutionUnavailable
    );

    // The subnet broadcast is sent with the broadcast hardware address;
    // this device has no capability, so the frame is accepted and dropped.
    let bcast = ustack::protocol::ip::IpAddr::from_str("10.255.255.255").unwrap();
    assert_eq!(
        ip_output(
            IpProtocol::Icmp,
            &small,
            here,
            bcast,
            &mut ctx,
            &devices,
            &protocols
        )
        .unwrap(),
        28
    );
}

#[test]
fn test_device_output_payload_too_large() {
    // A frame over the device MTU always fails and the capability is never
    // invoked: the error carries no dispatch outcome.
    let (devices, protocols, ctx, index) = loopback_stack();
    let frame = vec![0u8; 0x10000];
    let r = device::output(
        &devices,
        &protocols,
        &ctx,
        index,
        PROTOCOL_TYPE_IP,
        &frame,
        None,
    );
    assert_eq!(r.unwrap_err(), NetError::PayloadTooLarge);

    // An index that names no device fails before anything else.
    let r = device::output(
        &devices,
        &protocols,
        &ctx,
        DeviceIndex(99),
        PROTOCOL_TYPE_IP,
        &[0u8; 4],
        None,
    );
    assert_eq!(r.unwrap_err(), NetError::DeviceNotFound);
}

#[test]
fn test_duplicate_interface_address() {
    let mut devices = DeviceManager::new();
    let mut ctx = ProtocolContexts::new();
    let first = ustack::device::loopback::init(&mut devices).unwrap();
    let second = ustack::device::loopback::init(&mut devices).unwrap();
    register_iface(devices.get_mut(first).unwrap(), "127.0.0.1", "255.0.0.0", &mut ctx).unwrap();
    assert_eq!(
        register_iface(
            devices.get_mut(second).unwrap(),
            "127.0.0.1",
            "255.0.0.0",
            &mut ctx
        )
        .unwrap_err(),
        NetError::DuplicateAddress
    );
    // The rejected attachment left the second device untouched.
    assert!(devices.get(second).unwrap().get_ip_iface().is_none());
}

#[test]
fn test_register_iface_enforces_one_per_family() {
    // The combined attach-and-record path enforces the device invariant: a
    // second IP interface on the same device is refused, and neither the
    // device nor the registry changes.
    let mut devices = DeviceManager::new();
    let mut ctx = ProtocolContexts::new();
    let index = ustack::device::loopback::init(&mut devices).unwrap();
    register_iface(devices.get_mut(index).unwrap(), "10.0.0.1", "255.0.0.0", &mut ctx).unwrap();
    assert_eq!(
        register_iface(
            devices.get_mut(index).unwrap(),
            "10.0.0.2",
            "255.0.0.0",
            &mut ctx
        )
        .unwrap_err(),
        NetError::FamilyAlreadyRegistered
    );
    let first = ustack::protocol::ip::IpAddr::from_str("10.0.0.1").unwrap();
    let second = ustack::protocol::ip::IpAddr::from_str("10.0.0.2").unwrap();
    assert_eq!(
        devices.get(index).unwrap().get_ip_iface().unwrap().unicast,
        first
    );
    assert!(ctx.ip_ifaces.select(first).is_some());
    assert!(ctx.ip_ifaces.select(second).is_none());
}

#[test]
fn test_register_iface_bad_address() {
    let mut devices = DeviceManager::new();
    let mut ctx = ProtocolContexts::new();
    let index = ustack::device::loopback::init(&mut devices).unwrap();
    assert_eq!(
        register_iface(devices.get_mut(index).unwrap(), "1.2.3", "255.0.0.0", &mut ctx)
            .unwrap_err(),
        NetError::AddressFormat
    );
}

#[test]
fn test_protocol_registry_rejects_duplicates() {
    let mut protocols = ProtocolManager::new();
    protocols.init().unwrap();
    assert_eq!(protocols.init().unwrap_err(), NetError::AlreadyRegistered);
}

#[test]
fn test_built_packet_verifies() {
    // The output pipeline's header passes the input pipeline's checksum
    // gate: stamping and checking are inverses.
    let src = ustack::protocol::ip::IpAddr::from_str("10.0.0.1").unwrap();
    let dst = ustack::protocol::ip::IpAddr::from_str("10.0.0.2").unwrap();
    let hdr = IpHdr::new(IpProtocol::Icmp, 28, 42, 0, src, dst).with_checksum();
    let bytes = hdr.to_bytes();
    assert_eq!(bytes.len(), 20);
    assert_eq!(cksum16(&bytes, 0), 0);
    let back = IpHdr::from_bytes(&bytes).unwrap();
    assert_eq!(back, hdr);
    assert_eq!(back.version(), 4);
    assert_eq!(back.hdr_len(), 20);
    assert_eq!(back.protocol(), IpProtocol::Icmp);
}
