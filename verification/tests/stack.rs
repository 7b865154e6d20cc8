//! Device lifecycle and registries, in both the layered and the merged
//! stack.

use ustack::context::{IpIdManager, IpIfaceRegistry, ProtocolContexts};
use ustack::device::{Device, DeviceIndex, DeviceManager, DeviceType};
use ustack::error::NetError;
use ustack::iface::{IpIface, NetIface, NetIfaceFamily};
use ustack::net::{NetStack, NET_PROTOCOL_TYPE_IP};
use ustack::protocol::{DispatchEvent, ProtocolManager, ProtocolType};

#[test]
fn test_device_lifecycle() {
    let mut devices = DeviceManager::new();
    let index = ustack::device::loopback::init(&mut devices).unwrap();
    assert_eq!(index, DeviceIndex(0));
    {
        let dev = devices.get(index).unwrap();
        assert!(!dev.is_up());
        assert_eq!(dev.state(), "DOWN");
        assert_eq!(dev.name_string(), "net0");
        assert_eq!(dev.device_type, DeviceType::Loopback);
        assert_eq!(dev.mtu, 0xffff);
    }
    let dev = devices.get_mut(index).unwrap();
    dev.open().unwrap();
    assert!(dev.is_up());
    assert_eq!(dev.state(), "UP");
    assert_eq!(dev.open().unwrap_err(), NetError::AlreadyUp);
    dev.close().unwrap();
    assert!(!dev.is_up());
    assert_eq!(dev.close().unwrap_err(), NetError::NotUp);
}

#[test]
fn test_device_manager_run_and_shutdown() {
    let mut devices = DeviceManager::new();
    ustack::device::loopback::init(&mut devices).unwrap();
    ustack::device::loopback::init(&mut devices).unwrap();
    assert_eq!(devices.get(DeviceIndex(1)).unwrap().name_string(), "net1");
    assert!(devices.get(DeviceIndex(2)).is_none());

    devices.run().unwrap();
    assert!(devices.get(DeviceIndex(0)).unwrap().is_up());
    assert!(devices.get(DeviceIndex(1)).unwrap().is_up());
    // Running again aborts on the first already-up device.
    assert_eq!(devices.run().unwrap_err(), NetError::AlreadyUp);

    devices.shutdown().unwrap();
    assert!(!devices.get(DeviceIndex(0)).unwrap().is_up());
    assert_eq!(devices.shutdown().unwrap_err(), NetError::NotUp);
}

#[test]
fn test_device_names_follow_registration_order() {
    let mut devices = DeviceManager::new();
    for i in 0..12usize {
        let index = devices.register(Device::default()).unwrap();
        assert_eq!(index, DeviceIndex(i));
    }
    assert_eq!(devices.get(DeviceIndex(11)).unwrap().name_string(), "net11");
}

#[test]
fn test_net_stack_lifecycle() {
    let mut stack = NetStack::new();
    stack.init().unwrap();
    assert_eq!(stack.init().unwrap_err(), NetError::AlreadyRegistered);

    let descriptor = ustack::loopback::init(&mut stack).unwrap();
    assert_eq!(descriptor, 0);
    {
        let dev = stack.get_device(descriptor).unwrap();
        assert_eq!(dev.name_string(), "net0");
        assert!(!dev.is_up());
        assert_eq!(dev.state(), "DOWN");
        assert_eq!(dev.mtu, 0xffff);
    }
    stack.run().unwrap();
    assert!(stack.get_device(descriptor).unwrap().is_up());

    // A frame for a registered protocol is dispatched; an unknown protocol
    // or an unknown device is handled as the contract says.
    assert!(stack.input(NET_PROTOCOL_TYPE_IP, &[0u8; 4], descriptor).is_ok());
    assert!(stack.input(0x1234, &[0u8; 4], descriptor).is_ok());
    assert_eq!(
        stack.input(NET_PROTOCOL_TYPE_IP, &[0u8; 4], 99).unwrap_err(),
        NetError::DeviceNotFound
    );

    stack.shutdown().unwrap();
    assert!(!stack.get_device(descriptor).unwrap().is_up());
}

#[test]
fn test_net_stack_device_output_gates() {
    let mut stack = NetStack::new();
    let descriptor = ustack::loopback::init(&mut stack).unwrap();
    {
        let dev = stack.get_device(descriptor).unwrap();
        assert_eq!(
            dev.output(NET_PROTOCOL_TYPE_IP, &[0u8; 4], None).unwrap_err(),
            NetError::NotUp
        );
    }
    stack.get_device_mut(descriptor).unwrap().open().unwrap();
    {
        let dev = stack.get_device(descriptor).unwrap();
        assert!(dev.output(NET_PROTOCOL_TYPE_IP, &[0u8; 4], None).is_ok());
        let big = vec![0u8; 0x10000];
        assert_eq!(
            dev.output(NET_PROTOCOL_TYPE_IP, &big, None).unwrap_err(),
            NetError::PayloadTooLarge
        );
        assert!(dev.input(NET_PROTOCOL_TYPE_IP, &[0u8; 4]).is_ok());
    }
}

#[test]
fn test_old_ip_input_gates() {
    let mut stack = NetStack::new();
    let descriptor = ustack::loopback::init(&mut stack).unwrap();
    let dev = stack.get_device(descriptor).unwrap();

    let valid = [
        0x45u8, 0x00, 0x00, 0x30, 0x00, 0x80, 0x00, 0x00, 0xff, 0x01, 0xbd, 0x4a, 0x7f, 0x00,
        0x00, 0x01, 0x7f, 0x00, 0x00, 0x01, 0x08, 0x00, 0x35, 0x64, 0x00, 0x80, 0x00, 0x01, 0x31,
        0x32, 0x33, 0x34, 0x35, 0x36, 0x37, 0x38, 0x39, 0x30, 0x21, 0x40, 0x23, 0x24, 0x25, 0x5e,
        0x26, 0x2a, 0x28, 0x29,
    ];
    assert!(ustack::ip::ip_input(&valid, dev).is_ok());

    assert_eq!(
        ustack::ip::ip_input(&valid[..10], dev).unwrap_err(),
        NetError::TooShort
    );
    let mut bad = valid;
    bad[0] = 0x65;
    assert_eq!(
        ustack::ip::ip_input(&bad, dev).unwrap_err(),
        NetError::UnsupportedVersion
    );
    let mut bad = valid;
    bad[11] = bad[11].wrapping_add(1);
    assert_eq!(
        ustack::ip::ip_input(&bad, dev).unwrap_err(),
        NetError::ChecksumError
    );

    let hdr = ustack::ip::IpHdr::new(&valid).unwrap();
    assert_eq!(hdr.version(), 4);
    assert_eq!(hdr.hdr_len(), 20);
    assert_eq!(hdr.total, 0x30);
}

#[test]
fn test_iface_accessors() {
    let iface = IpIface::new("192.168.1.1", "255.255.255.0", DeviceIndex(0)).unwrap();
    assert_eq!(iface.broadcast.to_ne_bytes(), [192, 168, 1, 255]);
    assert!(iface.is_destination_match(iface.unicast));
    assert!(iface.is_destination_match(iface.broadcast));
    assert!(iface.is_destination_match(
        ustack::protocol::ip::IpAddr::broadcast_all()
    ));
    assert!(!iface.is_destination_match(
        ustack::protocol::ip::IpAddr::from_str("192.168.2.1").unwrap()
    ));
    assert_eq!(
        iface.info(),
        "unicast=192.168.1.1, netmask=255.255.255.0, broadcast=192.168.1.255"
    );
    let net_iface = NetIface::Ip(iface);
    assert_eq!(net_iface.family(), NetIfaceFamily::Ip);
    assert_eq!(net_iface.as_ip().unwrap().unicast, iface.unicast);

    let mut devices = DeviceManager::new();
    let index = devices.register(Device::default()).unwrap();
    let dev = devices.get_mut(index).unwrap();
    assert!(dev.get_ip_iface().is_none());
    dev.register_iface(net_iface).unwrap();
    assert_eq!(dev.get_ip_iface().unwrap().unicast, iface.unicast);
}

#[test]
fn test_ip_id_counter() {
    let mut ids = IpIdManager::new();
    assert_eq!(ids.next(), 1);
    assert_eq!(ids.next(), 2);
    for _ in 0..0xfffd {
        ids.next();
    }
    // 2 + 0xfffd draws used values 1 through 0xffff; the counter wraps.
    assert_eq!(ids.next(), 0);
    assert_eq!(ids.next(), 1);
}

#[test]
fn test_iface_registry_select() {
    let mut registry = IpIfaceRegistry::new();
    let a = IpIface::new("10.0.0.1", "255.0.0.0", DeviceIndex(0)).unwrap();
    let b = IpIface::new("10.0.0.2", "255.0.0.0", DeviceIndex(1)).unwrap();
    registry.register(a).unwrap();
    registry.register(b).unwrap();
    assert_eq!(registry.register(a).unwrap_err(), NetError::DuplicateAddress);
    let found = registry.select(b.unicast).unwrap();
    assert_eq!(found.device_index, DeviceIndex(1));
    assert!(registry
        .select(ustack::protocol::ip::IpAddr::from_str("10.0.0.3").unwrap())
        .is_none());
}

#[test]
fn test_protocol_type_tags() {
    assert_eq!(ProtocolType::from_u16(0x0800), ProtocolType::Ip);
    assert_eq!(ProtocolType::from_u16(0x0806), ProtocolType::Arp);
    assert_eq!(ProtocolType::from_u16(0x86dd), ProtocolType::Ipv6);
    assert_eq!(ProtocolType::from_u16(0x1234), ProtocolType::Unknown(0x1234));
    assert_eq!(ProtocolType::Ip.to_u16(), 0x0800);
    assert_eq!(ProtocolType::Unknown(0x1234).to_u16(), 0x1234);
}

#[test]
fn test_dispatch_unknown_protocol_type() {
    let mut devices = DeviceManager::new();
    let mut protocols = ProtocolManager::new();
    let ctx = ProtocolContexts::new();
    protocols.init().unwrap();
    let index = ustack::device::loopback::init(&mut devices).unwrap();
    devices.get_mut(index).unwrap().open().unwrap();
    // An ARP frame finds no handler; the loopback still accepts it and the
    // dispatch reports the silent drop.
    let r = ustack::device::output(&devices, &protocols, &ctx, index, 0x0806, &[0u8; 4], None);
    assert_eq!(r.unwrap(), Some(DispatchEvent::NoHandler));
}
