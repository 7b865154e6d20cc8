//! The merged, single-struct stack: devices and the protocol dispatch table
//! in one registry, with the same gates as the layered stack but without
//! interfaces or payload dispatch.

use vstd::prelude::*;
use vstd::string::*;

use crate::error::NetError;
use crate::text::{append_decimal, dec_digits};

verus! {

const IFNAMSIZ: usize = 16;

/// A device descriptor: an index into the device table.
pub type DeviceDescriptor = usize;

pub const NET_DEVICE_TYPE_DUMMY: u16 = 0x0000;

pub const NET_DEVICE_TYPE_LOOPBACK: u16 = 0x0001;

pub const NET_DEVICE_TYPE_ETHERNET: u16 = 0x0002;

pub const NET_PROTOCOL_TYPE_IP: u16 = 0x0800;

pub const NET_PROTOCOL_TYPE_ARP: u16 = 0x0806;

pub const NET_PROTOCOL_TYPE_IPV6: u16 = 0x86dd;

pub const NET_DEVICE_FLAG_UP: u16 = 0x0001;

pub const NET_DEVICE_FLAG_LOOPBACK: u16 = 0x0010;

pub const NET_DEVICE_FLAG_BROADCAST: u16 = 0x0020;

pub const NET_DEVICE_FLAG_P2P: u16 = 0x0040;

pub const NET_DEVICE_FLAG_NEED_ARP: u16 = 0x0100;

const NET_DEVICE_ADDR_LEN: usize = 16;

/// The handlers this stack's dispatch table can hold; the IP handler runs
/// the validation gates of [`crate::ip`].
#[derive(Debug, Clone, Copy, PartialEq, Eq, Structural)]
pub enum ProtocolHandler {
    Ip,
}

/// One registered protocol: its link-level type and its handler.
#[derive(Debug, Clone, Copy, PartialEq, Eq, Structural)]
pub struct Protocol {
    pub type_: u16,
    pub handler: ProtocolHandler,
}

/// The device driver implementations this stack knows.
#[derive(Debug, Clone, Copy, PartialEq, Eq, Structural)]
pub enum DeviceOps {
    Loopback,
}

/// A network device of the merged stack.
pub struct Device {
    pub descriptor: DeviceDescriptor,
    pub name: String,
    pub device_type: u16,
    pub mtu: u16,
    pub flags: u16,
    pub hlen: u16,
    pub alen: u16,
    pub addr: Vec<u8>,
    pub broadcast: Vec<u8>,
    pub ops: Option<DeviceOps>,
}

/// The device with its up flag set.
pub open spec fn spec_opened(d: Device) -> Device {
    Device { flags: d.flags | NET_DEVICE_FLAG_UP, ..d }
}

/// The device with its up flag cleared.
pub open spec fn spec_closed(d: Device) -> Device {
    Device { flags: d.flags & !NET_DEVICE_FLAG_UP, ..d }
}

impl Default for Device {
    /// A blank device: zero everywhere, no driver.
    fn default() -> (r: Self)
        ensures
            r.descriptor == 0,
            r.name@ == Seq::<char>::empty(),
            r.device_type == 0,
            r.mtu == 0,
            r.flags == 0,
            r.hlen == 0,
            r.alen == 0,
            r.addr@ == Seq::<u8>::empty(),
            r.broadcast@ == Seq::<u8>::empty(),
            r.ops is None,
    {
        Device {
            descriptor: 0,
            name: String::new(),
            device_type: 0,
            mtu: 0,
            flags: 0,
            hlen: 0,
            alen: 0,
            addr: Vec::new(),
            broadcast: Vec::new(),
            ops: None,
        }
    }
}

impl Device {
    /// Whether the device is up.
    pub open spec fn spec_is_up(self) -> bool {
        self.flags & NET_DEVICE_FLAG_UP != 0
    }

    pub fn is_up(&self) -> (r: bool)
        ensures
            r == self.spec_is_up(),
    {
        (self.flags & NET_DEVICE_FLAG_UP) != 0
    }

    /// The device state as text.
    pub fn state(&self) -> (r: &'static str)
        ensures
            self.spec_is_up() ==> r@ == "UP"@,
            !self.spec_is_up() ==> r@ == "DOWN"@,
    {
        if self.is_up() {
            "UP"
        } else {
            "DOWN"
        }
    }

    /// The device's name.
    pub fn name_string(&self) -> (r: String)
        ensures
            r@ == self.name@,
    {
        self.name.clone()
    }

    /// The validation gates of device output: fails with not-up on a device
    /// that is down, with payload-too-large on a frame over the MTU, and
    /// accepts otherwise.  A loopback driver's transmission feeds the frame
    /// back through [`NetStack::input`]; the caller closes that loop.
    pub fn output(&self, device_type: u16, data: &[u8], dst: Option<&[u8]>) -> (r: Result<
        (),
        NetError,
    >)
        ensures
            !self.spec_is_up() ==> r == Err::<(), NetError>(NetError::NotUp),
            self.spec_is_up() && data@.len() > self.mtu ==> r == Err::<(), NetError>(
                NetError::PayloadTooLarge,
            ),
            self.spec_is_up() && data@.len() <= self.mtu ==> r == Ok::<(), NetError>(()),
    {
        if !self.is_up() {
            return Err(NetError::NotUp);
        }
        if data.len() > self.mtu as usize {
            return Err(NetError::PayloadTooLarge);
        }
        Ok(())
    }

    /// Note a frame the device received; protocol dispatch is the job of
    /// [`NetStack::input`].
    pub fn input(&self, type_: u16, data: &[u8]) -> (r: Result<(), NetError>)
        ensures
            r == Ok::<(), NetError>(()),
    {
        Ok(())
    }

    /// Bring the device up; fails exactly when it is already up.
    pub fn open(&mut self) -> (r: Result<(), NetError>)
        ensures
            old(self).spec_is_up() ==> r == Err::<(), NetError>(NetError::AlreadyUp) && *final(self)
                == *old(self),
            !old(self).spec_is_up() ==> r == Ok::<(), NetError>(()) && *final(self) == spec_opened(
                *old(self),
            ),
    {
        if self.is_up() {
            return Err(NetError::AlreadyUp);
        }
        match &self.ops {
            Some(DeviceOps::Loopback) => {},
            None => {},
        }
        self.flags = self.flags | NET_DEVICE_FLAG_UP;
        Ok(())
    }

    /// Take the device down; fails exactly when it is not up.
    pub fn close(&mut self) -> (r: Result<(), NetError>)
        ensures
            !old(self).spec_is_up() ==> r == Err::<(), NetError>(NetError::NotUp) && *final(self)
                == *old(self),
            old(self).spec_is_up() ==> r == Ok::<(), NetError>(()) && *final(self) == spec_closed(
                *old(self),
            ),
    {
        if !self.is_up() {
            return Err(NetError::NotUp);
        }
        match &self.ops {
            Some(DeviceOps::Loopback) => {},
            None => {},
        }
        self.flags = self.flags & !NET_DEVICE_FLAG_UP;
        Ok(())
    }
}

/// The first registered entry for a protocol type, if any.
pub open spec fn spec_find_protocol(s: Seq<Protocol>, t: u16) -> Option<Protocol>
    decreases s.len(),
{
    if s.len() == 0 {
        None
    } else if s[0].type_ == t {
        Some(s[0])
    } else {
        spec_find_protocol(s.skip(1), t)
    }
}

/// The merged stack: the device table and the protocol dispatch table.
pub struct NetStack {
    devices: Vec<Device>,
    protocols: Vec<Protocol>,
}

impl NetStack {
    /// The registered devices.
    pub closed spec fn spec_devices(self) -> Seq<Device> {
        self.devices@
    }

    /// The registered protocols.
    pub closed spec fn spec_protocols(self) -> Seq<Protocol> {
        self.protocols@
    }

    pub fn new() -> (r: Self)
        ensures
            r.spec_devices() == Seq::<Device>::empty(),
            r.spec_protocols() == Seq::<Protocol>::empty(),
    {
        NetStack { devices: Vec::new(), protocols: Vec::new() }
    }

    /// Register a device: assign it the next sequential descriptor and a
    /// name derived from it.  Registration never fails.
    pub fn register_device(&mut self, dev: Device) -> (r: Result<DeviceDescriptor, NetError>)
        ensures
            r == Ok::<DeviceDescriptor, NetError>(old(self).spec_devices().len() as usize),
            final(self).spec_protocols() == old(self).spec_protocols(),
            final(self).spec_devices().len() == old(self).spec_devices().len() + 1,
            forall|i: int|
                0 <= i < old(self).spec_devices().len() ==> final(self).spec_devices()[i] == old(self).spec_devices()[i],
            ({
                let added = final(self).spec_devices().last();
                &&& added.descriptor == old(self).spec_devices().len()
                &&& added.name@ == "net"@ + dec_digits(old(self).spec_devices().len() as nat)
                &&& added.device_type == dev.device_type
                &&& added.mtu == dev.mtu
                &&& added.flags == dev.flags
                &&& added.hlen == dev.hlen
                &&& added.alen == dev.alen
                &&& added.addr@ == dev.addr@
                &&& added.broadcast@ == dev.broadcast@
                &&& added.ops == dev.ops
            }),
    {
        let descriptor = self.devices.len();
        let mut name = String::new();
        name.append("net");
        append_decimal(&mut name, descriptor);
        let mut dev = dev;
        dev.descriptor = descriptor;
        dev.name = name;
        self.devices.push(dev);
        Ok(descriptor)
    }

    /// The device registered under `descriptor`, if any.
    pub fn get_device(&self, descriptor: DeviceDescriptor) -> (r: Option<&Device>)
        ensures
            descriptor < self.spec_devices().len() ==> (match r {
                Some(dev) => *dev == self.spec_devices()[descriptor as int],
                None => false,
            }),
            descriptor >= self.spec_devices().len() ==> r is None,
    {
        if descriptor < self.devices.len() {
            Some(&self.devices[descriptor])
        } else {
            None
        }
    }

    /// The device registered under `descriptor`, for mutation.
    pub fn get_device_mut(&mut self, descriptor: DeviceDescriptor) -> (r: Option<&mut Device>)
        ensures
            final(self).spec_protocols() == old(self).spec_protocols(),
            descriptor >= old(self).spec_devices().len() ==> r is None && final(self).spec_devices()
                == old(self).spec_devices(),
            descriptor < old(self).spec_devices().len() ==> (match r {
                Some(dev) => *dev == old(self).spec_devices()[descriptor as int] && final(self).spec_devices() == old(self).spec_devices().update(
                    descriptor as int,
                    *final(dev),
                ),
                None => false,
            }),
    {
        if descriptor < self.devices.len() {
            Some(&mut self.devices[descriptor])
        } else {
            None
        }
    }

    /// Register a protocol handler; fails exactly when the type already has
    /// one.  Not to be called once the stack is running.
    pub fn register_protocol(&mut self, type_: u16, handler: ProtocolHandler) -> (r: Result<
        (),
        NetError,
    >)
        ensures
            final(self).spec_devices() == old(self).spec_devices(),
            (exists|i: int|
                0 <= i < old(self).spec_protocols().len() && (#[trigger] old(self).spec_protocols()[i]).type_ == type_) ==> r == Err::<(), NetError>(
                NetError::AlreadyRegistered,
            ) && final(self).spec_protocols() == old(self).spec_protocols(),
            (forall|i: int|
                0 <= i < old(self).spec_protocols().len() ==> (#[trigger] old(self).spec_protocols()[i]).type_ != type_) ==> r == Ok::<(), NetError>(()) && final(self).spec_protocols() == old(self).spec_protocols().push(Protocol { type_, handler }),
    {
        let n = self.protocols.len();
        let mut i: usize = 0;
        while i < n
            invariant
                i <= n,
                n == self.protocols@.len(),
                self.protocols@ == old(self).protocols@,
                self.devices@ == old(self).devices@,
                forall|j: int| 0 <= j < i ==> (#[trigger] self.protocols@[j]).type_ != type_,
            decreases n - i,
        {
            if self.protocols[i].type_ == type_ {
                return Err(NetError::AlreadyRegistered);
            }
            i = i + 1;
        }
        self.protocols.push(Protocol { type_, handler });
        Ok(())
    }

    /// Dispatch a received frame to the handler registered for its type; a
    /// frame of an unregistered type is silently dropped.  Fails exactly
    /// when the descriptor names no device.
    pub fn input(&self, type_: u16, data: &[u8], descriptor: DeviceDescriptor) -> (r: Result<
        (),
        NetError,
    >)
        ensures
            descriptor >= self.spec_devices().len() ==> r == Err::<(), NetError>(
                NetError::DeviceNotFound,
            ),
            descriptor < self.spec_devices().len() ==> r == Ok::<(), NetError>(()),
    {
        let dev = match self.get_device(descriptor) {
            Some(d) => d,
            None => {
                return Err(NetError::DeviceNotFound);
            },
        };
        let n = self.protocols.len();
        let mut i: usize = 0;
        while i < n
            invariant
                i <= n,
                n == self.protocols@.len(),
                descriptor < self.spec_devices().len(),
            decreases n - i,
        {
            if self.protocols[i].type_ == type_ {
                match self.protocols[i].handler {
                    ProtocolHandler::Ip => {
                        crate::ip::ip_input_handler(data, dev);
                    },
                }
                return Ok(());
            }
            i = i + 1;
        }
        Ok(())
    }

    /// Register the built-in protocol handlers: the IP validation gates.
    pub fn init(&mut self) -> (r: Result<(), NetError>)
        ensures
            final(self).spec_devices() == old(self).spec_devices(),
            (exists|i: int|
                0 <= i < old(self).spec_protocols().len() && (#[trigger] old(self).spec_protocols()[i]).type_ == NET_PROTOCOL_TYPE_IP) ==> r == Err::<(), NetError>(
                NetError::AlreadyRegistered,
            ) && final(self).spec_protocols() == old(self).spec_protocols(),
            (forall|i: int|
                0 <= i < old(self).spec_protocols().len() ==> (#[trigger] old(self).spec_protocols()[i]).type_ != NET_PROTOCOL_TYPE_IP) ==> r == Ok::<(), NetError>(
                (),
            ) && final(self).spec_protocols() == old(self).spec_protocols().push(
                Protocol { type_: NET_PROTOCOL_TYPE_IP, handler: ProtocolHandler::Ip },
            ),
    {
        crate::ip::init(self)
    }

    /// Open every registered device, in registration order; the first
    /// failure aborts the sequence.
    pub fn run(&mut self) -> (r: Result<(), NetError>)
        ensures
            final(self).spec_protocols() == old(self).spec_protocols(),
            (forall|i: int|
                0 <= i < old(self).spec_devices().len() ==> !(#[trigger] old(self).spec_devices()[i]).spec_is_up()) ==> r == Ok::<(), NetError>(()) && final(self).spec_devices() == Seq::new(
                old(self).spec_devices().len(),
                |i: int| spec_opened(old(self).spec_devices()[i]),
            ),
            (exists|i: int|
                0 <= i < old(self).spec_devices().len() && (#[trigger] old(self).spec_devices()[i]).spec_is_up()) ==> r == Err::<(), NetError>(NetError::AlreadyUp) && (exists|k: int|
                {
                    &&& 0 <= k < old(self).spec_devices().len()
                    &&& (#[trigger] old(self).spec_devices()[k]).spec_is_up()
                    &&& (forall|j: int|
                        0 <= j < k ==> !(#[trigger] old(self).spec_devices()[j]).spec_is_up())
                    &&& final(self).spec_devices() == Seq::new(
                        old(self).spec_devices().len(),
                        |i: int|
                            if i < k {
                                spec_opened(old(self).spec_devices()[i])
                            } else {
                                old(self).spec_devices()[i]
                            },
                    )
                }),
    {
        let n = self.devices.len();
        let mut i: usize = 0;
        while i < n
            invariant
                i <= n,
                n == self.devices@.len(),
                old(self).spec_devices().len() == n,
                self.protocols@ == old(self).protocols@,
                forall|j: int| i <= j < n ==> self.devices@[j] == old(self).devices@[j],
                forall|j: int| 0 <= j < i ==> !(#[trigger] old(self).devices@[j]).spec_is_up(),
                forall|j: int| 0 <= j < i ==> self.devices@[j] == spec_opened(old(self).devices@[j]),
            decreases n - i,
        {
            let r = self.devices[i].open();
            match r {
                Ok(()) => {},
                Err(e) => {
                    proof {
                        assert(old(self).spec_devices()[i as int].spec_is_up());
                        assert(final(self).spec_devices() =~= Seq::new(
                            old(self).spec_devices().len(),
                            |j: int|
                                if j < i as int {
                                    spec_opened(old(self).spec_devices()[j])
                                } else {
                                    old(self).spec_devices()[j]
                                },
                        ));
                    }
                    return Err(e);
                },
            }
            i = i + 1;
        }
        proof {
            assert(final(self).spec_devices() =~= Seq::new(
                old(self).spec_devices().len(),
                |i: int| spec_opened(old(self).spec_devices()[i]),
            ));
        }
        Ok(())
    }

    /// Close every registered device, in registration order; the first
    /// failure aborts the sequence.
    pub fn shutdown(&mut self) -> (r: Result<(), NetError>)
        ensures
            final(self).spec_protocols() == old(self).spec_protocols(),
            (forall|i: int|
                0 <= i < old(self).spec_devices().len() ==> (#[trigger] old(self).spec_devices()[i]).spec_is_up()) ==> r == Ok::<(), NetError>(()) && final(self).spec_devices() == Seq::new(
                old(self).spec_devices().len(),
                |i: int| spec_closed(old(self).spec_devices()[i]),
            ),
            (exists|i: int|
                0 <= i < old(self).spec_devices().len() && !(#[trigger] old(self).spec_devices()[i]).spec_is_up()) ==> r == Err::<(), NetError>(NetError::NotUp) && (exists|k: int|
                {
                    &&& 0 <= k < old(self).spec_devices().len()
                    &&& !(#[trigger] old(self).spec_devices()[k]).spec_is_up()
                    &&& (forall|j: int|
                        0 <= j < k ==> (#[trigger] old(self).spec_devices()[j]).spec_is_up())
                    &&& final(self).spec_devices() == Seq::new(
                        old(self).spec_devices().len(),
                        |i: int|
                            if i < k {
                                spec_closed(old(self).spec_devices()[i])
                            } else {
                                old(self).spec_devices()[i]
                            },
                    )
                }),
    {
        let n = self.devices.len();
        let mut i: usize = 0;
        while i < n
            invariant
                i <= n,
                n == self.devices@.len(),
                old(self).spec_devices().len() == n,
                self.protocols@ == old(self).protocols@,
                forall|j: int| i <= j < n ==> self.devices@[j] == old(self).devices@[j],
                forall|j: int| 0 <= j < i ==> (#[trigger] old(self).devices@[j]).spec_is_up(),
                forall|j: int| 0 <= j < i ==> self.devices@[j] == spec_closed(old(self).devices@[j]),
            decreases n - i,
        {
            let r = self.devices[i].close();
            match r {
                Ok(()) => {},
                Err(e) => {
                    proof {
                        assert(!old(self).spec_devices()[i as int].spec_is_up());
                        assert(final(self).spec_devices() =~= Seq::new(
                            old(self).spec_devices().len(),
                            |j: int|
                                if j < i as int {
                                    spec_closed(old(self).spec_devices()[j])
                                } else {
                                    old(self).spec_devices()[j]
                                },
                        ));
                    }
                    return Err(e);
                },
            }
            i = i + 1;
        }
        proof {
            assert(final(self).spec_devices() =~= Seq::new(
                old(self).spec_devices().len(),
                |i: int| spec_closed(old(self).spec_devices()[i]),
            ));
        }
        Ok(())
    }
}

} // verus!
