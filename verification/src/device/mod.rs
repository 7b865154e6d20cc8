//! The device abstraction layer: devices with stable indices, up/down
//! state, MTU enforcement on output, and attached network-layer interfaces.

pub mod loopback;

use vstd::prelude::*;
use vstd::string::*;

use crate::context::ProtocolContexts;
use crate::error::NetError;
use crate::iface::{IpIface, NetIface, NetIfaceFamily};
use crate::protocol::{spec_dispatch, DispatchEvent, ProtocolManager};
use crate::text::{append_decimal, dec_digits};

verus! {

pub const IFNAMSIZ: usize = 16;

pub const NET_DEVICE_ADDR_LEN: usize = 16;

pub const NET_DEVICE_FLAG_UP: u16 = 0x0001;

pub const NET_DEVICE_FLAG_LOOPBACK: u16 = 0x0010;

pub const NET_DEVICE_FLAG_BROADCAST: u16 = 0x0020;

pub const NET_DEVICE_FLAG_P2P: u16 = 0x0040;

pub const NET_DEVICE_FLAG_NEED_ARP: u16 = 0x0100;

/// The kinds of devices the stack knows.
#[derive(Debug, Clone, Copy, PartialEq, Eq, Structural)]
pub enum DeviceType {
    Dummy,
    Loopback,
    Ethernet,
}

/// A stable, opaque device identifier assigned at registration.
#[derive(Debug, Clone, Copy, PartialEq, Eq, Structural)]
pub struct DeviceIndex(pub usize);

/// The capability implementations a device can carry.  The open, close and
/// transmit behaviour of each variant is fixed by the stack: a loopback
/// device's transmit feeds the frame synchronously back into protocol
/// dispatch (see [`output`]).
#[derive(Debug, Clone, Copy, PartialEq, Eq, Structural)]
pub enum DeviceOps {
    Loopback,
}

/// A network device: identity, link parameters, state flags, hardware
/// addresses, an optional capability implementation, and the attached
/// network-layer interfaces.
pub struct Device {
    pub index: DeviceIndex,
    pub name: String,
    pub device_type: DeviceType,
    pub mtu: u16,
    pub flags: u16,
    pub hlen: u16,
    pub alen: u16,
    pub addr: Vec<u8>,
    pub broadcast: Vec<u8>,
    pub ops: Option<DeviceOps>,
    pub ifaces: Vec<NetIface>,
}

/// The device with its up flag set.
pub open spec fn spec_opened(d: Device) -> Device {
    Device { flags: d.flags | NET_DEVICE_FLAG_UP, ..d }
}

/// The device with its up flag cleared.
pub open spec fn spec_closed(d: Device) -> Device {
    Device { flags: d.flags & !NET_DEVICE_FLAG_UP, ..d }
}

/// Two devices agree on everything except, possibly, their interface list.
pub open spec fn spec_same_core(a: Device, b: Device) -> bool {
    &&& a.index == b.index
    &&& a.name@ == b.name@
    &&& a.device_type == b.device_type
    &&& a.mtu == b.mtu
    &&& a.flags == b.flags
    &&& a.hlen == b.hlen
    &&& a.alen == b.alen
    &&& a.addr@ == b.addr@
    &&& a.broadcast@ == b.broadcast@
    &&& a.ops == b.ops
}

/// Whether any interface of `s` has the given family.
pub open spec fn spec_has_family(s: Seq<NetIface>, family: NetIfaceFamily) -> bool {
    exists|i: int| 0 <= i < s.len() && (#[trigger] s[i]).spec_family() == family
}

/// The first IP interface among `s`, if any.
pub open spec fn spec_first_ip(s: Seq<NetIface>) -> Option<IpIface>
    decreases s.len(),
{
    if s.len() == 0 {
        None
    } else {
        match s[0] {
            NetIface::Ip(iface) => Some(iface),
        }
    }
}

impl Default for Device {
    /// A blank device: zero everywhere, no capability, no interfaces.
    fn default() -> (r: Self)
        ensures
            r.index == DeviceIndex(0),
            r.name@ == Seq::<char>::empty(),
            r.device_type == DeviceType::Dummy,
            r.mtu == 0,
            r.flags == 0,
            r.hlen == 0,
            r.alen == 0,
            r.addr@ == Seq::<u8>::empty(),
            r.broadcast@ == Seq::<u8>::empty(),
            r.ops is None,
            r.ifaces@ == Seq::<NetIface>::empty(),
    {
        Device {
            index: DeviceIndex(0),
            name: String::new(),
            device_type: DeviceType::Dummy,
            mtu: 0,
            flags: 0,
            hlen: 0,
            alen: 0,
            addr: Vec::new(),
            broadcast: Vec::new(),
            ops: None,
            ifaces: Vec::new(),
        }
    }
}

impl Device {
    /// Whether the device is up.
    pub open spec fn spec_is_up(self) -> bool {
        self.flags & NET_DEVICE_FLAG_UP != 0
    }

    pub fn is_up(&self) -> (r: bool)
        ensures
            r == self.spec_is_up(),
    {
        (self.flags & NET_DEVICE_FLAG_UP) != 0
    }

    /// The device state as text.
    pub fn state(&self) -> (r: &'static str)
        ensures
            self.spec_is_up() ==> r@ == "UP"@,
            !self.spec_is_up() ==> r@ == "DOWN"@,
    {
        if self.is_up() {
            "UP"
        } else {
            "DOWN"
        }
    }

    /// The device's name.
    pub fn name_string(&self) -> (r: String)
        ensures
            r@ == self.name@,
    {
        self.name.clone()
    }

    /// The validation gates of device output: fails with not-up on a device
    /// that is down, with payload-too-large on a frame over the MTU, and
    /// accepts otherwise.  Running the capability's transmit is the job of
    /// the stack-level [`output`], which calls this first; the capability is
    /// never invoked on a frame this rejects.
    pub fn output(&self, device_type: u16, data: &[u8], dst: Option<&[u8]>) -> (r: Result<
        (),
        NetError,
    >)
        ensures
            !self.spec_is_up() ==> r == Err::<(), NetError>(NetError::NotUp),
            self.spec_is_up() && data@.len() > self.mtu ==> r == Err::<(), NetError>(
                NetError::PayloadTooLarge,
            ),
            self.spec_is_up() && data@.len() <= self.mtu ==> r == Ok::<(), NetError>(()),
    {
        if !self.is_up() {
            return Err(NetError::NotUp);
        }
        if data.len() > self.mtu as usize {
            return Err(NetError::PayloadTooLarge);
        }
        Ok(())
    }

    /// Note a frame the device received.  The frame is handed to protocol
    /// dispatch by the stack, not here.
    pub fn input(&self, device_type: u16, data: &[u8]) -> (r: Result<(), NetError>)
        ensures
            r == Ok::<(), NetError>(()),
    {
        Ok(())
    }

    /// Bring the device up; fails exactly when it is already up.  The
    /// capability's open hook runs first (a no-op for loopback).
    pub fn open(&mut self) -> (r: Result<(), NetError>)
        ensures
            old(self).spec_is_up() ==> r == Err::<(), NetError>(NetError::AlreadyUp) && *final(self)
                == *old(self),
            !old(self).spec_is_up() ==> r == Ok::<(), NetError>(()) && *final(self) == spec_opened(
                *old(self),
            ),
    {
        if self.is_up() {
            return Err(NetError::AlreadyUp);
        }
        match &self.ops {
            Some(DeviceOps::Loopback) => {},
            None => {},
        }
        self.flags = self.flags | NET_DEVICE_FLAG_UP;
        Ok(())
    }

    /// Take the device down; fails exactly when it is not up.  The
    /// capability's close hook runs first (a no-op for loopback).
    pub fn close(&mut self) -> (r: Result<(), NetError>)
        ensures
            !old(self).spec_is_up() ==> r == Err::<(), NetError>(NetError::NotUp) && *final(self)
                == *old(self),
            old(self).spec_is_up() ==> r == Ok::<(), NetError>(()) && *final(self) == spec_closed(
                *old(self),
            ),
    {
        if !self.is_up() {
            return Err(NetError::NotUp);
        }
        match &self.ops {
            Some(DeviceOps::Loopback) => {},
            None => {},
        }
        self.flags = self.flags & !NET_DEVICE_FLAG_UP;
        Ok(())
    }

    /// Whether the device already carries an interface of the given family.
    pub(crate) fn has_iface_family(&self, family: NetIfaceFamily) -> (r: bool)
        ensures
            r == spec_has_family(self.ifaces@, family),
    {
        let n = self.ifaces.len();
        let mut i: usize = 0;
        while i < n
            invariant
                i <= n,
                n == self.ifaces@.len(),
                forall|j: int| 0 <= j < i ==> (#[trigger] self.ifaces@[j]).spec_family() != family,
            decreases n - i,
        {
            if self.ifaces[i].family() == family {
                proof {
                    assert(spec_has_family(self.ifaces@, family));
                }
                return true;
            }
            i = i + 1;
        }
        false
    }

    /// Attach a network-layer interface; fails exactly when the device
    /// already carries an interface of the same family.
    pub fn register_iface(&mut self, iface: NetIface) -> (r: Result<(), NetError>)
        ensures
            spec_has_family(old(self).ifaces@, iface.spec_family()) ==> r == Err::<(), NetError>(
                NetError::FamilyAlreadyRegistered,
            ) && *final(self) == *old(self),
            !spec_has_family(old(self).ifaces@, iface.spec_family()) ==> r == Ok::<(), NetError>(())
                && final(self).ifaces@ == old(self).ifaces@.push(iface) && spec_same_core(
                *final(self),
                *old(self),
            ),
    {
        let n = self.ifaces.len();
        let mut i: usize = 0;
        while i < n
            invariant
                i <= n,
                n == self.ifaces@.len(),
                *self == *old(self),
                forall|j: int|
                    0 <= j < i ==> (#[trigger] self.ifaces@[j]).spec_family()
                        != iface.spec_family(),
            decreases n - i,
        {
            if self.ifaces[i].family() == iface.family() {
                proof {
                    assert(spec_has_family(self.ifaces@, iface.spec_family()));
                }
                return Err(NetError::FamilyAlreadyRegistered);
            }
            i = i + 1;
        }
        self.ifaces.push(iface);
        Ok(())
    }

    /// The first attached IP interface, if any.
    pub fn get_ip_iface(&self) -> (r: Option<&IpIface>)
        ensures
            match r {
                Some(iface) => spec_first_ip(self.ifaces@) == Some(*iface),
                None => spec_first_ip(self.ifaces@) is None,
            },
    {
        if self.ifaces.len() == 0 {
            return None;
        }
        match &self.ifaces[0] {
            NetIface::Ip(iface) => Some(iface),
        }
    }
}

/// The device registry: assigns stable, monotonically increasing indices at
/// registration and never reuses one.
pub struct DeviceManager {
    devices: Vec<Device>,
}

impl View for DeviceManager {
    type V = Seq<Device>;

    closed spec fn view(&self) -> Seq<Device> {
        self.devices@
    }
}

impl DeviceManager {
    /// The registry invariant: each device sits at the index it was
    /// assigned, and its hardware address length never exceeds the stored
    /// broadcast hardware address.
    pub open spec fn wf(self) -> bool {
        forall|i: int|
            0 <= i < self@.len() ==> (#[trigger] self@[i]).index == DeviceIndex(i as usize)
                && self@[i].alen as int <= self@[i].broadcast@.len()
    }

    pub fn new() -> (r: Self)
        ensures
            r@ == Seq::<Device>::empty(),
            r.wf(),
    {
        DeviceManager { devices: Vec::new() }
    }

    /// Register a device: assign it the next sequential index and a name
    /// derived from that index.  Registration never fails.
    pub fn register(&mut self, dev: Device) -> (r: Result<DeviceIndex, NetError>)
        ensures
            r == Ok::<DeviceIndex, NetError>(DeviceIndex(old(self)@.len() as usize)),
            final(self)@.len() == old(self)@.len() + 1,
            forall|i: int| 0 <= i < old(self)@.len() ==> final(self)@[i] == old(self)@[i],
            ({
                let added = final(self)@.last();
                &&& added.index == DeviceIndex(old(self)@.len() as usize)
                &&& added.name@ == "net"@ + dec_digits(old(self)@.len() as nat)
                &&& added.device_type == dev.device_type
                &&& added.mtu == dev.mtu
                &&& added.flags == dev.flags
                &&& added.hlen == dev.hlen
                &&& added.alen == dev.alen
                &&& added.addr@ == dev.addr@
                &&& added.broadcast@ == dev.broadcast@
                &&& added.ops == dev.ops
                &&& added.ifaces@ == dev.ifaces@
            }),
            old(self).wf() && dev.alen as int <= dev.broadcast@.len() ==> final(self).wf(),
    {
        let index = DeviceIndex(self.devices.len());
        let mut name = String::new();
        name.append("net");
        append_decimal(&mut name, index.0);
        let mut dev = dev;
        dev.index = index;
        dev.name = name;
        self.devices.push(dev);
        Ok(index)
    }

    /// The device registered under `index`, if any.
    pub fn get(&self, index: DeviceIndex) -> (r: Option<&Device>)
        ensures
            index.0 < self@.len() ==> (match r {
                Some(dev) => *dev == self@[index.0 as int],
                None => false,
            }),
            index.0 >= self@.len() ==> r is None,
    {
        if index.0 < self.devices.len() {
            Some(&self.devices[index.0])
        } else {
            None
        }
    }

    /// The device registered under `index`, for mutation.
    pub fn get_mut(&mut self, index: DeviceIndex) -> (r: Option<&mut Device>)
        ensures
            index.0 >= old(self)@.len() ==> r is None && final(self)@ == old(self)@,
            index.0 < old(self)@.len() ==> (match r {
                Some(dev) => *dev == old(self)@[index.0 as int] && final(self)@ == old(self)@.update(index.0 as int, *final(dev)),
                None => false,
            }),
    {
        if index.0 < self.devices.len() {
            Some(&mut self.devices[index.0])
        } else {
            None
        }
    }

    /// Open every registered device, in registration order; the first
    /// failure aborts the sequence.
    pub fn run(&mut self) -> (r: Result<(), NetError>)
        ensures
            (forall|i: int| 0 <= i < old(self)@.len() ==> !(#[trigger] old(self)@[i]).spec_is_up())
                ==> r == Ok::<(), NetError>(()) && final(self)@ == Seq::new(
                old(self)@.len(),
                |i: int| spec_opened(old(self)@[i]),
            ),
            (exists|i: int| 0 <= i < old(self)@.len() && (#[trigger] old(self)@[i]).spec_is_up())
                ==> r == Err::<(), NetError>(NetError::AlreadyUp) && (exists|k: int|
                {
                    &&& 0 <= k < old(self)@.len()
                    &&& (#[trigger] old(self)@[k]).spec_is_up()
                    &&& (forall|j: int| 0 <= j < k ==> !(#[trigger] old(self)@[j]).spec_is_up())
                    &&& final(self)@ == Seq::new(
                        old(self)@.len(),
                        |i: int|
                            if i < k {
                                spec_opened(old(self)@[i])
                            } else {
                                old(self)@[i]
                            },
                    )
                }),
    {
        let n = self.devices.len();
        let mut i: usize = 0;
        while i < n
            invariant
                i <= n,
                n == self@.len(),
                old(self)@.len() == n,
                forall|j: int| i <= j < n ==> self@[j] == old(self)@[j],
                forall|j: int| 0 <= j < i ==> !(#[trigger] old(self)@[j]).spec_is_up(),
                forall|j: int| 0 <= j < i ==> self@[j] == spec_opened(old(self)@[j]),
            decreases n - i,
        {
            let r = self.devices[i].open();
            match r {
                Ok(()) => {},
                Err(e) => {
                    proof {
                        assert(old(self)@[i as int].spec_is_up());
                        assert(final(self)@ =~= Seq::new(
                            old(self)@.len(),
                            |j: int|
                                if j < i as int {
                                    spec_opened(old(self)@[j])
                                } else {
                                    old(self)@[j]
                                },
                        ));
                    }
                    return Err(e);
                },
            }
            i = i + 1;
        }
        proof {
            assert(final(self)@ =~= Seq::new(
                old(self)@.len(),
                |i: int| spec_opened(old(self)@[i]),
            ));
        }
        Ok(())
    }

    /// Close every registered device, in registration order; the first
    /// failure aborts the sequence.
    pub fn shutdown(&mut self) -> (r: Result<(), NetError>)
        ensures
            (forall|i: int| 0 <= i < old(self)@.len() ==> (#[trigger] old(self)@[i]).spec_is_up())
                ==> r == Ok::<(), NetError>(()) && final(self)@ == Seq::new(
                old(self)@.len(),
                |i: int| spec_closed(old(self)@[i]),
            ),
            (exists|i: int| 0 <= i < old(self)@.len() && !(#[trigger] old(self)@[i]).spec_is_up())
                ==> r == Err::<(), NetError>(NetError::NotUp) && (exists|k: int|
                {
                    &&& 0 <= k < old(self)@.len()
                    &&& !(#[trigger] old(self)@[k]).spec_is_up()
                    &&& (forall|j: int| 0 <= j < k ==> (#[trigger] old(self)@[j]).spec_is_up())
                    &&& final(self)@ == Seq::new(
                        old(self)@.len(),
                        |i: int|
                            if i < k {
                                spec_closed(old(self)@[i])
                            } else {
                                old(self)@[i]
                            },
                    )
                }),
    {
        let n = self.devices.len();
        let mut i: usize = 0;
        while i < n
            invariant
                i <= n,
                n == self@.len(),
                old(self)@.len() == n,
                forall|j: int| i <= j < n ==> self@[j] == old(self)@[j],
                forall|j: int| 0 <= j < i ==> (#[trigger] old(self)@[j]).spec_is_up(),
                forall|j: int| 0 <= j < i ==> self@[j] == spec_closed(old(self)@[j]),
            decreases n - i,
        {
            let r = self.devices[i].close();
            match r {
                Ok(()) => {},
                Err(e) => {
                    proof {
                        assert(!old(self)@[i as int].spec_is_up());
                        assert(final(self)@ =~= Seq::new(
                            old(self)@.len(),
                            |j: int|
                                if j < i as int {
                                    spec_closed(old(self)@[j])
                                } else {
                                    old(self)@[j]
                                },
                        ));
                    }
                    return Err(e);
                },
            }
            i = i + 1;
        }
        proof {
            assert(final(self)@ =~= Seq::new(
                old(self)@.len(),
                |i: int| spec_closed(old(self)@[i]),
            ));
        }
        Ok(())
    }
}

/// Validate and transmit one frame on a device.  The device's output gates
/// run first, so the capability is never invoked on a frame they reject.
/// A loopback device's transmit never leaves the process: the frame
/// re-enters protocol dispatch synchronously, within this call, and the
/// dispatch outcome is returned.  A device without a capability accepts the
/// frame and drops it.
pub fn output(
    devices: &DeviceManager,
    protocols: &ProtocolManager,
    ctx: &ProtocolContexts,
    index: DeviceIndex,
    type_: u16,
    data: &[u8],
    dst: Option<&[u8]>,
) -> (r: Result<Option<DispatchEvent>, NetError>)
    ensures
        index.0 >= devices@.len() ==> r == Err::<Option<DispatchEvent>, NetError>(
            NetError::DeviceNotFound,
        ),
        index.0 < devices@.len() ==> {
            let dev = devices@[index.0 as int];
            &&& !dev.spec_is_up() ==> r == Err::<Option<DispatchEvent>, NetError>(NetError::NotUp)
            &&& dev.spec_is_up() && data@.len() > dev.mtu ==> r == Err::<
                Option<DispatchEvent>,
                NetError,
            >(NetError::PayloadTooLarge)
            &&& dev.spec_is_up() && data@.len() <= dev.mtu ==> (match dev.ops {
                None => r == Ok::<Option<DispatchEvent>, NetError>(None),
                Some(DeviceOps::Loopback) => r == Ok::<Option<DispatchEvent>, NetError>(
                    Some(spec_dispatch(protocols@, type_, data@, dev)),
                ),
            })
        },
{
    let dev = match devices.get(index) {
        Some(d) => d,
        None => {
            return Err(NetError::DeviceNotFound);
        },
    };
    match dev.output(type_, data, dst) {
        Ok(()) => {},
        Err(e) => {
            return Err(e);
        },
    }
    match &dev.ops {
        None => Ok(None),
        Some(DeviceOps::Loopback) => Ok(Some(protocols.dispatch(type_, data, dev, ctx))),
    }
}

} // verus!
