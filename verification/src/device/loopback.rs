//! The loopback device: an always-available link whose transmit never
//! leaves the process.  A frame sent on it is fed synchronously back into
//! protocol dispatch by the stack-level output path.

use vstd::prelude::*;

use crate::device::{
    Device, DeviceIndex, DeviceManager, DeviceOps, DeviceType, NET_DEVICE_FLAG_LOOPBACK,
};
use crate::error::NetError;

verus! {

pub const LOOPBACK_MTU: u16 = 0xffff;

/// Register a loopback device: maximum MTU, loopback flag, the loopback
/// capability, no hardware addresses, initially down.
pub fn init(devices: &mut DeviceManager) -> (r: Result<DeviceIndex, NetError>)
    ensures
        r == Ok::<DeviceIndex, NetError>(DeviceIndex(old(devices)@.len() as usize)),
        final(devices)@.len() == old(devices)@.len() + 1,
        forall|i: int| 0 <= i < old(devices)@.len() ==> final(devices)@[i] == old(devices)@[i],
        ({
            let added = final(devices)@.last();
            &&& added.index == DeviceIndex(old(devices)@.len() as usize)
            &&& added.device_type == DeviceType::Loopback
            &&& added.mtu == LOOPBACK_MTU
            &&& added.flags == NET_DEVICE_FLAG_LOOPBACK
            &&& !added.spec_is_up()
            &&& added.alen == 0
            &&& added.ops == Some(DeviceOps::Loopback)
            &&& added.ifaces@ == Seq::<crate::iface::NetIface>::empty()
        }),
        old(devices).wf() ==> final(devices).wf(),
{
    let mut dev = Device::default();
    dev.device_type = DeviceType::Loopback;
    dev.mtu = LOOPBACK_MTU;
    dev.flags = NET_DEVICE_FLAG_LOOPBACK;
    dev.ops = Some(DeviceOps::Loopback);
    proof {
        assert(NET_DEVICE_FLAG_LOOPBACK & crate::device::NET_DEVICE_FLAG_UP == 0) by (bit_vector);
    }
    devices.register(dev)
}

} // verus!
