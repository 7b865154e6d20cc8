//! The loopback device of the merged stack ([`crate::net`]): a frame sent
//! on it is handed back to [`crate::net::NetStack::input`] by the caller
//! that owns the stack.

use vstd::prelude::*;

use crate::error::NetError;
use crate::net::{
    Device, DeviceDescriptor, DeviceOps, NetStack, NET_DEVICE_FLAG_LOOPBACK,
    NET_DEVICE_TYPE_LOOPBACK,
};

verus! {

/// Maximum size of an IP datagram.
pub const LOOPBACK_MTU: u16 = 0xffff;

/// Register a loopback device: maximum MTU, loopback flag, the loopback
/// driver, initially down.
pub fn init(net_stack: &mut NetStack) -> (r: Result<DeviceDescriptor, NetError>)
    ensures
        r == Ok::<DeviceDescriptor, NetError>(old(net_stack).spec_devices().len() as usize),
        final(net_stack).spec_protocols() == old(net_stack).spec_protocols(),
        final(net_stack).spec_devices().len() == old(net_stack).spec_devices().len() + 1,
        forall|i: int|
            0 <= i < old(net_stack).spec_devices().len() ==> final(net_stack).spec_devices()[i]
                == old(net_stack).spec_devices()[i],
        ({
            let added = final(net_stack).spec_devices().last();
            &&& added.descriptor == old(net_stack).spec_devices().len()
            &&& added.device_type == NET_DEVICE_TYPE_LOOPBACK
            &&& added.mtu == LOOPBACK_MTU
            &&& added.flags == NET_DEVICE_FLAG_LOOPBACK
            &&& !added.spec_is_up()
            &&& added.ops == Some(DeviceOps::Loopback)
        }),
{
    let mut dev = Device::default();
    dev.device_type = NET_DEVICE_TYPE_LOOPBACK;
    dev.mtu = LOOPBACK_MTU;
    dev.flags = NET_DEVICE_FLAG_LOOPBACK;
    dev.ops = Some(DeviceOps::Loopback);
    proof {
        assert(NET_DEVICE_FLAG_LOOPBACK & crate::net::NET_DEVICE_FLAG_UP == 0) by (bit_vector);
    }
    net_stack.register_device(dev)
}

} // verus!
