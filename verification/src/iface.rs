//! Network-layer interfaces: an IP unicast/netmask pair bound to a device,
//! with the broadcast address derived from them at construction.

use vstd::prelude::*;
use vstd::string::*;

use crate::device::DeviceIndex;
use crate::error::NetError;
use crate::protocol::ip::IpAddr;
use crate::text::quad_parse;

verus! {

/// The address families an interface can belong to.
#[derive(Debug, Clone, Copy, PartialEq, Eq, Structural)]
pub enum NetIfaceFamily {
    Ip,
    Ipv6,
}

/// An IP interface: unicast address, netmask, the broadcast address derived
/// as `(unicast & netmask) | !netmask`, and the owning device.
#[derive(Debug, Clone, Copy, PartialEq, Eq, Structural)]
pub struct IpIface {
    pub unicast: IpAddr,
    pub netmask: IpAddr,
    pub broadcast: IpAddr,
    pub device_index: DeviceIndex,
}

impl IpIface {
    /// The construction invariant: the broadcast address is consistent with
    /// the unicast address and netmask.
    pub open spec fn wf(self) -> bool {
        self.broadcast.0 == (self.unicast.0 & self.netmask.0) | !self.netmask.0
    }

    /// The interface built from a unicast address and netmask: the broadcast
    /// address is derived, never supplied.
    pub open spec fn spec_new(unicast: IpAddr, netmask: IpAddr, device_index: DeviceIndex) -> Self {
        IpIface {
            unicast,
            netmask,
            broadcast: IpAddr((unicast.0 & netmask.0) | !netmask.0),
            device_index,
        }
    }

    /// Build an interface from dotted-quad strings; fails with the
    /// address-format error exactly when either string is not a well-formed
    /// dotted quad.  The broadcast address is derived, never supplied.
    pub fn new(unicast: &str, netmask: &str, device_index: DeviceIndex) -> (r: Result<
        Self,
        NetError,
    >)
        ensures
            (r is Ok) <==> (quad_parse(unicast@) is Some && quad_parse(netmask@) is Some),
            r is Err ==> r == Err::<Self, NetError>(NetError::AddressFormat),
            r is Ok ==> {
                let iface = r->Ok_0;
                &&& Some(iface.unicast) == IpAddr::spec_parse(unicast@)
                &&& Some(iface.netmask) == IpAddr::spec_parse(netmask@)
                &&& iface == IpIface::spec_new(iface.unicast, iface.netmask, device_index)
                &&& iface.wf()
                &&& iface.device_index == device_index
            },
    {
        let unicast_addr = IpAddr::from_str(unicast)?;
        let netmask_addr = IpAddr::from_str(netmask)?;
        let broadcast_addr = unicast_addr.mask_and(netmask_addr).mask_or(netmask_addr.mask_not());
        Ok(
            IpIface {
                unicast: unicast_addr,
                netmask: netmask_addr,
                broadcast: broadcast_addr,
                device_index,
            },
        )
    }

    /// Whether a destination address is addressed to this interface: its
    /// unicast address, its derived broadcast address, or the global
    /// broadcast address.
    pub open spec fn spec_destination_match(self, dst: IpAddr) -> bool {
        dst == self.unicast || dst == self.broadcast || dst == IpAddr::spec_broadcast_all()
    }

    pub fn is_destination_match(&self, dst: IpAddr) -> (r: bool)
        ensures
            r == self.spec_destination_match(dst),
    {
        dst == self.unicast || dst == self.broadcast || dst == IpAddr::broadcast_all()
    }

    /// The interface's addresses in human-readable form.
    pub open spec fn spec_info(self) -> Seq<char> {
        "unicast="@ + self.unicast.spec_str() + ", netmask="@ + self.netmask.spec_str()
            + ", broadcast="@ + self.broadcast.spec_str()
    }

    pub fn info(&self) -> (r: String)
        ensures
            r@ == self.spec_info(),
    {
        let mut out = String::new();
        out.append("unicast=");
        let u = self.unicast.to_string();
        out.append(u.as_str());
        out.append(", netmask=");
        let m = self.netmask.to_string();
        out.append(m.as_str());
        out.append(", broadcast=");
        let b = self.broadcast.to_string();
        out.append(b.as_str());
        proof {
            assert(out@ =~= self.spec_info());
        }
        out
    }
}

/// A network-layer interface of any family.
#[derive(Debug, Clone, Copy, PartialEq, Eq, Structural)]
pub enum NetIface {
    Ip(IpIface),
}

impl NetIface {
    /// The address family of the interface.
    pub open spec fn spec_family(self) -> NetIfaceFamily {
        match self {
            NetIface::Ip(_) => NetIfaceFamily::Ip,
        }
    }

    pub fn family(&self) -> (r: NetIfaceFamily)
        ensures
            r == self.spec_family(),
    {
        match self {
            NetIface::Ip(_) => NetIfaceFamily::Ip,
        }
    }

    /// The interface as an IP interface, if it is one.
    pub fn as_ip(&self) -> (r: Option<&IpIface>)
        ensures
            match self {
                NetIface::Ip(iface) => r == Some(iface),
            },
    {
        match self {
            NetIface::Ip(iface) => Some(iface),
        }
    }
}

} // verus!
