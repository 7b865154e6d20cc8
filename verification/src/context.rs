//! Process-wide protocol state: the IP identification counter and the
//! registry of IP interfaces keyed by unicast address.

use vstd::prelude::*;

use crate::error::NetError;
use crate::iface::IpIface;
use crate::protocol::ip::IpAddr;

verus! {

/// The IP identification counter: starts at 1, increments on every draw,
/// wraps around; values are advisory only.
pub struct IpIdManager {
    next_id: u16,
}

impl IpIdManager {
    /// The value the next draw will return.
    pub closed spec fn spec_next_id(self) -> u16 {
        self.next_id
    }

    pub fn new() -> (r: Self)
        ensures
            r.spec_next_id() == 1,
    {
        IpIdManager { next_id: 1 }
    }

    /// Draw a fresh identifier: returns the current counter value and
    /// advances it by one, wrapping at the 16-bit boundary.
    pub fn next(&mut self) -> (r: u16)
        ensures
            r == old(self).spec_next_id(),
            final(self).spec_next_id() == (old(self).spec_next_id() + 1) % 0x10000,
    {
        let id = self.next_id;
        self.next_id = if self.next_id == 0xffff {
            0
        } else {
            self.next_id + 1
        };
        id
    }
}

/// The first interface in `s` whose unicast address is exactly `addr`.
pub open spec fn spec_select(s: Seq<IpIface>, addr: IpAddr) -> Option<IpIface>
    decreases s.len(),
{
    if s.len() == 0 {
        None
    } else if s[0].unicast == addr {
        Some(s[0])
    } else {
        spec_select(s.skip(1), addr)
    }
}

/// A found interface is a member of the registry with the address searched
/// for, and nothing is found exactly when no member carries the address.
pub proof fn lemma_spec_select(s: Seq<IpIface>, addr: IpAddr)
    ensures
        (spec_select(s, addr) is Some) <==> (exists|i: int|
            0 <= i < s.len() && (#[trigger] s[i]).unicast == addr),
        spec_select(s, addr) is Some ==> {
            let r = spec_select(s, addr)->0;
            r.unicast == addr && exists|i: int| 0 <= i < s.len() && s[i] == r
        },
    decreases s.len(),
{
    if s.len() > 0 {
        if s[0].unicast == addr {
        } else {
            lemma_spec_select(s.skip(1), addr);
            if spec_select(s.skip(1), addr) is Some {
                let r = spec_select(s.skip(1), addr)->0;
                let i = choose|i: int| 0 <= i < s.skip(1).len() && s.skip(1)[i] == r;
                assert(s[i + 1] == r);
            }
            if exists|i: int| 0 <= i < s.len() && (#[trigger] s[i]).unicast == addr {
                let i = choose|i: int| 0 <= i < s.len() && (#[trigger] s[i]).unicast == addr;
                assert(i >= 1 && s.skip(1)[i - 1] == s[i]);
            }
        }
    }
}

/// The process-wide registry of IP interfaces, keyed by unicast address;
/// used only for the output pipeline's source-address lookup.
pub struct IpIfaceRegistry {
    ifaces: Vec<IpIface>,
}

impl View for IpIfaceRegistry {
    type V = Seq<IpIface>;

    closed spec fn view(&self) -> Seq<IpIface> {
        self.ifaces@
    }
}

impl IpIfaceRegistry {
    /// The registry invariant: unicast addresses are unique.
    pub open spec fn wf(self) -> bool {
        forall|i: int, j: int|
            0 <= i < j < self@.len() ==> (#[trigger] self@[i]).unicast != (
            #[trigger] self@[j]).unicast
    }

    pub fn new() -> (r: Self)
        ensures
            r@ == Seq::<IpIface>::empty(),
            r.wf(),
    {
        IpIfaceRegistry { ifaces: Vec::new() }
    }

    /// Register an interface; fails with the duplicate-address error exactly
    /// when an interface with the same unicast address is already present.
    pub fn register(&mut self, iface: IpIface) -> (r: Result<(), NetError>)
        ensures
            (exists|i: int|
                0 <= i < old(self)@.len() && (#[trigger] old(self)@[i]).unicast == iface.unicast)
                ==> r == Err::<(), NetError>(NetError::DuplicateAddress) && final(self)@ == old(self)@,
            (forall|i: int|
                0 <= i < old(self)@.len() ==> (#[trigger] old(self)@[i]).unicast != iface.unicast)
                ==> r == Ok::<(), NetError>(()) && final(self)@ == old(self)@.push(iface),
            old(self).wf() ==> final(self).wf(),
    {
        let n = self.ifaces.len();
        let mut i: usize = 0;
        while i < n
            invariant
                i <= n,
                n == self@.len(),
                self@ == old(self)@,
                forall|j: int| 0 <= j < i ==> (#[trigger] self@[j]).unicast != iface.unicast,
            decreases n - i,
        {
            if self.ifaces[i].unicast == iface.unicast {
                return Err(NetError::DuplicateAddress);
            }
            i = i + 1;
        }
        self.ifaces.push(iface);
        proof {
            if old(self).wf() {
                assert forall|a: int, b: int| 0 <= a < b < self@.len() implies (
                #[trigger] self@[a]).unicast != (#[trigger] self@[b]).unicast by {
                    if b == self@.len() - 1 {
                        assert(self@[a] == old(self)@[a]);
                        assert(self@[b] == iface);
                    } else {
                        assert(old(self)@[a].unicast != old(self)@[b].unicast);
                    }
                }
            }
        }
        Ok(())
    }

    /// Find the interface whose unicast address is exactly `addr`; see
    /// [`lemma_spec_select`] for what a hit and a miss mean for the
    /// registry's contents.
    pub fn select(&self, addr: IpAddr) -> (r: Option<&IpIface>)
        ensures
            match r {
                Some(iface) => spec_select(self@, addr) == Some(*iface),
                None => spec_select(self@, addr) is None,
            },
    {
        let n = self.ifaces.len();
        let mut i: usize = 0;
        proof {
            assert(self@.skip(0) =~= self@);
        }
        while i < n
            invariant
                i <= n,
                n == self@.len(),
                spec_select(self@, addr) == spec_select(self@.skip(i as int), addr),
            decreases n - i,
        {
            if self.ifaces[i].unicast == addr {
                proof {
                    assert(self@.skip(i as int)[0] == self@[i as int]);
                }
                return Some(&self.ifaces[i]);
            }
            proof {
                assert(self@.skip(i as int).skip(1) =~= self@.skip(i as int + 1));
                assert(self@.skip(i as int)[0] == self@[i as int]);
            }
            i = i + 1;
        }
        proof {
            assert(self@.skip(n as int) =~= Seq::<IpIface>::empty());
        }
        None
    }
}

/// Process-wide, single-instance protocol state, created once at startup.
pub struct ProtocolContexts {
    pub ip_id: IpIdManager,
    pub ip_ifaces: IpIfaceRegistry,
}

impl ProtocolContexts {
    pub fn new() -> (r: Self)
        ensures
            r.ip_id.spec_next_id() == 1,
            r.ip_ifaces@ == Seq::<IpIface>::empty(),
            r.ip_ifaces.wf(),
    {
        ProtocolContexts { ip_id: IpIdManager::new(), ip_ifaces: IpIfaceRegistry::new() }
    }
}

} // verus!
