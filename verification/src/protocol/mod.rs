//! Protocol dispatch: a registry from link-level protocol type to handler,
//! consulted once for every frame a device hands up.

pub mod icmp;
pub mod ip;

use vstd::prelude::*;

use crate::context::ProtocolContexts;
use crate::device::Device;
use crate::error::NetError;
use crate::protocol::ip::{spec_ip_input, IpInputEvent};

verus! {

pub const PROTOCOL_TYPE_IP: u16 = 0x0800;

pub const PROTOCOL_TYPE_ARP: u16 = 0x0806;

pub const PROTOCOL_TYPE_IPV6: u16 = 0x86dd;

/// The link-level protocol types the registry distinguishes.
#[derive(Debug, Clone, Copy, PartialEq, Eq, Structural)]
pub enum ProtocolType {
    Ip,
    Arp,
    Ipv6,
    Unknown(u16),
}

impl ProtocolType {
    /// The protocol type named by a 16-bit link-level tag.
    pub open spec fn spec_from_u16(value: u16) -> ProtocolType {
        if value == PROTOCOL_TYPE_IP {
            ProtocolType::Ip
        } else if value == PROTOCOL_TYPE_ARP {
            ProtocolType::Arp
        } else if value == PROTOCOL_TYPE_IPV6 {
            ProtocolType::Ipv6
        } else {
            ProtocolType::Unknown(value)
        }
    }

    pub fn from_u16(value: u16) -> (r: ProtocolType)
        ensures
            r == Self::spec_from_u16(value),
    {
        match value {
            PROTOCOL_TYPE_IP => ProtocolType::Ip,
            PROTOCOL_TYPE_ARP => ProtocolType::Arp,
            PROTOCOL_TYPE_IPV6 => ProtocolType::Ipv6,
            other => ProtocolType::Unknown(other),
        }
    }

    /// The 16-bit link-level tag of a protocol type.
    pub open spec fn spec_to_u16(self) -> u16 {
        match self {
            ProtocolType::Ip => PROTOCOL_TYPE_IP,
            ProtocolType::Arp => PROTOCOL_TYPE_ARP,
            ProtocolType::Ipv6 => PROTOCOL_TYPE_IPV6,
            ProtocolType::Unknown(v) => v,
        }
    }

    pub fn to_u16(self) -> (r: u16)
        ensures
            r == self.spec_to_u16(),
    {
        match self {
            ProtocolType::Ip => PROTOCOL_TYPE_IP,
            ProtocolType::Arp => PROTOCOL_TYPE_ARP,
            ProtocolType::Ipv6 => PROTOCOL_TYPE_IPV6,
            ProtocolType::Unknown(v) => v,
        }
    }
}

/// The handlers the dispatch table can hold.  Each names a fixed consumer
/// inside the stack; the IP handler is the input pipeline.
#[derive(Debug, Clone, Copy, PartialEq, Eq, Structural)]
pub enum ProtocolHandler {
    Ip,
}

/// One registered protocol: its link-level type and its handler.
#[derive(Debug, Clone, Copy, PartialEq, Eq, Structural)]
pub struct Protocol {
    pub type_: ProtocolType,
    pub handler: ProtocolHandler,
}

/// What dispatching one frame did.
#[derive(Debug, Clone, Copy, PartialEq, Eq)]
pub enum DispatchEvent {
    /// No handler is registered for the frame's protocol type: unknown
    /// protocols are expected, and the frame is silently dropped.
    NoHandler,
    /// The IP input pipeline ran, with its outcome.
    Ip(Result<IpInputEvent, NetError>),
}

/// The first registered entry for a protocol type, if any.
pub open spec fn spec_find_protocol(s: Seq<Protocol>, t: ProtocolType) -> Option<Protocol>
    decreases s.len(),
{
    if s.len() == 0 {
        None
    } else if s[0].type_ == t {
        Some(s[0])
    } else {
        spec_find_protocol(s.skip(1), t)
    }
}

/// What dispatching a frame of type `type_` through the registry does.
pub open spec fn spec_dispatch(
    protocols: Seq<Protocol>,
    type_: u16,
    data: Seq<u8>,
    dev: Device,
) -> DispatchEvent {
    match spec_find_protocol(protocols, ProtocolType::spec_from_u16(type_)) {
        None => DispatchEvent::NoHandler,
        Some(p) => match p.handler {
            ProtocolHandler::Ip => DispatchEvent::Ip(spec_ip_input(data, dev)),
        },
    }
}

/// The dispatch table: at most one handler per protocol type, populated
/// during initialization and read-only while packets flow.
pub struct ProtocolManager {
    protocols: Vec<Protocol>,
}

impl View for ProtocolManager {
    type V = Seq<Protocol>;

    closed spec fn view(&self) -> Seq<Protocol> {
        self.protocols@
    }
}

impl ProtocolManager {
    pub fn new() -> (r: Self)
        ensures
            r@ == Seq::<Protocol>::empty(),
    {
        ProtocolManager { protocols: Vec::new() }
    }

    /// Register a handler; fails exactly when the type already has one.
    /// To be called only during initialization, before any input flows.
    pub fn register(&mut self, type_: ProtocolType, handler: ProtocolHandler) -> (r: Result<
        (),
        NetError,
    >)
        ensures
            (exists|i: int| 0 <= i < old(self)@.len() && (#[trigger] old(self)@[i]).type_ == type_)
                ==> r == Err::<(), NetError>(NetError::AlreadyRegistered) && final(self)@ == old(self)@,
            (forall|i: int| 0 <= i < old(self)@.len() ==> (#[trigger] old(self)@[i]).type_ != type_)
                ==> r == Ok::<(), NetError>(()) && final(self)@ == old(self)@.push(
                Protocol { type_, handler },
            ),
    {
        let n = self.protocols.len();
        let mut i: usize = 0;
        while i < n
            invariant
                i <= n,
                n == self@.len(),
                self@ == old(self)@,
                forall|j: int| 0 <= j < i ==> (#[trigger] self@[j]).type_ != type_,
            decreases n - i,
        {
            if self.protocols[i].type_ == type_ {
                return Err(NetError::AlreadyRegistered);
            }
            i = i + 1;
        }
        self.protocols.push(Protocol { type_, handler });
        Ok(())
    }

    /// Look up the handler for a frame's protocol type and run it on the
    /// frame; a frame of an unregistered type is silently dropped.
    pub fn dispatch(&self, type_: u16, data: &[u8], dev: &Device, ctx: &ProtocolContexts) -> (r:
        DispatchEvent)
        ensures
            r == spec_dispatch(self@, type_, data@, *dev),
    {
        let t = ProtocolType::from_u16(type_);
        let n = self.protocols.len();
        let mut i: usize = 0;
        proof {
            assert(self@.skip(0) =~= self@);
        }
        while i < n
            invariant
                i <= n,
                n == self@.len(),
                spec_find_protocol(self@, ProtocolType::spec_from_u16(type_)) == spec_find_protocol(
                    self@.skip(i as int),
                    ProtocolType::spec_from_u16(type_),
                ),
                t == ProtocolType::spec_from_u16(type_),
            decreases n - i,
        {
            proof {
                assert(self@.skip(i as int)[0] == self@[i as int]);
                assert(self@.skip(i as int).skip(1) =~= self@.skip(i as int + 1));
            }
            if self.protocols[i].type_ == t {
                match self.protocols[i].handler {
                    ProtocolHandler::Ip => {
                        return DispatchEvent::Ip(ip::ip_input(data, dev, ctx));
                    },
                }
            }
            i = i + 1;
        }
        proof {
            assert(self@.skip(n as int) =~= Seq::<Protocol>::empty());
        }
        DispatchEvent::NoHandler
    }

    /// Register the built-in protocol handlers: the IP input pipeline.
    pub fn init(&mut self) -> (r: Result<(), NetError>)
        ensures
            (exists|i: int|
                0 <= i < old(self)@.len() && (#[trigger] old(self)@[i]).type_ == ProtocolType::Ip)
                ==> r == Err::<(), NetError>(NetError::AlreadyRegistered) && final(self)@ == old(self)@,
            (forall|i: int|
                0 <= i < old(self)@.len() ==> (#[trigger] old(self)@[i]).type_ != ProtocolType::Ip)
                ==> r == Ok::<(), NetError>(()) && final(self)@ == old(self)@.push(
                Protocol { type_: ProtocolType::Ip, handler: ProtocolHandler::Ip },
            ),
    {
        ip::init(self)
    }
}

} // verus!
