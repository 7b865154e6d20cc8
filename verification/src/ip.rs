//! The single-file IP layer of the merged stack ([`crate::net`]): address
//! text conversions and the input validation gates, without interface
//! matching or payload dispatch.

use vstd::prelude::*;
use vstd::slice::slice_subrange;

use crate::error::NetError;
use crate::net::{Device, NetStack, ProtocolHandler, NET_PROTOCOL_TYPE_IP};
use crate::protocol::ip::{lemma_u32_octets, lemma_u32_octets_inverse, u32_from_octets};
use crate::text::{format_quad, parse_quad, quad_parse, quad_str};
use crate::util::{checksum, cksum16};

verus! {

pub const IP_VERSION_IPV4: u8 = 4;

pub const IP_HDR_SIZE_MIN: usize = 20;

pub const IP_HDR_SIZE_MAX: usize = 60;

pub const IP_TOTAL_SIZE_MAX: usize = 0xffff;

pub const IP_PAYLOAD_SIZE_MAX: usize = 0xffff - 20;

pub const IP_ADDR_LEN: usize = 4;

pub const IP_ADDR_STR_LEN: usize = 16;

/// An IP address in wire order: the first octet is the most significant
/// byte of the value.
pub type IpAddr = u32;

/// The unspecified address, `0.0.0.0`.
pub const IP_ADDR_ANY: IpAddr = 0x00000000;

/// The global broadcast address, `255.255.255.255`.
pub const IP_ADDR_BROADCAST: IpAddr = 0xffffffff;

/// IP header, fields in host order.  `vhl` packs the version (high nibble)
/// and the header length in 32-bit words (low nibble).
#[derive(Debug, Clone, Copy, PartialEq, Eq, Structural)]
pub struct IpHdr {
    pub vhl: u8,
    pub tos: u8,
    pub total: u16,
    pub id: u16,
    pub offset: u16,
    pub ttl: u8,
    pub protocol: u8,
    pub sum: u16,
    pub src: IpAddr,
    pub dst: IpAddr,
}

impl IpHdr {
    /// The header the first 20 bytes of `data` describe.
    pub open spec fn spec_new(data: Seq<u8>) -> IpHdr
        recommends
            data.len() >= 20,
    {
        IpHdr {
            vhl: data[0],
            tos: data[1],
            total: ((data[2] as nat) * 256 + (data[3] as nat)) as u16,
            id: ((data[4] as nat) * 256 + (data[5] as nat)) as u16,
            offset: ((data[6] as nat) * 256 + (data[7] as nat)) as u16,
            ttl: data[8],
            protocol: data[9],
            sum: ((data[10] as nat) * 256 + (data[11] as nat)) as u16,
            src: u32_from_octets(data[12], data[13], data[14], data[15]),
            dst: u32_from_octets(data[16], data[17], data[18], data[19]),
        }
    }

    /// Decode a header from a byte slice; fails exactly on a slice shorter
    /// than the 20-byte minimum header.
    pub fn new(data: &[u8]) -> (r: Option<IpHdr>)
        ensures
            (r is Some) <==> data@.len() >= 20,
            r is Some ==> r->0 == Self::spec_new(data@),
    {
        if data.len() < IP_HDR_SIZE_MIN {
            return None;
        }
        let src = crate::protocol::ip::IpAddr::from_ne_bytes(
            [data[12], data[13], data[14], data[15]],
        );
        let dst = crate::protocol::ip::IpAddr::from_ne_bytes(
            [data[16], data[17], data[18], data[19]],
        );
        Some(
            IpHdr {
                vhl: data[0],
                tos: data[1],
                total: (data[2] as u16) * 256 + (data[3] as u16),
                id: (data[4] as u16) * 256 + (data[5] as u16),
                offset: (data[6] as u16) * 256 + (data[7] as u16),
                ttl: data[8],
                protocol: data[9],
                sum: (data[10] as u16) * 256 + (data[11] as u16),
                src: src.0,
                dst: dst.0,
            },
        )
    }

    /// The IP version in the high nibble of `vhl`.
    pub open spec fn spec_version(self) -> u8 {
        (self.vhl / 16) as u8
    }

    pub fn version(&self) -> (r: u8)
        ensures
            r == self.spec_version(),
    {
        let vhl = self.vhl;
        proof {
            assert((vhl >> 4) & 0x0f == vhl / 16) by (bit_vector);
        }
        (vhl >> 4) & 0x0f
    }

    /// The header length in bytes: the low nibble of `vhl` counts 32-bit
    /// words.
    pub open spec fn spec_hdr_len(self) -> usize {
        ((self.vhl % 16) * 4) as usize
    }

    pub fn hdr_len(&self) -> (r: usize)
        ensures
            r == self.spec_hdr_len(),
    {
        let vhl = self.vhl;
        proof {
            assert(vhl & 0x0f == vhl % 16) by (bit_vector);
        }
        ((vhl & 0x0f) as usize) * 4
    }
}

/// The address a dotted-quad string denotes, in wire order, if the string
/// is well formed.
pub open spec fn spec_ip_addr_pton(s: Seq<char>) -> Option<IpAddr> {
    match quad_parse(s) {
        Some((a, b, c, d)) => Some(u32_from_octets(a, b, c, d)),
        None => None,
    }
}

/// Convert an address from presentation format to its wire-order value;
/// fails with the address-format error exactly when the string is not a
/// well-formed dotted quad.
pub fn ip_addr_pton(s: &str) -> (r: Result<IpAddr, NetError>)
    ensures
        (r is Ok) <==> (quad_parse(s@) is Some),
        r is Ok ==> Some(r->Ok_0) == spec_ip_addr_pton(s@),
        r is Err ==> r == Err::<IpAddr, NetError>(NetError::AddressFormat),
{
    match parse_quad(s) {
        Some((a, b, c, d)) => {
            proof {
                lemma_u32_octets(a, b, c, d);
            }
            Ok(
                (a as u32) * 0x1000000 + (b as u32) * 0x10000 + (c as u32) * 0x100 + (d as u32),
            )
        },
        None => Err(NetError::AddressFormat),
    }
}

/// The canonical dotted-quad text of a wire-order address value.
pub open spec fn spec_ip_addr_ntop(addr: IpAddr) -> Seq<char> {
    quad_str(
        (addr / 0x1000000) as u8,
        ((addr / 0x10000) % 0x100) as u8,
        ((addr / 0x100) % 0x100) as u8,
        (addr % 0x100) as u8,
    )
}

/// Convert an address from its wire-order value to presentation format.
pub fn ip_addr_ntop(addr: IpAddr) -> (r: String)
    ensures
        r@ == spec_ip_addr_ntop(addr),
{
    format_quad(
        (addr / 0x1000000) as u8,
        ((addr / 0x10000) % 0x100) as u8,
        ((addr / 0x100) % 0x100) as u8,
        (addr % 0x100) as u8,
    )
}

/// Converting any address value to text and back gives the value again:
/// the two conversions are exact inverses.
pub proof fn lemma_ip_addr_roundtrip(addr: IpAddr)
    ensures
        spec_ip_addr_pton(spec_ip_addr_ntop(addr)) == Some(addr),
{
    let b0 = (addr / 0x1000000) as u8;
    let b1 = ((addr / 0x10000) % 0x100) as u8;
    let b2 = ((addr / 0x100) % 0x100) as u8;
    let b3 = (addr % 0x100) as u8;
    crate::text::lemma_quad_roundtrip(b0, b1, b2, b3);
    lemma_u32_octets_inverse(addr);
}

/// The validation gates of this layer's input path: length, version,
/// header length, header checksum, total length, fragmentation.  This
/// reduced layer matches no interfaces and dispatches no payload.
pub open spec fn spec_ip_input(data: Seq<u8>) -> Result<(), NetError> {
    if data.len() < 20 {
        Err(NetError::TooShort)
    } else {
        let hdr = IpHdr::spec_new(data);
        let hlen = hdr.spec_hdr_len() as int;
        if hdr.spec_version() != IP_VERSION_IPV4 {
            Err(NetError::UnsupportedVersion)
        } else if data.len() < hlen {
            Err(NetError::TooShort)
        } else if checksum(data.take(hlen), 0) != 0 {
            Err(NetError::ChecksumError)
        } else if data.len() < hdr.total {
            Err(NetError::TooShort)
        } else if hdr.offset % 0x4000 != 0 {
            Err(NetError::FragmentationUnsupported)
        } else {
            Ok(())
        }
    }
}

/// Validate one received packet against the gates, in order.
pub fn ip_input(data: &[u8], dev: &Device) -> (r: Result<(), NetError>)
    ensures
        r == spec_ip_input(data@),
{
    let hdr = match IpHdr::new(data) {
        Some(h) => h,
        None => {
            return Err(NetError::TooShort);
        },
    };
    if hdr.version() != IP_VERSION_IPV4 {
        return Err(NetError::UnsupportedVersion);
    }
    let hlen = hdr.hdr_len();
    if data.len() < hlen {
        return Err(NetError::TooShort);
    }
    let header = slice_subrange(data, 0, hlen);
    proof {
        assert(header@ =~= data@.take(hlen as int));
    }
    if cksum16(header, 0) != 0 {
        return Err(NetError::ChecksumError);
    }
    if data.len() < hdr.total as usize {
        return Err(NetError::TooShort);
    }
    let offset = hdr.offset;
    proof {
        assert(offset & 0x3fff == offset % 0x4000) by (bit_vector);
    }
    if offset & 0x3fff != 0 {
        return Err(NetError::FragmentationUnsupported);
    }
    Ok(())
}

/// The handler the dispatch table runs for IP frames; a rejected packet is
/// dropped here and not surfaced.
pub(crate) fn ip_input_handler(data: &[u8], dev: &Device) {
    let _ = ip_input(data, dev);
}

/// Register the IP input gates in the stack's dispatch table; fails exactly
/// when an IP handler is already registered.
pub fn init(net_stack: &mut NetStack) -> (r: Result<(), NetError>)
    ensures
        (exists|i: int|
            0 <= i < old(net_stack).spec_protocols().len() && (#[trigger] old(net_stack).spec_protocols()[i]).type_ == NET_PROTOCOL_TYPE_IP) ==> r == Err::<(), NetError>(
            NetError::AlreadyRegistered,
        ) && final(net_stack).spec_protocols() == old(net_stack).spec_protocols() && final(net_stack).spec_devices() == old(net_stack).spec_devices(),
        (forall|i: int|
            0 <= i < old(net_stack).spec_protocols().len() ==> (#[trigger] old(net_stack).spec_protocols()[i]).type_ != NET_PROTOCOL_TYPE_IP) ==> r == Ok::<(), NetError>(())
            && final(net_stack).spec_protocols() == old(net_stack).spec_protocols().push(
            crate::net::Protocol { type_: NET_PROTOCOL_TYPE_IP, handler: ProtocolHandler::Ip },
        ) && final(net_stack).spec_devices() == old(net_stack).spec_devices(),
{
    net_stack.register_protocol(NET_PROTOCOL_TYPE_IP, ProtocolHandler::Ip)
}

} // verus!
