//! The IP layer: addresses, the wire header, and the input and output
//! pipelines that validate, route, and emit datagrams.

use vstd::prelude::*;
use vstd::slice::slice_subrange;

use crate::context::{spec_select, ProtocolContexts};
use crate::device::{Device, DeviceManager, NET_DEVICE_FLAG_NEED_ARP};
use crate::error::NetError;
use crate::iface::{IpIface, NetIface, NetIfaceFamily};
use crate::protocol::icmp;
use crate::protocol::icmp::{icmp_accepts, IcmpHdr};
use crate::protocol::ProtocolManager;
use crate::text::{format_quad, parse_quad, quad_parse, quad_str};
use crate::util::{checksum, cksum16, lemma_stamped_checksum_is_zero};

verus! {

pub const IP_VERSION_IPV4: u8 = 4;

pub const IP_HDR_SIZE_MIN: usize = 20;

pub const IP_HDR_SIZE_MAX: usize = 60;

pub const IP_TOTAL_SIZE_MAX: usize = 0xffff;

pub const IP_PAYLOAD_SIZE_MAX: usize = 0xffff - 20;

pub const IP_ADDR_LEN: usize = 4;

pub const IP_ADDR_STR_LEN: usize = 16;

pub const IP_TTL_DEFAULT: u8 = 0xff;

/// The IP protocol numbers the stack distinguishes in a header's protocol
/// field.
#[derive(Debug, Clone, Copy, PartialEq, Eq, Structural)]
pub enum IpProtocol {
    Icmp,
    Tcp,
    Udp,
    Other(u8),
}

impl IpProtocol {
    /// The protocol named by a wire value.
    pub open spec fn spec_from_u8(value: u8) -> IpProtocol {
        if value == 1 {
            IpProtocol::Icmp
        } else if value == 6 {
            IpProtocol::Tcp
        } else if value == 17 {
            IpProtocol::Udp
        } else {
            IpProtocol::Other(value)
        }
    }

    pub fn from_u8(value: u8) -> (r: IpProtocol)
        ensures
            r == Self::spec_from_u8(value),
    {
        match value {
            1 => IpProtocol::Icmp,
            6 => IpProtocol::Tcp,
            17 => IpProtocol::Udp,
            other => IpProtocol::Other(other),
        }
    }

    /// The wire value of a protocol.
    pub open spec fn spec_to_u8(self) -> u8 {
        match self {
            IpProtocol::Icmp => 1,
            IpProtocol::Tcp => 6,
            IpProtocol::Udp => 17,
            IpProtocol::Other(v) => v,
        }
    }

    pub fn to_u8(self) -> (r: u8)
        ensures
            r == self.spec_to_u8(),
    {
        match self {
            IpProtocol::Icmp => 1,
            IpProtocol::Tcp => 6,
            IpProtocol::Udp => 17,
            IpProtocol::Other(v) => v,
        }
    }
}

/// The 32-bit value four octets form, first octet most significant (the
/// wire order of an IP address).
pub open spec fn u32_from_octets(b0: u8, b1: u8, b2: u8, b3: u8) -> u32 {
    ((b0 as nat) * 0x1000000 + (b1 as nat) * 0x10000 + (b2 as nat) * 0x100 + (b3 as nat)) as u32
}

/// An IP address: an opaque 32-bit value holding the four wire octets,
/// first octet most significant.  Addresses are compared structurally;
/// the only arithmetic on them is explicit bitwise masking.
#[derive(Debug, Clone, Copy, PartialEq, Eq, Structural, Default)]
pub struct IpAddr(pub u32);

impl IpAddr {
    /// The octets of the address, in wire order.
    pub open spec fn oct0(self) -> u8 {
        (self.0 / 0x1000000) as u8
    }

    pub open spec fn oct1(self) -> u8 {
        ((self.0 / 0x10000) % 0x100) as u8
    }

    pub open spec fn oct2(self) -> u8 {
        ((self.0 / 0x100) % 0x100) as u8
    }

    pub open spec fn oct3(self) -> u8 {
        (self.0 % 0x100) as u8
    }

    /// The canonical dotted-quad text of the address.
    pub open spec fn spec_str(self) -> Seq<char> {
        quad_str(self.oct0(), self.oct1(), self.oct2(), self.oct3())
    }

    /// Build an address from its four wire octets.
    pub fn from_ne_bytes(bytes: [u8; 4]) -> (r: Self)
        ensures
            r.0 == u32_from_octets(bytes[0], bytes[1], bytes[2], bytes[3]),
            r.oct0() == bytes[0],
            r.oct1() == bytes[1],
            r.oct2() == bytes[2],
            r.oct3() == bytes[3],
    {
        let r = IpAddr(
            (bytes[0] as u32) * 0x1000000 + (bytes[1] as u32) * 0x10000 + (bytes[2] as u32) * 0x100
                + (bytes[3] as u32),
        );
        proof {
            lemma_u32_octets(bytes[0], bytes[1], bytes[2], bytes[3]);
        }
        r
    }

    /// The four wire octets of the address.
    pub fn to_ne_bytes(self) -> (r: [u8; 4])
        ensures
            r@ == seq![self.oct0(), self.oct1(), self.oct2(), self.oct3()],
            self.0 == u32_from_octets(r[0], r[1], r[2], r[3]),
    {
        let b0 = (self.0 / 0x1000000) as u8;
        let b1 = ((self.0 / 0x10000) % 0x100) as u8;
        let b2 = ((self.0 / 0x100) % 0x100) as u8;
        let b3 = (self.0 % 0x100) as u8;
        proof {
            lemma_u32_octets_inverse(self.0);
            assert([b0, b1, b2, b3]@ =~= seq![self.oct0(), self.oct1(), self.oct2(), self.oct3()]);
        }
        [b0, b1, b2, b3]
    }

    /// Parse a dotted-quad string; fails with the address-format error
    /// exactly when the string is not a well-formed dotted quad.
    pub fn from_str(s: &str) -> (r: Result<Self, NetError>)
        ensures
            (r is Ok) <==> (quad_parse(s@) is Some),
            r is Ok ==> Some(r->Ok_0) == Self::spec_parse(s@),
            r is Err ==> r == Err::<Self, NetError>(NetError::AddressFormat),
    {
        match parse_quad(s) {
            Some((a, b, c, d)) => Ok(Self::from_ne_bytes([a, b, c, d])),
            None => Err(NetError::AddressFormat),
        }
    }

    /// The address a dotted-quad string denotes, if it is well formed.
    pub open spec fn spec_parse(s: Seq<char>) -> Option<IpAddr> {
        match quad_parse(s) {
            Some((a, b, c, d)) => Some(IpAddr(u32_from_octets(a, b, c, d))),
            None => None,
        }
    }

    /// The canonical dotted-quad text of the address.
    pub fn to_string(self) -> (r: String)
        ensures
            r@ == self.spec_str(),
    {
        proof {
            lemma_u32_octets_inverse(self.0);
        }
        format_quad(
            (self.0 / 0x1000000) as u8,
            ((self.0 / 0x10000) % 0x100) as u8,
            ((self.0 / 0x100) % 0x100) as u8,
            (self.0 % 0x100) as u8,
        )
    }

    /// Bitwise AND, for subnet masking.
    pub fn mask_and(self, rhs: Self) -> (r: Self)
        ensures
            r.0 == self.0 & rhs.0,
    {
        IpAddr(self.0 & rhs.0)
    }

    /// Bitwise OR, for deriving a subnet broadcast address.
    pub fn mask_or(self, rhs: Self) -> (r: Self)
        ensures
            r.0 == self.0 | rhs.0,
    {
        IpAddr(self.0 | rhs.0)
    }

    /// Bitwise complement, for turning a netmask into a host mask.
    pub fn mask_not(self) -> (r: Self)
        ensures
            r.0 == !self.0,
    {
        IpAddr(!self.0)
    }

    /// The unspecified address, `0.0.0.0`.
    pub fn any() -> (r: Self)
        ensures
            r == Self::spec_any(),
    {
        IpAddr(0)
    }

    pub open spec fn spec_any() -> Self {
        IpAddr(0)
    }

    /// The global broadcast address, `255.255.255.255`.
    pub fn broadcast_all() -> (r: Self)
        ensures
            r == Self::spec_broadcast_all(),
    {
        IpAddr(0xffffffff)
    }

    pub open spec fn spec_broadcast_all() -> Self {
        IpAddr(0xffffffff)
    }
}

/// The 16-bit big-endian field at byte offset `i`.
pub open spec fn be16(data: Seq<u8>, i: int) -> u16
    recommends
        0 <= i,
        i + 2 <= data.len(),
{
    ((data[i] as nat) * 256 + (data[i + 1] as nat)) as u16
}

/// High byte of a 16-bit value.
pub open spec fn hi8(x: u16) -> u8 {
    (x / 256) as u8
}

/// Low byte of a 16-bit value.
pub open spec fn lo8(x: u16) -> u8 {
    (x % 256) as u8
}

/// IP header, fields in host order.  `vhl` packs the version (high nibble)
/// and the header length in 32-bit words (low nibble); on the wire all
/// multi-byte fields are big-endian.
#[derive(Debug, Clone, Copy, PartialEq, Eq, Structural)]
pub struct IpHdr {
    pub vhl: u8,
    pub tos: u8,
    pub total: u16,
    pub id: u16,
    pub offset: u16,
    pub ttl: u8,
    pub protocol: u8,
    pub sum: u16,
    pub src: IpAddr,
    pub dst: IpAddr,
}

impl IpHdr {
    /// The 20 wire bytes of the header.
    pub open spec fn spec_bytes(self) -> Seq<u8> {
        seq![
            self.vhl,
            self.tos,
            hi8(self.total),
            lo8(self.total),
            hi8(self.id),
            lo8(self.id),
            hi8(self.offset),
            lo8(self.offset),
            self.ttl,
            self.protocol,
            hi8(self.sum),
            lo8(self.sum),
            self.src.oct0(),
            self.src.oct1(),
            self.src.oct2(),
            self.src.oct3(),
            self.dst.oct0(),
            self.dst.oct1(),
            self.dst.oct2(),
            self.dst.oct3(),
        ]
    }

    /// The header the first 20 bytes of `data` describe.
    pub open spec fn spec_from_bytes(data: Seq<u8>) -> IpHdr
        recommends
            data.len() >= 20,
    {
        IpHdr {
            vhl: data[0],
            tos: data[1],
            total: be16(data, 2),
            id: be16(data, 4),
            offset: be16(data, 6),
            ttl: data[8],
            protocol: data[9],
            sum: be16(data, 10),
            src: IpAddr(u32_from_octets(data[12], data[13], data[14], data[15])),
            dst: IpAddr(u32_from_octets(data[16], data[17], data[18], data[19])),
        }
    }

    /// A minimum-size header for the output pipeline: version 4, 20-byte
    /// header, zero type-of-service, the default TTL, zero checksum.
    pub fn new(protocol: IpProtocol, total: u16, id: u16, offset: u16, src: IpAddr, dst: IpAddr)
        -> (r: Self)
        ensures
            r == (IpHdr {
                vhl: 0x45,
                tos: 0,
                total,
                id,
                offset,
                ttl: IP_TTL_DEFAULT,
                protocol: protocol.spec_to_u8(),
                sum: 0,
                src,
                dst,
            }),
    {
        let vhl: u8 = IP_VERSION_IPV4 * 16 + (IP_HDR_SIZE_MIN / 4) as u8;
        IpHdr {
            vhl,
            tos: 0,
            total,
            id,
            offset,
            ttl: IP_TTL_DEFAULT,
            protocol: protocol.to_u8(),
            sum: 0,
            src,
            dst,
        }
    }

    /// Encode the header into its 20 wire bytes.
    pub fn to_bytes(&self) -> (r: Vec<u8>)
        ensures
            r@ == self.spec_bytes(),
    {
        let mut out: Vec<u8> = Vec::new();
        out.push(self.vhl);
        out.push(self.tos);
        out.push((self.total / 256) as u8);
        out.push((self.total % 256) as u8);
        out.push((self.id / 256) as u8);
        out.push((self.id % 256) as u8);
        out.push((self.offset / 256) as u8);
        out.push((self.offset % 256) as u8);
        out.push(self.ttl);
        out.push(self.protocol);
        out.push((self.sum / 256) as u8);
        out.push((self.sum % 256) as u8);
        let src = self.src.to_ne_bytes();
        out.push(src[0]);
        out.push(src[1]);
        out.push(src[2]);
        out.push(src[3]);
        let dst = self.dst.to_ne_bytes();
        out.push(dst[0]);
        out.push(dst[1]);
        out.push(dst[2]);
        out.push(dst[3]);
        proof {
            assert(out@ =~= self.spec_bytes());
        }
        out
    }

    /// Decode a header from a byte slice; fails exactly on a slice shorter
    /// than the 20-byte minimum header.
    pub fn from_bytes(data: &[u8]) -> (r: Option<IpHdr>)
        ensures
            (r is Some) <==> data@.len() >= 20,
            r is Some ==> r->0 == Self::spec_from_bytes(data@),
    {
        if data.len() < IP_HDR_SIZE_MIN {
            return None;
        }
        Some(
            IpHdr {
                vhl: data[0],
                tos: data[1],
                total: (data[2] as u16) * 256 + (data[3] as u16),
                id: (data[4] as u16) * 256 + (data[5] as u16),
                offset: (data[6] as u16) * 256 + (data[7] as u16),
                ttl: data[8],
                protocol: data[9],
                sum: (data[10] as u16) * 256 + (data[11] as u16),
                src: IpAddr::from_ne_bytes([data[12], data[13], data[14], data[15]]),
                dst: IpAddr::from_ne_bytes([data[16], data[17], data[18], data[19]]),
            },
        )
    }

    /// The same header with its checksum field set so that the encoded
    /// header's Internet checksum folds to zero.
    pub fn with_checksum(self) -> (r: Self)
        ensures
            r == (IpHdr { sum: checksum((IpHdr { sum: 0, ..self }).spec_bytes(), 0), ..self }),
            checksum(r.spec_bytes(), 0) == 0,
    {
        let mut hdr = self;
        hdr.sum = 0;
        let ghost zeroed = hdr;
        let bytes = hdr.to_bytes();
        let c = cksum16(bytes.as_slice(), 0);
        hdr.sum = c;
        proof {
            vstd::arithmetic::div_mod::lemma_fundamental_div_mod(c as int, 256);
            assert(hdr.spec_bytes() =~= zeroed.spec_bytes().update(10, hi8(c)).update(11, lo8(c)));
            assert(hdr.spec_bytes().update(10, 0).update(11, 0) =~= zeroed.spec_bytes());
            assert((hdr.spec_bytes()[10] as nat) * 256 + (hdr.spec_bytes()[11] as nat) == c as nat);
            lemma_stamped_checksum_is_zero(hdr.spec_bytes(), 10);
        }
        hdr
    }

    /// The IP version in the high nibble of `vhl`.
    pub open spec fn spec_version(self) -> u8 {
        (self.vhl / 16) as u8
    }

    pub fn version(&self) -> (r: u8)
        ensures
            r == self.spec_version(),
    {
        let vhl = self.vhl;
        proof {
            assert((vhl >> 4) & 0x0f == vhl / 16) by (bit_vector);
        }
        (vhl >> 4) & 0x0f
    }

    /// The header length in bytes: the low nibble of `vhl` counts 32-bit
    /// words.
    pub open spec fn spec_hdr_len(self) -> usize {
        ((self.vhl % 16) * 4) as usize
    }

    pub fn hdr_len(&self) -> (r: usize)
        ensures
            r == self.spec_hdr_len(),
    {
        let vhl = self.vhl;
        proof {
            assert(vhl & 0x0f == vhl % 16) by (bit_vector);
        }
        ((vhl & 0x0f) as usize) * 4
    }

    /// The payload's protocol, from the header's protocol number.
    pub fn protocol(&self) -> (r: IpProtocol)
        ensures
            r == IpProtocol::spec_from_u8(self.protocol),
    {
        IpProtocol::from_u8(self.protocol)
    }
}

/// Extracting the octets of a packed address gives back what was packed.
pub proof fn lemma_u32_octets(b0: u8, b1: u8, b2: u8, b3: u8)
    ensures
        u32_from_octets(b0, b1, b2, b3) / 0x1000000 == b0,
        (u32_from_octets(b0, b1, b2, b3) / 0x10000) % 0x100 == b1,
        (u32_from_octets(b0, b1, b2, b3) / 0x100) % 0x100 == b2,
        u32_from_octets(b0, b1, b2, b3) % 0x100 == b3,
{
    let x = ((b0 as nat) * 0x1000000 + (b1 as nat) * 0x10000 + (b2 as nat) * 0x100 + (
    b3 as nat)) as u32;
    assert(x == (b0 as u32) * 0x1000000 + (b1 as u32) * 0x10000 + (b2 as u32) * 0x100 + (
    b3 as u32));
    assert({
        &&& x / 0x1000000 == b0
        &&& (x / 0x10000) % 0x100 == b1
        &&& (x / 0x100) % 0x100 == b2
        &&& x % 0x100 == b3
    }) by (bit_vector)
        requires
            x == (b0 as u32) * 0x1000000 + (b1 as u32) * 0x10000 + (b2 as u32) * 0x100 + (
            b3 as u32),
    ;
}

/// Packing the octets of an address gives back the address.
pub proof fn lemma_u32_octets_inverse(x: u32)
    ensures
        u32_from_octets(
            (x / 0x1000000) as u8,
            ((x / 0x10000) % 0x100) as u8,
            ((x / 0x100) % 0x100) as u8,
            (x % 0x100) as u8,
        ) == x,
{
    let b0 = (x / 0x1000000) as u8;
    let b1 = ((x / 0x10000) % 0x100) as u8;
    let b2 = ((x / 0x100) % 0x100) as u8;
    let b3 = (x % 0x100) as u8;
    assert((b0 as u32) * 0x1000000 + (b1 as u32) * 0x10000 + (b2 as u32) * 0x100 + (b3 as u32)
        == x) by (bit_vector)
        requires
            b0 == (x / 0x1000000) as u8 && b1 == ((x / 0x10000) % 0x100) as u8 && b2 == ((x
                / 0x100) % 0x100) as u8 && b3 == (x % 0x100) as u8,
    ;
}

/// What the input pipeline did with an accepted packet's payload.
#[derive(Debug, Clone, Copy, PartialEq, Eq)]
pub enum IpDelivery {
    /// Handed to the ICMP layer: the decoded header, or nothing when that
    /// layer rejected the payload (shorter than its header, or checksum).
    Icmp(Option<IcmpHdr>),
    /// TCP is out of scope; the payload is noted and dropped.
    Tcp,
    /// UDP is out of scope; the payload is noted and dropped.
    Udp,
    /// An unknown protocol number; the payload is noted and dropped.
    Other(u8),
}

/// The outcome of the input pipeline on a packet that passed its gates.
#[derive(Debug, Clone, Copy, PartialEq, Eq)]
pub enum IpInputEvent {
    /// The destination matches no interface of the receiving device: the
    /// packet is normal traffic for another host and is silently dropped.
    NotForUs,
    /// The packet passed every gate and its payload went to the protocol
    /// the header names.
    Delivered { src: IpAddr, dst: IpAddr, delivery: IpDelivery },
}

/// Whether the destination is addressed to any interface attached to the
/// device.
pub open spec fn spec_dev_matches(dev: Device, dst: IpAddr) -> bool {
    exists|i: int|
        0 <= i < dev.ifaces@.len() && match #[trigger] dev.ifaces@[i] {
            NetIface::Ip(iface) => iface.spec_destination_match(dst),
        }
}

/// What the input pipeline hands the payload's protocol.
pub open spec fn spec_delivery(protocol: u8, payload: Seq<u8>) -> IpDelivery {
    match IpProtocol::spec_from_u8(protocol) {
        IpProtocol::Icmp => IpDelivery::Icmp(
            if icmp_accepts(payload) {
                Some(IcmpHdr::spec_from_bytes(payload))
            } else {
                None
            },
        ),
        IpProtocol::Tcp => IpDelivery::Tcp,
        IpProtocol::Udp => IpDelivery::Udp,
        IpProtocol::Other(v) => IpDelivery::Other(v),
    }
}

/// The input pipeline, gate by gate: length, version, header length,
/// header checksum, total length, fragmentation, interface match, then
/// delivery of the payload.  A declared total length smaller than the
/// header length is rejected as too short.
pub open spec fn spec_ip_input(data: Seq<u8>, dev: Device) -> Result<IpInputEvent, NetError> {
    if data.len() < 20 {
        Err(NetError::TooShort)
    } else {
        let hdr = IpHdr::spec_from_bytes(data);
        let hlen = hdr.spec_hdr_len() as int;
        if hdr.spec_version() != IP_VERSION_IPV4 {
            Err(NetError::UnsupportedVersion)
        } else if data.len() < hlen {
            Err(NetError::TooShort)
        } else if checksum(data.take(hlen), 0) != 0 {
            Err(NetError::ChecksumError)
        } else if data.len() < hdr.total {
            Err(NetError::TooShort)
        } else if hdr.offset % 0x4000 != 0 {
            Err(NetError::FragmentationUnsupported)
        } else if !spec_dev_matches(dev, hdr.dst) {
            Ok(IpInputEvent::NotForUs)
        } else if (hdr.total as int) < hlen {
            Err(NetError::TooShort)
        } else {
            Ok(
                IpInputEvent::Delivered {
                    src: hdr.src,
                    dst: hdr.dst,
                    delivery: spec_delivery(hdr.protocol, data.subrange(hlen, hdr.total as int)),
                },
            )
        }
    }
}

/// The input pipeline on raw bytes from a device: validate, match an
/// interface, strip the header, and hand the payload to the protocol the
/// header names.  Every rejection and the silent not-for-us drop are
/// reported to the caller as values.
pub fn ip_input(data: &[u8], dev: &Device, _ctx: &ProtocolContexts) -> (r: Result<
    IpInputEvent,
    NetError,
>)
    ensures
        r == spec_ip_input(data@, *dev),
{
    let hdr = match IpHdr::from_bytes(data) {
        Some(h) => h,
        None => {
            return Err(NetError::TooShort);
        },
    };
    if hdr.version() != IP_VERSION_IPV4 {
        return Err(NetError::UnsupportedVersion);
    }
    let hlen = hdr.hdr_len();
    if data.len() < hlen {
        return Err(NetError::TooShort);
    }
    let header = slice_subrange(data, 0, hlen);
    proof {
        assert(header@ =~= data@.take(hlen as int));
    }
    if cksum16(header, 0) != 0 {
        return Err(NetError::ChecksumError);
    }
    let total = hdr.total as usize;
    if data.len() < total {
        return Err(NetError::TooShort);
    }
    let offset = hdr.offset;
    proof {
        assert(offset & 0x3fff == offset % 0x4000) by (bit_vector);
    }
    if offset & 0x3fff != 0 {
        return Err(NetError::FragmentationUnsupported);
    }

    let n = dev.ifaces.len();
    let mut matched = false;
    let mut i: usize = 0;
    while i < n
        invariant
            i <= n,
            n == dev.ifaces@.len(),
            matched <==> exists|j: int|
                0 <= j < i && match #[trigger] dev.ifaces@[j] {
                    NetIface::Ip(iface) => iface.spec_destination_match(hdr.dst),
                },
        decreases n - i,
    {
        match &dev.ifaces[i] {
            NetIface::Ip(iface) => {
                if iface.is_destination_match(hdr.dst) {
                    matched = true;
                }
            },
        }
        i = i + 1;
    }
    if !matched {
        proof {
            assert(!spec_dev_matches(*dev, hdr.dst));
        }
        return Ok(IpInputEvent::NotForUs);
    }
    if total < hlen {
        return Err(NetError::TooShort);
    }

    let payload = slice_subrange(data, hlen, total);
    let delivery = match hdr.protocol() {
        IpProtocol::Icmp => IpDelivery::Icmp(icmp::input(payload, hdr.src, hdr.dst, dev, _ctx)),
        IpProtocol::Tcp => IpDelivery::Tcp,
        IpProtocol::Udp => IpDelivery::Udp,
        IpProtocol::Other(p) => IpDelivery::Other(p),
    };
    Ok(IpInputEvent::Delivered { src: hdr.src, dst: hdr.dst, delivery })
}

/// Create an IP interface from dotted-quad strings, attach it to the
/// device, and record it in the process-wide registry for output-side
/// source lookups.  Both invariants are checked before anything is
/// attached - at most one interface per family on the device, and unique
/// unicast addresses in the registry - so a rejected call leaves the
/// device and the registry exactly as they were.
pub fn register_iface(
    dev: &mut Device,
    unicast: &str,
    netmask: &str,
    ctx: &mut ProtocolContexts,
) -> (r: Result<(), NetError>)
    ensures
        final(ctx).ip_id.spec_next_id() == old(ctx).ip_id.spec_next_id(),
        (IpAddr::spec_parse(unicast@) is None || IpAddr::spec_parse(netmask@) is None) ==> r
            == Err::<(), NetError>(NetError::AddressFormat) && *final(dev) == *old(dev)
            && final(ctx).ip_ifaces@ == old(ctx).ip_ifaces@,
        (IpAddr::spec_parse(unicast@) is Some && IpAddr::spec_parse(netmask@) is Some) ==> ({
            let iface = IpIface::spec_new(
                IpAddr::spec_parse(unicast@)->0,
                IpAddr::spec_parse(netmask@)->0,
                old(dev).index,
            );
            let family_taken = crate::device::spec_has_family(
                old(dev).ifaces@,
                NetIfaceFamily::Ip,
            );
            let address_taken = spec_select(old(ctx).ip_ifaces@, iface.unicast) is Some;
            &&& (family_taken ==> r == Err::<(), NetError>(NetError::FamilyAlreadyRegistered)
                && *final(dev) == *old(dev) && final(ctx).ip_ifaces@ == old(ctx).ip_ifaces@)
            &&& (!family_taken && address_taken ==> r == Err::<(), NetError>(
                NetError::DuplicateAddress,
            ) && *final(dev) == *old(dev) && final(ctx).ip_ifaces@ == old(ctx).ip_ifaces@)
            &&& (!family_taken && !address_taken ==> r == Ok::<(), NetError>(())
                && final(dev).ifaces@ == old(dev).ifaces@.push(NetIface::Ip(iface))
                && crate::device::spec_same_core(*final(dev), *old(dev))
                && final(ctx).ip_ifaces@ == old(ctx).ip_ifaces@.push(iface))
        }),
        old(ctx).ip_ifaces.wf() ==> final(ctx).ip_ifaces.wf(),
{
    let iface = match IpIface::new(unicast, netmask, dev.index) {
        Ok(i) => i,
        Err(e) => {
            return Err(e);
        },
    };

    if dev.has_iface_family(NetIfaceFamily::Ip) {
        return Err(NetError::FamilyAlreadyRegistered);
    }

    if ctx.ip_ifaces.select(iface.unicast).is_some() {
        return Err(NetError::DuplicateAddress);
    }
    proof {
        crate::context::lemma_spec_select(old(ctx).ip_ifaces@, iface.unicast);
    }

    match dev.register_iface(NetIface::Ip(iface)) {
        Ok(()) => {},
        Err(e) => {
            return Err(e);
        },
    }
    match ctx.ip_ifaces.register(iface) {
        Ok(()) => Ok(()),
        Err(e) => Err(e),
    }
}

/// Whether a destination is reachable from an interface: on the same
/// subnet, or the global broadcast address.  This stack has no routing
/// table; anything else is unreachable.
pub open spec fn spec_reachable(iface: IpIface, dst: IpAddr) -> bool {
    (dst.0 & iface.netmask.0) == (iface.unicast.0 & iface.netmask.0) || dst
        == IpAddr::spec_broadcast_all()
}

/// The bytes of a packet the output pipeline builds: a minimum-size header
/// with its checksum stamped, then the payload.
pub open spec fn spec_built_packet(
    protocol: IpProtocol,
    data: Seq<u8>,
    id: u16,
    offset: u16,
    src: IpAddr,
    dst: IpAddr,
) -> Seq<u8> {
    let hdr0 = IpHdr {
        vhl: 0x45,
        tos: 0,
        total: (20 + data.len()) as u16,
        id,
        offset,
        ttl: IP_TTL_DEFAULT,
        protocol: protocol.spec_to_u8(),
        sum: 0,
        src,
        dst,
    };
    let hdr = IpHdr { sum: checksum(hdr0.spec_bytes(), 0), ..hdr0 };
    hdr.spec_bytes() + data
}

/// Assemble a header and payload into one buffer.  The stamped header
/// passes the input pipeline's checksum gate by construction.
fn build_packet(
    protocol: IpProtocol,
    data: &[u8],
    id: u16,
    offset: u16,
    src: IpAddr,
    dst: IpAddr,
) -> (r: Vec<u8>)
    requires
        data@.len() + 20 <= 0xffff,
    ensures
        r@ == spec_built_packet(protocol, data@, id, offset, src, dst),
        r@.len() == 20 + data@.len(),
        checksum(r@.take(20), 0) == 0,
{
    let total = (IP_HDR_SIZE_MIN + data.len()) as u16;
    let hdr = IpHdr::new(protocol, total, id, offset, src, dst).with_checksum();
    let mut buf = hdr.to_bytes();
    let mut tail = vstd::slice::slice_to_vec(data);
    buf.append(&mut tail);
    proof {
        assert(buf@.take(20) =~= hdr.spec_bytes());
        assert(buf@ =~= spec_built_packet(protocol, data@, id, offset, src, dst));
    }
    buf
}

/// Hand a built packet to the device owning the egress interface, resolving
/// the link-layer destination first: a device that needs address resolution
/// gets its broadcast hardware address for broadcast targets, and fails for
/// any other target (address resolution is out of scope).
fn output_device(
    iface: &IpIface,
    data: &[u8],
    target: IpAddr,
    devices: &DeviceManager,
    protocols: &ProtocolManager,
    ctx: &ProtocolContexts,
) -> (r: Result<(), NetError>)
    requires
        devices.wf(),
    ensures
        iface.device_index.0 >= devices@.len() ==> r == Err::<(), NetError>(
            NetError::DeviceNotFound,
        ),
        iface.device_index.0 < devices@.len() ==> {
            let dev = devices@[iface.device_index.0 as int];
            let arp_ok = dev.flags & NET_DEVICE_FLAG_NEED_ARP == 0 || target == iface.broadcast
                || target == IpAddr::spec_broadcast_all();
            &&& (!arp_ok ==> r == Err::<(), NetError>(NetError::AddressResolutionUnavailable))
            &&& (arp_ok && !dev.spec_is_up() ==> r == Err::<(), NetError>(NetError::NotUp))
            &&& (arp_ok && dev.spec_is_up() && data@.len() > dev.mtu ==> r == Err::<(), NetError>(
                NetError::PayloadTooLarge,
            ))
            &&& (arp_ok && dev.spec_is_up() && data@.len() <= dev.mtu ==> r == Ok::<(), NetError>(
                (),
            ))
        },
{
    let dev = match devices.get(iface.device_index) {
        Some(d) => d,
        None => {
            return Err(NetError::DeviceNotFound);
        },
    };
    let mut hwaddr: Option<&[u8]> = None;
    if dev.flags & NET_DEVICE_FLAG_NEED_ARP != 0 {
        if target == iface.broadcast || target == IpAddr::broadcast_all() {
            hwaddr = Some(slice_subrange(dev.broadcast.as_slice(), 0, dev.alen as usize));
        } else {
            return Err(NetError::AddressResolutionUnavailable);
        }
    }
    match crate::device::output(
        devices,
        protocols,
        ctx,
        iface.device_index,
        super::PROTOCOL_TYPE_IP,
        data,
        hwaddr,
    ) {
        Ok(_) => Ok(()),
        Err(e) => Err(e),
    }
}

/// The output pipeline: reject an unspecified source (no routing table),
/// resolve the egress interface by exact source-address lookup, check that
/// the destination is reachable, check the device MTU, build a header with
/// a fresh identifier and stamped checksum, and hand header plus payload to
/// the device; on a loopback device the packet re-enters input processing
/// before this returns.  Returns the number of bytes placed on the wire.
pub fn ip_output(
    protocol: IpProtocol,
    payload: &[u8],
    src: IpAddr,
    dst: IpAddr,
    ctx: &mut ProtocolContexts,
    devices: &DeviceManager,
    protocols: &ProtocolManager,
) -> (r: Result<isize, NetError>)
    requires
        devices.wf(),
    ensures
        final(ctx).ip_ifaces@ == old(ctx).ip_ifaces@,
        ({
            let sel = spec_select(old(ctx).ip_ifaces@, src);
            let built = src != IpAddr::spec_any() && sel is Some && spec_reachable(sel->0, dst) && (
            sel->0).device_index.0 < devices@.len() && 20 + payload@.len() <= devices@[(
            sel->0).device_index.0 as int].mtu;
            &&& (!built ==> final(ctx).ip_id.spec_next_id() == old(ctx).ip_id.spec_next_id())
            &&& (built ==> final(ctx).ip_id.spec_next_id() == (old(ctx).ip_id.spec_next_id() + 1)
                % 0x10000)
            &&& (src == IpAddr::spec_any() ==> r == Err::<isize, NetError>(NetError::NoRoute))
            &&& (src != IpAddr::spec_any() && sel is None ==> r == Err::<isize, NetError>(
                NetError::InterfaceNotFound,
            ))
            &&& (src != IpAddr::spec_any() && sel is Some && !spec_reachable(sel->0, dst) ==> r
                == Err::<isize, NetError>(NetError::Unreachable))
            &&& (src != IpAddr::spec_any() && sel is Some && spec_reachable(sel->0, dst) && (
            sel->0).device_index.0 >= devices@.len() ==> r == Err::<isize, NetError>(
                NetError::DeviceNotFound,
            ))
            &&& (src != IpAddr::spec_any() && sel is Some && spec_reachable(sel->0, dst) && (
            sel->0).device_index.0 < devices@.len() && 20 + payload@.len() > devices@[(
            sel->0).device_index.0 as int].mtu ==> r == Err::<isize, NetError>(
                NetError::PacketTooLarge,
            ))
            &&& (built ==> {
                let iface = sel->0;
                let dev = devices@[iface.device_index.0 as int];
                let arp_ok = dev.flags & NET_DEVICE_FLAG_NEED_ARP == 0 || dst == iface.broadcast
                    || dst == IpAddr::spec_broadcast_all();
                &&& (!arp_ok ==> r == Err::<isize, NetError>(
                    NetError::AddressResolutionUnavailable,
                ))
                &&& (arp_ok && !dev.spec_is_up() ==> r == Err::<isize, NetError>(NetError::NotUp))
                &&& (arp_ok && dev.spec_is_up() ==> r == Ok::<isize, NetError>(
                    (20 + payload@.len()) as isize,
                ))
            })
        }),
{
    if src == IpAddr::any() {
        return Err(NetError::NoRoute);
    }
    let iface: IpIface = match ctx.ip_ifaces.select(src) {
        Some(i) => *i,
        None => {
            return Err(NetError::InterfaceNotFound);
        },
    };
    let src_net = iface.unicast.mask_and(iface.netmask);
    let dst_net = dst.mask_and(iface.netmask);
    if dst_net != src_net && dst != IpAddr::broadcast_all() {
        return Err(NetError::Unreachable);
    }
    let mtu: u16 = match devices.get(iface.device_index) {
        Some(d) => d.mtu,
        None => {
            return Err(NetError::DeviceNotFound);
        },
    };
    if (mtu as usize) < IP_HDR_SIZE_MIN || (mtu as usize) - IP_HDR_SIZE_MIN < payload.len() {
        return Err(NetError::PacketTooLarge);
    }
    let id = ctx.ip_id.next();
    let buf = build_packet(protocol, payload, id, 0, iface.unicast, dst);
    match output_device(&iface, buf.as_slice(), dst, devices, protocols, ctx) {
        Ok(()) => Ok((IP_HDR_SIZE_MIN + payload.len()) as isize),
        Err(e) => Err(e),
    }
}

/// Parsing and formatting addresses are exact inverses, one way: every
/// address's canonical text parses back to exactly that address, including
/// `0.0.0.0` and `255.255.255.255`.
pub proof fn lemma_addr_text_parses_back(a: IpAddr)
    ensures
        IpAddr::spec_parse(a.spec_str()) == Some(a),
{
    crate::text::lemma_quad_roundtrip(a.oct0(), a.oct1(), a.oct2(), a.oct3());
    lemma_u32_octets_inverse(a.0);
}

/// ... and the other way: every canonical dotted-quad string - the
/// formatted text of four octets - parses, and the address it parses to
/// formats back to the same string.
pub proof fn lemma_canonical_text_roundtrip(s: Seq<char>, a: u8, b: u8, c: u8, d: u8)
    requires
        s == quad_str(a, b, c, d),
    ensures
        IpAddr::spec_parse(s) is Some,
        (IpAddr::spec_parse(s)->0).spec_str() == s,
{
    crate::text::lemma_quad_roundtrip(a, b, c, d);
    lemma_u32_octets(a, b, c, d);
}

/// A fragmented packet never gets through: whatever else holds of its
/// fields, the input pipeline rejects a packet whose more-fragments flag is
/// set or whose fragment offset is nonzero; it is never delivered and never
/// passed over as traffic for another host.  When the packet passes the
/// structural and integrity gates that run first, the rejection is the
/// fragmentation-unsupported error itself.
pub proof fn lemma_fragment_always_rejected(data: Seq<u8>, dev: Device)
    requires
        data.len() >= 8,
        be16(data, 6) % 0x4000 != 0,
    ensures
        spec_ip_input(data, dev) is Err,
        ({
            let hdr = IpHdr::spec_from_bytes(data);
            data.len() >= 20 && hdr.spec_version() == IP_VERSION_IPV4 && data.len()
                >= hdr.spec_hdr_len() && checksum(data.take(hdr.spec_hdr_len() as int), 0) == 0
                && data.len() >= hdr.total
        }) ==> spec_ip_input(data, dev) == Err::<IpInputEvent, NetError>(
            NetError::FragmentationUnsupported,
        ),
{
}

/// A well-formed packet whose destination matches no interface of the
/// receiving device is silently dropped: the pipeline reports no error and
/// delivers nothing.
pub proof fn lemma_unmatched_packet_is_silently_dropped(data: Seq<u8>, dev: Device)
    requires
        data.len() >= 20,
        ({
            let hdr = IpHdr::spec_from_bytes(data);
            hdr.spec_version() == IP_VERSION_IPV4 && data.len() >= hdr.spec_hdr_len() && checksum(
                data.take(hdr.spec_hdr_len() as int),
                0,
            ) == 0 && data.len() >= hdr.total && hdr.offset % 0x4000 == 0
        }),
        !spec_dev_matches(dev, IpHdr::spec_from_bytes(data).dst),
    ensures
        spec_ip_input(data, dev) == Ok::<IpInputEvent, NetError>(IpInputEvent::NotForUs),
{
}

/// Decoding an encoded header gives the header back, whatever payload
/// follows it: the wire format round-trips.
pub proof fn lemma_hdr_roundtrip(h: IpHdr, tail: Seq<u8>)
    ensures
        IpHdr::spec_from_bytes(h.spec_bytes() + tail) == h,
{
    let b = h.spec_bytes() + tail;
    vstd::arithmetic::div_mod::lemma_fundamental_div_mod(h.total as int, 256);
    vstd::arithmetic::div_mod::lemma_fundamental_div_mod(h.id as int, 256);
    vstd::arithmetic::div_mod::lemma_fundamental_div_mod(h.offset as int, 256);
    vstd::arithmetic::div_mod::lemma_fundamental_div_mod(h.sum as int, 256);
    lemma_u32_octets_inverse(h.src.0);
    lemma_u32_octets_inverse(h.dst.0);
    assert(be16(b, 2) == h.total);
    assert(be16(b, 4) == h.id);
    assert(be16(b, 6) == h.offset);
    assert(be16(b, 10) == h.sum);
    assert(u32_from_octets(b[12], b[13], b[14], b[15]) == h.src.0);
    assert(u32_from_octets(b[16], b[17], b[18], b[19]) == h.dst.0);
}

/// A packet built by the output pipeline is accepted by the input
/// pipeline's validation gates: on the receiving device it is delivered
/// when an interface matches its destination and silently dropped when
/// none does - it is never rejected.
pub proof fn lemma_output_accepted_by_input(
    protocol: IpProtocol,
    data: Seq<u8>,
    id: u16,
    src: IpAddr,
    dst: IpAddr,
    dev: Device,
)
    requires
        data.len() + 20 <= 0xffff,
    ensures
        ({
            let b = spec_built_packet(protocol, data, id, 0, src, dst);
            spec_ip_input(b, dev) == if spec_dev_matches(dev, dst) {
                Ok::<IpInputEvent, NetError>(
                    IpInputEvent::Delivered {
                        src,
                        dst,
                        delivery: spec_delivery(protocol.spec_to_u8(), data),
                    },
                )
            } else {
                Ok::<IpInputEvent, NetError>(IpInputEvent::NotForUs)
            }
        }),
{
    let hdr0 = IpHdr {
        vhl: 0x45,
        tos: 0,
        total: (20 + data.len()) as u16,
        id,
        offset: 0,
        ttl: IP_TTL_DEFAULT,
        protocol: protocol.spec_to_u8(),
        sum: 0,
        src,
        dst,
    };
    let c = checksum(hdr0.spec_bytes(), 0);
    let hdr = IpHdr { sum: c, ..hdr0 };
    let b = spec_built_packet(protocol, data, id, 0, src, dst);
    assert(b == hdr.spec_bytes() + data);
    lemma_hdr_roundtrip(hdr, data);
    assert(IpHdr::spec_from_bytes(b) == hdr);
    assert(hdr.spec_version() == 4 && hdr.spec_hdr_len() == 20);

    // The stamped checksum folds to zero over the header bytes.
    vstd::arithmetic::div_mod::lemma_fundamental_div_mod(c as int, 256);
    assert(hdr.spec_bytes() =~= hdr0.spec_bytes().update(10, hi8(c)).update(11, lo8(c)));
    assert(hdr.spec_bytes().update(10, 0).update(11, 0) =~= hdr0.spec_bytes());
    assert((hdr.spec_bytes()[10] as nat) * 256 + (hdr.spec_bytes()[11] as nat) == c as nat);
    lemma_stamped_checksum_is_zero(hdr.spec_bytes(), 10);
    assert(b.take(20) =~= hdr.spec_bytes());
    assert(checksum(b.take(20), 0) == 0);

    assert(b.len() == hdr.total);
    assert(b.subrange(20, hdr.total as int) =~= data);
}

/// Register the IP input pipeline in the dispatch table; fails exactly when
/// an IP handler is already registered.
pub fn init(protocols: &mut super::ProtocolManager) -> (r: Result<(), NetError>)
    ensures
        (exists|i: int|
            0 <= i < old(protocols)@.len() && (#[trigger] old(protocols)@[i]).type_
                == super::ProtocolType::Ip) ==> r == Err::<(), NetError>(NetError::AlreadyRegistered)
            && final(protocols)@ == old(protocols)@,
        (forall|i: int|
            0 <= i < old(protocols)@.len() ==> (#[trigger] old(protocols)@[i]).type_
                != super::ProtocolType::Ip) ==> r == Ok::<(), NetError>(()) && final(protocols)@
            == old(protocols)@.push(
            super::Protocol {
                type_: super::ProtocolType::Ip,
                handler: super::ProtocolHandler::Ip,
            },
        ),
{
    protocols.register(super::ProtocolType::Ip, super::ProtocolHandler::Ip)
}

} // verus!
