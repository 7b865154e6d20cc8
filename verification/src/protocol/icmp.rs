//! ICMP: decoding and classifying the 8-byte header that rides in an IP
//! payload.  This layer decodes and reports; it synthesizes no replies.

use vstd::prelude::*;

use crate::context::ProtocolContexts;
use crate::device::Device;
use crate::protocol::ip::IpAddr;
use crate::text::{append_decimal, dec_digits};
use crate::util::{checksum, cksum16};
use vstd::string::*;

verus! {

pub const ICMP_HDR_SIZE: usize = 8;

/// The ICMP message types this stack can name.
#[derive(Debug, Clone, Copy, PartialEq, Eq, Structural)]
pub enum IcmpType {
    EchoReply,
    DestUnreachable,
    SourceQuench,
    Redirect,
    Echo,
    TimeExceeded,
    ParameterProblem,
    Timestamp,
    TimestampReply,
    InfoRequest,
    InfoReply,
}

impl IcmpType {
    /// The message type a wire value names, if any.
    pub open spec fn spec_from_u8(value: u8) -> Option<IcmpType> {
        if value == 0 {
            Some(IcmpType::EchoReply)
        } else if value == 3 {
            Some(IcmpType::DestUnreachable)
        } else if value == 4 {
            Some(IcmpType::SourceQuench)
        } else if value == 5 {
            Some(IcmpType::Redirect)
        } else if value == 8 {
            Some(IcmpType::Echo)
        } else if value == 11 {
            Some(IcmpType::TimeExceeded)
        } else if value == 12 {
            Some(IcmpType::ParameterProblem)
        } else if value == 13 {
            Some(IcmpType::Timestamp)
        } else if value == 14 {
            Some(IcmpType::TimestampReply)
        } else if value == 15 {
            Some(IcmpType::InfoRequest)
        } else if value == 16 {
            Some(IcmpType::InfoReply)
        } else {
            None
        }
    }

    pub fn from_u8(value: u8) -> (r: Option<IcmpType>)
        ensures
            r == Self::spec_from_u8(value),
    {
        match value {
            0 => Some(IcmpType::EchoReply),
            3 => Some(IcmpType::DestUnreachable),
            4 => Some(IcmpType::SourceQuench),
            5 => Some(IcmpType::Redirect),
            8 => Some(IcmpType::Echo),
            11 => Some(IcmpType::TimeExceeded),
            12 => Some(IcmpType::ParameterProblem),
            13 => Some(IcmpType::Timestamp),
            14 => Some(IcmpType::TimestampReply),
            15 => Some(IcmpType::InfoRequest),
            16 => Some(IcmpType::InfoReply),
            _ => None,
        }
    }
}

/// ICMP header (RFC 792): type, code, checksum, and a 4-byte value field
/// whose reading depends on the type.  All multi-byte fields are big-endian
/// on the wire; the struct holds them in host order.
#[derive(Debug, Clone, Copy, PartialEq, Eq, Structural)]
pub struct IcmpHdr {
    pub type_: u8,
    pub code: u8,
    pub sum: u16,
    pub values: u32,
}

impl IcmpHdr {
    /// The header described by the first eight bytes of `data`.
    pub open spec fn spec_from_bytes(data: Seq<u8>) -> IcmpHdr
        recommends
            data.len() >= 8,
    {
        IcmpHdr {
            type_: data[0],
            code: data[1],
            sum: ((data[2] as nat) * 256 + (data[3] as nat)) as u16,
            values: ((data[4] as nat) * 0x1000000 + (data[5] as nat) * 0x10000 + (data[6] as nat)
                * 0x100 + (data[7] as nat)) as u32,
        }
    }

    /// Parse an ICMP header from a byte slice; fails exactly on a slice
    /// shorter than the 8-byte header.
    pub fn from_bytes(data: &[u8]) -> (r: Option<IcmpHdr>)
        ensures
            (r is Some) <==> data@.len() >= 8,
            r is Some ==> r->0 == Self::spec_from_bytes(data@),
    {
        if data.len() < ICMP_HDR_SIZE {
            return None;
        }
        Some(
            IcmpHdr {
                type_: data[0],
                code: data[1],
                sum: (data[2] as u16) * 256 + (data[3] as u16),
                values: (data[4] as u32) * 0x1000000 + (data[5] as u32) * 0x10000 + (
                data[6] as u32) * 0x100 + (data[7] as u32),
            },
        )
    }

    /// The ICMP type as an enum, if the wire value names one.
    pub fn type_enum(&self) -> (r: Option<IcmpType>)
        ensures
            r == IcmpType::spec_from_u8(self.type_),
    {
        IcmpType::from_u8(self.type_)
    }

    /// For echo request/reply: the identifier packed in the value field's
    /// high 16 bits.
    pub fn echo_id(&self) -> (r: u16)
        ensures
            r as nat == self.values as nat / 0x10000,
    {
        let v = self.values;
        proof {
            assert(v >> 16 == v / 0x10000 && v >> 16 <= 0xffff) by (bit_vector);
        }
        (v >> 16) as u16
    }

    /// For echo request/reply: the sequence number packed in the value
    /// field's low 16 bits.
    pub fn echo_seq(&self) -> (r: u16)
        ensures
            r as nat == self.values as nat % 0x10000,
    {
        let v = self.values;
        proof {
            assert(v & 0xffff == v % 0x10000 && v & 0xffff <= 0xffff) by (bit_vector);
        }
        (v & 0xffff) as u16
    }
}

/// The name of an ICMP type value.
pub open spec fn spec_icmp_type_name(type_: u8) -> Seq<char> {
    match IcmpType::spec_from_u8(type_) {
        Some(IcmpType::EchoReply) => "EchoReply"@,
        Some(IcmpType::DestUnreachable) => "DestinationUnreachable"@,
        Some(IcmpType::SourceQuench) => "SourceQuench"@,
        Some(IcmpType::Redirect) => "Redirect"@,
        Some(IcmpType::Echo) => "Echo"@,
        Some(IcmpType::TimeExceeded) => "TimeExceeded"@,
        Some(IcmpType::ParameterProblem) => "ParameterProblem"@,
        Some(IcmpType::Timestamp) => "Timestamp"@,
        Some(IcmpType::TimestampReply) => "TimestampReply"@,
        Some(IcmpType::InfoRequest) => "InformationRequest"@,
        Some(IcmpType::InfoReply) => "InformationReply"@,
        None => "Unknown"@,
    }
}

/// The human-readable name of an ICMP type value.
pub fn icmp_type_ntoa(type_: u8) -> (r: &'static str)
    ensures
        r@ == spec_icmp_type_name(type_),
{
    match IcmpType::from_u8(type_) {
        Some(IcmpType::EchoReply) => "EchoReply",
        Some(IcmpType::DestUnreachable) => "DestinationUnreachable",
        Some(IcmpType::SourceQuench) => "SourceQuench",
        Some(IcmpType::Redirect) => "Redirect",
        Some(IcmpType::Echo) => "Echo",
        Some(IcmpType::TimeExceeded) => "TimeExceeded",
        Some(IcmpType::ParameterProblem) => "ParameterProblem",
        Some(IcmpType::Timestamp) => "Timestamp",
        Some(IcmpType::TimestampReply) => "TimestampReply",
        Some(IcmpType::InfoRequest) => "InformationRequest",
        Some(IcmpType::InfoReply) => "InformationReply",
        None => "Unknown",
    }
}

/// What the ICMP layer accepts: a payload of at least eight bytes whose
/// Internet checksum folds to zero.
pub open spec fn icmp_accepts(data: Seq<u8>) -> bool {
    data.len() >= 8 && checksum(data, 0) == 0
}

/// The one-line description of a decoded ICMP header: type number and
/// name, code, checksum, and the value field read as the type demands
/// (identifier and sequence number for echo messages, one opaque value
/// otherwise), all in decimal.
pub open spec fn spec_icmp_summary(hdr: IcmpHdr) -> Seq<char> {
    let head = "type="@ + dec_digits(hdr.type_ as nat) + " ("@ + spec_icmp_type_name(hdr.type_)
        + "), code="@ + dec_digits(hdr.code as nat) + ", sum="@ + dec_digits(hdr.sum as nat);
    if IcmpType::spec_from_u8(hdr.type_) == Some(IcmpType::Echo) || IcmpType::spec_from_u8(
        hdr.type_,
    ) == Some(IcmpType::EchoReply) {
        head + ", id="@ + dec_digits((hdr.values as nat / 0x10000)) + ", seq="@ + dec_digits(
            (hdr.values as nat % 0x10000),
        )
    } else {
        head + ", values="@ + dec_digits(hdr.values as nat)
    }
}

/// Describe an ICMP payload's header in one line, for the caller to log;
/// nothing on a payload shorter than the header.
pub fn icmp_print(data: &[u8]) -> (r: Option<String>)
    ensures
        (r is Some) <==> data@.len() >= 8,
        r is Some ==> r->0@ == spec_icmp_summary(IcmpHdr::spec_from_bytes(data@)),
{
    let hdr = match IcmpHdr::from_bytes(data) {
        Some(h) => h,
        None => {
            return None;
        },
    };
    let mut out = String::new();
    out.append("type=");
    append_decimal(&mut out, hdr.type_ as usize);
    out.append(" (");
    out.append(icmp_type_ntoa(hdr.type_));
    out.append("), code=");
    append_decimal(&mut out, hdr.code as usize);
    out.append(", sum=");
    append_decimal(&mut out, hdr.sum as usize);
    let is_echo = match hdr.type_enum() {
        Some(IcmpType::Echo) => true,
        Some(IcmpType::EchoReply) => true,
        _ => false,
    };
    if is_echo {
        out.append(", id=");
        append_decimal(&mut out, hdr.echo_id() as usize);
        out.append(", seq=");
        append_decimal(&mut out, hdr.echo_seq() as usize);
    } else {
        out.append(", values=");
        append_decimal(&mut out, hdr.values as usize);
    }
    proof {
        assert(out@ =~= spec_icmp_summary(IcmpHdr::spec_from_bytes(data@)));
    }
    Some(out)
}

/// Consume an ICMP payload handed up by the IP layer: drop it if it is
/// shorter than the header or its checksum does not fold to zero, else
/// decode the header for the caller to report.  No reply is generated.
pub fn input(data: &[u8], src: IpAddr, dst: IpAddr, _dev: &Device, _ctx: &ProtocolContexts) -> (r:
    Option<IcmpHdr>)
    ensures
        (r is Some) <==> icmp_accepts(data@),
        r is Some ==> r->0 == IcmpHdr::spec_from_bytes(data@),
{
    if data.len() < ICMP_HDR_SIZE {
        return None;
    }
    if cksum16(data, 0) != 0 {
        return None;
    }
    IcmpHdr::from_bytes(data)
}

} // verus!
