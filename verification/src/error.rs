//! The error values the stack reports.  Structural and integrity errors
//! reject a packet; resource and state errors are surfaced to the immediate
//! caller.

use vstd::prelude::*;

verus! {

/// Everything that can go wrong in the stack, by rejection condition.
#[derive(Clone, Copy, Debug, PartialEq, Eq, Structural)]
pub enum NetError {
    /// A buffer shorter than a header demands (minimum, header length, or
    /// declared total length).
    TooShort,
    /// The version field of an IP header is not 4.
    UnsupportedVersion,
    /// An Internet checksum did not fold to zero.
    ChecksumError,
    /// The more-fragments flag was set or the fragment offset was nonzero.
    FragmentationUnsupported,
    /// A dotted-quad address string could not be parsed.
    AddressFormat,
    /// The source address of an output was the unspecified address; this
    /// stack has no routing table to pick one.
    NoRoute,
    /// No registered interface carries the requested source address.
    InterfaceNotFound,
    /// The destination is neither on the interface's subnet nor the global
    /// broadcast address.
    Unreachable,
    /// Header plus payload exceed the egress device's MTU.
    PacketTooLarge,
    /// A frame handed to a device exceeds its MTU.
    PayloadTooLarge,
    /// The device is not up.
    NotUp,
    /// The device is already up.
    AlreadyUp,
    /// The device already carries an interface of this address family.
    FamilyAlreadyRegistered,
    /// An interface with this unicast address is already registered.
    DuplicateAddress,
    /// A handler for this protocol type is already registered.
    AlreadyRegistered,
    /// No device is registered under this index.
    DeviceNotFound,
    /// The device needs link-layer address resolution, which is out of
    /// scope, and the destination is not a broadcast address.
    AddressResolutionUnavailable,
}

} // verus!
