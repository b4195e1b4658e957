//! What can be wrong with a datagram.
use vstd::prelude::*;

verus! {

/// Why the content of one attribute was refused.
#[derive(Debug, Clone, Copy, PartialEq, Eq, Structural)]
pub enum StunAttrDecodeErr {
    /// An address attribute shorter than its four fixed bytes.
    AddrTooShort,
    /// An address attribute whose length does not fit its family.
    AddrWrongSize,
    /// An address attribute of a family that is neither IPv4 nor IPv6.
    AddrUnknownFamily,
    /// A text attribute that is not UTF-8.
    BadUtf8,
    /// A fixed-size attribute of another size.
    WrongSize,
    /// An error attribute shorter than its four fixed bytes.
    ErrorTooShort,
    /// A list of 16-bit attribute types with an odd number of bytes.
    UnalignedList,
    /// A requested-transport attribute without a protocol byte.
    EmptyTransport,
    /// An attribute that runs past the end of the message body.
    Truncated,
}

/// Why a datagram is no STUN message.
#[derive(Debug, Clone, Copy, PartialEq, Eq, Structural)]
pub enum StunDecodeErr {
    PacketTooSmall,
    TypeOutOfRange,
    UnalignedLength,
    BadMagic,
    AttrErr(StunAttrDecodeErr),
}

} // verus!
