//! The attributes of a STUN or TURN message: their types on the wire, their
//! lengths, and how their content is read and written.
use crate::addr::{
    addr_bytes, addr_len, addr_of_bytes, encode_addr_attr, lemma_addr_roundtrip, stun_addr_attr,
    SocketAddress,
};
use crate::bytes::{
    be16, be32, be64, copy_range, from_be16, from_be32, from_be64, lemma_be32_roundtrip,
    lemma_be64_roundtrip, lemma_pad4, pad4, push_all, push_be16, push_be32, push_be64, push_zeros, read_be32,
    read_be64, zeros,
};
use crate::digest::{crc32, crc32_of, hmac_sha1, hmac_sha1_of, hmac_sha1_verify};
use crate::error::StunAttrDecodeErr;
use vstd::prelude::*;
use vstd::slice::slice_subrange;
use vstd::utf8::{decode_utf8, encode_utf8, valid_utf8};

verus! {

/// The type of the MAPPED-ADDRESS attribute.
pub const TYP_MAPPED: u16 = 0x0001;

/// The type of the USERNAME attribute.
pub const TYP_USERNAME: u16 = 0x0006;

/// The type of the MESSAGE-INTEGRITY attribute.
pub const TYP_INTEGRITY: u16 = 0x0008;

/// The type of the ERROR-CODE attribute.
pub const TYP_ERROR: u16 = 0x0009;

/// The type of the UNKNOWN-ATTRIBUTES attribute.
pub const TYP_UNKNOWN_ATTRIBUTES: u16 = 0x000A;

/// The type of the CHANNEL-NUMBER attribute.
pub const TYP_CHANNEL: u16 = 0x000C;

/// The type of the LIFETIME attribute.
pub const TYP_LIFETIME: u16 = 0x000D;

/// The type of the XOR-PEER-ADDRESS attribute.
pub const TYP_XPEER: u16 = 0x0012;

/// The type of the DATA attribute.
pub const TYP_DATA: u16 = 0x0013;

/// The type of the REALM attribute.
pub const TYP_REALM: u16 = 0x0014;

/// The type of the NONCE attribute.
pub const TYP_NONCE: u16 = 0x0015;

/// The type of the XOR-RELAYED-ADDRESS attribute.
pub const TYP_XRELAYED: u16 = 0x0016;

/// The type of the EVEN-PORT attribute.
pub const TYP_EVEN_PORT: u16 = 0x0018;

/// The type of the REQUESTED-TRANSPORT attribute.
pub const TYP_REQUESTED_TRANSPORT: u16 = 0x0019;

/// The type of the DONT-FRAGMENT attribute.
pub const TYP_DONT_FRAGMENT: u16 = 0x001A;

/// The type of the XOR-MAPPED-ADDRESS attribute.
pub const TYP_XMAPPED: u16 = 0x0020;

/// The type of the RESERVATION-TOKEN attribute.
pub const TYP_RESERVATION_TOKEN: u16 = 0x0022;

/// The type of the PRIORITY attribute.
pub const TYP_PRIORITY: u16 = 0x0024;

/// The type of the USE-CANDIDATE attribute.
pub const TYP_USE_CANDIDATE: u16 = 0x0025;

/// The type of the SOFTWARE attribute.
pub const TYP_SOFTWARE: u16 = 0x8022;

/// The type of the ALTERNATE-SERVER attribute.
pub const TYP_ALTERNATE_SERVER: u16 = 0x8023;

/// The type of the FINGERPRINT attribute.
pub const TYP_FINGERPRINT: u16 = 0x8028;

/// The type of the ICE-CONTROLLED attribute.
pub const TYP_ICE_CONTROLLED: u16 = 0x8029;

/// The type of the ICE-CONTROLLING attribute.
pub const TYP_ICE_CONTROLLING: u16 = 0x802A;

/// The constant that the checksum of a message is masked with.
pub const FINGERPRINT_XOR: u32 = 0x5354554E;

/// The largest content that still leaves the framed length within 16 bits.
pub const MAX_CONTENT: usize = 65528;

/// Whether `typ` is the type of one of the attributes this crate knows.
pub open spec fn is_known_typ(typ: u16) -> bool {
    typ == TYP_MAPPED || typ == TYP_USERNAME || typ == TYP_INTEGRITY || typ == TYP_ERROR || typ
        == TYP_UNKNOWN_ATTRIBUTES || typ == TYP_CHANNEL || typ == TYP_LIFETIME || typ == TYP_XPEER
        || typ == TYP_DATA || typ == TYP_REALM || typ == TYP_NONCE || typ == TYP_XRELAYED || typ
        == TYP_EVEN_PORT || typ == TYP_REQUESTED_TRANSPORT || typ == TYP_DONT_FRAGMENT || typ
        == TYP_XMAPPED || typ == TYP_RESERVATION_TOKEN || typ == TYP_PRIORITY || typ
        == TYP_USE_CANDIDATE || typ == TYP_SOFTWARE || typ == TYP_ALTERNATE_SERVER || typ
        == TYP_FINGERPRINT || typ == TYP_ICE_CONTROLLED || typ == TYP_ICE_CONTROLLING
}

/// What an attribute is emitted or was parsed in: the 20-byte header of the
/// message and the frames of the attributes before it.
pub struct AttrContext<'a> {
    pub header: &'a [u8; 20],
    pub attrs_prefix: &'a [u8],
}

/// The bytes that a digest placed after `prefix` covers: the header with its
/// length field set as if the message ended with the digest's own frame of
/// `own` bytes, then the attributes before it.
pub open spec fn digest_input(header: Seq<u8>, prefix: Seq<u8>, own: int) -> Seq<u8> {
    header.subrange(0, 2) + be16((prefix.len() + own) as u16) + header.subrange(4, 20) + prefix
}

/// The seed that address attributes are masked with: the magic cookie and the
/// transaction identifier, as they stand in the header.
pub open spec fn seed_of(header: Seq<u8>) -> Seq<u8> {
    header.subrange(4, 20)
}

/// The value of a FINGERPRINT attribute placed after `prefix`.
pub open spec fn fingerprint_of(header: Seq<u8>, prefix: Seq<u8>) -> u32 {
    crc32_of(digest_input(header, prefix, 8)) ^ FINGERPRINT_XOR
}

/// A list of attribute types, as bytes off the wire or as numbers to emit.
#[derive(Debug, Clone, PartialEq, Eq)]
pub enum UnknownAttributes {
    Parse(Vec<u8>),
    List(Vec<u16>),
}

/// The big-endian bytes of each number of `list`, in order.
pub open spec fn be16_list(list: Seq<u16>) -> Seq<u8>
    decreases list.len(),
{
    if list.len() == 0 {
        Seq::empty()
    } else {
        be16_list(list.drop_last()) + be16(list.last())
    }
}

/// The list of a sequence of numbers has two bytes for each.
pub proof fn lemma_be16_list_len(list: Seq<u16>)
    ensures
        be16_list(list).len() == 2 * list.len(),
    decreases list.len(),
{
    if list.len() > 0 {
        lemma_be16_list_len(list.drop_last());
    }
}

impl View for UnknownAttributes {
    type V = Seq<u8>;

    /// The content on the wire.
    open spec fn view(&self) -> Seq<u8> {
        match self {
            UnknownAttributes::Parse(b) => b@,
            UnknownAttributes::List(l) => be16_list(l@),
        }
    }
}

impl UnknownAttributes {
    /// The length of the content, in bytes.
    pub fn len(&self) -> (r: u16)
        requires
            self@.len() <= u16::MAX,
        ensures
            r == self@.len(),
    {
        match self {
            UnknownAttributes::Parse(s) => s.len() as u16,
            UnknownAttributes::List(l) => {
                proof {
                    lemma_be16_list_len(l@);
                }
                (l.len() * 2) as u16
            },
        }
    }

    /// Appends the content to `buff`.
    pub fn encode(&self, buff: &mut Vec<u8>)
        ensures
            final(buff)@ == old(buff)@ + self@,
    {
        match self {
            UnknownAttributes::Parse(s) => push_all(buff, s.as_slice()),
            UnknownAttributes::List(l) => {
                let mut i: usize = 0;
                while i < l.len()
                    invariant
                        i <= l@.len(),
                        buff@ == old(buff)@ + be16_list(l@.take(i as int)),
                    decreases l@.len() - i,
                {
                    push_be16(buff, l[i]);
                    proof {
                        assert(l@.take(i + 1).drop_last() =~= l@.take(i as int));
                        assert(buff@ =~= old(buff)@ + be16_list(l@.take(i + 1)));
                    }
                    i += 1;
                }
                assert(l@.take(l@.len() as int) =~= l@);
            },
        }
    }
}

/// The 16-bit numbers that `bytes` spell, two bytes each; a last odd byte is
/// left out.
pub open spec fn u16s_of(bytes: Seq<u8>) -> Seq<u16> {
    Seq::new(bytes.len() / 2, |i: int| from_be16(bytes.subrange(2 * i, 2 * i + 2)))
}

/// What is left to visit of a list of attribute types.
#[derive(Debug, Clone)]
pub enum UnknownAttributesIter<'a> {
    Parse(&'a [u8]),
    List(&'a [u16]),
}

impl<'a> View for UnknownAttributesIter<'a> {
    type V = Seq<u16>;

    /// The types left to visit.
    open spec fn view(&self) -> Seq<u16> {
        match self {
            UnknownAttributesIter::Parse(b) => u16s_of(b@),
            UnknownAttributesIter::List(l) => l@,
        }
    }
}

impl<'a> UnknownAttributesIter<'a> {
    /// The next type of the list, if any is left.
    pub fn next(&mut self) -> (r: Option<u16>)
        ensures
            match r {
                Some(v) => old(self)@.len() > 0 && v == old(self)@[0] && final(self)@ == old(
                    self,
                )@.skip(1),
                None => old(self)@.len() == 0 && final(self)@ == old(self)@,
            },
    {
        match *self {
            UnknownAttributesIter::Parse(s) => {
                if s.len() < 2 {
                    return None;
                }
                let v: u16 = crate::bytes::read_be16(s, 0);
                let rest = slice_subrange(s, 2, s.len());
                proof {
                    assert forall|i: int| 0 <= i < u16s_of(rest@).len() implies u16s_of(rest@)[i]
                        == u16s_of(s@).skip(1)[i] by {
                        assert(rest@.subrange(2 * i, 2 * i + 2) =~= s@.subrange(
                            2 * (i + 1),
                            2 * (i + 1) + 2,
                        ));
                    }
                    assert(u16s_of(rest@) =~= u16s_of(s@).skip(1));
                }
                *self = UnknownAttributesIter::Parse(rest);
                Some(v)
            },
            UnknownAttributesIter::List(l) => {
                if l.len() == 0 {
                    return None;
                }
                let v: u16 = l[0];
                let rest = slice_subrange(l, 1, l.len());
                assert(rest@ =~= l@.skip(1));
                *self = UnknownAttributesIter::List(rest);
                Some(v)
            },
        }
    }
}

impl UnknownAttributes {
    /// The list that `value` spells: two bytes for each type, so an odd
    /// number of bytes is no list.
    pub fn try_from(value: Vec<u8>) -> (r: Option<UnknownAttributes>)
        ensures
            r is Some <==> value@.len() % 2 == 0,
            r is Some ==> r->0@ == value@,
    {
        if value.len() % 2 != 0 {
            None
        } else {
            Some(UnknownAttributes::Parse(value))
        }
    }

    /// The types of the list, in order.
    pub open spec fn types(&self) -> Seq<u16> {
        match self {
            UnknownAttributes::Parse(b) => u16s_of(b@),
            UnknownAttributes::List(l) => l@,
        }
    }

    /// A visitor of the types of the list, in order.
    pub fn iter(&self) -> (r: UnknownAttributesIter<'_>)
        ensures
            r@ == self.types(),
    {
        match self {
            UnknownAttributes::Parse(b) => UnknownAttributesIter::Parse(b.as_slice()),
            UnknownAttributes::List(l) => UnknownAttributesIter::List(l.as_slice()),
        }
    }
}

/// An error code and the reason given with it.
#[derive(Debug, Clone, PartialEq, Eq)]
pub struct ErrorCode {
    pub code: u16,
    pub message: String,
}

/// The message-integrity attribute: a tag read off the wire together with the
/// bytes it covers, or a key to compute the tag with when the message is
/// emitted.
#[derive(Debug, Clone, PartialEq, Eq)]
pub enum Integrity {
    Check { mac: [u8; 20], signed: Vec<u8> },
    Sign { key_data: Vec<u8> },
}

/// The mathematical value of an [`Integrity`].
pub enum IntegrityView {
    Check { mac: Seq<u8>, signed: Seq<u8> },
    Sign { key_data: Seq<u8> },
}

impl View for Integrity {
    type V = IntegrityView;

    open spec fn view(&self) -> IntegrityView {
        match self {
            Integrity::Check { mac, signed } => IntegrityView::Check { mac: mac@, signed: signed@ },
            Integrity::Sign { key_data } => IntegrityView::Sign { key_data: key_data@ },
        }
    }
}

impl IntegrityView {
    /// Whether the tag is the one that `key` gives for the covered bytes. An
    /// attribute still to be emitted verifies under its own key alone.
    pub open spec fn verifies(&self, key: Seq<u8>) -> bool {
        match *self {
            IntegrityView::Check { mac, signed } => mac == hmac_sha1_of(key, signed)@,
            IntegrityView::Sign { key_data } => key_data == key,
        }
    }
}

impl ErrorCode {
    /// A copy of this error.
    pub fn copy(&self) -> (r: ErrorCode)
        ensures
            r.code == self.code,
            r.message@ == self.message@,
    {
        ErrorCode { code: self.code, message: self.message.clone() }
    }
}

impl Integrity {
    /// A copy of this attribute.
    pub fn copy(&self) -> (r: Integrity)
        ensures
            r@ == self@,
    {
        match self {
            Integrity::Check { mac, signed } => {
                let covered = copy_range(signed.as_slice(), 0, signed.len());
                assert(covered@ =~= signed@);
                Integrity::Check { mac: *mac, signed: covered }
            },
            Integrity::Sign { key_data } => {
                let key = copy_range(key_data.as_slice(), 0, key_data.len());
                assert(key@ =~= key_data@);
                Integrity::Sign { key_data: key }
            },
        }
    }

    /// Whether the tag is the one that `key` gives for the covered bytes. The
    /// tag is compared in constant time.
    pub fn verify(&self, key: &[u8]) -> (r: bool)
        ensures
            r == self@.verifies(key@),
    {
        match self {
            Integrity::Check { mac, signed } => hmac_sha1_verify(
                key,
                signed.as_slice(),
                mac.as_slice(),
            ),
            Integrity::Sign { key_data } => crate::bytes::same_bytes(key_data.as_slice(), key),
        }
    }
}

/// An attribute of a message.
#[derive(Debug, Clone, PartialEq, Eq)]
pub enum StunAttr {
    Mapped(SocketAddress),
    Username(String),
    Integrity(Integrity),
    Error(ErrorCode),
    UnknownAttributes(UnknownAttributes),
    Realm(String),
    Nonce(String),
    XMapped(SocketAddress),
    Software(String),
    AlternateServer(SocketAddress),
    Fingerprint,
    Channel(u32),
    Lifetime(u32),
    XPeer(SocketAddress),
    Data(Vec<u8>),
    XRelayed(SocketAddress),
    EvenPort(bool),
    RequestedTransport(u8),
    DontFragment,
    ReservationToken(u32),
    Priority(u32),
    UseCandidate,
    IceControlled(u64),
    IceControlling(u64),
    Other(u16, Vec<u8>),
}

/// The mathematical value of a [`StunAttr`].
pub enum AttrView {
    Mapped(SocketAddress),
    Username(Seq<char>),
    Integrity(IntegrityView),
    Error { code: u16, message: Seq<char> },
    UnknownAttributes(Seq<u8>),
    Realm(Seq<char>),
    Nonce(Seq<char>),
    XMapped(SocketAddress),
    Software(Seq<char>),
    AlternateServer(SocketAddress),
    Fingerprint,
    Channel(u32),
    Lifetime(u32),
    XPeer(SocketAddress),
    Data(Seq<u8>),
    XRelayed(SocketAddress),
    EvenPort(bool),
    RequestedTransport(u8),
    DontFragment,
    ReservationToken(u32),
    Priority(u32),
    UseCandidate,
    IceControlled(u64),
    IceControlling(u64),
    Other(u16, Seq<u8>),
}

impl View for StunAttr {
    type V = AttrView;

    open spec fn view(&self) -> AttrView {
        match self {
            StunAttr::Mapped(a) => AttrView::Mapped(*a),
            StunAttr::Username(s) => AttrView::Username(s@),
            StunAttr::Integrity(i) => AttrView::Integrity(i@),
            StunAttr::Error(e) => AttrView::Error { code: e.code, message: e.message@ },
            StunAttr::UnknownAttributes(u) => AttrView::UnknownAttributes(u@),
            StunAttr::Realm(s) => AttrView::Realm(s@),
            StunAttr::Nonce(s) => AttrView::Nonce(s@),
            StunAttr::XMapped(a) => AttrView::XMapped(*a),
            StunAttr::Software(s) => AttrView::Software(s@),
            StunAttr::AlternateServer(a) => AttrView::AlternateServer(*a),
            StunAttr::Fingerprint => AttrView::Fingerprint,
            StunAttr::Channel(v) => AttrView::Channel(*v),
            StunAttr::Lifetime(v) => AttrView::Lifetime(*v),
            StunAttr::XPeer(a) => AttrView::XPeer(*a),
            StunAttr::Data(d) => AttrView::Data(d@),
            StunAttr::XRelayed(a) => AttrView::XRelayed(*a),
            StunAttr::EvenPort(b) => AttrView::EvenPort(*b),
            StunAttr::RequestedTransport(p) => AttrView::RequestedTransport(*p),
            StunAttr::DontFragment => AttrView::DontFragment,
            StunAttr::ReservationToken(v) => AttrView::ReservationToken(*v),
            StunAttr::Priority(v) => AttrView::Priority(*v),
            StunAttr::UseCandidate => AttrView::UseCandidate,
            StunAttr::IceControlled(v) => AttrView::IceControlled(*v),
            StunAttr::IceControlling(v) => AttrView::IceControlling(*v),
            StunAttr::Other(t, d) => AttrView::Other(*t, d@),
        }
    }
}

impl AttrView {
    /// The type on the wire.
    pub open spec fn typ(&self) -> u16 {
        match *self {
            AttrView::Mapped(_) => TYP_MAPPED,
            AttrView::Username(_) => TYP_USERNAME,
            AttrView::Integrity(_) => TYP_INTEGRITY,
            AttrView::Error { .. } => TYP_ERROR,
            AttrView::UnknownAttributes(_) => TYP_UNKNOWN_ATTRIBUTES,
            AttrView::Realm(_) => TYP_REALM,
            AttrView::Nonce(_) => TYP_NONCE,
            AttrView::XMapped(_) => TYP_XMAPPED,
            AttrView::Software(_) => TYP_SOFTWARE,
            AttrView::AlternateServer(_) => TYP_ALTERNATE_SERVER,
            AttrView::Fingerprint => TYP_FINGERPRINT,
            AttrView::Channel(_) => TYP_CHANNEL,
            AttrView::Lifetime(_) => TYP_LIFETIME,
            AttrView::XPeer(_) => TYP_XPEER,
            AttrView::Data(_) => TYP_DATA,
            AttrView::XRelayed(_) => TYP_XRELAYED,
            AttrView::EvenPort(_) => TYP_EVEN_PORT,
            AttrView::RequestedTransport(_) => TYP_REQUESTED_TRANSPORT,
            AttrView::DontFragment => TYP_DONT_FRAGMENT,
            AttrView::ReservationToken(_) => TYP_RESERVATION_TOKEN,
            AttrView::Priority(_) => TYP_PRIORITY,
            AttrView::UseCandidate => TYP_USE_CANDIDATE,
            AttrView::IceControlled(_) => TYP_ICE_CONTROLLED,
            AttrView::IceControlling(_) => TYP_ICE_CONTROLLING,
            AttrView::Other(t, _) => t,
        }
    }

    /// The length of the content, without header and padding.
    pub open spec fn length(&self) -> int {
        match *self {
            AttrView::Mapped(a)
            | AttrView::XMapped(a)
            | AttrView::AlternateServer(a)
            | AttrView::XPeer(a)
            | AttrView::XRelayed(a) => addr_len(a),
            AttrView::Username(s)
            | AttrView::Realm(s)
            | AttrView::Nonce(s)
            | AttrView::Software(s) => encode_utf8(s).len() as int,
            AttrView::Integrity(_) => 20,
            AttrView::Error { message, .. } => 4 + encode_utf8(message).len() as int,
            AttrView::UnknownAttributes(u) => u.len() as int,
            AttrView::Fingerprint
            | AttrView::Channel(_)
            | AttrView::Lifetime(_)
            | AttrView::ReservationToken(_)
            | AttrView::Priority(_) => 4,
            AttrView::Data(d) => d.len() as int,
            AttrView::EvenPort(_) => 1,
            AttrView::RequestedTransport(_) => 4,
            AttrView::DontFragment | AttrView::UseCandidate => 0,
            AttrView::IceControlled(_) | AttrView::IceControlling(_) => 8,
            AttrView::Other(_, d) => d.len() as int,
        }
    }

    /// The length of the whole frame: header, content and padding.
    pub open spec fn len(&self) -> int {
        4 + pad4(self.length())
    }

    /// Whether the frame's length fits the 16 bits that the wire gives it.
    pub open spec fn fits(&self) -> bool {
        self.length() <= MAX_CONTENT
    }

    /// The content, for an attribute emitted after `prefix` in a message with
    /// the given header.
    pub open spec fn content(&self, header: Seq<u8>, prefix: Seq<u8>) -> Seq<u8> {
        match *self {
            AttrView::Mapped(a) | AttrView::AlternateServer(a) => addr_bytes(a, zeros(16)),
            AttrView::XMapped(a) | AttrView::XPeer(a) | AttrView::XRelayed(a) => addr_bytes(
                a,
                seed_of(header),
            ),
            AttrView::Username(s)
            | AttrView::Realm(s)
            | AttrView::Nonce(s)
            | AttrView::Software(s) => encode_utf8(s),
            AttrView::Integrity(IntegrityView::Check { mac, .. }) => mac,
            AttrView::Integrity(IntegrityView::Sign { key_data }) => hmac_sha1_of(
                key_data,
                digest_input(header, prefix, 24),
            )@,
            AttrView::Error { code, message } => seq![
                0u8,
                0u8,
                (code / 100) as u8,
                (code % 100) as u8,
            ] + encode_utf8(message),
            AttrView::UnknownAttributes(u) => u,
            AttrView::Fingerprint => be32(fingerprint_of(header, prefix)),
            AttrView::Channel(v)
            | AttrView::Lifetime(v)
            | AttrView::ReservationToken(v)
            | AttrView::Priority(v) => be32(v),
            AttrView::Data(d) => d,
            AttrView::EvenPort(b) => seq![
                if b {
                    0x80u8
                } else {
                    0u8
                },
            ],
            AttrView::RequestedTransport(p) => seq![p, 0u8, 0u8, 0u8],
            AttrView::DontFragment | AttrView::UseCandidate => Seq::empty(),
            AttrView::IceControlled(v) | AttrView::IceControlling(v) => be64(v),
            AttrView::Other(_, d) => d,
        }
    }

    /// The frame on the wire: type, content length, content, and zero bytes up
    /// to the next multiple of four.
    pub open spec fn frame(&self, header: Seq<u8>, prefix: Seq<u8>) -> Seq<u8> {
        be16(self.typ()) + be16(self.length() as u16) + self.content(header, prefix) + zeros(
            pad4(self.length()) - self.length(),
        )
    }

    /// Whether the tag of a parsed integrity attribute has its twenty bytes.
    pub open spec fn wf(&self) -> bool {
        match *self {
            AttrView::Integrity(IntegrityView::Check { mac, .. }) => mac.len() == 20,
            _ => true,
        }
    }
}

/// No attribute has a negative length.
pub proof fn lemma_length_nonneg(a: AttrView)
    ensures
        a.length() >= 0,
{
}

/// The content of an attribute has the length that the attribute reports.
pub proof fn lemma_content_len(a: AttrView, header: Seq<u8>, prefix: Seq<u8>)
    requires
        a.wf(),
        header.len() == 20,
    ensures
        a.content(header, prefix).len() == a.length(),
        a.length() >= 0,
{
    match a {
        AttrView::Mapped(s) | AttrView::AlternateServer(s) => {
            lemma_addr_roundtrip(s, zeros(16));
        },
        AttrView::XMapped(s) | AttrView::XPeer(s) | AttrView::XRelayed(s) => {
            lemma_addr_roundtrip(s, seed_of(header));
        },
        AttrView::IceControlled(v) | AttrView::IceControlling(v) => {
            lemma_be64_roundtrip(v);
        },
        _ => {},
    }
}

/// A frame is as long as the attribute reports, and that is a multiple of
/// four.
pub proof fn lemma_frame_len(a: AttrView, header: Seq<u8>, prefix: Seq<u8>)
    requires
        a.wf(),
        header.len() == 20,
    ensures
        a.frame(header, prefix).len() == a.len(),
        a.len() % 4 == 0,
        a.len() >= 4,
{
    lemma_content_len(a, header, prefix);
    lemma_pad4(a.length());
}

/// Calls `String::from_utf8`. Trusted: it succeeds exactly on the byte
/// sequences that are UTF-8, and the string it gives spells those bytes.
#[verifier::external_body]
pub(crate) fn text_from_utf8(bytes: Vec<u8>) -> (r: Option<String>)
    ensures
        r is Some <==> valid_utf8(bytes@),
        r is Some ==> r->0@ == decode_utf8(bytes@),
{
    String::from_utf8(bytes).ok()
}

/// The text that `data` spells, where it is UTF-8.
pub open spec fn text_of(data: Seq<u8>) -> Option<Seq<char>> {
    if valid_utf8(data) {
        Some(decode_utf8(data))
    } else {
        None
    }
}

/// Whether `typ` is the type of an address attribute.
pub open spec fn is_addr_typ(typ: u16) -> bool {
    typ == TYP_MAPPED || typ == TYP_XMAPPED || typ == TYP_ALTERNATE_SERVER || typ == TYP_XPEER
        || typ == TYP_XRELAYED
}

/// Whether `typ` is the type of a text attribute.
pub open spec fn is_text_typ(typ: u16) -> bool {
    typ == TYP_USERNAME || typ == TYP_REALM || typ == TYP_NONCE || typ == TYP_SOFTWARE
}

/// Whether `typ` is the type of an attribute that holds one 32-bit number.
pub open spec fn is_u32_typ(typ: u16) -> bool {
    typ == TYP_CHANNEL || typ == TYP_LIFETIME || typ == TYP_RESERVATION_TOKEN || typ
        == TYP_PRIORITY
}

/// The address attribute of type `typ` that holds `a`.
pub open spec fn addr_attr(typ: u16, a: SocketAddress) -> AttrView
    recommends
        is_addr_typ(typ),
{
    if typ == TYP_MAPPED {
        AttrView::Mapped(a)
    } else if typ == TYP_XMAPPED {
        AttrView::XMapped(a)
    } else if typ == TYP_ALTERNATE_SERVER {
        AttrView::AlternateServer(a)
    } else if typ == TYP_XPEER {
        AttrView::XPeer(a)
    } else {
        AttrView::XRelayed(a)
    }
}

/// The text attribute of type `typ` that holds `s`.
pub open spec fn text_attr(typ: u16, s: Seq<char>) -> AttrView
    recommends
        is_text_typ(typ),
{
    if typ == TYP_USERNAME {
        AttrView::Username(s)
    } else if typ == TYP_REALM {
        AttrView::Realm(s)
    } else if typ == TYP_NONCE {
        AttrView::Nonce(s)
    } else {
        AttrView::Software(s)
    }
}

/// The attribute of type `typ` that holds the 32-bit number `v`.
pub open spec fn u32_attr(typ: u16, v: u32) -> AttrView
    recommends
        is_u32_typ(typ),
{
    if typ == TYP_CHANNEL {
        AttrView::Channel(v)
    } else if typ == TYP_LIFETIME {
        AttrView::Lifetime(v)
    } else if typ == TYP_RESERVATION_TOKEN {
        AttrView::ReservationToken(v)
    } else {
        AttrView::Priority(v)
    }
}

/// The seed that an address attribute of type `typ` is masked with: zeros for
/// the plain ones, the header's seed for the others.
pub open spec fn addr_seed(typ: u16, header: Seq<u8>) -> Seq<u8> {
    if typ == TYP_MAPPED || typ == TYP_ALTERNATE_SERVER {
        zeros(16)
    } else {
        seed_of(header)
    }
}

/// What the content `data` of an attribute of type `typ` stands for, when it
/// was found after `prefix` in a message with the given header.
#[verifier::opaque]
pub open spec fn parse_spec(typ: u16, data: Seq<u8>, header: Seq<u8>, prefix: Seq<u8>) -> Result<
    AttrView,
    StunAttrDecodeErr,
> {
    if is_addr_typ(typ) {
        match addr_of_bytes(data, addr_seed(typ, header)) {
            Ok(a) => Ok(addr_attr(typ, a)),
            Err(e) => Err(e),
        }
    } else if is_text_typ(typ) {
        match text_of(data) {
            Some(s) => Ok(text_attr(typ, s)),
            None => Err(StunAttrDecodeErr::BadUtf8),
        }
    } else if is_u32_typ(typ) {
        if data.len() == 4 {
            Ok(u32_attr(typ, from_be32(data)))
        } else {
            Err(StunAttrDecodeErr::WrongSize)
        }
    } else if typ == TYP_INTEGRITY {
        if data.len() == 20 {
            Ok(
                AttrView::Integrity(
                    IntegrityView::Check { mac: data, signed: digest_input(header, prefix, 24) },
                ),
            )
        } else {
            Err(StunAttrDecodeErr::WrongSize)
        }
    } else if typ == TYP_ERROR {
        if data.len() < 4 {
            Err(StunAttrDecodeErr::ErrorTooShort)
        } else {
            match text_of(data.subrange(4, data.len() as int)) {
                Some(message) => Ok(
                    AttrView::Error { code: (100 * data[2] + data[3]) as u16, message },
                ),
                None => Err(StunAttrDecodeErr::BadUtf8),
            }
        }
    } else if typ == TYP_UNKNOWN_ATTRIBUTES {
        if data.len() % 2 == 0 {
            Ok(AttrView::UnknownAttributes(data))
        } else {
            Err(StunAttrDecodeErr::UnalignedList)
        }
    } else if typ == TYP_FINGERPRINT {
        if data.len() == 4 {
            Ok(AttrView::Fingerprint)
        } else {
            Err(StunAttrDecodeErr::WrongSize)
        }
    } else if typ == TYP_DATA {
        Ok(AttrView::Data(data))
    } else if typ == TYP_EVEN_PORT {
        Ok(AttrView::EvenPort(data.len() == 0 || data[0] >= 0x80))
    } else if typ == TYP_REQUESTED_TRANSPORT {
        if data.len() == 0 {
            Err(StunAttrDecodeErr::EmptyTransport)
        } else {
            Ok(AttrView::RequestedTransport(data[0]))
        }
    } else if typ == TYP_DONT_FRAGMENT {
        Ok(AttrView::DontFragment)
    } else if typ == TYP_USE_CANDIDATE {
        Ok(AttrView::UseCandidate)
    } else if typ == TYP_ICE_CONTROLLED {
        if data.len() == 8 {
            Ok(AttrView::IceControlled(from_be64(data)))
        } else {
            Err(StunAttrDecodeErr::WrongSize)
        }
    } else if typ == TYP_ICE_CONTROLLING {
        if data.len() == 8 {
            Ok(AttrView::IceControlling(from_be64(data)))
        } else {
            Err(StunAttrDecodeErr::WrongSize)
        }
    } else {
        Ok(AttrView::Other(typ, data))
    }
}

impl AttrView {
    /// Whether reading back what was written gives this very attribute: its
    /// address is in canonical form, its error code has a class below 256,
    /// its list of types has an even number of bytes, and an attribute held as
    /// raw bytes has a type that is not one of the known ones.
    pub open spec fn plain(&self) -> bool {
        match *self {
            AttrView::Mapped(a)
            | AttrView::XMapped(a)
            | AttrView::AlternateServer(a)
            | AttrView::XPeer(a)
            | AttrView::XRelayed(a) => a.canonical() == a,
            AttrView::Error { code, .. } => code < 25600,
            AttrView::UnknownAttributes(u) => u.len() % 2 == 0,
            AttrView::Other(t, _) => !is_known_typ(t),
            _ => true,
        }
    }

    /// What a reader finds where this attribute was written after `prefix`:
    /// the attribute itself, but for the integrity attribute, which comes
    /// back as the tag on the wire with the bytes that it covers.
    pub open spec fn as_read(&self, header: Seq<u8>, prefix: Seq<u8>) -> AttrView {
        match *self {
            AttrView::Integrity(_) => AttrView::Integrity(
                IntegrityView::Check {
                    mac: self.content(header, prefix),
                    signed: digest_input(header, prefix, 24),
                },
            ),
            _ => *self,
        }
    }
}

/// Parsing the content that an attribute was written with, in the same
/// place of the same message, gives the attribute back.
pub proof fn lemma_attr_roundtrip(a: AttrView, header: Seq<u8>, prefix: Seq<u8>)
    requires
        a.wf(),
        a.plain(),
        header.len() == 20,
    ensures
        parse_spec(a.typ(), a.content(header, prefix), header, prefix) == Ok::<
            AttrView,
            StunAttrDecodeErr,
        >(a.as_read(header, prefix)),
{
    broadcast use vstd::utf8::encode_utf8_decode_utf8, vstd::utf8::encode_utf8_valid_utf8;

    reveal(parse_spec);

    let data = a.content(header, prefix);
    match a {
        AttrView::Mapped(s) | AttrView::AlternateServer(s) => {
            lemma_addr_roundtrip(s, zeros(16));
        },
        AttrView::XMapped(s) | AttrView::XPeer(s) | AttrView::XRelayed(s) => {
            lemma_addr_roundtrip(s, seed_of(header));
        },
        AttrView::Error { code, message } => {
            assert(data.subrange(4, data.len() as int) =~= encode_utf8(message));
        },
        AttrView::Channel(v)
        | AttrView::Lifetime(v)
        | AttrView::ReservationToken(v)
        | AttrView::Priority(v) => {
            lemma_be32_roundtrip(v);
        },
        AttrView::IceControlled(v) | AttrView::IceControlling(v) => {
            lemma_be64_roundtrip(v);
        },
        _ => {},
    }
}


/// The bytes that a digest placed after the context's prefix covers.
pub fn build_digest_input(ctx: &AttrContext, own: u16) -> (r: Vec<u8>)
    requires
        ctx.attrs_prefix@.len() + own <= u16::MAX,
    ensures
        r@ == digest_input(ctx.header@, ctx.attrs_prefix@, own as int),
{
    let mut r: Vec<u8> = Vec::new();
    let header: &[u8] = ctx.header.as_slice();
    push_all(&mut r, slice_subrange(header, 0, 2));
    push_be16(&mut r, (ctx.attrs_prefix.len() + own as usize) as u16);
    push_all(&mut r, slice_subrange(header, 4, 20));
    push_all(&mut r, ctx.attrs_prefix);
    r
}

/// The byte length of a string, where it is at most `limit`.
fn text_len_within(s: &String, limit: usize) -> (r: bool)
    ensures
        r == (encode_utf8(s@).len() <= limit),
{
    s.as_str().as_bytes().len() <= limit
}

impl StunAttr {
    /// The type on the wire.
    pub fn typ(&self) -> (r: u16)
        ensures
            r == self@.typ(),
    {
        match self {
            StunAttr::Mapped(_) => TYP_MAPPED,
            StunAttr::Username(_) => TYP_USERNAME,
            StunAttr::Integrity(_) => TYP_INTEGRITY,
            StunAttr::Error(_) => TYP_ERROR,
            StunAttr::UnknownAttributes(_) => TYP_UNKNOWN_ATTRIBUTES,
            StunAttr::Realm(_) => TYP_REALM,
            StunAttr::Nonce(_) => TYP_NONCE,
            StunAttr::XMapped(_) => TYP_XMAPPED,
            StunAttr::Software(_) => TYP_SOFTWARE,
            StunAttr::AlternateServer(_) => TYP_ALTERNATE_SERVER,
            StunAttr::Fingerprint => TYP_FINGERPRINT,
            StunAttr::Channel(_) => TYP_CHANNEL,
            StunAttr::Lifetime(_) => TYP_LIFETIME,
            StunAttr::XPeer(_) => TYP_XPEER,
            StunAttr::Data(_) => TYP_DATA,
            StunAttr::XRelayed(_) => TYP_XRELAYED,
            StunAttr::EvenPort(_) => TYP_EVEN_PORT,
            StunAttr::RequestedTransport(_) => TYP_REQUESTED_TRANSPORT,
            StunAttr::DontFragment => TYP_DONT_FRAGMENT,
            StunAttr::ReservationToken(_) => TYP_RESERVATION_TOKEN,
            StunAttr::Priority(_) => TYP_PRIORITY,
            StunAttr::UseCandidate => TYP_USE_CANDIDATE,
            StunAttr::IceControlled(_) => TYP_ICE_CONTROLLED,
            StunAttr::IceControlling(_) => TYP_ICE_CONTROLLING,
            StunAttr::Other(typ, _) => *typ,
        }
    }

    /// Whether the frame's length fits the 16 bits that the wire gives it.
    pub fn fits(&self) -> (r: bool)
        ensures
            r == self@.fits(),
    {
        match self {
            StunAttr::Username(s)
            | StunAttr::Realm(s)
            | StunAttr::Nonce(s)
            | StunAttr::Software(s) => text_len_within(s, MAX_CONTENT),
            StunAttr::Error(e) => text_len_within(&e.message, MAX_CONTENT - 4),
            StunAttr::UnknownAttributes(UnknownAttributes::Parse(b)) => b.len() <= MAX_CONTENT,
            StunAttr::UnknownAttributes(UnknownAttributes::List(l)) => {
                proof {
                    lemma_be16_list_len(l@);
                }
                l.len() <= MAX_CONTENT / 2
            },
            StunAttr::Data(d) => d.len() <= MAX_CONTENT,
            StunAttr::Other(_, d) => d.len() <= MAX_CONTENT,
            _ => true,
        }
    }

    /// The length of the content, without header and padding.
    pub fn length(&self) -> (r: u16)
        requires
            self@.fits(),
        ensures
            r == self@.length(),
            r <= MAX_CONTENT,
    {
        match self {
            StunAttr::Mapped(a)
            | StunAttr::XMapped(a)
            | StunAttr::AlternateServer(a)
            | StunAttr::XPeer(a)
            | StunAttr::XRelayed(a) => match a.ip.to_canonical() {
                crate::addr::IpAddress::V4(_) => 8,
                crate::addr::IpAddress::V6(_) => 20,
            },
            StunAttr::Username(s)
            | StunAttr::Realm(s)
            | StunAttr::Nonce(s)
            | StunAttr::Software(s) => s.as_str().as_bytes().len() as u16,
            StunAttr::Integrity(_) => 20,
            StunAttr::Error(e) => 4 + e.message.as_str().as_bytes().len() as u16,
            StunAttr::UnknownAttributes(ua) => ua.len(),
            StunAttr::Fingerprint
            | StunAttr::Channel(_)
            | StunAttr::Lifetime(_)
            | StunAttr::ReservationToken(_)
            | StunAttr::Priority(_) => 4,
            StunAttr::Data(v) => v.len() as u16,
            StunAttr::EvenPort(_) => 1,
            StunAttr::RequestedTransport(_) => 4,
            StunAttr::DontFragment | StunAttr::UseCandidate => 0,
            StunAttr::IceControlled(_) | StunAttr::IceControlling(_) => 8,
            StunAttr::Other(_, v) => v.len() as u16,
        }
    }

    /// The length of the whole frame: header, content and padding.
    pub fn len(&self) -> (r: u16)
        requires
            self@.fits(),
        ensures
            r == self@.len(),
            r % 4 == 0,
            r >= 4,
    {
        let length: u16 = self.length();
        let rest: u16 = length % 4;
        if rest == 0 {
            4 + length
        } else {
            4 + length + (4 - rest)
        }
    }

    /// Appends the content of this attribute, as it stands after the
    /// context's prefix, to `buff`.
    fn encode_content(&self, buff: &mut Vec<u8>, ctx: &AttrContext)
        requires
            self@.fits(),
            ctx.attrs_prefix@.len() + self@.len() <= u16::MAX,
        ensures
            final(buff)@ == old(buff)@ + self@.content(ctx.header@, ctx.attrs_prefix@),
    {
        let ghost before = buff@;
        let n: usize = ctx.attrs_prefix.len();
        match self {
            StunAttr::Mapped(s) | StunAttr::AlternateServer(s) => {
                let zero: [u8; 16] = [0u8; 16];
                assert(zero@ =~= zeros(16));
                encode_addr_attr(s, buff, &zero);
            },
            StunAttr::XMapped(s) | StunAttr::XPeer(s) | StunAttr::XRelayed(s) => {
                let seed = seed_array(ctx.header);
                encode_addr_attr(s, buff, &seed);
            },
            StunAttr::Username(s)
            | StunAttr::Realm(s)
            | StunAttr::Nonce(s)
            | StunAttr::Software(s) => {
                push_all(buff, s.as_str().as_bytes());
            },
            StunAttr::Integrity(Integrity::Check { mac, .. }) => {
                push_all(buff, mac.as_slice());
            },
            StunAttr::Integrity(Integrity::Sign { key_data }) => {
                let input = build_digest_input(ctx, 24);
                let mac = hmac_sha1(key_data.as_slice(), input.as_slice());
                push_all(buff, mac.as_slice());
            },
            StunAttr::Error(e) => {
                buff.push(0);
                buff.push(0);
                buff.push((e.code / 100) as u8);
                buff.push((e.code % 100) as u8);
                push_all(buff, e.message.as_str().as_bytes());
                assert(buff@ =~= before + self@.content(ctx.header@, ctx.attrs_prefix@));
            },
            StunAttr::UnknownAttributes(ua) => ua.encode(buff),
            StunAttr::Fingerprint => {
                let input = build_digest_input(ctx, 8);
                let value: u32 = crc32(input.as_slice()) ^ FINGERPRINT_XOR;
                push_be32(buff, value);
            },
            StunAttr::Channel(v)
            | StunAttr::Lifetime(v)
            | StunAttr::ReservationToken(v)
            | StunAttr::Priority(v) => push_be32(buff, *v),
            StunAttr::Data(v) | StunAttr::Other(_, v) => push_all(buff, v.as_slice()),
            StunAttr::EvenPort(b) => {
                buff.push(
                    if *b {
                        0x80
                    } else {
                        0
                    },
                );
                assert(buff@ =~= before + self@.content(ctx.header@, ctx.attrs_prefix@));
            },
            StunAttr::RequestedTransport(protocol) => {
                buff.push(*protocol);
                buff.push(0);
                buff.push(0);
                buff.push(0);
                assert(buff@ =~= before + self@.content(ctx.header@, ctx.attrs_prefix@));
            },
            StunAttr::DontFragment | StunAttr::UseCandidate => {
                assert(buff@ =~= before + self@.content(ctx.header@, ctx.attrs_prefix@));
            },
            StunAttr::IceControlled(v) | StunAttr::IceControlling(v) => push_be64(buff, *v),
        }
    }

    /// Appends the frame of this attribute to `buff`: type, content length,
    /// content, and zero bytes up to the next multiple of four. The two
    /// digests are computed over the context.
    pub fn encode(&self, buff: &mut Vec<u8>, ctx: &AttrContext)
        requires
            self@.fits(),
            ctx.attrs_prefix@.len() + self@.len() <= u16::MAX,
        ensures
            final(buff)@ == old(buff)@ + self@.frame(ctx.header@, ctx.attrs_prefix@),
            self@.frame(ctx.header@, ctx.attrs_prefix@).len() == self@.len(),
    {
        let ghost before = buff@;
        let length: u16 = self.length();
        push_be16(buff, self.typ());
        push_be16(buff, length);
        self.encode_content(buff, ctx);
        let rest: u16 = length % 4;
        let padding: usize = if rest == 0 {
            0
        } else {
            (4 - rest) as usize
        };
        push_zeros(buff, padding);
        proof {
            lemma_frame_len(self@, ctx.header@, ctx.attrs_prefix@);
            assert(buff@ =~= before + self@.frame(ctx.header@, ctx.attrs_prefix@));
        }
    }
}

/// The seed in a header: its bytes from the magic cookie on.
pub fn seed_array(header: &[u8; 20]) -> (r: [u8; 16])
    ensures
        r@ == seed_of(header@),
{
    let mut r: [u8; 16] = [0u8; 16];
    let mut i: usize = 0;
    while i < 16
        invariant
            i <= 16,
            forall|k: int| 0 <= k < i ==> r@[k] == header@[k + 4],
        decreases 16 - i,
    {
        r[i] = header[i + 4];
        i += 1;
    }
    assert(r@ =~= seed_of(header@));
    r
}


/// Reads a text attribute of type `typ`.
fn parse_text(typ: u16, data: &[u8]) -> (r: Result<StunAttr, StunAttrDecodeErr>)
    requires
        is_text_typ(typ),
    ensures
        match r {
            Ok(a) => text_of(data@) is Some && a@ == text_attr(typ, text_of(data@)->0),
            Err(e) => text_of(data@) is None && e == StunAttrDecodeErr::BadUtf8,
        },
{
    let owned = copy_range(data, 0, data.len());
    assert(owned@ =~= data@);
    match text_from_utf8(owned) {
        Some(s) => Ok(
            if typ == TYP_USERNAME {
                StunAttr::Username(s)
            } else if typ == TYP_REALM {
                StunAttr::Realm(s)
            } else if typ == TYP_NONCE {
                StunAttr::Nonce(s)
            } else {
                StunAttr::Software(s)
            },
        ),
        None => Err(StunAttrDecodeErr::BadUtf8),
    }
}

impl StunAttr {
    /// Reads the content `data` of an attribute of type `typ`, found after the
    /// context's prefix. Address attributes are unmasked with the header's
    /// seed, the plain ones with zeros; text must be UTF-8.
    pub fn parse(typ: u16, data: &[u8], ctx: &AttrContext) -> (r: Result<
        StunAttr,
        StunAttrDecodeErr,
    >)
        requires
            typ == TYP_INTEGRITY && data@.len() == 20 ==> ctx.attrs_prefix@.len() + 24 <= u16::MAX,
        ensures
            match r {
                Ok(a) => parse_spec(typ, data@, ctx.header@, ctx.attrs_prefix@) == Ok::<
                    AttrView,
                    StunAttrDecodeErr,
                >(a@),
                Err(e) => parse_spec(typ, data@, ctx.header@, ctx.attrs_prefix@) == Err::<
                    AttrView,
                    StunAttrDecodeErr,
                >(e),
            },
    {
        proof {
            reveal(parse_spec);
        }
        if typ == TYP_MAPPED || typ == TYP_ALTERNATE_SERVER {
            let zero: [u8; 16] = [0u8; 16];
            assert(zero@ =~= zeros(16));
            match stun_addr_attr(data, &zero) {
                Ok(a) => Ok(
                    if typ == TYP_MAPPED {
                        StunAttr::Mapped(a)
                    } else {
                        StunAttr::AlternateServer(a)
                    },
                ),
                Err(e) => Err(e),
            }
        } else if typ == TYP_XMAPPED || typ == TYP_XPEER || typ == TYP_XRELAYED {
            let seed = seed_array(ctx.header);
            match stun_addr_attr(data, &seed) {
                Ok(a) => Ok(
                    if typ == TYP_XMAPPED {
                        StunAttr::XMapped(a)
                    } else if typ == TYP_XPEER {
                        StunAttr::XPeer(a)
                    } else {
                        StunAttr::XRelayed(a)
                    },
                ),
                Err(e) => Err(e),
            }
        } else if typ == TYP_USERNAME || typ == TYP_REALM || typ == TYP_NONCE || typ
            == TYP_SOFTWARE {
            parse_text(typ, data)
        } else if typ == TYP_CHANNEL || typ == TYP_LIFETIME || typ == TYP_RESERVATION_TOKEN || typ
            == TYP_PRIORITY {
            if data.len() != 4 {
                return Err(StunAttrDecodeErr::WrongSize);
            }
            let v: u32 = read_be32(data, 0);
            assert(data@.subrange(0, 4) =~= data@);
            Ok(
                if typ == TYP_CHANNEL {
                    StunAttr::Channel(v)
                } else if typ == TYP_LIFETIME {
                    StunAttr::Lifetime(v)
                } else if typ == TYP_RESERVATION_TOKEN {
                    StunAttr::ReservationToken(v)
                } else {
                    StunAttr::Priority(v)
                },
            )
        } else if typ == TYP_INTEGRITY {
            if data.len() != 20 {
                return Err(StunAttrDecodeErr::WrongSize);
            }
            let mut mac: [u8; 20] = [0u8; 20];
            let mut i: usize = 0;
            while i < 20
                invariant
                    i <= 20,
                    data@.len() == 20,
                    forall|k: int| 0 <= k < i ==> mac@[k] == data@[k],
                decreases 20 - i,
            {
                mac[i] = data[i];
                i += 1;
            }
            assert(mac@ =~= data@);
            let signed = build_digest_input(ctx, 24);
            Ok(StunAttr::Integrity(Integrity::Check { mac, signed }))
        } else if typ == TYP_ERROR {
            if data.len() < 4 {
                return Err(StunAttrDecodeErr::ErrorTooShort);
            }
            let code: u16 = 100 * (data[2] as u16) + (data[3] as u16);
            let owned = copy_range(data, 4, data.len());
            match text_from_utf8(owned) {
                Some(message) => Ok(StunAttr::Error(ErrorCode { code, message })),
                None => Err(StunAttrDecodeErr::BadUtf8),
            }
        } else if typ == TYP_UNKNOWN_ATTRIBUTES {
            let owned = copy_range(data, 0, data.len());
            assert(owned@ =~= data@);
            match UnknownAttributes::try_from(owned) {
                Some(list) => Ok(StunAttr::UnknownAttributes(list)),
                None => Err(StunAttrDecodeErr::UnalignedList),
            }
        } else if typ == TYP_FINGERPRINT {
            if data.len() != 4 {
                return Err(StunAttrDecodeErr::WrongSize);
            }
            Ok(StunAttr::Fingerprint)
        } else if typ == TYP_DATA {
            let owned = copy_range(data, 0, data.len());
            assert(owned@ =~= data@);
            Ok(StunAttr::Data(owned))
        } else if typ == TYP_EVEN_PORT {
            Ok(StunAttr::EvenPort(data.len() == 0 || data[0] >= 0x80))
        } else if typ == TYP_REQUESTED_TRANSPORT {
            if data.len() == 0 {
                return Err(StunAttrDecodeErr::EmptyTransport);
            }
            Ok(StunAttr::RequestedTransport(data[0]))
        } else if typ == TYP_DONT_FRAGMENT {
            Ok(StunAttr::DontFragment)
        } else if typ == TYP_USE_CANDIDATE {
            Ok(StunAttr::UseCandidate)
        } else if typ == TYP_ICE_CONTROLLED || typ == TYP_ICE_CONTROLLING {
            if data.len() != 8 {
                return Err(StunAttrDecodeErr::WrongSize);
            }
            let v: u64 = read_be64(data, 0);
            assert(data@.subrange(0, 8) =~= data@);
            Ok(
                if typ == TYP_ICE_CONTROLLED {
                    StunAttr::IceControlled(v)
                } else {
                    StunAttr::IceControlling(v)
                },
            )
        } else {
            let owned = copy_range(data, 0, data.len());
            assert(owned@ =~= data@);
            Ok(StunAttr::Other(typ, owned))
        }
    }
}


/// An attribute that was parsed has the type it was parsed under, and is
/// the fingerprint or the integrity attribute exactly when the type says so.
pub proof fn lemma_parse_typ(typ: u16, data: Seq<u8>, header: Seq<u8>, prefix: Seq<u8>)
    ensures
        match parse_spec(typ, data, header, prefix) {
            Ok(a) => {
                &&& a.typ() == typ
                &&& a.wf()
                &&& a is Fingerprint <==> typ == TYP_FINGERPRINT
                &&& a is Integrity <==> typ == TYP_INTEGRITY
            },
            Err(_) => true,
        },
{
    reveal(parse_spec);
}

} // verus!
