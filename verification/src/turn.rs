//! TURN on top of STUN: what a client asks of the relay, and what the relay
//! answers.
use crate::addr::SocketAddress;
use crate::attr::{AttrView, ErrorCode, Integrity, IntegrityView, StunAttr};
use crate::bytes::{be16, copy_range, from_be16, push_all, push_be16, read_be16, write_at_start};
use crate::flat::{auth_view, flat_of, opt_text, Flat, FlatView};
use crate::stun::{decode_spec, Stun, StunView};
use crate::typ::StunTyp;
use vstd::prelude::*;

verus! {

/// The Binding method.
pub const METHOD_BINDING: u16 = 0x001;

/// The Allocate method.
pub const METHOD_ALLOCATE: u16 = 0x003;

/// The Refresh method.
pub const METHOD_REFRESH: u16 = 0x004;

/// The Send method.
pub const METHOD_SEND: u16 = 0x006;

/// The Data method.
pub const METHOD_DATA: u16 = 0x007;

/// The CreatePermission method.
pub const METHOD_CREATE_PERMISSION: u16 = 0x008;

/// The ChannelBind method.
pub const METHOD_CHANNEL_BIND: u16 = 0x009;

/// The lifetime that a refresh asks for when it names none, in seconds.
pub const DEFAULT_REFRESH_LIFETIME: u32 = 3600;

/// What a client asks of the relay.
#[derive(Debug, Clone, PartialEq, Eq)]
pub enum TurnReq {
    Channel { channel: u16, data: Vec<u8> },
    Send { txid: [u8; 12], xpeer: SocketAddress, data: Vec<u8> },
    Binding { txid: [u8; 12] },
    AllocateNoAuth { txid: [u8; 12] },
    Allocate { txid: [u8; 12], username: String, key_data: [u8; 16], requested_transport: Option<u8> },
    Permission { txid: [u8; 12], username: String, key_data: [u8; 16], xpeer: SocketAddress },
    Refresh { txid: [u8; 12], username: String, key_data: [u8; 16], lifetime: u32 },
    BindChannel {
        txid: [u8; 12],
        username: String,
        key_data: [u8; 16],
        channel: u16,
        xpeer: SocketAddress,
    },
}

/// The mathematical value of a [`TurnReq`].
pub enum TurnReqView {
    Channel { channel: u16, data: Seq<u8> },
    Send { txid: Seq<u8>, xpeer: SocketAddress, data: Seq<u8> },
    Binding { txid: Seq<u8> },
    AllocateNoAuth { txid: Seq<u8> },
    Allocate {
        txid: Seq<u8>,
        username: Seq<char>,
        key_data: Seq<u8>,
        requested_transport: Option<u8>,
    },
    Permission { txid: Seq<u8>, username: Seq<char>, key_data: Seq<u8>, xpeer: SocketAddress },
    Refresh { txid: Seq<u8>, username: Seq<char>, key_data: Seq<u8>, lifetime: u32 },
    BindChannel {
        txid: Seq<u8>,
        username: Seq<char>,
        key_data: Seq<u8>,
        channel: u16,
        xpeer: SocketAddress,
    },
}

impl View for TurnReq {
    type V = TurnReqView;

    open spec fn view(&self) -> TurnReqView {
        match self {
            TurnReq::Channel { channel, data } => TurnReqView::Channel {
                channel: *channel,
                data: data@,
            },
            TurnReq::Send { txid, xpeer, data } => TurnReqView::Send {
                txid: txid@,
                xpeer: *xpeer,
                data: data@,
            },
            TurnReq::Binding { txid } => TurnReqView::Binding { txid: txid@ },
            TurnReq::AllocateNoAuth { txid } => TurnReqView::AllocateNoAuth { txid: txid@ },
            TurnReq::Allocate {
                txid,
                username,
                key_data,
                requested_transport,
            } => TurnReqView::Allocate {
                txid: txid@,
                username: username@,
                key_data: key_data@,
                requested_transport: *requested_transport,
            },
            TurnReq::Permission { txid, username, key_data, xpeer } => TurnReqView::Permission {
                txid: txid@,
                username: username@,
                key_data: key_data@,
                xpeer: *xpeer,
            },
            TurnReq::Refresh { txid, username, key_data, lifetime } => TurnReqView::Refresh {
                txid: txid@,
                username: username@,
                key_data: key_data@,
                lifetime: *lifetime,
            },
            TurnReq::BindChannel {
                txid,
                username,
                key_data,
                channel,
                xpeer,
            } => TurnReqView::BindChannel {
                txid: txid@,
                username: username@,
                key_data: key_data@,
                channel: *channel,
                xpeer: *xpeer,
            },
        }
    }
}

/// The channel number in a channel attribute: its upper sixteen bits.
pub open spec fn channel_number(v: u32) -> u16 {
    (v / 0x1_0000) as u16
}

/// The request that a message of the given type and transaction identifier
/// stands for, given its flattened view and the outcome of authentication
/// (the username and its key, where the message authenticated).
pub open spec fn classify_spec(
    typ: StunTyp,
    txid: Seq<u8>,
    flat: FlatView,
    auth: Option<(Seq<char>, Seq<u8>)>,
) -> Option<TurnReqView> {
    if typ == StunTyp::Req(METHOD_BINDING) {
        Some(TurnReqView::Binding { txid })
    } else if typ == StunTyp::Req(METHOD_ALLOCATE) {
        match auth {
            None => Some(TurnReqView::AllocateNoAuth { txid }),
            Some((username, key_data)) => Some(
                TurnReqView::Allocate {
                    txid,
                    username,
                    key_data,
                    requested_transport: flat.requested_transport,
                },
            ),
        }
    } else if typ == StunTyp::Req(METHOD_CREATE_PERMISSION) {
        match (auth, flat.xpeer) {
            (Some((username, key_data)), Some(xpeer)) => Some(
                TurnReqView::Permission { txid, username, key_data, xpeer },
            ),
            _ => None,
        }
    } else if typ == StunTyp::Req(METHOD_REFRESH) {
        match auth {
            Some((username, key_data)) => Some(
                TurnReqView::Refresh {
                    txid,
                    username,
                    key_data,
                    lifetime: match flat.lifetime {
                        Some(l) => l,
                        None => DEFAULT_REFRESH_LIFETIME,
                    },
                },
            ),
            None => None,
        }
    } else if typ == StunTyp::Req(METHOD_CHANNEL_BIND) {
        match (auth, flat.channel, flat.xpeer) {
            (Some((username, key_data)), Some(channel), Some(xpeer)) => Some(
                TurnReqView::BindChannel {
                    txid,
                    username,
                    key_data,
                    channel: channel_number(channel),
                    xpeer,
                },
            ),
            _ => None,
        }
    } else if typ == StunTyp::Ind(METHOD_SEND) {
        match (auth, flat.xpeer, flat.data) {
            (None, Some(xpeer), Some(data)) => Some(TurnReqView::Send { txid, xpeer, data }),
            _ => None,
        }
    } else {
        None
    }
}

/// The channel-data frame at the start of `buff`: a channel number from
/// `0x4000` to `0x7fff`, a length, and that many bytes of data.
pub open spec fn channel_frame(buff: Seq<u8>) -> Option<TurnReqView> {
    if buff.len() < 4 {
        None
    } else {
        let channel = from_be16(buff.subrange(0, 2));
        let length = from_be16(buff.subrange(2, 4)) as int;
        if 0x4000 <= channel <= 0x7fff && buff.len() >= 4 + length {
            Some(TurnReqView::Channel { channel, data: buff.subrange(4, 4 + length) })
        } else {
            None
        }
    }
}

/// Whether `auth` is the outcome of authenticating a message with the
/// flattened view `flat` by the key lookup `f`: nothing where the message has
/// no username or no integrity attribute, else what the key that `f` gave for
/// the username and realm of the message leads to.
pub open spec fn authenticated_by<F: FnOnce(&str, Option<&str>) -> Option<[u8; 16]>>(
    flat: FlatView,
    f: F,
    auth: Option<(Seq<char>, Seq<u8>)>,
) -> bool {
    if flat.username is Some && flat.integrity is Some {
        exists|username: &str, realm: Option<&str>, key: Option<[u8; 16]>|
            {
                &&& username@ == flat.username->0
                &&& opt_text(realm) == flat.realm
                &&& f.ensures((username, realm), key)
                &&& auth == flat.auth_outcome(key)
            }
    } else {
        auth is None
    }
}

impl TurnReq {
    /// The request that a decoded message stands for, given the outcome of
    /// its authentication.
    pub fn classify(msg: &Stun, flat: &Flat, auth: Option<(&str, [u8; 16])>) -> (r: Option<TurnReq>)
        ensures
            match r {
                Some(req) => classify_spec(msg.typ, msg.txid@, flat@, auth_view(auth)) == Some(
                    req@,
                ),
                None => classify_spec(msg.typ, msg.txid@, flat@, auth_view(auth)) is None,
            },
    {
        let txid: [u8; 12] = msg.txid;
        match msg.typ {
            StunTyp::Req(method) => {
                if method == METHOD_BINDING {
                    Some(TurnReq::Binding { txid })
                } else if method == METHOD_ALLOCATE {
                    match auth {
                        None => Some(TurnReq::AllocateNoAuth { txid }),
                        Some((username, key_data)) => Some(
                            TurnReq::Allocate {
                                txid,
                                username: username.to_owned(),
                                key_data,
                                requested_transport: flat.requested_transport,
                            },
                        ),
                    }
                } else if method == METHOD_CREATE_PERMISSION {
                    match (auth, flat.xpeer) {
                        (Some((username, key_data)), Some(xpeer)) => Some(
                            TurnReq::Permission {
                                txid,
                                username: username.to_owned(),
                                key_data,
                                xpeer,
                            },
                        ),
                        _ => None,
                    }
                } else if method == METHOD_REFRESH {
                    match auth {
                        Some((username, key_data)) => Some(
                            TurnReq::Refresh {
                                txid,
                                username: username.to_owned(),
                                key_data,
                                lifetime: match flat.lifetime {
                                    Some(l) => l,
                                    None => DEFAULT_REFRESH_LIFETIME,
                                },
                            },
                        ),
                        None => None,
                    }
                } else if method == METHOD_CHANNEL_BIND {
                    match (auth, flat.channel, flat.xpeer) {
                        (Some((username, key_data)), Some(channel), Some(xpeer)) => Some(
                            TurnReq::BindChannel {
                                txid,
                                username: username.to_owned(),
                                key_data,
                                channel: (channel / 0x1_0000) as u16,
                                xpeer,
                            },
                        ),
                        _ => None,
                    }
                } else {
                    None
                }
            },
            StunTyp::Ind(method) => {
                if method == METHOD_SEND {
                    match (auth, flat.xpeer, flat.data) {
                        (None, Some(xpeer), Some(data)) => {
                            let owned = copy_range(data, 0, data.len());
                            assert(owned@ =~= data@);
                            Some(TurnReq::Send { txid, xpeer, data: owned })
                        },
                        _ => None,
                    }
                } else {
                    None
                }
            },
            _ => None,
        }
    }

    /// Reads a channel-data frame.
    pub fn decode_channel(buff: &[u8]) -> (r: Option<TurnReq>)
        ensures
            match r {
                Some(req) => channel_frame(buff@) == Some(req@),
                None => channel_frame(buff@) is None,
            },
    {
        if buff.len() < 4 {
            return None;
        }
        let channel: u16 = read_be16(buff, 0);
        let length: usize = read_be16(buff, 2) as usize;
        if channel < 0x4000 || channel > 0x7fff || buff.len() < 4 + length {
            return None;
        }
        Some(TurnReq::Channel { channel, data: copy_range(buff, 4, 4 + length) })
    }

    /// Reads a datagram: a channel-data frame, or a STUN message, which is
    /// decoded, authenticated with the key that `f` gives for its username,
    /// and classified. Anything else is no request.
    pub fn decode<F: FnOnce(&str, Option<&str>) -> Option<[u8; 16]>>(buff: &[u8], f: F) -> (r:
        Option<TurnReq>)
        requires
            forall|username: &str, realm: Option<&str>| f.requires((username, realm)),
        ensures
            buff@.len() >= 2 && from_be16(buff@.subrange(0, 2)) >= 0x4000 ==> (match r {
                Some(req) => channel_frame(buff@) == Some(req@),
                None => channel_frame(buff@) is None,
            }),
            buff@.len() < 2 || from_be16(buff@.subrange(0, 2)) < 0x4000 ==> (match decode_spec(
                buff@,
            ) {
                Err(_) => r is None,
                Ok(m) => exists|auth: Option<(Seq<char>, Seq<u8>)>|
                    {
                        &&& authenticated_by(flat_of(m.attrs), f, auth)
                        &&& match r {
                            Some(req) => classify_spec(m.typ, m.txid, flat_of(m.attrs), auth)
                                == Some(req@),
                            None => classify_spec(m.typ, m.txid, flat_of(m.attrs), auth) is None,
                        }
                    },
            }),
    {
        if buff.len() >= 2 && read_be16(buff, 0) >= 0x4000 {
            return TurnReq::decode_channel(buff);
        }
        let msg = match Stun::decode(buff) {
            Ok(m) => m,
            Err(_) => {
                return None;
            },
        };
        let flat = msg.flat();
        let auth = flat.check_auth(f);
        assert(authenticated_by(flat@, f, auth_view(auth)));
        TurnReq::classify(&msg, &flat, auth)
    }
}


/// What a data attribute or a channel-data frame carries: bytes as they are,
/// or a message that is encoded in their place.
#[derive(Debug, Clone, PartialEq, Eq)]
pub enum Data {
    Slice(Vec<u8>),
    Nested(Stun),
}

/// The mathematical value of a [`Data`].
pub enum DataView {
    Slice(Seq<u8>),
    Nested(StunView),
}

impl View for Data {
    type V = DataView;

    open spec fn view(&self) -> DataView {
        match self {
            Data::Slice(b) => DataView::Slice(b@),
            Data::Nested(m) => DataView::Nested(m@),
        }
    }
}

impl Data {
    /// The bytes carried, where a nested message can be written.
    pub open spec fn bytes(&self) -> Option<Seq<u8>> {
        match self {
            Data::Slice(v) => Some(v@),
            Data::Nested(m) => if m@.encodable() {
                Some(m@.bytes())
            } else {
                None
            },
        }
    }

    /// The bytes carried, where a nested message can be written.
    pub fn to_bytes(&self) -> (r: Option<Vec<u8>>)
        ensures
            match r {
                Some(b) => self.bytes() == Some(b@),
                None => self.bytes() is None,
            },
    {
        match self {
            Data::Slice(v) => {
                let owned = copy_range(v.as_slice(), 0, v.len());
                assert(owned@ =~= v@);
                Some(owned)
            },
            Data::Nested(m) => m.to_bytes(),
        }
    }
}

/// What the relay answers, or sends on to a peer.
#[derive(Debug, Clone, PartialEq, Eq)]
pub enum TurnRes {
    Channel { channel: u16, data: Data },
    Data { txid: [u8; 12], xpeer: SocketAddress, data: Data },
    BindingRes { txid: [u8; 12], xmapped: SocketAddress },
    AllocateUseAuth { txid: [u8; 12], realm: String, nonce: String },
    AllocateSuc {
        txid: [u8; 12],
        key_data: [u8; 16],
        xmapped: SocketAddress,
        xrelayed: SocketAddress,
        lifetime: u32,
    },
    AllocateMismatch { txid: [u8; 12], key_data: [u8; 16] },
    PermissionSuc { txid: [u8; 12], key_data: [u8; 16] },
    RefreshSuc { txid: [u8; 12], key_data: [u8; 16], lifetime: u32 },
    RefreshKick { txid: [u8; 12], key_data: [u8; 16] },
    BindChannelSuc { txid: [u8; 12], key_data: [u8; 16] },
}

/// The integrity attribute that is computed with `key_data` on emission.
pub open spec fn sign_with(key_data: Seq<u8>) -> AttrView {
    AttrView::Integrity(IntegrityView::Sign { key_data })
}

/// An error attribute.
pub open spec fn error_attr(code: u16, message: Seq<char>) -> AttrView {
    AttrView::Error { code, message }
}

impl TurnRes {
    /// The type and the attributes of the message that carries this answer.
    /// A channel-data frame is no message, and a data indication whose nested
    /// message cannot be written has none.
    pub open spec fn message(&self) -> Option<StunView> {
        match self {
            TurnRes::Channel { .. } => None,
            TurnRes::Data { txid, xpeer, data } => match data.bytes() {
                Some(bytes) => Some(
                    StunView {
                        typ: StunTyp::Ind(METHOD_DATA),
                        txid: txid@,
                        attrs: seq![AttrView::XPeer(*xpeer), AttrView::Data(bytes), AttrView::Fingerprint],
                    },
                ),
                None => None,
            },
            TurnRes::BindingRes { txid, xmapped } => Some(
                StunView {
                    typ: StunTyp::Res(METHOD_BINDING),
                    txid: txid@,
                    attrs: seq![AttrView::XMapped(*xmapped), AttrView::Fingerprint],
                },
            ),
            TurnRes::AllocateUseAuth { txid, realm, nonce } => Some(
                StunView {
                    typ: StunTyp::Error(METHOD_ALLOCATE),
                    txid: txid@,
                    attrs: seq![
                        error_attr(401, Seq::empty()),
                        AttrView::Realm(realm@),
                        AttrView::Nonce(nonce@),
                        AttrView::Fingerprint,
                    ],
                },
            ),
            TurnRes::AllocateSuc { txid, key_data, xmapped, xrelayed, lifetime } => Some(
                StunView {
                    typ: StunTyp::Res(METHOD_ALLOCATE),
                    txid: txid@,
                    attrs: seq![
                        AttrView::XMapped(*xmapped),
                        AttrView::XRelayed(*xrelayed),
                        AttrView::Lifetime(*lifetime),
                        sign_with(key_data@),
                        AttrView::Fingerprint,
                    ],
                },
            ),
            TurnRes::AllocateMismatch { txid, key_data } => Some(
                StunView {
                    typ: StunTyp::Error(METHOD_ALLOCATE),
                    txid: txid@,
                    attrs: seq![
                        error_attr(437, Seq::empty()),
                        sign_with(key_data@),
                        AttrView::Fingerprint,
                    ],
                },
            ),
            TurnRes::PermissionSuc { txid, key_data } => Some(
                StunView {
                    typ: StunTyp::Res(METHOD_CREATE_PERMISSION),
                    txid: txid@,
                    attrs: seq![sign_with(key_data@), AttrView::Fingerprint],
                },
            ),
            TurnRes::RefreshSuc { txid, key_data, lifetime } => Some(
                StunView {
                    typ: StunTyp::Res(METHOD_REFRESH),
                    txid: txid@,
                    attrs: seq![
                        AttrView::Lifetime(*lifetime),
                        sign_with(key_data@),
                        AttrView::Fingerprint,
                    ],
                },
            ),
            TurnRes::RefreshKick { txid, key_data } => Some(
                StunView {
                    typ: StunTyp::Error(METHOD_REFRESH),
                    txid: txid@,
                    attrs: seq![
                        error_attr(500, "Get kicked!"@),
                        sign_with(key_data@),
                        AttrView::Fingerprint,
                    ],
                },
            ),
            TurnRes::BindChannelSuc { txid, key_data } => Some(
                StunView {
                    typ: StunTyp::Res(METHOD_CHANNEL_BIND),
                    txid: txid@,
                    attrs: seq![sign_with(key_data@), AttrView::Fingerprint],
                },
            ),
        }
    }

    /// The bytes that this answer is on the wire: the channel-data frame, or
    /// the message, where it can be written.
    pub open spec fn wire(&self) -> Option<Seq<u8>> {
        match self {
            TurnRes::Channel { channel, data } => match data.bytes() {
                Some(bytes) => if bytes.len() <= u16::MAX {
                    Some(be16(*channel) + be16(bytes.len() as u16) + bytes)
                } else {
                    None
                },
                None => None,
            },
            _ => match self.message() {
                Some(m) => if m.encodable() {
                    Some(m.bytes())
                } else {
                    None
                },
                None => None,
            },
        }
    }

    /// The message that carries this answer.
    pub fn to_message(&self) -> (r: Option<Stun>)
        ensures
            match r {
                Some(m) => self.message() == Some(m@),
                None => self.message() is None,
            },
    {
        let mut attrs: Vec<StunAttr> = Vec::new();
        let m = match self {
            TurnRes::Channel { .. } => {
                return None;
            },
            TurnRes::Data { txid, xpeer, data } => {
                let bytes = match data.to_bytes() {
                    Some(b) => b,
                    None => {
                        return None;
                    },
                };
                attrs.push(StunAttr::XPeer(*xpeer));
                attrs.push(StunAttr::Data(bytes));
                attrs.push(StunAttr::Fingerprint);
                Stun { typ: StunTyp::Ind(METHOD_DATA), txid: *txid, attrs }
            },
            TurnRes::BindingRes { txid, xmapped } => {
                attrs.push(StunAttr::XMapped(*xmapped));
                attrs.push(StunAttr::Fingerprint);
                Stun { typ: StunTyp::Res(METHOD_BINDING), txid: *txid, attrs }
            },
            TurnRes::AllocateUseAuth { txid, realm, nonce } => {
                attrs.push(StunAttr::Error(ErrorCode { code: 401, message: String::new() }));
                attrs.push(StunAttr::Realm(realm.clone()));
                attrs.push(StunAttr::Nonce(nonce.clone()));
                attrs.push(StunAttr::Fingerprint);
                Stun { typ: StunTyp::Error(METHOD_ALLOCATE), txid: *txid, attrs }
            },
            TurnRes::AllocateSuc { txid, key_data, xmapped, xrelayed, lifetime } => {
                attrs.push(StunAttr::XMapped(*xmapped));
                attrs.push(StunAttr::XRelayed(*xrelayed));
                attrs.push(StunAttr::Lifetime(*lifetime));
                attrs.push(sign_attr(key_data));
                attrs.push(StunAttr::Fingerprint);
                Stun { typ: StunTyp::Res(METHOD_ALLOCATE), txid: *txid, attrs }
            },
            TurnRes::AllocateMismatch { txid, key_data } => {
                attrs.push(StunAttr::Error(ErrorCode { code: 437, message: String::new() }));
                attrs.push(sign_attr(key_data));
                attrs.push(StunAttr::Fingerprint);
                Stun { typ: StunTyp::Error(METHOD_ALLOCATE), txid: *txid, attrs }
            },
            TurnRes::PermissionSuc { txid, key_data } => {
                attrs.push(sign_attr(key_data));
                attrs.push(StunAttr::Fingerprint);
                Stun { typ: StunTyp::Res(METHOD_CREATE_PERMISSION), txid: *txid, attrs }
            },
            TurnRes::RefreshSuc { txid, key_data, lifetime } => {
                attrs.push(StunAttr::Lifetime(*lifetime));
                attrs.push(sign_attr(key_data));
                attrs.push(StunAttr::Fingerprint);
                Stun { typ: StunTyp::Res(METHOD_REFRESH), txid: *txid, attrs }
            },
            TurnRes::RefreshKick { txid, key_data } => {
                attrs.push(
                    StunAttr::Error(ErrorCode { code: 500, message: "Get kicked!".to_owned() }),
                );
                attrs.push(sign_attr(key_data));
                attrs.push(StunAttr::Fingerprint);
                Stun { typ: StunTyp::Error(METHOD_REFRESH), txid: *txid, attrs }
            },
            TurnRes::BindChannelSuc { txid, key_data } => {
                attrs.push(sign_attr(key_data));
                attrs.push(StunAttr::Fingerprint);
                Stun { typ: StunTyp::Res(METHOD_CHANNEL_BIND), txid: *txid, attrs }
            },
        };
        assert(m@.attrs =~= self.message()->0.attrs);
        Some(m)
    }

    /// The bytes of this answer on the wire, where it can be written.
    pub fn to_bytes(&self) -> (r: Option<Vec<u8>>)
        ensures
            match r {
                Some(b) => self.wire() == Some(b@),
                None => self.wire() is None,
            },
    {
        match self {
            TurnRes::Channel { channel, data } => {
                let bytes = match data.to_bytes() {
                    Some(b) => b,
                    None => {
                        return None;
                    },
                };
                if bytes.len() > 0xffff {
                    return None;
                }
                let mut out: Vec<u8> = Vec::new();
                push_be16(&mut out, *channel);
                push_be16(&mut out, bytes.len() as u16);
                push_all(&mut out, bytes.as_slice());
                Some(out)
            },
            _ => match self.to_message() {
                Some(m) => m.to_bytes(),
                None => None,
            },
        }
    }

    /// Writes this answer at the start of `buff` and returns its length.
    /// Nothing is written where the answer cannot be written or `buff` is too
    /// small for it.
    pub fn encode(self, buff: &mut [u8]) -> (r: Option<usize>)
        ensures
            match r {
                Some(n) => {
                    &&& self.wire() is Some
                    &&& n == self.wire()->0.len()
                    &&& n <= old(buff)@.len()
                    &&& final(buff)@ == self.wire()->0 + old(buff)@.skip(n as int)
                },
                None => {
                    &&& self.wire() is None || self.wire()->0.len() > old(buff)@.len()
                    &&& final(buff)@ == old(buff)@
                },
            },
    {
        match self.to_bytes() {
            None => None,
            Some(bytes) => {
                if buff.len() < bytes.len() {
                    return None;
                }
                write_at_start(buff, bytes.as_slice());
                Some(bytes.len())
            },
        }
    }
}

/// The integrity attribute that is computed with `key_data` on emission.
pub fn sign_attr(key_data: &[u8; 16]) -> (r: StunAttr)
    ensures
        r@ == sign_with(key_data@),
{
    let key = copy_range(key_data.as_slice(), 0, 16);
    assert(key@ =~= key_data@);
    StunAttr::Integrity(Integrity::Sign { key_data: key })
}

} // verus!
