//! What peers send each other through the relay: ICE connectivity checks,
//! DTLS records and RTP packets, told apart by their first byte.
use crate::addr::SocketAddress;
use crate::attr::{AttrView, ErrorCode, Integrity, IntegrityView, StunAttr};
use crate::bytes::copy_range;
use crate::flat::flat_of;
use crate::stun::{decode_spec, Stun, StunView};
use crate::turn::{Data, DataView, METHOD_BINDING};
use crate::typ::StunTyp;
use vstd::prelude::*;

verus! {

/// A payload relayed between peers.
#[derive(Debug, Clone, PartialEq, Eq)]
pub enum WebRTC {
    IceReq {
        txid: [u8; 12],
        integrity: Integrity,
        username: String,
        priority: u32,
        tie_breaker: u64,
        is_controlling: bool,
        use_candidate: bool,
    },
    IceRes { txid: [u8; 12], xmapped: SocketAddress, integrity: Integrity },
    IceErr { txid: [u8; 12], integrity: Integrity, error: ErrorCode },
    Dtls(Vec<u8>),
    Rtp(Vec<u8>),
}

/// The mathematical value of a [`WebRTC`].
pub enum WebRTCView {
    IceReq {
        txid: Seq<u8>,
        integrity: IntegrityView,
        username: Seq<char>,
        priority: u32,
        tie_breaker: u64,
        is_controlling: bool,
        use_candidate: bool,
    },
    IceRes { txid: Seq<u8>, xmapped: SocketAddress, integrity: IntegrityView },
    IceErr { txid: Seq<u8>, integrity: IntegrityView, code: u16, message: Seq<char> },
    Dtls(Seq<u8>),
    Rtp(Seq<u8>),
}

impl View for WebRTC {
    type V = WebRTCView;

    open spec fn view(&self) -> WebRTCView {
        match self {
            WebRTC::IceReq {
                txid,
                integrity,
                username,
                priority,
                tie_breaker,
                is_controlling,
                use_candidate,
            } => WebRTCView::IceReq {
                txid: txid@,
                integrity: integrity@,
                username: username@,
                priority: *priority,
                tie_breaker: *tie_breaker,
                is_controlling: *is_controlling,
                use_candidate: *use_candidate,
            },
            WebRTC::IceRes { txid, xmapped, integrity } => WebRTCView::IceRes {
                txid: txid@,
                xmapped: *xmapped,
                integrity: integrity@,
            },
            WebRTC::IceErr { txid, integrity, error } => WebRTCView::IceErr {
                txid: txid@,
                integrity: integrity@,
                code: error.code,
                message: error.message@,
            },
            WebRTC::Dtls(b) => WebRTCView::Dtls(b@),
            WebRTC::Rtp(b) => WebRTCView::Rtp(b@),
        }
    }
}

/// The ICE message that a decoded STUN message stands for: a binding
/// request, success response or error response with the attributes that each
/// must have.
pub open spec fn ice_of(m: StunView) -> Option<WebRTCView> {
    let flat = flat_of(m.attrs);
    if m.typ == StunTyp::Req(METHOD_BINDING) {
        let tie_breaker = if flat.ice_controlling is Some {
            flat.ice_controlling
        } else {
            flat.ice_controlled
        };
        match (flat.integrity, flat.username, flat.priority, tie_breaker) {
            (Some(integrity), Some(username), Some(priority), Some(tie_breaker)) => Some(
                WebRTCView::IceReq {
                    txid: m.txid,
                    integrity,
                    username,
                    priority,
                    tie_breaker,
                    is_controlling: flat.ice_controlling is Some,
                    use_candidate: flat.use_candidate,
                },
            ),
            _ => None,
        }
    } else if m.typ == StunTyp::Res(METHOD_BINDING) {
        match (flat.xmapped, flat.integrity) {
            (Some(xmapped), Some(integrity)) => Some(
                WebRTCView::IceRes { txid: m.txid, xmapped, integrity },
            ),
            _ => None,
        }
    } else if m.typ == StunTyp::Error(METHOD_BINDING) {
        match (flat.integrity, flat.error) {
            (Some(integrity), Some((code, message))) => Some(
                WebRTCView::IceErr { txid: m.txid, integrity, code, message },
            ),
            _ => None,
        }
    } else {
        None
    }
}

/// What a relayed payload is, by its first byte: up to 3 a STUN message,
/// 20 to 63 a DTLS record, 128 to 191 an RTP packet.
pub open spec fn webrtc_of(buff: Seq<u8>) -> Option<WebRTCView> {
    if buff.len() == 0 {
        None
    } else if buff[0] <= 3 {
        match decode_spec(buff) {
            Ok(m) => ice_of(m),
            Err(_) => None,
        }
    } else if 20 <= buff[0] <= 63 {
        Some(WebRTCView::Dtls(buff))
    } else if 128 <= buff[0] <= 191 {
        Some(WebRTCView::Rtp(buff))
    } else {
        None
    }
}

/// What a payload is written from: bytes as they are, or a message.
#[derive(Debug, Clone, PartialEq, Eq)]
pub enum WebRTCEncoded {
    Slice(Vec<u8>),
    Nested(Stun),
}

impl View for WebRTCEncoded {
    type V = DataView;

    open spec fn view(&self) -> DataView {
        match self {
            WebRTCEncoded::Slice(b) => DataView::Slice(b@),
            WebRTCEncoded::Nested(m) => DataView::Nested(m@),
        }
    }
}

impl WebRTCEncoded {
    /// The same payload, as what a data attribute carries.
    pub fn into_data(self) -> (r: Data)
        ensures
            r@ == self@,
    {
        match self {
            WebRTCEncoded::Slice(b) => Data::Slice(b),
            WebRTCEncoded::Nested(m) => Data::Nested(m),
        }
    }
}

impl WebRTCView {
    /// What the payload is written from. An ICE message has its attributes in
    /// the order in which browsers emit them: username, role, use-candidate
    /// where it is set, priority, integrity, fingerprint.
    pub open spec fn encoded(&self) -> DataView {
        match *self {
            WebRTCView::Dtls(b) => DataView::Slice(b),
            WebRTCView::Rtp(b) => DataView::Slice(b),
            WebRTCView::IceReq {
                txid,
                integrity,
                username,
                priority,
                tie_breaker,
                is_controlling,
                use_candidate,
            } => {
                let role = if is_controlling {
                    AttrView::IceControlling(tie_breaker)
                } else {
                    AttrView::IceControlled(tie_breaker)
                };
                DataView::Nested(
                    StunView {
                        typ: StunTyp::Req(METHOD_BINDING),
                        txid,
                        attrs: if use_candidate {
                            seq![
                                AttrView::Username(username),
                                role,
                                AttrView::UseCandidate,
                                AttrView::Priority(priority),
                                AttrView::Integrity(integrity),
                                AttrView::Fingerprint,
                            ]
                        } else {
                            seq![
                                AttrView::Username(username),
                                role,
                                AttrView::Priority(priority),
                                AttrView::Integrity(integrity),
                                AttrView::Fingerprint,
                            ]
                        },
                    },
                )
            },
            WebRTCView::IceRes { txid, xmapped, integrity } => DataView::Nested(
                StunView {
                    typ: StunTyp::Res(METHOD_BINDING),
                    txid,
                    attrs: seq![
                        AttrView::XMapped(xmapped),
                        AttrView::Integrity(integrity),
                        AttrView::Fingerprint,
                    ],
                },
            ),
            WebRTCView::IceErr { txid, integrity, code, message } => DataView::Nested(
                StunView {
                    typ: StunTyp::Error(METHOD_BINDING),
                    txid,
                    attrs: seq![
                        AttrView::Error { code, message },
                        AttrView::Integrity(integrity),
                        AttrView::Fingerprint,
                    ],
                },
            ),
        }
    }
}

impl WebRTC {
    /// A copy of this payload.
    pub fn copy(&self) -> (r: WebRTC)
        ensures
            r@ == self@,
    {
        match self {
            WebRTC::IceReq {
                txid,
                integrity,
                username,
                priority,
                tie_breaker,
                is_controlling,
                use_candidate,
            } => WebRTC::IceReq {
                txid: *txid,
                integrity: integrity.copy(),
                username: username.clone(),
                priority: *priority,
                tie_breaker: *tie_breaker,
                is_controlling: *is_controlling,
                use_candidate: *use_candidate,
            },
            WebRTC::IceRes { txid, xmapped, integrity } => WebRTC::IceRes {
                txid: *txid,
                xmapped: *xmapped,
                integrity: integrity.copy(),
            },
            WebRTC::IceErr { txid, integrity, error } => WebRTC::IceErr {
                txid: *txid,
                integrity: integrity.copy(),
                error: error.copy(),
            },
            WebRTC::Dtls(b) => {
                let owned = copy_range(b.as_slice(), 0, b.len());
                assert(owned@ =~= b@);
                WebRTC::Dtls(owned)
            },
            WebRTC::Rtp(b) => {
                let owned = copy_range(b.as_slice(), 0, b.len());
                assert(owned@ =~= b@);
                WebRTC::Rtp(owned)
            },
        }
    }

    /// The ICE message that a decoded STUN message stands for.
    pub fn from_stun(msg: &Stun) -> (r: Option<WebRTC>)
        ensures
            match r {
                Some(w) => ice_of(msg@) == Some(w@),
                None => ice_of(msg@) is None,
            },
    {
        let flat = msg.flat();
        match msg.typ {
            StunTyp::Req(method) => {
                if method != METHOD_BINDING {
                    return None;
                }
                let tie_breaker = if flat.ice_controlling.is_some() {
                    flat.ice_controlling
                } else {
                    flat.ice_controlled
                };
                match (flat.integrity, flat.username, flat.priority, tie_breaker) {
                    (Some(integrity), Some(username), Some(priority), Some(tie_breaker)) => Some(
                        WebRTC::IceReq {
                            txid: msg.txid,
                            integrity: integrity.copy(),
                            username: username.to_owned(),
                            priority,
                            tie_breaker,
                            is_controlling: flat.ice_controlling.is_some(),
                            use_candidate: flat.use_candidate,
                        },
                    ),
                    _ => None,
                }
            },
            StunTyp::Res(method) => {
                if method != METHOD_BINDING {
                    return None;
                }
                match (flat.xmapped, flat.integrity) {
                    (Some(xmapped), Some(integrity)) => Some(
                        WebRTC::IceRes { txid: msg.txid, xmapped, integrity: integrity.copy() },
                    ),
                    _ => None,
                }
            },
            StunTyp::Error(method) => {
                if method != METHOD_BINDING {
                    return None;
                }
                match (flat.integrity, flat.error) {
                    (Some(integrity), Some(error)) => Some(
                        WebRTC::IceErr {
                            txid: msg.txid,
                            integrity: integrity.copy(),
                            error: error.copy(),
                        },
                    ),
                    _ => None,
                }
            },
            _ => None,
        }
    }

    /// Tells what a relayed payload is, by its first byte.
    pub fn decode(buff: &[u8]) -> (r: Option<WebRTC>)
        ensures
            match r {
                Some(w) => webrtc_of(buff@) == Some(w@),
                None => webrtc_of(buff@) is None,
            },
    {
        if buff.len() == 0 {
            return None;
        }
        let first_byte: u8 = buff[0];
        if first_byte <= 3 {
            match Stun::decode(buff) {
                Ok(msg) => WebRTC::from_stun(&msg),
                Err(_) => None,
            }
        } else if 20 <= first_byte && first_byte <= 63 {
            let owned = copy_range(buff, 0, buff.len());
            assert(owned@ =~= buff@);
            Some(WebRTC::Dtls(owned))
        } else if 128 <= first_byte && first_byte <= 191 {
            let owned = copy_range(buff, 0, buff.len());
            assert(owned@ =~= buff@);
            Some(WebRTC::Rtp(owned))
        } else {
            None
        }
    }

    /// What the payload is written from: the bytes of a DTLS record or an RTP
    /// packet, or the ICE message with its attributes in the order in which
    /// browsers emit them.
    pub fn encode(&self) -> (r: WebRTCEncoded)
        ensures
            r@ == self@.encoded(),
    {
        let mut attrs: Vec<StunAttr> = Vec::new();
        match self {
            WebRTC::Dtls(b) | WebRTC::Rtp(b) => {
                let owned = copy_range(b.as_slice(), 0, b.len());
                assert(owned@ =~= b@);
                WebRTCEncoded::Slice(owned)
            },
            WebRTC::IceReq {
                txid,
                integrity,
                username,
                priority,
                tie_breaker,
                is_controlling,
                use_candidate,
            } => {
                attrs.push(StunAttr::Username(username.clone()));
                attrs.push(
                    if *is_controlling {
                        StunAttr::IceControlling(*tie_breaker)
                    } else {
                        StunAttr::IceControlled(*tie_breaker)
                    },
                );
                if *use_candidate {
                    attrs.push(StunAttr::UseCandidate);
                }
                attrs.push(StunAttr::Priority(*priority));
                attrs.push(StunAttr::Integrity(integrity.copy()));
                attrs.push(StunAttr::Fingerprint);
                let m = Stun { typ: StunTyp::Req(METHOD_BINDING), txid: *txid, attrs };
                assert(m@.attrs =~= self@.encoded()->Nested_0.attrs);
                WebRTCEncoded::Nested(m)
            },
            WebRTC::IceRes { txid, xmapped, integrity } => {
                attrs.push(StunAttr::XMapped(*xmapped));
                attrs.push(StunAttr::Integrity(integrity.copy()));
                attrs.push(StunAttr::Fingerprint);
                let m = Stun { typ: StunTyp::Res(METHOD_BINDING), txid: *txid, attrs };
                assert(m@.attrs =~= self@.encoded()->Nested_0.attrs);
                WebRTCEncoded::Nested(m)
            },
            WebRTC::IceErr { txid, integrity, error } => {
                attrs.push(StunAttr::Error(error.copy()));
                attrs.push(StunAttr::Integrity(integrity.copy()));
                attrs.push(StunAttr::Fingerprint);
                let m = Stun { typ: StunTyp::Error(METHOD_BINDING), txid: *txid, attrs };
                assert(m@.attrs =~= self@.encoded()->Nested_0.attrs);
                WebRTCEncoded::Nested(m)
            },
        }
    }
}

} // verus!
