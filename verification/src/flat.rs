//! The flattened view of a message: the attributes that a reader is shown,
//! each under its name.
use crate::addr::SocketAddress;
use crate::attr::{
    AttrView, ErrorCode, Integrity, IntegrityView, StunAttr, TYP_CHANNEL, TYP_DATA, TYP_ERROR,
    TYP_ICE_CONTROLLED, TYP_ICE_CONTROLLING, TYP_INTEGRITY, TYP_LIFETIME, TYP_NONCE, TYP_PRIORITY,
    TYP_REALM, TYP_REQUESTED_TRANSPORT, TYP_USERNAME, TYP_USE_CANDIDATE, TYP_XMAPPED, TYP_XPEER,
    TYP_XRELAYED,
};
use crate::stun::{kept, Stun};
use vstd::prelude::*;

verus! {

/// The attribute of type `typ` that a reader of `attrs` is shown, if any.
pub open spec fn shown(attrs: Seq<AttrView>, typ: u16) -> Option<AttrView> {
    if exists|i: int| kept(attrs, i) && attrs[i].typ() == typ {
        Some(attrs[choose|i: int| kept(attrs, i) && attrs[i].typ() == typ])
    } else {
        None
    }
}

/// The address that an address attribute holds.
pub open spec fn addr_in(a: Option<AttrView>) -> Option<SocketAddress> {
    match a {
        Some(AttrView::XMapped(s)) | Some(AttrView::XPeer(s)) | Some(AttrView::XRelayed(s)) => Some(
            s,
        ),
        _ => None,
    }
}

/// The text that a username, realm or nonce attribute holds.
pub open spec fn text_in(a: Option<AttrView>) -> Option<Seq<char>> {
    match a {
        Some(AttrView::Username(s)) | Some(AttrView::Realm(s)) | Some(AttrView::Nonce(s)) => Some(
            s,
        ),
        _ => None,
    }
}

/// The number that a lifetime, channel or priority attribute holds.
pub open spec fn u32_in(a: Option<AttrView>) -> Option<u32> {
    match a {
        Some(AttrView::Lifetime(v)) | Some(AttrView::Channel(v)) | Some(AttrView::Priority(v)) => Some(
            v,
        ),
        _ => None,
    }
}

/// The tie breaker that an ICE role attribute holds.
pub open spec fn u64_in(a: Option<AttrView>) -> Option<u64> {
    match a {
        Some(AttrView::IceControlled(v)) | Some(AttrView::IceControlling(v)) => Some(v),
        _ => None,
    }
}

/// The mathematical value of a [`Flat`].
pub struct FlatView {
    pub xmapped: Option<SocketAddress>,
    pub xpeer: Option<SocketAddress>,
    pub xrelayed: Option<SocketAddress>,
    pub username: Option<Seq<char>>,
    pub realm: Option<Seq<char>>,
    pub nonce: Option<Seq<char>>,
    pub integrity: Option<IntegrityView>,
    pub lifetime: Option<u32>,
    pub channel: Option<u32>,
    pub data: Option<Seq<u8>>,
    pub priority: Option<u32>,
    pub ice_controlling: Option<u64>,
    pub ice_controlled: Option<u64>,
    pub use_candidate: bool,
    pub requested_transport: Option<u8>,
    pub error: Option<(u16, Seq<char>)>,
}

/// The flattened view of `attrs`: under each name the attribute of that type
/// that a reader is shown.
pub open spec fn flat_of(attrs: Seq<AttrView>) -> FlatView {
    FlatView {
        xmapped: addr_in(shown(attrs, TYP_XMAPPED)),
        xpeer: addr_in(shown(attrs, TYP_XPEER)),
        xrelayed: addr_in(shown(attrs, TYP_XRELAYED)),
        username: text_in(shown(attrs, TYP_USERNAME)),
        realm: text_in(shown(attrs, TYP_REALM)),
        nonce: text_in(shown(attrs, TYP_NONCE)),
        integrity: match shown(attrs, TYP_INTEGRITY) {
            Some(AttrView::Integrity(i)) => Some(i),
            _ => None,
        },
        lifetime: u32_in(shown(attrs, TYP_LIFETIME)),
        channel: u32_in(shown(attrs, TYP_CHANNEL)),
        data: match shown(attrs, TYP_DATA) {
            Some(AttrView::Data(d)) => Some(d),
            _ => None,
        },
        priority: u32_in(shown(attrs, TYP_PRIORITY)),
        ice_controlling: u64_in(shown(attrs, TYP_ICE_CONTROLLING)),
        ice_controlled: u64_in(shown(attrs, TYP_ICE_CONTROLLED)),
        use_candidate: shown(attrs, TYP_USE_CANDIDATE) == Some(AttrView::UseCandidate),
        requested_transport: match shown(attrs, TYP_REQUESTED_TRANSPORT) {
            Some(AttrView::RequestedTransport(p)) => Some(p),
            _ => None,
        },
        error: match shown(attrs, TYP_ERROR) {
            Some(AttrView::Error { code, message }) => Some((code, message)),
            _ => None,
        },
    }
}

/// The attributes that a reader of a message is shown, each under its name.
/// Text, data and the integrity attribute are borrowed from the message.
#[derive(Debug, Clone, Copy)]
pub struct Flat<'a> {
    pub xmapped: Option<SocketAddress>,
    pub xpeer: Option<SocketAddress>,
    pub xrelayed: Option<SocketAddress>,
    pub username: Option<&'a str>,
    pub realm: Option<&'a str>,
    pub nonce: Option<&'a str>,
    pub integrity: Option<&'a Integrity>,
    pub lifetime: Option<u32>,
    pub channel: Option<u32>,
    pub data: Option<&'a [u8]>,
    pub priority: Option<u32>,
    pub ice_controlling: Option<u64>,
    pub ice_controlled: Option<u64>,
    pub use_candidate: bool,
    pub requested_transport: Option<u8>,
    pub error: Option<&'a ErrorCode>,
}

/// The text behind an optional string slice.
pub open spec fn opt_text(s: Option<&str>) -> Option<Seq<char>> {
    match s {
        Some(s) => Some(s@),
        None => None,
    }
}

impl<'a> View for Flat<'a> {
    type V = FlatView;

    open spec fn view(&self) -> FlatView {
        FlatView {
            xmapped: self.xmapped,
            xpeer: self.xpeer,
            xrelayed: self.xrelayed,
            username: opt_text(self.username),
            realm: opt_text(self.realm),
            nonce: opt_text(self.nonce),
            integrity: match self.integrity {
                Some(i) => Some(i@),
                None => None,
            },
            lifetime: self.lifetime,
            channel: self.channel,
            data: match self.data {
                Some(d) => Some(d@),
                None => None,
            },
            priority: self.priority,
            ice_controlling: self.ice_controlling,
            ice_controlled: self.ice_controlled,
            use_candidate: self.use_candidate,
            requested_transport: self.requested_transport,
            error: match self.error {
                Some(e) => Some((e.code, e.message@)),
                None => None,
            },
        }
    }
}

/// At most one attribute of each type is shown.
pub proof fn lemma_kept_unique(attrs: Seq<AttrView>, i: int, j: int)
    requires
        kept(attrs, i),
        kept(attrs, j),
        attrs[i].typ() == attrs[j].typ(),
    ensures
        i == j,
{
}

/// An attribute that a reader is shown is the one shown under its type.
pub proof fn lemma_shown_at(attrs: Seq<AttrView>, i: int)
    requires
        kept(attrs, i),
    ensures
        shown(attrs, attrs[i].typ()) == Some(attrs[i]),
{
    let typ = attrs[i].typ();
    let c = choose|c: int| kept(attrs, c) && attrs[c].typ() == typ;
    lemma_kept_unique(attrs, c, i);
}

impl Stun {
    /// The attribute of type `typ` that a reader of this message is shown.
    pub fn shown_attr(&self, typ: u16) -> (r: Option<&StunAttr>)
        ensures
            match r {
                Some(a) => shown(self@.attrs, typ) == Some(a@),
                None => shown(self@.attrs, typ) is None,
            },
    {
        let ghost attrs = self@.attrs;
        let mut integrity: bool = false;
        let mut fingerprint: bool = false;
        let mut i: usize = 0;
        while i < self.attrs.len()
            invariant
                i <= self.attrs@.len(),
                attrs == self@.attrs,
                forall|j: int| 0 <= j < i ==> (#[trigger] attrs[j]).typ() != typ,
                integrity == exists|j: int| 0 <= j < i && (#[trigger] attrs[j]) is Integrity,
                fingerprint == exists|j: int| 0 <= j < i && (#[trigger] attrs[j]) is Fingerprint,
            decreases self.attrs@.len() - i,
        {
            let a = &self.attrs[i];
            assert(attrs[i as int] == a@);
            let is_fingerprint: bool = match a {
                StunAttr::Fingerprint => true,
                _ => false,
            };
            let is_integrity: bool = match a {
                StunAttr::Integrity(_) => true,
                _ => false,
            };
            if a.typ() == typ {
                if !fingerprint && (is_fingerprint || !integrity) {
                    proof {
                        assert(kept(attrs, i as int));
                        let c = choose|k: int| kept(attrs, k) && attrs[k].typ() == typ;
                        lemma_kept_unique(attrs, c, i as int);
                    }
                    return Some(a);
                } else {
                    proof {
                        assert(!kept(attrs, i as int)) by {
                            if fingerprint {
                                let j = choose|j: int|
                                    0 <= j < i && (#[trigger] attrs[j]) is Fingerprint;
                                assert(attrs[j] is Fingerprint);
                            } else {
                                let j = choose|j: int|
                                    0 <= j < i && (#[trigger] attrs[j]) is Integrity;
                                assert(attrs[j] is Integrity);
                            }
                        }
                        assert forall|k: int| kept(attrs, k) implies attrs[k].typ() != typ by {
                            if attrs[k].typ() == typ && k > i {
                                assert(attrs[i as int].typ() == typ);
                            }
                        }
                    }
                    return None;
                }
            }
            proof {
                if is_integrity {
                    assert(attrs[i as int] is Integrity);
                }
                if is_fingerprint {
                    assert(attrs[i as int] is Fingerprint);
                }
            }
            integrity = integrity || is_integrity;
            fingerprint = fingerprint || is_fingerprint;
            i += 1;
        }
        None
    }

    /// The flattened view of this message.
    pub fn flat(&self) -> (r: Flat<'_>)
        ensures
            r@ == flat_of(self@.attrs),
    {
        Flat {
            xmapped: match self.shown_attr(TYP_XMAPPED) {
                Some(StunAttr::XMapped(s)) => Some(*s),
                _ => None,
            },
            xpeer: match self.shown_attr(TYP_XPEER) {
                Some(StunAttr::XPeer(s)) => Some(*s),
                _ => None,
            },
            xrelayed: match self.shown_attr(TYP_XRELAYED) {
                Some(StunAttr::XRelayed(s)) => Some(*s),
                _ => None,
            },
            username: match self.shown_attr(TYP_USERNAME) {
                Some(StunAttr::Username(s)) => Some(s.as_str()),
                _ => None,
            },
            realm: match self.shown_attr(TYP_REALM) {
                Some(StunAttr::Realm(s)) => Some(s.as_str()),
                _ => None,
            },
            nonce: match self.shown_attr(TYP_NONCE) {
                Some(StunAttr::Nonce(s)) => Some(s.as_str()),
                _ => None,
            },
            integrity: match self.shown_attr(TYP_INTEGRITY) {
                Some(StunAttr::Integrity(i)) => Some(i),
                _ => None,
            },
            lifetime: match self.shown_attr(TYP_LIFETIME) {
                Some(StunAttr::Lifetime(v)) => Some(*v),
                _ => None,
            },
            channel: match self.shown_attr(TYP_CHANNEL) {
                Some(StunAttr::Channel(v)) => Some(*v),
                _ => None,
            },
            data: match self.shown_attr(TYP_DATA) {
                Some(StunAttr::Data(d)) => Some(d.as_slice()),
                _ => None,
            },
            priority: match self.shown_attr(TYP_PRIORITY) {
                Some(StunAttr::Priority(v)) => Some(*v),
                _ => None,
            },
            ice_controlling: match self.shown_attr(TYP_ICE_CONTROLLING) {
                Some(StunAttr::IceControlling(v)) => Some(*v),
                _ => None,
            },
            ice_controlled: match self.shown_attr(TYP_ICE_CONTROLLED) {
                Some(StunAttr::IceControlled(v)) => Some(*v),
                _ => None,
            },
            use_candidate: match self.shown_attr(TYP_USE_CANDIDATE) {
                Some(StunAttr::UseCandidate) => true,
                _ => false,
            },
            requested_transport: match self.shown_attr(TYP_REQUESTED_TRANSPORT) {
                Some(StunAttr::RequestedTransport(p)) => Some(*p),
                _ => None,
            },
            error: match self.shown_attr(TYP_ERROR) {
                Some(StunAttr::Error(e)) => Some(e),
                _ => None,
            },
        }
    }
}

/// The flattened view shows, of each type, only the first attribute of that
/// type in the message.
pub proof fn lemma_shown_is_first(attrs: Seq<AttrView>, typ: u16)
    ensures
        match shown(attrs, typ) {
            Some(a) => exists|i: int|
                0 <= i < attrs.len() && attrs[i] == a && a.typ() == typ && forall|j: int|
                    0 <= j < i ==> (#[trigger] attrs[j]).typ() != typ,
            None => true,
        },
{
    if shown(attrs, typ) is Some {
        let i = choose|i: int| kept(attrs, i) && attrs[i].typ() == typ;
        assert(0 <= i < attrs.len() && attrs[i] == shown(attrs, typ)->0 && forall|j: int|
            0 <= j < i ==> (#[trigger] attrs[j]).typ() != typ);
    }
}

/// An attribute that stands behind the integrity attribute and is not the
/// fingerprint is not shown; nor is anything behind the fingerprint.
pub proof fn lemma_hidden_after_integrity(attrs: Seq<AttrView>, i: int, j: int)
    requires
        0 <= i < j < attrs.len(),
        attrs[i] is Fingerprint || (attrs[i] is Integrity && !(attrs[j] is Fingerprint)),
    ensures
        !kept(attrs, j),
        shown(attrs, attrs[j].typ()) is Some ==> exists|k: int|
            0 <= k < j && attrs[k] == shown(attrs, attrs[j].typ())->0,
{
    let typ = attrs[j].typ();
    if shown(attrs, typ) is Some {
        let k = choose|k: int| kept(attrs, k) && attrs[k].typ() == typ;
        assert(k != j);
        if k > j {
            assert(attrs[j].typ() == attrs[k].typ());
        }
        assert(0 <= k < j && attrs[k] == shown(attrs, typ)->0);
    }
}


impl FlatView {
    /// What authentication gives once the key for the username is known: the
    /// username and the key where the message names a user, a key was found
    /// for it and the integrity attribute verifies under that key; nothing
    /// otherwise.
    pub open spec fn auth_outcome(&self, key: Option<[u8; 16]>) -> Option<(Seq<char>, Seq<u8>)> {
        match (self.username, self.integrity, key) {
            (Some(username), Some(integrity), Some(key_data)) => if integrity.verifies(key_data@) {
                Some((username, key_data@))
            } else {
                None
            },
            _ => None,
        }
    }
}

/// The views of a username and its key.
pub open spec fn auth_view(auth: Option<(&str, [u8; 16])>) -> Option<(Seq<char>, Seq<u8>)> {
    match auth {
        Some((username, key_data)) => Some((username@, key_data@)),
        None => None,
    }
}

impl<'a> Flat<'a> {
    /// What authentication gives once the key for the username is known: the
    /// username and the key where the message names a user, a key was found
    /// for it and the integrity attribute verifies under that key; nothing
    /// otherwise.
    pub open spec fn auth_outcome(&self, key: Option<[u8; 16]>) -> Option<(&'a str, [u8; 16])> {
        match (self.username, self.integrity, key) {
            (Some(username), Some(integrity), Some(key_data)) => if integrity@.verifies(
                key_data@,
            ) {
                Some((username, key_data))
            } else {
                None
            },
            _ => None,
        }
    }

    /// Whether the message carries what authentication asks for: a username
    /// and an integrity attribute.
    pub open spec fn has_credentials(&self) -> bool {
        self.username is Some && self.integrity is Some
    }

    /// Decides authentication for the key that was looked up for the
    /// username of this message.
    pub fn auth_result(&self, key: Option<[u8; 16]>) -> (r: Option<(&'a str, [u8; 16])>)
        ensures
            r == self.auth_outcome(key),
            auth_view(r) == self@.auth_outcome(key),
    {
        match (self.username, self.integrity, key) {
            (Some(username), Some(integrity), Some(key_data)) => {
                if integrity.verify(key_data.as_slice()) {
                    Some((username, key_data))
                } else {
                    None
                }
            },
            _ => None,
        }
    }

    /// Authenticates the message: asks `f` for the key of the username (and
    /// realm, where the message has one) and verifies the integrity attribute
    /// under it. `f` is not asked where the message has no username or no
    /// integrity attribute.
    pub fn check_auth<F: FnOnce(&str, Option<&str>) -> Option<[u8; 16]>>(&self, f: F) -> (r: Option<
        (&'a str, [u8; 16]),
    >)
        requires
            self.has_credentials() ==> f.requires((self.username->0, self.realm)),
        ensures
            !self.has_credentials() ==> r is None,
            self.has_credentials() ==> exists|key: Option<[u8; 16]>|
                f.ensures((self.username->0, self.realm), key) && r == self.auth_outcome(key)
                    && auth_view(r) == self@.auth_outcome(key),
    {
        match (self.username, self.integrity) {
            (Some(username), Some(_)) => {
                let key = f(username, self.realm);
                self.auth_result(key)
            },
            _ => None,
        }
    }
}

} // verus!
