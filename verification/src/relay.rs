//! The relay engine: the table of associations, what each request does to
//! it, and what is answered.
use crate::addr::SocketAddress;
use crate::attr::{Integrity, IntegrityView};
use crate::bytes::{copy_range, find_byte, index_of_byte, push_all};
use crate::auth::{key_input, turn_key, COLON};
use crate::digest::md5_of;
use crate::bytes::from_be16;
use crate::flat::{flat_of, opt_text};
use crate::stun::decode_spec;
use crate::turn::{authenticated_by, channel_frame, classify_spec, Data, DataView, TurnReq, TurnReqView, TurnRes};
use crate::webrtc::{webrtc_of, WebRTC, WebRTCView};
use crate::attr::{text_from_utf8, text_of};
use crate::username::{tri_part, TurnUsername};
use vstd::prelude::*;
use vstd::utf8::encode_utf8;

verus! {

/// The longest lifetime that an allocation is given, in seconds.
pub const TURN_LIFETIME_SEC: u32 = 60;

/// The state that the relay keeps for one client.
#[derive(Debug)]
pub struct Assoc {
    pub addr: SocketAddress,
    pub username: TurnUsername,
    pub expires: u64,
    pub ice_username: Option<String>,
    pub key_data: [u8; 16],
}

/// The mathematical value of an [`Assoc`].
pub struct AssocView {
    pub addr: SocketAddress,
    pub username: Seq<u8>,
    pub dst: Seq<u8>,
    pub src: Seq<u8>,
    pub token: Seq<u8>,
    pub expires: u64,
    pub ice_username: Option<Seq<char>>,
    pub key_data: Seq<u8>,
}

impl View for Assoc {
    type V = AssocView;

    open spec fn view(&self) -> AssocView {
        AssocView {
            addr: self.addr,
            username: self.username.full_bytes(),
            dst: self.username.dst_bytes(),
            src: self.username.src_bytes(),
            token: self.username.token_bytes(),
            expires: self.expires,
            ice_username: match self.ice_username {
                Some(s) => Some(s@),
                None => None,
            },
            key_data: self.key_data@,
        }
    }
}

impl AssocView {
    /// Whether this association and `other` name each other: each one's
    /// destination is the other's source, and the tokens agree.
    pub open spec fn matches(&self, other: AssocView) -> bool {
        self.dst == other.src && self.src == other.dst && self.token == other.token
    }

    /// Whether the association has run out at `now`.
    pub open spec fn expired(&self, now: u64) -> bool {
        self.expires < now
    }
}

/// Two associations name each other in either order or in neither.
pub proof fn lemma_assoc_matches_commutes(a: AssocView, b: AssocView)
    ensures
        a.matches(b) <==> b.matches(a),
{
}

/// The values of a table of associations.
pub open spec fn assoc_views(assocs: Seq<Assoc>) -> Seq<AssocView> {
    Seq::new(assocs.len(), |i: int| assocs[i]@)
}

/// Whether no two associations of the table are for the same client.
pub open spec fn unique_addrs(assocs: Seq<AssocView>) -> bool {
    forall|i: int, j: int|
        0 <= i < assocs.len() && 0 <= j < assocs.len() && (#[trigger] assocs[i]).addr == (
        #[trigger] assocs[j]).addr ==> i == j
}

/// The place of the association for `addr` in the table, if there is one.
pub open spec fn index_of(assocs: Seq<AssocView>, addr: SocketAddress) -> Option<int> {
    if exists|i: int| 0 <= i < assocs.len() && (#[trigger] assocs[i]).addr == addr {
        Some(choose|i: int| 0 <= i < assocs.len() && (#[trigger] assocs[i]).addr == addr)
    } else {
        None
    }
}

/// The association for `addr`, if there is one.
pub open spec fn lookup(assocs: Seq<AssocView>, addr: SocketAddress) -> Option<AssocView> {
    match index_of(assocs, addr) {
        Some(i) => Some(assocs[i]),
        None => None,
    }
}

/// The table without the association for `addr`.
pub open spec fn without(assocs: Seq<AssocView>, addr: SocketAddress) -> Seq<AssocView> {
    match index_of(assocs, addr) {
        Some(i) => assocs.remove(i),
        None => assocs,
    }
}

/// The table as a lookup for `addr` at `now` leaves it: an association for
/// `addr` that has run out is gone.
pub open spec fn evicted(assocs: Seq<AssocView>, addr: SocketAddress, now: u64) -> Seq<
    AssocView,
> {
    match lookup(assocs, addr) {
        Some(a) => if a.expired(now) {
            without(assocs, addr)
        } else {
            assocs
        },
        None => assocs,
    }
}

/// What the relay does with a request.
#[derive(Debug, Clone, Copy, PartialEq, Eq, Structural)]
pub enum Action {
    /// Answer a binding request with the client's own address.
    BindingRes,
    /// Challenge an allocate request that came without credentials.
    AllocateUseAuth,
    /// Refuse an allocate request under another username than the one the
    /// client's live allocation was made with.
    AllocateMismatch,
    /// Create the allocation and say so.
    AllocateSuc,
    /// Delete the allocation, without an answer.
    Remove,
    /// Extend the allocation by the given number of seconds and say so.
    RefreshSuc(u32),
    /// Refuse to extend the allocation.
    RefreshKick,
    /// Acknowledge a permission.
    PermissionSuc,
    /// Acknowledge a channel binding.
    BindChannelSuc,
    /// Pass the payload on to the peers that match.
    Relay,
    /// Drop the request.
    Nothing,
}

/// The smaller of a requested lifetime and the ceiling.
pub open spec fn clamp_lifetime(requested: u32) -> u32 {
    if requested < TURN_LIFETIME_SEC {
        requested
    } else {
        TURN_LIFETIME_SEC
    }
}

/// Whether `name` is one of the hosted identities.
pub open spec fn is_hosted(hosted: Seq<Seq<u8>>, name: Seq<u8>) -> bool {
    exists|i: int| 0 <= i < hosted.len() && #[trigger] hosted[i] == name
}

/// What the relay does with `req` from a client whose live association is
/// `assoc`.
pub open spec fn decide_spec(req: TurnReqView, assoc: Option<AssocView>, hosted: Seq<Seq<u8>>) -> Action {
    match req {
        TurnReqView::Binding { .. } => Action::BindingRes,
        TurnReqView::AllocateNoAuth { .. } => Action::AllocateUseAuth,
        TurnReqView::Allocate { username, .. } => {
            if assoc is Some && assoc->0.username != encode_utf8(username) {
                Action::AllocateMismatch
            } else if tri_part(encode_utf8(username)) is Some {
                Action::AllocateSuc
            } else {
                Action::Nothing
            }
        },
        TurnReqView::Refresh { username, lifetime, .. } => {
            if assoc is Some && assoc->0.username == encode_utf8(username) {
                if lifetime == 0 {
                    Action::Remove
                } else if is_hosted(hosted, assoc->0.dst) || is_hosted(hosted, assoc->0.src) {
                    Action::RefreshSuc(clamp_lifetime(lifetime))
                } else {
                    Action::RefreshKick
                }
            } else {
                Action::Nothing
            }
        },
        TurnReqView::Permission { .. } => if assoc is Some {
            Action::PermissionSuc
        } else {
            Action::Nothing
        },
        TurnReqView::BindChannel { .. } => if assoc is Some {
            Action::BindChannelSuc
        } else {
            Action::Nothing
        },
        TurnReqView::Send { .. } | TurnReqView::Channel { .. } => if assoc is Some {
            Action::Relay
        } else {
            Action::Nothing
        },
    }
}

/// A refresh that is granted extends the allocation by the requested
/// lifetime, but by no more than the ceiling.
pub proof fn lemma_refresh_clamps(req: TurnReqView, assoc: Option<AssocView>, hosted: Seq<Seq<u8>>)
    requires
        req is Refresh,
        req->Refresh_lifetime > 0,
    ensures
        match decide_spec(req, assoc, hosted) {
            Action::RefreshSuc(granted) => granted == clamp_lifetime(req->Refresh_lifetime)
                && 0 < granted <= TURN_LIFETIME_SEC && granted <= req->Refresh_lifetime,
            Action::RefreshKick | Action::Nothing => true,
            _ => false,
        },
{
}

/// Whether one of `hosted` is `name`.
pub fn hosted_contains(hosted: &Vec<String>, name: &str) -> (r: bool)
    ensures
        r == is_hosted(hosted_views(hosted@), encode_utf8(name@)),
{
    let mut i: usize = 0;
    while i < hosted.len()
        invariant
            i <= hosted@.len(),
            forall|k: int| 0 <= k < i ==> (#[trigger] hosted_views(hosted@)[k]) != encode_utf8(name@),
        decreases hosted@.len() - i,
    {
        if crate::bytes::same_bytes(hosted[i].as_str().as_bytes(), name.as_bytes()) {
            assert(hosted_views(hosted@)[i as int] == encode_utf8(name@));
            return true;
        }
        i += 1;
    }
    false
}

/// The hosted identities, as bytes.
pub open spec fn hosted_views(hosted: Seq<String>) -> Seq<Seq<u8>> {
    Seq::new(hosted.len(), |i: int| encode_utf8(hosted[i]@))
}

/// Decides what to do with `req` from a client whose live association is
/// `assoc`.
pub fn decide(req: &TurnReq, assoc: Option<&Assoc>, hosted: &Vec<String>) -> (r: Action)
    ensures
        r == decide_spec(
            req@,
            match assoc {
                Some(a) => Some(a@),
                None => None,
            },
            hosted_views(hosted@),
        ),
{
    match req {
        TurnReq::Binding { .. } => Action::BindingRes,
        TurnReq::AllocateNoAuth { .. } => Action::AllocateUseAuth,
        TurnReq::Allocate { username, .. } => {
            let differs = match assoc {
                Some(a) => !a.username.is(username.as_str()),
                None => false,
            };
            if differs {
                Action::AllocateMismatch
            } else {
                match TurnUsername::try_from(username.as_str()) {
                    Some(_) => Action::AllocateSuc,
                    None => Action::Nothing,
                }
            }
        },
        TurnReq::Refresh { username, lifetime, .. } => match assoc {
            Some(a) => {
                if !a.username.is(username.as_str()) {
                    Action::Nothing
                } else if *lifetime == 0 {
                    Action::Remove
                } else if hosted_contains(hosted, a.username.dst()) || hosted_contains(
                    hosted,
                    a.username.src(),
                ) {
                    Action::RefreshSuc(
                        if *lifetime < TURN_LIFETIME_SEC {
                            *lifetime
                        } else {
                            TURN_LIFETIME_SEC
                        },
                    )
                } else {
                    Action::RefreshKick
                }
            },
            None => Action::Nothing,
        },
        TurnReq::Permission { .. } => match assoc {
            Some(_) => Action::PermissionSuc,
            None => Action::Nothing,
        },
        TurnReq::BindChannel { .. } => match assoc {
            Some(_) => Action::BindChannelSuc,
            None => Action::Nothing,
        },
        TurnReq::Send { .. } | TurnReq::Channel { .. } => match assoc {
            Some(_) => Action::Relay,
            None => Action::Nothing,
        },
    }
}


/// The relay: one association for each client address, and the identities
/// that may keep an allocation alive.
#[derive(Debug)]
pub struct Relay {
    pub assocs: Vec<Assoc>,
    pub hosted: Vec<String>,
    pub ice_pwd: Vec<u8>,
}

/// What is to be done once a request has been handled.
#[derive(Debug, Clone, PartialEq, Eq)]
pub enum TurnOp {
    /// Send this answer back to the client.
    Respond(TurnRes),
    /// Pass this payload on to the peers that match.
    Data(Vec<u8>),
    /// Do nothing.
    Nothing,
}

/// The transaction identifier of a request; a channel-data frame has none.
pub open spec fn req_txid(req: TurnReqView) -> Seq<u8> {
    match req {
        TurnReqView::Channel { .. } => Seq::empty(),
        TurnReqView::Send { txid, .. } => txid,
        TurnReqView::Binding { txid } => txid,
        TurnReqView::AllocateNoAuth { txid } => txid,
        TurnReqView::Allocate { txid, .. } => txid,
        TurnReqView::Permission { txid, .. } => txid,
        TurnReqView::Refresh { txid, .. } => txid,
        TurnReqView::BindChannel { txid, .. } => txid,
    }
}

/// The key that a request authenticated with, where it did.
pub open spec fn req_key(req: TurnReqView) -> Seq<u8> {
    match req {
        TurnReqView::Allocate { key_data, .. } => key_data,
        TurnReqView::Permission { key_data, .. } => key_data,
        TurnReqView::Refresh { key_data, .. } => key_data,
        TurnReqView::BindChannel { key_data, .. } => key_data,
        _ => Seq::empty(),
    }
}

/// The payload that a send indication or a channel-data frame carries.
pub open spec fn req_payload(req: TurnReqView) -> Seq<u8> {
    match req {
        TurnReqView::Channel { data, .. } => data,
        TurnReqView::Send { data, .. } => data,
        _ => Seq::empty(),
    }
}

/// Whether `op` is what `action` asks for, on `req` from `addr`.
pub open spec fn carries_out(op: TurnOp, action: Action, req: TurnReqView, addr: SocketAddress) -> bool {
    match action {
        Action::BindingRes => op matches TurnOp::Respond(TurnRes::BindingRes { txid, xmapped })
            && txid@ == req_txid(req) && xmapped == addr,
        Action::AllocateUseAuth => op matches TurnOp::Respond(
            TurnRes::AllocateUseAuth { txid, realm, nonce },
        ) && txid@ == req_txid(req) && realm@ == "realm"@ && nonce@ == "nonce"@,
        Action::AllocateMismatch => op matches TurnOp::Respond(
            TurnRes::AllocateMismatch { txid, key_data },
        ) && txid@ == req_txid(req) && key_data@ == req_key(req),
        Action::AllocateSuc => op matches TurnOp::Respond(
            TurnRes::AllocateSuc { txid, key_data, xmapped, xrelayed, lifetime },
        ) && txid@ == req_txid(req) && key_data@ == req_key(req) && xmapped == addr && xrelayed
            == addr && lifetime == TURN_LIFETIME_SEC,
        Action::Remove => op is Nothing,
        Action::RefreshSuc(granted) => op matches TurnOp::Respond(
            TurnRes::RefreshSuc { txid, key_data, lifetime },
        ) && txid@ == req_txid(req) && key_data@ == req_key(req) && lifetime == granted,
        Action::RefreshKick => op matches TurnOp::Respond(TurnRes::RefreshKick { txid, key_data })
            && txid@ == req_txid(req) && key_data@ == req_key(req),
        Action::PermissionSuc => op matches TurnOp::Respond(
            TurnRes::PermissionSuc { txid, key_data },
        ) && txid@ == req_txid(req) && key_data@ == req_key(req),
        Action::BindChannelSuc => op matches TurnOp::Respond(
            TurnRes::BindChannelSuc { txid, key_data },
        ) && txid@ == req_txid(req) && key_data@ == req_key(req),
        Action::Relay => op matches TurnOp::Data(data) && data@ == req_payload(req),
        Action::Nothing => op is Nothing,
    }
}

/// The association that an allocate request from `addr` at `now` creates.
pub open spec fn created(addr: SocketAddress, req: TurnReqView, now: u64) -> AssocView
    recommends
        req is Allocate,
        tri_part(encode_utf8(req->Allocate_username)) is Some,
{
    let bytes = encode_utf8(req->Allocate_username);
    let (n1, n2, n3) = tri_part(bytes)->0;
    AssocView {
        addr,
        username: bytes,
        dst: bytes.subrange(0, n1),
        src: bytes.subrange(n1 + 1, n1 + 1 + n2),
        token: bytes.subrange(n1 + n2 + 2, n1 + n2 + 2 + n3),
        expires: (now + TURN_LIFETIME_SEC) as u64,
        ice_username: None,
        key_data: req->Allocate_key_data,
    }
}

/// The table after `action` was carried out on the table `live`.
pub open spec fn apply(
    live: Seq<AssocView>,
    action: Action,
    addr: SocketAddress,
    req: TurnReqView,
    now: u64,
) -> Seq<AssocView> {
    match action {
        Action::AllocateSuc => without(live, addr).push(created(addr, req, now)),
        Action::Remove => without(live, addr),
        Action::RefreshSuc(granted) => match index_of(live, addr) {
            Some(i) => live.update(
                i,
                AssocView { expires: (now + granted) as u64, ..live[i] },
            ),
            None => live,
        },
        _ => live,
    }
}

/// In a table without two associations for one client, the place of an
/// association is the place where its address is found.
pub proof fn lemma_index_of(assocs: Seq<AssocView>, addr: SocketAddress, i: int)
    requires
        unique_addrs(assocs),
        0 <= i < assocs.len(),
        assocs[i].addr == addr,
    ensures
        index_of(assocs, addr) == Some(i),
{
}

/// Taking an association out of a table without two associations for one
/// client leaves such a table, with no association for that client.
pub proof fn lemma_remove_unique(assocs: Seq<AssocView>, i: int)
    requires
        unique_addrs(assocs),
        0 <= i < assocs.len(),
    ensures
        unique_addrs(assocs.remove(i)),
        index_of(assocs.remove(i), assocs[i].addr) is None,
{
    let rest = assocs.remove(i);
    assert forall|j: int| 0 <= j < rest.len() implies (#[trigger] rest[j]).addr != assocs[i].addr
        && rest[j] == assocs[if j < i {
        j
    } else {
        j + 1
    }] by {}
    assert forall|j: int, k: int|
        0 <= j < rest.len() && 0 <= k < rest.len() && (#[trigger] rest[j]).addr == (
        #[trigger] rest[k]).addr implies j == k by {
        let jj = if j < i {
            j
        } else {
            j + 1
        };
        let kk = if k < i {
            k
        } else {
            k + 1
        };
        assert(assocs[jj].addr == assocs[kk].addr);
    }
}

impl Relay {
    /// The table of associations, as mathematical values.
    pub open spec fn table(&self) -> Seq<AssocView> {
        assoc_views(self.assocs@)
    }

    /// Whether no two associations are for the same client.
    pub open spec fn wf(&self) -> bool {
        unique_addrs(self.table())
    }

    /// A relay without associations, for the given hosted identities and the
    /// ICE password that the relay itself answers to.
    pub fn new(hosted: Vec<String>, ice_pwd: Vec<u8>) -> (r: Relay)
        ensures
            r.wf(),
            r.table() == Seq::<AssocView>::empty(),
            r.hosted == hosted,
            r.ice_pwd == ice_pwd,
    {
        let r = Relay { assocs: Vec::new(), hosted, ice_pwd };
        assert(r.table() =~= Seq::<AssocView>::empty());
        r
    }

    /// The place of the association for `addr`, if there is one.
    pub fn find(&self, addr: &SocketAddress) -> (r: Option<usize>)
        requires
            self.wf(),
        ensures
            match r {
                Some(i) => index_of(self.table(), *addr) == Some(i as int) && i < self.assocs@.len(),
                None => index_of(self.table(), *addr) is None,
            },
    {
        let mut i: usize = 0;
        while i < self.assocs.len()
            invariant
                self.wf(),
                i <= self.assocs@.len(),
                forall|k: int| 0 <= k < i ==> (#[trigger] self.table()[k]).addr != *addr,
            decreases self.assocs@.len() - i,
        {
            if self.assocs[i].addr == *addr {
                proof {
                    assert(self.table()[i as int].addr == *addr);
                    lemma_index_of(self.table(), *addr, i as int);
                }
                return Some(i);
            }
            i += 1;
        }
        None
    }

    /// Takes the association at `i` out of the table.
    fn remove_at(&mut self, i: usize)
        requires
            old(self).wf(),
            i < old(self).assocs@.len(),
        ensures
            final(self).wf(),
            final(self).table() == old(self).table().remove(i as int),
            final(self).hosted == old(self).hosted,
            final(self).ice_pwd == old(self).ice_pwd,
            index_of(final(self).table(), old(self).table()[i as int].addr) is None,
    {
        let ghost before = self.table();
        self.assocs.remove(i);
        proof {
            assert(self.table() =~= before.remove(i as int));
            lemma_remove_unique(before, i as int);
        }
    }

    /// Looks up the association for `addr` at `now`. One that has run out is
    /// taken out of the table and not found.
    pub fn lookup_live(&mut self, addr: &SocketAddress, now: u64) -> (r: Option<usize>)
        requires
            old(self).wf(),
        ensures
            final(self).wf(),
            final(self).hosted == old(self).hosted,
            final(self).ice_pwd == old(self).ice_pwd,
            final(self).table() == evicted(old(self).table(), *addr, now),
            match r {
                Some(i) => {
                    &&& index_of(final(self).table(), *addr) == Some(i as int)
                    &&& i < final(self).assocs@.len()
                },
                None => index_of(final(self).table(), *addr) is None,
            },
    {
        match self.find(addr) {
            Some(i) => {
                if self.assocs[i].expires < now {
                    self.remove_at(i);
                    None
                } else {
                    Some(i)
                }
            },
            None => None,
        }
    }

    /// Handles one request from `addr` at time `now` (in seconds): looks up
    /// the client's association, decides, changes the table as decided, and
    /// says what is to be sent.
    pub fn handle_turn(&mut self, addr: SocketAddress, req: TurnReq, now: u64) -> (op: TurnOp)
        requires
            old(self).wf(),
            now + TURN_LIFETIME_SEC <= u64::MAX,
        ensures
            final(self).wf(),
            final(self).hosted == old(self).hosted,
            final(self).ice_pwd == old(self).ice_pwd,
            ({
                let live = evicted(old(self).table(), addr, now);
                let action = decide_spec(
                    req@,
                    lookup(live, addr),
                    hosted_views(old(self).hosted@),
                );
                &&& carries_out(op, action, req@, addr)
                &&& final(self).table() == apply(live, action, addr, req@, now)
            }),
    {
        let found = self.lookup_live(&addr, now);
        let ghost live = self.table();
        let action = decide(
            &req,
            match found {
                Some(i) => Some(&self.assocs[i]),
                None => None,
            },
            &self.hosted,
        );
        proof {
            if found is Some {
                assert(live[found->0 as int] == self.assocs@[found->0 as int]@);
            }
        }
        match action {
            Action::AllocateSuc => {
                if let Some(i) = found {
                    self.remove_at(i);
                }
                if let TurnReq::Allocate { txid, username, key_data, .. } = req {
                    match TurnUsername::try_from(username.as_str()) {
                        Some(name) => {
                            let ghost rest = self.table();
                            let assoc = Assoc {
                                addr,
                                username: name,
                                expires: now + TURN_LIFETIME_SEC as u64,
                                ice_username: None,
                                key_data,
                            };
                            self.assocs.push(assoc);
                            proof {
                                assert(self.table() =~= rest.push(created(addr, req@, now)));
                                assert(index_of(rest, addr) is None);
                            }
                            TurnOp::Respond(
                                TurnRes::AllocateSuc {
                                    txid,
                                    key_data,
                                    xmapped: addr,
                                    xrelayed: addr,
                                    lifetime: TURN_LIFETIME_SEC,
                                },
                            )
                        },
                        None => TurnOp::Nothing,
                    }
                } else {
                    TurnOp::Nothing
                }
            },
            Action::Remove => {
                if let Some(i) = found {
                    self.remove_at(i);
                }
                TurnOp::Nothing
            },
            Action::RefreshSuc(granted) => {
                if let Some(i) = found {
                    let old_assoc = self.assocs.remove(i);
                    let assoc = Assoc {
                        addr: old_assoc.addr,
                        username: old_assoc.username,
                        expires: now + granted as u64,
                        ice_username: old_assoc.ice_username,
                        key_data: old_assoc.key_data,
                    };
                    self.assocs.insert(i, assoc);
                    proof {
                        assert(self.table() =~= live.update(
                            i as int,
                            AssocView { expires: (now + granted) as u64, ..live[i as int] },
                        ));
                        assert forall|j: int, k: int|
                            0 <= j < self.table().len() && 0 <= k < self.table().len() && (
                            #[trigger] self.table()[j]).addr == (#[trigger] self.table()[k]).addr
                            implies j == k by {
                            assert(live[j].addr == live[k].addr);
                        }
                    }
                }
                if let TurnReq::Refresh { txid, key_data, .. } = req {
                    TurnOp::Respond(TurnRes::RefreshSuc { txid, key_data, lifetime: granted })
                } else {
                    TurnOp::Nothing
                }
            },
            Action::BindingRes => {
                if let TurnReq::Binding { txid } = req {
                    TurnOp::Respond(TurnRes::BindingRes { txid, xmapped: addr })
                } else {
                    TurnOp::Nothing
                }
            },
            Action::AllocateUseAuth => {
                if let TurnReq::AllocateNoAuth { txid } = req {
                    TurnOp::Respond(
                        TurnRes::AllocateUseAuth {
                            txid,
                            realm: "realm".to_owned(),
                            nonce: "nonce".to_owned(),
                        },
                    )
                } else {
                    TurnOp::Nothing
                }
            },
            Action::AllocateMismatch => {
                if let TurnReq::Allocate { txid, key_data, .. } = req {
                    TurnOp::Respond(TurnRes::AllocateMismatch { txid, key_data })
                } else {
                    TurnOp::Nothing
                }
            },
            Action::RefreshKick => {
                if let TurnReq::Refresh { txid, key_data, .. } = req {
                    TurnOp::Respond(TurnRes::RefreshKick { txid, key_data })
                } else {
                    TurnOp::Nothing
                }
            },
            Action::PermissionSuc => {
                if let TurnReq::Permission { txid, key_data, .. } = req {
                    TurnOp::Respond(TurnRes::PermissionSuc { txid, key_data })
                } else {
                    TurnOp::Nothing
                }
            },
            Action::BindChannelSuc => {
                if let TurnReq::BindChannel { txid, key_data, .. } = req {
                    TurnOp::Respond(TurnRes::BindChannelSuc { txid, key_data })
                } else {
                    TurnOp::Nothing
                }
            },
            Action::Relay => match req {
                TurnReq::Send { data, .. } => TurnOp::Data(data),
                TurnReq::Channel { data, .. } => TurnOp::Data(data),
                _ => TurnOp::Nothing,
            },
            Action::Nothing => TurnOp::Nothing,
        }
    }
}


/// The password of the long-term credential, where none is configured.
pub const TURN_PWD: &'static str = "the/turn/password/constant";

/// The ICE password that the relay answers to, where none is configured.
pub const ICE_PWD: &'static str = "the/ice/password/constant";

/// The key that `username` authenticates with: none without a realm, else
/// the key of the long-term credential under the built-in password.
pub open spec fn turn_auth_spec(username: Seq<char>, realm: Option<Seq<char>>) -> Option<[u8; 16]> {
    match realm {
        Some(realm) => Some(md5_of(key_input(username, realm, TURN_PWD@))),
        None => None,
    }
}

/// The key that `username` authenticates with: none without a realm, else
/// the key of the long-term credential under the built-in password.
pub fn turn_auth(username: &str, realm: Option<&str>) -> (r: Option<[u8; 16]>)
    ensures
        r == turn_auth_spec(username@, opt_text(realm)),
{
    match realm {
        Some(realm) => Some(turn_key(username, realm, TURN_PWD)),
        None => None,
    }
}

/// Whether `s` holds a colon.
pub open spec fn has_colon(s: Seq<u8>) -> bool {
    find_byte(s, COLON, 0) < s.len()
}

/// What follows the first colon of `s`.
pub open spec fn after_colon(s: Seq<u8>) -> Seq<u8> {
    s.subrange(find_byte(s, COLON, 0) + 1, s.len() as int)
}

/// The two halves of `s` around its first colon, the second one first, with
/// a colon between them; nothing where `s` holds no colon.
pub open spec fn swapped(s: Seq<u8>) -> Option<Seq<u8>> {
    if has_colon(s) {
        Some(after_colon(s) + seq![COLON] + s.subrange(0, find_byte(s, COLON, 0)))
    } else {
        None
    }
}

/// The payload as it is passed on to a peer whose ICE username is
/// `ice_username`. A connectivity check that verifies under the relay's own
/// ICE password is signed anew with the peer's password, under the peer's
/// username and with priority 1; a response to a check is signed anew with
/// the relay's password; anything else goes on as it is.
pub open spec fn fixup_spec(w: WebRTCView, ice_username: Seq<char>, relay_pwd: Seq<u8>) -> WebRTCView {
    match w {
        WebRTCView::IceReq {
            txid,
            integrity,
            username,
            priority,
            tie_breaker,
            is_controlling,
            use_candidate,
        } => if integrity.verifies(relay_pwd) {
            WebRTCView::IceReq {
                txid,
                integrity: IntegrityView::Sign {
                    key_data: after_colon(encode_utf8(ice_username)),
                },
                username: ice_username,
                priority: 1,
                tie_breaker,
                is_controlling,
                use_candidate,
            }
        } else {
            w
        },
        WebRTCView::IceRes { txid, xmapped, integrity } => WebRTCView::IceRes {
            txid,
            xmapped,
            integrity: IntegrityView::Sign { key_data: relay_pwd },
        },
        WebRTCView::IceErr { txid, integrity, code, message } => WebRTCView::IceErr {
            txid,
            integrity: IntegrityView::Sign { key_data: relay_pwd },
            code,
            message,
        },
        _ => w,
    }
}

/// Rewrites the credentials of a payload for a peer whose ICE username is
/// `ice_username`; `relay_pwd` is the ICE password that the relay answers to.
pub fn fixup_webrtc_creds(webrtc: WebRTC, ice_username: &str, relay_pwd: &[u8]) -> (r: WebRTC)
    requires
        has_colon(encode_utf8(ice_username@)),
    ensures
        r@ == fixup_spec(webrtc@, ice_username@, relay_pwd@),
{
    match webrtc {
        WebRTC::IceReq {
            txid,
            integrity,
            username,
            priority,
            tie_breaker,
            is_controlling,
            use_candidate,
        } => {
            if integrity.verify(relay_pwd) {
                let bytes = ice_username.as_bytes();
                let n: usize = bytes.len();
                let colon: usize = index_of_byte(bytes, COLON, 0);
                let ice_pwd = copy_range(bytes, colon + 1, n);
                WebRTC::IceReq {
                    txid,
                    integrity: Integrity::Sign { key_data: ice_pwd },
                    username: ice_username.to_owned(),
                    priority: 1,
                    tie_breaker,
                    is_controlling,
                    use_candidate,
                }
            } else {
                WebRTC::IceReq {
                    txid,
                    integrity,
                    username,
                    priority,
                    tie_breaker,
                    is_controlling,
                    use_candidate,
                }
            }
        },
        WebRTC::IceRes { txid, xmapped, integrity } => {
            let key = copy_range(relay_pwd, 0, relay_pwd.len());
            assert(key@ =~= relay_pwd@);
            WebRTC::IceRes { txid, xmapped, integrity: Integrity::Sign { key_data: key } }
        },
        WebRTC::IceErr { txid, integrity, error } => {
            let key = copy_range(relay_pwd, 0, relay_pwd.len());
            assert(key@ =~= relay_pwd@);
            WebRTC::IceErr { txid, integrity: Integrity::Sign { key_data: key }, error }
        },
        WebRTC::Dtls(b) => WebRTC::Dtls(b),
        WebRTC::Rtp(b) => WebRTC::Rtp(b),
    }
}

/// The ICE username that is kept for a client whose connectivity check names
/// `username`: its two halves swapped, where it has two.
pub open spec fn ice_username_of(username: Seq<char>) -> Option<Seq<char>> {
    match swapped(encode_utf8(username)) {
        Some(bytes) => text_of(bytes),
        None => None,
    }
}

/// The ICE username that is kept for a client whose connectivity check names
/// `username`.
pub fn swap_halves(username: &str) -> (r: Option<String>)
    ensures
        match r {
            Some(s) => ice_username_of(username@) == Some(s@),
            None => ice_username_of(username@) is None,
        },
{
    let bytes = username.as_bytes();
    let colon: usize = index_of_byte(bytes, COLON, 0);
    if colon >= bytes.len() {
        return None;
    }
    let mut out: Vec<u8> = copy_range(bytes, colon + 1, bytes.len());
    out.push(COLON);
    push_all(&mut out, vstd::slice::slice_subrange(bytes, 0, colon));
    assert(out@ =~= swapped(bytes@)->0);
    text_from_utf8(out)
}


/// A data indication on its way to a peer.
#[derive(Debug, Clone, PartialEq, Eq)]
pub struct Forward {
    pub to: SocketAddress,
    pub res: TurnRes,
}

/// What a data indication on its way to a peer amounts to.
pub struct ForwardView {
    pub to: SocketAddress,
    pub txid: Seq<u8>,
    pub xpeer: SocketAddress,
    pub data: DataView,
}

impl Forward {
    /// Whether this carries a data indication.
    pub open spec fn wf(&self) -> bool {
        self.res is Data
    }
}

impl View for Forward {
    type V = ForwardView;

    open spec fn view(&self) -> ForwardView {
        ForwardView {
            to: self.to,
            txid: self.res->Data_txid@,
            xpeer: self.res->Data_xpeer,
            data: self.res->Data_data@,
        }
    }
}

/// The values of a sequence of data indications.
pub open spec fn forward_views(out: Seq<Forward>) -> Seq<ForwardView> {
    Seq::new(out.len(), |n: int| out[n]@)
}

/// Whether the association at `j` is a peer that the payload of the client
/// at `i` is passed on to: another association that names the client as the
/// client names it, has not run out, and has an ICE username with its colon.
pub open spec fn peer_ok(table: Seq<AssocView>, i: int, j: int, now: u64) -> bool {
    &&& j != i
    &&& table[i].matches(table[j])
    &&& now < table[j].expires
    &&& table[j].ice_username is Some
    &&& has_colon(encode_utf8(table[j].ice_username->0))
}

/// The data indications that the payload `w` of the client at `i` gives rise
/// to among the first `k` associations of the table, in table order. RTP is
/// passed on to nobody.
pub open spec fn forwards(
    table: Seq<AssocView>,
    i: int,
    w: WebRTCView,
    relay_pwd: Seq<u8>,
    now: u64,
    txid: Seq<u8>,
    k: int,
) -> Seq<ForwardView>
    decreases k,
{
    if k <= 0 {
        Seq::empty()
    } else {
        let before = forwards(table, i, w, relay_pwd, now, txid, k - 1);
        let j = k - 1;
        if peer_ok(table, i, j, now) && !(w is Rtp) {
            before.push(
                ForwardView {
                    to: table[j].addr,
                    txid,
                    xpeer: table[i].addr,
                    data: fixup_spec(w, table[j].ice_username->0, relay_pwd).encoded(),
                },
            )
        } else {
            before
        }
    }
}

/// The table once the payload `w` of the client at `i` was looked at: a
/// connectivity check gives a client that has no ICE username yet the one
/// that the check names, halves swapped.
pub open spec fn noted(table: Seq<AssocView>, i: int, w: WebRTCView) -> Seq<AssocView> {
    match w {
        WebRTCView::IceReq { username, .. } => if table[i].ice_username is None
            && ice_username_of(username) is Some {
            table.update(i, AssocView { ice_username: ice_username_of(username), ..table[i] })
        } else {
            table
        },
        _ => table,
    }
}

impl Relay {
    /// Gives the association at `i` an ICE username.
    fn set_ice_username(&mut self, i: usize, name: String)
        requires
            old(self).wf(),
            i < old(self).assocs@.len(),
        ensures
            final(self).wf(),
            final(self).hosted == old(self).hosted,
            final(self).ice_pwd == old(self).ice_pwd,
            final(self).table() == old(self).table().update(
                i as int,
                AssocView { ice_username: Some(name@), ..old(self).table()[i as int] },
            ),
    {
        let ghost before = self.table();
        let old_assoc = self.assocs.remove(i);
        let assoc = Assoc {
            addr: old_assoc.addr,
            username: old_assoc.username,
            expires: old_assoc.expires,
            ice_username: Some(name),
            key_data: old_assoc.key_data,
        };
        self.assocs.insert(i, assoc);
        proof {
            assert(self.table() =~= before.update(
                i as int,
                AssocView { ice_username: Some(name@), ..before[i as int] },
            ));
            assert forall|j: int, k: int|
                0 <= j < self.table().len() && 0 <= k < self.table().len() && (
                #[trigger] self.table()[j]).addr == (#[trigger] self.table()[k]).addr implies j
                == k by {
                assert(before[j].addr == before[k].addr);
            }
        }
    }

    /// Passes the payload of a client on at time `now`: looks up the
    /// client's association (one that has run out is taken out and not
    /// found), tells what the payload is, notes the ICE username of a
    /// connectivity check, and makes a data indication, under the transaction
    /// identifier `txid`, for each peer that matches, with the credentials
    /// rewritten for that peer. A payload that is not recognised, or comes
    /// from a client without a live association, is dropped.
    pub fn relay_payload(&mut self, addr: SocketAddress, data: &[u8], now: u64, txid: [u8; 12]) -> (out:
        Vec<Forward>)
        requires
            old(self).wf(),
        ensures
            final(self).wf(),
            final(self).hosted == old(self).hosted,
            final(self).ice_pwd == old(self).ice_pwd,
            forall|n: int| 0 <= n < out@.len() ==> (#[trigger] out@[n]).wf(),
            ({
                let live = evicted(old(self).table(), addr, now);
                match (index_of(live, addr), webrtc_of(data@)) {
                    (Some(i), Some(w)) => {
                        &&& final(self).table() == noted(live, i, w)
                        &&& forward_views(out@) == forwards(
                            final(self).table(),
                            i,
                            w,
                            old(self).ice_pwd@,
                            now,
                            txid@,
                            final(self).table().len() as int,
                        )
                    },
                    _ => final(self).table() == live && out@.len() == 0,
                }
            }),
    {
        let mut out: Vec<Forward> = Vec::new();
        let i: usize = match self.lookup_live(&addr, now) {
            Some(i) => i,
            None => {
                return out;
            },
        };
        let ghost live = self.table();
        let webrtc = match WebRTC::decode(data) {
            Some(w) => w,
            None => {
                return out;
            },
        };
        let ghost w = webrtc@;
        if let WebRTC::IceReq { username, .. } = &webrtc {
            if self.assocs[i].ice_username.is_none() {
                if let Some(name) = swap_halves(username.as_str()) {
                    self.set_ice_username(i, name);
                }
            }
        }
        let ghost table = self.table();
        assert(table == noted(live, i as int, w));
        assert(table[i as int].addr == addr);
        let is_rtp: bool = match &webrtc {
            WebRTC::Rtp(_) => true,
            _ => false,
        };
        let mut j: usize = 0;
        while j < self.assocs.len()
            invariant
                j <= self.assocs@.len(),
                self.wf(),
                self.table() == table,
                i < self.assocs@.len(),
                table[i as int].addr == addr,
                webrtc@ == w,
                is_rtp == (w is Rtp),
                forall|n: int| 0 <= n < out@.len() ==> (#[trigger] out@[n]).wf(),
                forward_views(out@) == forwards(table, i as int, w, self.ice_pwd@, now, txid@, j as int),
            decreases self.assocs@.len() - j,
        {
            let peer = &self.assocs[j];
            assert(table[j as int] == peer@);
            assert(table[i as int] == self.assocs@[i as int]@);
            let named: bool = j != i && self.assocs[i].username.matches(&peer.username) && now
                < peer.expires && !is_rtp;
            if named {
                if let Some(ice_username) = &peer.ice_username {
                    let bytes = ice_username.as_str().as_bytes();
                    if index_of_byte(bytes, COLON, 0) < bytes.len() {
                        let fixed = fixup_webrtc_creds(
                            webrtc.copy(),
                            ice_username.as_str(),
                            self.ice_pwd.as_slice(),
                        );
                        let ghost views = forward_views(out@);
                        let forward = Forward {
                            to: peer.addr,
                            res: TurnRes::Data {
                                txid,
                                xpeer: addr,
                                data: fixed.encode().into_data(),
                            },
                        };
                        out.push(forward);
                        assert(forward_views(out@) =~= views.push(forward@));
                    }
                }
            }
            j += 1;
        }
        out
    }
}


/// The request that a datagram stands for, with the built-in password for
/// the long-term credential: a channel-data frame, or a STUN message that is
/// decoded, authenticated and classified.
pub open spec fn request_of(buff: Seq<u8>) -> Option<TurnReqView> {
    if buff.len() >= 2 && from_be16(buff.subrange(0, 2)) >= 0x4000 {
        channel_frame(buff)
    } else {
        match decode_spec(buff) {
            Err(_) => None,
            Ok(m) => {
                let flat = flat_of(m.attrs);
                let auth = if flat.username is Some && flat.integrity is Some {
                    flat.auth_outcome(turn_auth_spec(flat.username->0, flat.realm))
                } else {
                    None
                };
                classify_spec(m.typ, m.txid, flat, auth)
            },
        }
    }
}

/// Reads a datagram as a request, with the built-in password for the
/// long-term credential.
pub fn decode_request(buff: &[u8]) -> (r: Option<TurnReq>)
    ensures
        match r {
            Some(req) => request_of(buff@) == Some(req@),
            None => request_of(buff@) is None,
        },
{
    let r = TurnReq::decode(buff, turn_auth);
    proof {
        if !(buff@.len() >= 2 && from_be16(buff@.subrange(0, 2)) >= 0x4000) {
            if let Ok(m) = decode_spec(buff@) {
                let flat = flat_of(m.attrs);
                let auth = choose|auth: Option<(Seq<char>, Seq<u8>)>|
                    {
                        &&& authenticated_by(flat, turn_auth, auth)
                        &&& match r {
                            Some(req) => classify_spec(m.typ, m.txid, flat, auth) == Some(req@),
                            None => classify_spec(m.typ, m.txid, flat, auth) is None,
                        }
                    };
                assert(authenticated_by(flat, turn_auth, auth));
            }
        }
    }
    r
}

} // verus!
