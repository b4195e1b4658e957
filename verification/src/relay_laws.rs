//! What holds of the relay engine: what each kind of request leads to, for
//! every table and every request of that kind.
use crate::addr::SocketAddress;
use crate::attr::IntegrityView;
use crate::relay::{
    after_colon, apply, clamp_lifetime, created, decide_spec, evicted, fixup_spec, forwards,
    index_of, is_hosted, lookup, noted, peer_ok, unique_addrs, without, Action,
    AssocView, ForwardView, TURN_LIFETIME_SEC,
};
use crate::turn::TurnReqView;
use crate::username::{lemma_tri_part, tri_part, DOT};
use crate::webrtc::WebRTCView;
use vstd::prelude::*;
use vstd::utf8::encode_utf8;

verus! {

/// A lookup leaves a table alone where the client has no association or one
/// that has not run out.
pub proof fn lemma_live_table_stays(table: Seq<AssocView>, addr: SocketAddress, now: u64)
    requires
        match lookup(table, addr) {
            Some(a) => !a.expired(now),
            None => true,
        },
    ensures
        evicted(table, addr, now) == table,
{
}

/// An allocate request under a username of three segments, from a client
/// without an association, creates one: the table gains one entry, for that
/// client, with the three segments of the username, a lifetime of sixty
/// seconds from `now` and no ICE username; the entries before it stay. The
/// answer is the success response with the ceiling as its lifetime.
pub proof fn lemma_allocate_creates(
    table: Seq<AssocView>,
    addr: SocketAddress,
    req: TurnReqView,
    hosted: Seq<Seq<u8>>,
    now: u64,
)
    requires
        index_of(table, addr) is None,
        req is Allocate,
        tri_part(encode_utf8(req->Allocate_username)) is Some,
        now + TURN_LIFETIME_SEC <= u64::MAX,
    ensures
        evicted(table, addr, now) == table,
        decide_spec(req, lookup(table, addr), hosted) == Action::AllocateSuc,
        apply(table, Action::AllocateSuc, addr, req, now) == table.push(created(addr, req, now)),
        created(addr, req, now).addr == addr,
        created(addr, req, now).expires == now + 60,
        created(addr, req, now).ice_username is None,
        created(addr, req, now).key_data == req->Allocate_key_data,
        created(addr, req, now).username == encode_utf8(req->Allocate_username),
        created(addr, req, now).dst + seq![DOT] + created(addr, req, now).src + seq![DOT]
            + created(addr, req, now).token == encode_utf8(req->Allocate_username),
{
    lemma_tri_part(encode_utf8(req->Allocate_username));
}

/// An allocate request under another username than that of the client's
/// association, which has not run out, is refused as a mismatch, and the
/// table stays as it was.
pub proof fn lemma_mismatch_keeps_table(
    table: Seq<AssocView>,
    addr: SocketAddress,
    req: TurnReqView,
    hosted: Seq<Seq<u8>>,
    now: u64,
)
    requires
        lookup(table, addr) is Some,
        !lookup(table, addr)->0.expired(now),
        req is Allocate,
        encode_utf8(req->Allocate_username) != lookup(table, addr)->0.username,
    ensures
        evicted(table, addr, now) == table,
        decide_spec(req, lookup(table, addr), hosted) == Action::AllocateMismatch,
        apply(table, Action::AllocateMismatch, addr, req, now) == table,
{
}

/// A refresh for a lifetime above zero, under the username of the client's
/// association, which has not run out, is refused where neither identity of
/// the username is hosted, and the table stays as it was.
pub proof fn lemma_refresh_kicks(
    table: Seq<AssocView>,
    addr: SocketAddress,
    req: TurnReqView,
    hosted: Seq<Seq<u8>>,
    now: u64,
)
    requires
        lookup(table, addr) is Some,
        !lookup(table, addr)->0.expired(now),
        req is Refresh,
        req->Refresh_lifetime > 0,
        encode_utf8(req->Refresh_username) == lookup(table, addr)->0.username,
        !is_hosted(hosted, lookup(table, addr)->0.dst),
        !is_hosted(hosted, lookup(table, addr)->0.src),
    ensures
        evicted(table, addr, now) == table,
        decide_spec(req, lookup(table, addr), hosted) == Action::RefreshKick,
        apply(table, Action::RefreshKick, addr, req, now) == table,
{
}

/// A refresh for a lifetime above zero, under the username of the client's
/// association, which has not run out, is granted where one identity of the
/// username is hosted: for the requested lifetime, but for no more than the
/// ceiling. The association then runs out that many seconds from `now`, and
/// nothing else of it or of the table changes.
pub proof fn lemma_refresh_grants(
    table: Seq<AssocView>,
    addr: SocketAddress,
    req: TurnReqView,
    hosted: Seq<Seq<u8>>,
    now: u64,
)
    requires
        unique_addrs(table),
        lookup(table, addr) is Some,
        !lookup(table, addr)->0.expired(now),
        req is Refresh,
        req->Refresh_lifetime > 0,
        encode_utf8(req->Refresh_username) == lookup(table, addr)->0.username,
        is_hosted(hosted, lookup(table, addr)->0.dst) || is_hosted(
            hosted,
            lookup(table, addr)->0.src,
        ),
        now + TURN_LIFETIME_SEC <= u64::MAX,
    ensures
        evicted(table, addr, now) == table,
        decide_spec(req, lookup(table, addr), hosted) == Action::RefreshSuc(
            clamp_lifetime(req->Refresh_lifetime),
        ),
        clamp_lifetime(req->Refresh_lifetime) == (if req->Refresh_lifetime < 60 {
            req->Refresh_lifetime
        } else {
            60u32
        }),
        ({
            let granted = clamp_lifetime(req->Refresh_lifetime);
            let after = apply(table, Action::RefreshSuc(granted), addr, req, now);
            let i = index_of(table, addr)->0;
            &&& after.len() == table.len()
            &&& after[i].expires == now + granted
            &&& after[i] == (AssocView { expires: after[i].expires, ..table[i] })
            &&& forall|j: int| 0 <= j < table.len() && j != i ==> after[j] == table[j]
        }),
{
}

/// A refresh for the lifetime zero, under the username of the client's
/// association, which has not run out, deletes the association.
pub proof fn lemma_refresh_to_zero_deletes(
    table: Seq<AssocView>,
    addr: SocketAddress,
    req: TurnReqView,
    hosted: Seq<Seq<u8>>,
    now: u64,
)
    requires
        unique_addrs(table),
        lookup(table, addr) is Some,
        !lookup(table, addr)->0.expired(now),
        req is Refresh,
        req->Refresh_lifetime == 0,
        encode_utf8(req->Refresh_username) == lookup(table, addr)->0.username,
    ensures
        decide_spec(req, lookup(table, addr), hosted) == Action::Remove,
        apply(evicted(table, addr, now), Action::Remove, addr, req, now) == without(table, addr),
        lookup(without(table, addr), addr) is None,
{
    let i = index_of(table, addr)->0;
    crate::relay::lemma_remove_unique(table, i);
}

/// An RTP packet is passed on to nobody, and leaves the table as it was.
pub proof fn lemma_rtp_is_dropped(
    table: Seq<AssocView>,
    i: int,
    w: WebRTCView,
    relay_pwd: Seq<u8>,
    now: u64,
    txid: Seq<u8>,
    k: int,
)
    requires
        w is Rtp,
    ensures
        forwards(table, i, w, relay_pwd, now, txid, k) == Seq::<ForwardView>::empty(),
        noted(table, i, w) == table,
    decreases k,
{
    if k > 0 {
        lemma_rtp_is_dropped(table, i, w, relay_pwd, now, txid, k - 1);
    }
}

/// Every data indication that a payload gives rise to goes to a peer that
/// matches the sender, carries the sender's address and the given
/// transaction identifier, and none goes to the sender itself.
pub proof fn lemma_forwards_go_to_peers(
    table: Seq<AssocView>,
    i: int,
    w: WebRTCView,
    relay_pwd: Seq<u8>,
    now: u64,
    txid: Seq<u8>,
    k: int,
)
    requires
        unique_addrs(table),
        0 <= i < table.len(),
        0 <= k <= table.len(),
    ensures
        forall|n: int|
            0 <= n < forwards(table, i, w, relay_pwd, now, txid, k).len() ==> {
                let f = #[trigger] forwards(table, i, w, relay_pwd, now, txid, k)[n];
                &&& f.to != table[i].addr
                &&& f.xpeer == table[i].addr
                &&& f.txid == txid
                &&& exists|j: int|
                    0 <= j < k && peer_ok(table, i, j, now) && f.to == table[j].addr && f.data
                        == fixup_spec(w, table[j].ice_username->0, relay_pwd).encoded()
            },
    decreases k,
{
    if k > 0 {
        lemma_forwards_go_to_peers(table, i, w, relay_pwd, now, txid, k - 1);
        let before = forwards(table, i, w, relay_pwd, now, txid, k - 1);
        let all = forwards(table, i, w, relay_pwd, now, txid, k);
        assert forall|n: int| 0 <= n < all.len() implies {
            let f = #[trigger] all[n];
            &&& f.to != table[i].addr
            &&& f.xpeer == table[i].addr
            &&& f.txid == txid
            &&& exists|j: int|
                0 <= j < k && peer_ok(table, i, j, now) && f.to == table[j].addr && f.data
                    == fixup_spec(w, table[j].ice_username->0, relay_pwd).encoded()
        } by {
            if n < before.len() {
                assert(all[n] == before[n]);
                let j = choose|j: int|
                    0 <= j < k - 1 && peer_ok(table, i, j, now) && before[n].to == table[j].addr
                        && before[n].data == fixup_spec(
                        w,
                        table[j].ice_username->0,
                        relay_pwd,
                    ).encoded();
                assert(0 <= j < k && peer_ok(table, i, j, now));
            } else {
                assert(peer_ok(table, i, k - 1, now));
                assert(table[k - 1].addr != table[i].addr);
            }
        }
    }
}

/// Where exactly one association of the table is a peer of the sender, a
/// payload that is no RTP packet gives rise to exactly one data indication,
/// to that peer, with the credentials rewritten for it.
pub proof fn lemma_one_peer_one_forward(
    table: Seq<AssocView>,
    i: int,
    peer: int,
    w: WebRTCView,
    relay_pwd: Seq<u8>,
    now: u64,
    txid: Seq<u8>,
    k: int,
)
    requires
        0 <= peer < table.len(),
        0 <= k <= table.len(),
        !(w is Rtp),
        forall|j: int| 0 <= j < table.len() ==> (peer_ok(table, i, j, now) <==> j == peer),
    ensures
        forwards(table, i, w, relay_pwd, now, txid, k) == (if k <= peer {
            Seq::<ForwardView>::empty()
        } else {
            seq![
                ForwardView {
                    to: table[peer].addr,
                    txid,
                    xpeer: table[i].addr,
                    data: fixup_spec(w, table[peer].ice_username->0, relay_pwd).encoded(),
                },
            ]
        }),
    decreases k,
{
    if k > 0 {
        lemma_one_peer_one_forward(table, i, peer, w, relay_pwd, now, txid, k - 1);
        let before = forwards(table, i, w, relay_pwd, now, txid, k - 1);
        if k - 1 == peer {
            assert(before.push(
                ForwardView {
                    to: table[peer].addr,
                    txid,
                    xpeer: table[i].addr,
                    data: fixup_spec(w, table[peer].ice_username->0, relay_pwd).encoded(),
                },
            ) =~= seq![
                ForwardView {
                    to: table[peer].addr,
                    txid,
                    xpeer: table[i].addr,
                    data: fixup_spec(w, table[peer].ice_username->0, relay_pwd).encoded(),
                },
            ]);
        }
    }
}

/// A connectivity check that verifies under the relay's own ICE password is
/// passed on with priority 1, under the peer's ICE username, and signed with
/// what follows the colon of that username; everything else of it stays.
pub proof fn lemma_check_is_rewritten(w: WebRTCView, ice_username: Seq<char>, relay_pwd: Seq<u8>)
    requires
        w is IceReq,
        w->IceReq_integrity.verifies(relay_pwd),
    ensures
        fixup_spec(w, ice_username, relay_pwd) == (WebRTCView::IceReq {
            txid: w->IceReq_txid,
            integrity: IntegrityView::Sign { key_data: after_colon(encode_utf8(ice_username)) },
            username: ice_username,
            priority: 1,
            tie_breaker: w->IceReq_tie_breaker,
            is_controlling: w->IceReq_is_controlling,
            use_candidate: w->IceReq_use_candidate,
        }),
{
}

} // verus!
