//! What holds of messages that were written and are read back.
use crate::attr::{AttrView, IntegrityView, TYP_FINGERPRINT, TYP_INTEGRITY};
use crate::flat::{flat_of, lemma_kept_unique, lemma_shown_at, opt_text, shown};
use crate::turn::{authenticated_by, classify_spec, TurnReqView, METHOD_REFRESH};
use crate::typ::StunTyp;
use crate::stun::{
    attrs_bytes, body_len, decode_spec, find_frame, fingerprint_ok, kept, lemma_attrs_bytes_len,
    lemma_body_len_aligned, lemma_decode_encode, lemma_frame_at, lemma_frame_fields, read_attrs,
    StunView,
};
use vstd::prelude::*;

verus! {

/// A message that was written with an integrity attribute keyed by `key`
/// verifies under `key` when it is read, whatever bytes follow it in the
/// datagram.
pub proof fn lemma_integrity_closure(m: StunView, tail: Seq<u8>, key: Seq<u8>, i: int)
    requires
        m.encodable(),
        m.canonical(),
        0 <= i < m.attrs.len(),
        m.attrs[i] == AttrView::Integrity(IntegrityView::Sign { key_data: key }),
    ensures
        crate::stun::integrity_ok(m.bytes() + tail, key),
{
    lemma_decode_encode(m, tail);
    let read = read_attrs(m.attrs, m.header());
    assert(decode_spec(m.bytes() + tail)->Ok_0.attrs == read);
    assert forall|k: int| 0 <= k < read.len() implies kept(read, k) by {
        assert(kept(m.attrs, k));
        assert forall|j: int| 0 <= j <= k implies (#[trigger] read[j]).typ() == m.attrs[j].typ()
            && (read[j] is Fingerprint <==> m.attrs[j] is Fingerprint) && (read[j] is Integrity
            <==> m.attrs[j] is Integrity) by {}
    }
    assert(kept(read, i) && read[i].typ() == TYP_INTEGRITY);
    let c = choose|c: int| kept(read, c) && read[c].typ() == TYP_INTEGRITY;
    lemma_kept_unique(read, c, i);
    assert(shown(read, TYP_INTEGRITY) == Some(read[i]));
}

/// From the frame of any attribute before the first fingerprint on, the first
/// frame of the fingerprint's type is the fingerprint's own.
proof fn lemma_find_fingerprint(attrs: Seq<AttrView>, header: Seq<u8>, i: int, k: int)
    requires
        crate::stun::all_fit(attrs),
        header.len() == 20,
        0 <= k <= i < attrs.len(),
        attrs[i] is Fingerprint,
        forall|j: int| 0 <= j < i ==> (#[trigger] attrs[j]).typ() != TYP_FINGERPRINT,
    ensures
        find_frame(attrs_bytes(attrs, header), body_len(attrs.take(k)), TYP_FINGERPRINT) == Some(
            body_len(attrs.take(i)),
        ),
    decreases i - k,
{
    let body = attrs_bytes(attrs, header);
    let at = body_len(attrs.take(k));
    let next = body_len(attrs.take(k + 1));
    let a = attrs[k];
    let p = attrs_bytes(attrs.take(k), header);
    lemma_frame_at(attrs, header, k);
    lemma_frame_fields(a, header, p);
    let length = a.length();
    assert(body.subrange(at, at + 2) =~= body.subrange(at, next).subrange(0, 2));
    assert(body.subrange(at + 2, at + 4) =~= body.subrange(at, next).subrange(2, 4));
    crate::bytes::lemma_be16_roundtrip(a.typ());
    crate::bytes::lemma_be16_roundtrip(length as u16);
    if k < i {
        lemma_find_fingerprint(attrs, header, i, k + 1);
    }
}

/// A message that was written with a fingerprint verifies when it is read:
/// the fingerprint on the wire is the checksum of the bytes before it. This
/// holds whatever bytes follow the message in the datagram.
pub proof fn lemma_fingerprint_closure(m: StunView, tail: Seq<u8>, i: int)
    requires
        m.encodable(),
        0 <= i < m.attrs.len(),
        m.attrs[i] is Fingerprint,
        forall|j: int| 0 <= j < i ==> (#[trigger] m.attrs[j]).typ() != TYP_FINGERPRINT,
    ensures
        fingerprint_ok(m.bytes() + tail),
{
    let header = m.header();
    let body = attrs_bytes(m.attrs, header);
    let buff = m.bytes() + tail;
    let length = m.length();
    lemma_body_len_aligned(m.attrs);
    lemma_attrs_bytes_len(m.attrs, header);
    crate::bytes::lemma_be16_roundtrip(length as u16);
    assert(buff.subrange(0, 20) =~= header);
    assert(buff.subrange(2, 4) =~= crate::bytes::be16(length as u16));
    assert(buff.subrange(20, 20 + length) =~= body);
    lemma_find_fingerprint(m.attrs, header, i, 0);
    assert(m.attrs.take(0) =~= Seq::<AttrView>::empty());
    let at = body_len(m.attrs.take(i));
    let next = body_len(m.attrs.take(i + 1));
    let p = attrs_bytes(m.attrs.take(i), header);
    lemma_frame_at(m.attrs, header, i);
    lemma_frame_fields(m.attrs[i], header, p);
    assert(body.subrange(at + 2, at + 4) =~= body.subrange(at, next).subrange(2, 4));
    assert(body.subrange(at + 4, at + 8) =~= body.subrange(at, next).subrange(4, 8));
    crate::bytes::lemma_be16_roundtrip(4u16);
    crate::bytes::lemma_be32_roundtrip(crate::attr::fingerprint_of(header, p));
}


/// A refresh request as a client writes it: username, realm, lifetime, an
/// integrity attribute keyed by `key`, and a fingerprint.
pub open spec fn signed_refresh(
    txid: Seq<u8>,
    username: Seq<char>,
    realm: Seq<char>,
    lifetime: u32,
    key: Seq<u8>,
) -> StunView {
    StunView {
        typ: StunTyp::Req(METHOD_REFRESH),
        txid,
        attrs: seq![
            AttrView::Username(username),
            AttrView::Realm(realm),
            AttrView::Lifetime(lifetime),
            AttrView::Integrity(IntegrityView::Sign { key_data: key }),
            AttrView::Fingerprint,
        ],
    }
}

/// A refresh request that was signed with the key of its user is read as
/// that request: the datagram decodes, its flattened view names the user,
/// the realm and the lifetime, authentication with the same key succeeds,
/// and the message is classified as the refresh of that user for that
/// lifetime, under the transaction identifier that stands in the datagram.
pub proof fn lemma_signed_refresh_is_read(
    txid: Seq<u8>,
    username: Seq<char>,
    realm: Seq<char>,
    lifetime: u32,
    key: [u8; 16],
    tail: Seq<u8>,
)
    requires
        signed_refresh(txid, username, realm, lifetime, key@).encodable(),
    ensures
        ({
            let buff = signed_refresh(txid, username, realm, lifetime, key@).bytes() + tail;
            &&& decode_spec(buff) is Ok
            &&& buff.subrange(8, 20) == txid
            &&& {
                let m = decode_spec(buff)->Ok_0;
                let flat = flat_of(m.attrs);
                &&& flat.username == Some(username)
                &&& flat.realm == Some(realm)
                &&& flat.lifetime == Some(lifetime)
                &&& flat.integrity is Some
                &&& flat.auth_outcome(Some(key)) == Some((username, key@))
                &&& classify_spec(m.typ, m.txid, flat, flat.auth_outcome(Some(key))) == Some(
                    TurnReqView::Refresh { txid, username, key_data: key@, lifetime },
                )
            }
        }),
{
    let m = signed_refresh(txid, username, realm, lifetime, key@);
    assert forall|i: int| 0 <= i < m.attrs.len() implies kept(m.attrs, i) && (
    #[trigger] m.attrs[i]).plain() by {
        assert(m.attrs[0] is Username && m.attrs[1] is Realm && m.attrs[2] is Lifetime
            && m.attrs[3] is Integrity && m.attrs[4] is Fingerprint);
    }
    lemma_decode_encode(m, tail);
    let header = m.header();
    let read = read_attrs(m.attrs, header);
    let buff = m.bytes() + tail;
    assert(buff.subrange(8, 20) =~= txid);
    assert forall|k: int| 0 <= k < read.len() implies kept(read, k) by {
        assert(kept(m.attrs, k));
        assert forall|j: int| 0 <= j <= k implies (#[trigger] read[j]).typ() == m.attrs[j].typ()
            && (read[j] is Fingerprint <==> m.attrs[j] is Fingerprint) && (read[j] is Integrity
            <==> m.attrs[j] is Integrity) by {}
    }
    lemma_shown_at(read, 0);
    lemma_shown_at(read, 1);
    lemma_shown_at(read, 2);
    lemma_shown_at(read, 3);
}

/// Whatever the key lookup, a signed refresh request whose user the lookup
/// gives the signing key for authenticates with that key, and with nothing
/// else.
pub proof fn lemma_signed_refresh_authenticates<F: FnOnce(&str, Option<&str>) -> Option<[u8; 16]>>(
    txid: Seq<u8>,
    username: Seq<char>,
    realm: Seq<char>,
    lifetime: u32,
    key: [u8; 16],
    tail: Seq<u8>,
    f: F,
    auth: Option<(Seq<char>, Seq<u8>)>,
)
    requires
        signed_refresh(txid, username, realm, lifetime, key@).encodable(),
        forall|u: &str, r: Option<&str>, found: Option<[u8; 16]>|
            u@ == username && opt_text(r) == Some(realm) && f.ensures((u, r), found) ==> found
                == Some(key),
        authenticated_by(
            flat_of(
                decode_spec(
                    signed_refresh(txid, username, realm, lifetime, key@).bytes() + tail,
                )->Ok_0.attrs,
            ),
            f,
            auth,
        ),
    ensures
        auth == Some((username, key@)),
{
    lemma_signed_refresh_is_read(txid, username, realm, lifetime, key, tail);
}

} // verus!
