//! STUN messages: the 20-byte header, the attributes behind it, and the
//! message as bytes on the wire.
use crate::attr::{AttrContext, AttrView, StunAttr};
use crate::attr::parse_spec;
use crate::bytes::{be16, be32, from_be16, from_be32, pad4, push_all, push_be16, push_be32, read_be16, read_be32};
use crate::error::{StunAttrDecodeErr, StunDecodeErr};
use crate::typ::typ_of_code;
use vstd::slice::slice_subrange;
use crate::typ::StunTyp;
use vstd::prelude::*;

verus! {

/// The magic cookie that follows the length in every header.
pub const MAGIC: u32 = 0x2112A442;

/// The length of the header.
pub const HEADER_LEN: usize = 20;

/// The largest body that the 16-bit length field can announce.
pub const MAX_BODY: usize = 65532;

/// A message: class and method, transaction identifier, and attributes in the
/// order in which they are emitted.
#[derive(Debug, Clone, PartialEq, Eq)]
pub struct Stun {
    pub typ: StunTyp,
    pub txid: [u8; 12],
    pub attrs: Vec<StunAttr>,
}

/// The mathematical value of a [`Stun`].
pub struct StunView {
    pub typ: StunTyp,
    pub txid: Seq<u8>,
    pub attrs: Seq<AttrView>,
}

/// The values of a sequence of attributes.
pub open spec fn attr_views(attrs: Seq<StunAttr>) -> Seq<AttrView> {
    Seq::new(attrs.len(), |i: int| attrs[i]@)
}

impl View for Stun {
    type V = StunView;

    open spec fn view(&self) -> StunView {
        StunView { typ: self.typ, txid: self.txid@, attrs: attr_views(self.attrs@) }
    }
}

/// The sum of the framed lengths of `attrs`.
pub open spec fn body_len(attrs: Seq<AttrView>) -> int
    decreases attrs.len(),
{
    if attrs.len() == 0 {
        0
    } else {
        body_len(attrs.drop_last()) + attrs.last().len()
    }
}

/// The header of a message of type `typ` whose body has `length` bytes.
pub open spec fn header_bytes(typ: StunTyp, length: int, txid: Seq<u8>) -> Seq<u8> {
    be16(typ.spec_code()) + be16(length as u16) + be32(MAGIC) + txid
}

/// The frames of `attrs`, one after the other, in a message with the given
/// header. Each frame is computed with the frames before it as its prefix.
pub open spec fn attrs_bytes(attrs: Seq<AttrView>, header: Seq<u8>) -> Seq<u8>
    decreases attrs.len(),
{
    if attrs.len() == 0 {
        Seq::empty()
    } else {
        let prefix = attrs_bytes(attrs.drop_last(), header);
        prefix + attrs.last().frame(header, prefix)
    }
}

/// Whether every attribute of `attrs` is well formed and fits its frame.
pub open spec fn all_fit(attrs: Seq<AttrView>) -> bool {
    forall|i: int| 0 <= i < attrs.len() ==> (#[trigger] attrs[i]).fits() && attrs[i].wf()
}

impl StunView {
    /// The length of the body: the sum of the framed attribute lengths.
    pub open spec fn length(&self) -> int {
        body_len(self.attrs)
    }

    /// The header, announcing the whole body.
    pub open spec fn header(&self) -> Seq<u8> {
        header_bytes(self.typ, self.length(), self.txid)
    }

    /// Whether the message can be written: the method has twelve bits, every
    /// attribute fits its frame and the body fits the length field.
    pub open spec fn encodable(&self) -> bool {
        &&& self.typ.wf()
        &&& self.txid.len() == 12
        &&& all_fit(self.attrs)
        &&& self.length() <= MAX_BODY
    }

    /// The message on the wire.
    pub open spec fn bytes(&self) -> Seq<u8> {
        self.header() + attrs_bytes(self.attrs, self.header())
    }
}

/// The body of a message is a multiple of four bytes long.
pub proof fn lemma_body_len_aligned(attrs: Seq<AttrView>)
    ensures
        body_len(attrs) % 4 == 0,
        body_len(attrs) >= 0,
    decreases attrs.len(),
{
    if attrs.len() > 0 {
        lemma_body_len_aligned(attrs.drop_last());
        crate::attr::lemma_length_nonneg(attrs.last());
        crate::bytes::lemma_pad4(attrs.last().length());
    }
}

/// The frames of a sequence of attributes are as long as the sum of their
/// framed lengths.
pub proof fn lemma_attrs_bytes_len(attrs: Seq<AttrView>, header: Seq<u8>)
    requires
        all_fit(attrs),
        header.len() == 20,
    ensures
        attrs_bytes(attrs, header).len() == body_len(attrs),
    decreases attrs.len(),
{
    if attrs.len() > 0 {
        lemma_attrs_bytes_len(attrs.drop_last(), header);
        crate::attr::lemma_frame_len(
            attrs.last(),
            header,
            attrs_bytes(attrs.drop_last(), header),
        );
    }
}

impl Stun {
    /// Whether the message can be written: the method has twelve bits, every
    /// attribute fits its frame and the body fits the length field.
    pub fn encodable(&self) -> (r: bool)
        ensures
            r == self@.encodable(),
    {
        if self.typ.method() >= 0x1000 {
            return false;
        }
        let mut total: usize = 0;
        let mut i: usize = 0;
        while i < self.attrs.len()
            invariant
                i <= self.attrs@.len(),
                total == body_len(self@.attrs.take(i as int)),
                total <= MAX_BODY,
                all_fit(self@.attrs.take(i as int)),
            decreases self.attrs@.len() - i,
        {
            let ghost taken = self@.attrs.take(i + 1);
            proof {
                assert(taken.drop_last() =~= self@.attrs.take(i as int));
                assert(taken.last() == self.attrs@[i as int]@);
                lemma_body_len_aligned(self@.attrs);
            }
            if !self.attrs[i].fits() {
                assert(!self@.attrs[i as int].fits());
                return false;
            }
            let n: usize = self.attrs[i].len() as usize;
            if total + n > MAX_BODY {
                proof {
                    lemma_body_len_grows(self@.attrs, i + 1);
                }
                return false;
            }
            total = total + n;
            assert forall|k: int| 0 <= k < taken.len() implies (#[trigger] taken[k]).fits()
                && taken[k].wf() by {
                if k < i {
                    assert(taken[k] == self@.attrs.take(i as int)[k]);
                }
            }
            i += 1;
        }
        assert(self@.attrs.take(self.attrs@.len() as int) =~= self@.attrs);
        true
    }

    /// The length of the body: the sum of the framed attribute lengths.
    pub fn length(&self) -> (r: u16)
        requires
            self@.encodable(),
        ensures
            r == self@.length(),
            r % 4 == 0,
    {
        let mut total: usize = 0;
        let mut i: usize = 0;
        while i < self.attrs.len()
            invariant
                i <= self.attrs@.len(),
                self@.encodable(),
                total == body_len(self@.attrs.take(i as int)),
                total <= MAX_BODY,
            decreases self.attrs@.len() - i,
        {
            proof {
                let taken = self@.attrs.take(i + 1);
                assert(taken.drop_last() =~= self@.attrs.take(i as int));
                assert(taken.last() == self.attrs@[i as int]@);
                lemma_body_len_grows(self@.attrs, i + 1);
                assert(self@.attrs[i as int].fits());
            }
            total = total + self.attrs[i].len() as usize;
            i += 1;
        }
        proof {
            assert(self@.attrs.take(self.attrs@.len() as int) =~= self@.attrs);
            lemma_body_len_aligned(self@.attrs);
        }
        total as u16
    }

    /// The length of the whole message: header and body.
    pub fn len(&self) -> (r: usize)
        requires
            self@.encodable(),
        ensures
            r == 20 + self@.length(),
            r == self@.bytes().len(),
    {
        proof {
            lemma_attrs_bytes_len(self@.attrs, self@.header());
        }
        HEADER_LEN + self.length() as usize
    }

    /// A success response to this message, with the given attributes.
    pub fn res(&self, attrs: Vec<StunAttr>) -> (r: Stun)
        ensures
            r.typ == StunTyp::Res(self.typ.spec_method()),
            r.txid == self.txid,
            r.attrs == attrs,
    {
        Stun { typ: StunTyp::Res(self.typ.method()), txid: self.txid, attrs }
    }

    /// An error response to this message, with the given attributes.
    pub fn err(&self, attrs: Vec<StunAttr>) -> (r: Stun)
        ensures
            r.typ == StunTyp::Error(self.typ.spec_method()),
            r.txid == self.txid,
            r.attrs == attrs,
    {
        Stun { typ: StunTyp::Error(self.typ.method()), txid: self.txid, attrs }
    }
}

/// The body of the first `k` attributes is no longer than the whole body.
pub proof fn lemma_body_len_grows(attrs: Seq<AttrView>, k: int)
    requires
        0 <= k <= attrs.len(),
    ensures
        body_len(attrs.take(k)) <= body_len(attrs),
    decreases attrs.len() - k,
{
    if k < attrs.len() {
        lemma_body_len_grows(attrs, k + 1);
        assert(attrs.take(k + 1).drop_last() =~= attrs.take(k));
        lemma_body_len_aligned(seq![attrs[k]]);
        assert(seq![attrs[k]].drop_last() =~= Seq::<AttrView>::empty());
        assert(attrs[k].len() >= 0);
    } else {
        assert(attrs.take(k) =~= attrs);
    }
}


/// The header of a message of type `typ` whose body has `length` bytes.
pub fn build_header(typ: &StunTyp, length: u16, txid: &[u8; 12]) -> (r: [u8; 20])
    ensures
        r@ == header_bytes(*typ, length as int, txid@),
{
    let mut out: Vec<u8> = Vec::new();
    push_be16(&mut out, typ.code());
    push_be16(&mut out, length);
    push_be32(&mut out, MAGIC);
    push_all(&mut out, txid.as_slice());
    let mut r: [u8; 20] = [0u8; 20];
    let mut i: usize = 0;
    while i < 20
        invariant
            i <= 20,
            out@.len() == 20,
            forall|k: int| 0 <= k < i ==> r@[k] == out@[k],
        decreases 20 - i,
    {
        r[i] = out[i];
        i += 1;
    }
    assert(r@ =~= out@);
    r
}

impl Stun {
    /// The message on the wire, where it can be written.
    pub fn to_bytes(&self) -> (r: Option<Vec<u8>>)
        ensures
            r is Some <==> self@.encodable(),
            r is Some ==> r->0@ == self@.bytes() && r->0@.len() == 20 + self@.length()
                && self@.length() % 4 == 0,
    {
        if !self.encodable() {
            return None;
        }
        let length: u16 = self.length();
        let header: [u8; 20] = build_header(&self.typ, length, &self.txid);
        let mut body: Vec<u8> = Vec::new();
        let mut i: usize = 0;
        while i < self.attrs.len()
            invariant
                i <= self.attrs@.len(),
                self@.encodable(),
                header@ == self@.header(),
                body@ == attrs_bytes(self@.attrs.take(i as int), header@),
                body@.len() == body_len(self@.attrs.take(i as int)),
            decreases self.attrs@.len() - i,
        {
            proof {
                let taken = self@.attrs.take(i + 1);
                assert(taken.drop_last() =~= self@.attrs.take(i as int));
                assert(taken.last() == self.attrs@[i as int]@);
                lemma_body_len_grows(self@.attrs, i + 1);
                assert(self@.attrs[i as int].fits());
            }
            let mut frame: Vec<u8> = Vec::new();
            let ctx = AttrContext { header: &header, attrs_prefix: body.as_slice() };
            self.attrs[i].encode(&mut frame, &ctx);
            push_all(&mut body, frame.as_slice());
            i += 1;
        }
        assert(self@.attrs.take(self.attrs@.len() as int) =~= self@.attrs);
        let mut out: Vec<u8> = Vec::new();
        push_all(&mut out, header.as_slice());
        push_all(&mut out, body.as_slice());
        Some(out)
    }

    /// Writes the message at the start of `buff` and returns its length.
    /// Nothing is written where the message cannot be written or `buff` is
    /// too small for it.
    pub fn encode(&self, buff: &mut [u8]) -> (r: Option<usize>)
        ensures
            r is Some <==> self@.encodable() && 20 + self@.length() <= old(buff)@.len(),
            r is Some ==> r->0 == 20 + self@.length() && self@.length() % 4 == 0 && final(buff)@
                == self@.bytes() + old(buff)@.skip(r->0 as int),
            r is None ==> final(buff)@ == old(buff)@,
    {
        match self.to_bytes() {
            None => None,
            Some(bytes) => {
                if buff.len() < bytes.len() {
                    return None;
                }
                crate::bytes::write_at_start(buff, bytes.as_slice());
                Some(bytes.len())
            },
        }
    }
}


/// The attributes framed in `body` from offset `at` on, each parsed with the
/// bytes before it as its prefix.
pub open spec fn parse_attrs(body: Seq<u8>, header: Seq<u8>, at: int) -> Result<
    Seq<AttrView>,
    StunAttrDecodeErr,
>
    decreases body.len() - at,
{
    if at < 0 || at >= body.len() {
        Ok(Seq::empty())
    } else if at + 4 > body.len() {
        Err(StunAttrDecodeErr::Truncated)
    } else {
        let typ = from_be16(body.subrange(at, at + 2));
        let length = from_be16(body.subrange(at + 2, at + 4)) as int;
        if at + 4 + pad4(length) > body.len() {
            Err(StunAttrDecodeErr::Truncated)
        } else {
            match parse_spec(
                typ,
                body.subrange(at + 4, at + 4 + length),
                header,
                body.subrange(0, at),
            ) {
                Err(e) => Err(e),
                Ok(a) => match parse_attrs(body, header, at + 4 + pad4(length)) {
                    Err(e) => Err(e),
                    Ok(rest) => Ok(seq![a] + rest),
                },
            }
        }
    }
}

/// Whether the attribute at `i` is one that a reader is shown: no attribute
/// of its type stands before it, no fingerprint stands before it, and no
/// integrity attribute stands before it unless it is the fingerprint.
pub open spec fn kept(attrs: Seq<AttrView>, i: int) -> bool {
    &&& 0 <= i < attrs.len()
    &&& forall|j: int| 0 <= j < i ==> (#[trigger] attrs[j]).typ() != attrs[i].typ()
    &&& forall|j: int| 0 <= j < i ==> !((#[trigger] attrs[j]) is Fingerprint)
    &&& attrs[i] is Fingerprint || forall|j: int|
        0 <= j < i ==> !((#[trigger] attrs[j]) is Integrity)
}

/// The attributes that a reader is shown, in order.
pub open spec fn retain(attrs: Seq<AttrView>) -> Seq<AttrView>
    decreases attrs.len(),
{
    if attrs.len() == 0 {
        Seq::empty()
    } else if kept(attrs, attrs.len() - 1) {
        retain(attrs.drop_last()).push(attrs.last())
    } else {
        retain(attrs.drop_last())
    }
}

/// What a datagram stands for as a STUN message.
pub open spec fn decode_spec(buff: Seq<u8>) -> Result<StunView, StunDecodeErr> {
    if buff.len() < 20 {
        Err(StunDecodeErr::PacketTooSmall)
    } else if from_be16(buff.subrange(0, 2)) >= 0x4000 {
        Err(StunDecodeErr::TypeOutOfRange)
    } else if from_be16(buff.subrange(2, 4)) % 4 != 0 {
        Err(StunDecodeErr::UnalignedLength)
    } else if from_be32(buff.subrange(4, 8)) != MAGIC {
        Err(StunDecodeErr::BadMagic)
    } else if buff.len() < 20 + from_be16(buff.subrange(2, 4)) {
        Err(StunDecodeErr::PacketTooSmall)
    } else {
        let length = from_be16(buff.subrange(2, 4)) as int;
        match parse_attrs(buff.subrange(20, 20 + length), buff.subrange(0, 20), 0) {
            Err(e) => Err(StunDecodeErr::AttrErr(e)),
            Ok(attrs) => Ok(
                StunView {
                    typ: typ_of_code(from_be16(buff.subrange(0, 2))),
                    txid: buff.subrange(8, 20),
                    attrs: retain(attrs),
                },
            ),
        }
    }
}

/// Whether one of `types` is `typ`.
fn seen(types: &Vec<u16>, typ: u16) -> (r: bool)
    ensures
        r == exists|j: int| 0 <= j < types@.len() && types@[j] == typ,
{
    let mut i: usize = 0;
    while i < types.len()
        invariant
            i <= types@.len(),
            forall|j: int| 0 <= j < i ==> types@[j] != typ,
        decreases types@.len() - i,
    {
        if types[i] == typ {
            return true;
        }
        i += 1;
    }
    false
}

/// A copy of twenty bytes of `buff` from `at` on.
fn array20(buff: &[u8], at: usize) -> (r: [u8; 20])
    requires
        at + 20 <= buff@.len(),
    ensures
        r@ == buff@.subrange(at as int, at + 20),
{
    let n: usize = buff.len();
    let mut r: [u8; 20] = [0u8; 20];
    let mut i: usize = 0;
    while i < 20
        invariant
            i <= 20,
            at + 20 <= buff@.len() == n,
            forall|k: int| 0 <= k < i ==> r@[k] == buff@[at + k],
        decreases 20 - i,
    {
        r[i] = buff[at + i];
        i += 1;
    }
    assert(r@ =~= buff@.subrange(at as int, at + 20));
    r
}

/// A copy of twelve bytes of `buff` from `at` on.
fn array12(buff: &[u8], at: usize) -> (r: [u8; 12])
    requires
        at + 12 <= buff@.len(),
    ensures
        r@ == buff@.subrange(at as int, at + 12),
{
    let n: usize = buff.len();
    let mut r: [u8; 12] = [0u8; 12];
    let mut i: usize = 0;
    while i < 12
        invariant
            i <= 12,
            at + 12 <= buff@.len() == n,
            forall|k: int| 0 <= k < i ==> r@[k] == buff@[at + k],
        decreases 12 - i,
    {
        r[i] = buff[at + i];
        i += 1;
    }
    assert(r@ =~= buff@.subrange(at as int, at + 12));
    r
}

/// Reads the attributes framed in `body` and keeps those that a reader is
/// shown.
fn decode_attrs(body: &[u8], header: &[u8; 20]) -> (r: Result<Vec<StunAttr>, StunAttrDecodeErr>)
    requires
        body@.len() <= MAX_BODY,
    ensures
        match r {
            Ok(attrs) => match parse_attrs(body@, header@, 0) {
                Ok(all) => attr_views(attrs@) == retain(all),
                Err(_) => false,
            },
            Err(e) => parse_attrs(body@, header@, 0) == Err::<Seq<AttrView>, StunAttrDecodeErr>(e),
        },
{
    let mut out: Vec<StunAttr> = Vec::new();
    let mut types: Vec<u16> = Vec::new();
    let mut integrity: bool = false;
    let mut fingerprint: bool = false;
    let ghost mut all: Seq<AttrView> = Seq::empty();
    let mut at: usize = 0;
    while at < body.len()
        invariant
            body@.len() <= MAX_BODY,
            at <= body@.len(),
            parse_attrs(body@, header@, 0) == match parse_attrs(body@, header@, at as int) {
                Ok(rest) => Ok::<Seq<AttrView>, StunAttrDecodeErr>(all + rest),
                Err(e) => Err(e),
            },
            attr_views(out@) == retain(all),
            types@.len() == all.len(),
            forall|j: int| 0 <= j < all.len() ==> types@[j] == (#[trigger] all[j]).typ(),
            integrity == exists|j: int| 0 <= j < all.len() && (#[trigger] all[j]) is Integrity,
            fingerprint == exists|j: int| 0 <= j < all.len() && (#[trigger] all[j]) is Fingerprint,
        decreases body@.len() - at,
    {
        if at + 4 > body.len() {
            return Err(StunAttrDecodeErr::Truncated);
        }
        let typ: u16 = read_be16(body, at);
        let length: usize = read_be16(body, at + 2) as usize;
        let rest: usize = length % 4;
        let padded: usize = if rest == 0 {
            length
        } else {
            length + (4 - rest)
        };
        if at + 4 + padded > body.len() {
            return Err(StunAttrDecodeErr::Truncated);
        }
        let ctx = AttrContext { header, attrs_prefix: slice_subrange(body, 0, at) };
        let parsed = StunAttr::parse(typ, slice_subrange(body, at + 4, at + 4 + length), &ctx);
        let attr = match parsed {
            Ok(a) => a,
            Err(e) => {
                return Err(e);
            },
        };
        let ghost before = all;
        let ghost a = attr@;
        proof {
            all = all.push(a);
            let next = parse_attrs(body@, header@, at + 4 + padded);
            match next {
                Ok(rest_attrs) => {
                    assert(before + (seq![a] + rest_attrs) =~= all + rest_attrs);
                },
                Err(_) => {},
            }
            assert(all.drop_last() =~= before);
            crate::attr::lemma_parse_typ(
                typ,
                body@.subrange(at + 4, at + 4 + length),
                header@,
                body@.subrange(0, at as int),
            );
        }
        let dup: bool = seen(&types, typ);
        let is_fingerprint: bool = typ == crate::attr::TYP_FINGERPRINT;
        let is_integrity: bool = typ == crate::attr::TYP_INTEGRITY;
        let keep: bool = !dup && !fingerprint && (is_fingerprint || !integrity);
        proof {
            assert(keep == kept(all, all.len() - 1)) by {
                assert(forall|j: int| 0 <= j < before.len() ==> all[j] == before[j]);
                if dup {
                    let j = choose|j: int| 0 <= j < types@.len() && types@[j] == typ;
                    assert(all[j].typ() == typ);
                }
                if fingerprint {
                    let j = choose|j: int|
                        0 <= j < before.len() && (#[trigger] before[j]) is Fingerprint;
                    assert(all[j] is Fingerprint);
                }
                if integrity {
                    let j = choose|j: int|
                        0 <= j < before.len() && (#[trigger] before[j]) is Integrity;
                    assert(all[j] is Integrity);
                }
            }
        }
        types.push(typ);
        if keep {
            let ghost views = attr_views(out@);
            out.push(attr);
            assert(attr_views(out@) =~= views.push(a));
        }
        proof {
            if is_integrity {
                assert(all[all.len() - 1] is Integrity);
            }
            if is_fingerprint {
                assert(all[all.len() - 1] is Fingerprint);
            }
        }
        integrity = integrity || is_integrity;
        fingerprint = fingerprint || is_fingerprint;
        at = at + 4 + padded;
    }
    proof {
        assert(all + Seq::<AttrView>::empty() =~= all);
    }
    Ok(out)
}

impl Stun {
    /// Reads a message off the wire. The digests are not verified here.
    pub fn decode(buff: &[u8]) -> (r: Result<Stun, StunDecodeErr>)
        ensures
            match r {
                Ok(m) => decode_spec(buff@) == Ok::<StunView, StunDecodeErr>(m@),
                Err(e) => decode_spec(buff@) == Err::<StunView, StunDecodeErr>(e),
            },
    {
        if buff.len() < HEADER_LEN {
            return Err(StunDecodeErr::PacketTooSmall);
        }
        let typ = match StunTyp::try_from(read_be16(buff, 0)) {
            Ok(t) => t,
            Err(e) => {
                return Err(e);
            },
        };
        let length: usize = read_be16(buff, 2) as usize;
        if length % 4 != 0 {
            return Err(StunDecodeErr::UnalignedLength);
        }
        if read_be32(buff, 4) != MAGIC {
            return Err(StunDecodeErr::BadMagic);
        }
        if buff.len() < HEADER_LEN + length {
            return Err(StunDecodeErr::PacketTooSmall);
        }
        let txid: [u8; 12] = array12(buff, 8);
        let header: [u8; 20] = array20(buff, 0);
        match decode_attrs(slice_subrange(buff, HEADER_LEN, HEADER_LEN + length), &header) {
            Err(e) => Err(StunDecodeErr::AttrErr(e)),
            Ok(attrs) => Ok(Stun { typ, txid, attrs }),
        }
    }
}


/// What a reader finds where `attrs` were written behind `header`: each
/// attribute as it reads back in its place.
pub open spec fn read_attrs(attrs: Seq<AttrView>, header: Seq<u8>) -> Seq<AttrView> {
    Seq::new(attrs.len(), |i: int| attrs[i].as_read(header, attrs_bytes(attrs.take(i), header)))
}

impl StunView {
    /// Whether the attributes are in canonical order and each reads back as
    /// itself: no type occurs twice, nothing but the fingerprint follows the
    /// integrity attribute, and nothing follows the fingerprint.
    pub open spec fn canonical(&self) -> bool {
        forall|i: int|
            0 <= i < self.attrs.len() ==> kept(self.attrs, i) && (#[trigger] self.attrs[i]).plain()
    }

    /// The message that a reader finds where this one was written.
    pub open spec fn as_read(&self) -> StunView {
        StunView { typ: self.typ, txid: self.txid, attrs: read_attrs(self.attrs, self.header()) }
    }
}

/// The frames of the first `k` attributes are the start of the frames of all.
pub proof fn lemma_attrs_prefix(attrs: Seq<AttrView>, header: Seq<u8>, k: int)
    requires
        0 <= k <= attrs.len(),
    ensures
        attrs_bytes(attrs.take(k), header).len() <= attrs_bytes(attrs, header).len(),
        attrs_bytes(attrs, header).subrange(0, attrs_bytes(attrs.take(k), header).len() as int)
            == attrs_bytes(attrs.take(k), header),
    decreases attrs.len() - k,
{
    let body = attrs_bytes(attrs, header);
    if k < attrs.len() {
        lemma_attrs_prefix(attrs, header, k + 1);
        assert(attrs.take(k + 1).drop_last() =~= attrs.take(k));
        let p = attrs_bytes(attrs.take(k), header);
        let q = attrs_bytes(attrs.take(k + 1), header);
        assert(q.subrange(0, p.len() as int) =~= p);
        assert(body.subrange(0, p.len() as int) =~= body.subrange(0, q.len() as int).subrange(
            0,
            p.len() as int,
        ));
    } else {
        assert(attrs.take(k) =~= attrs);
        assert(body.subrange(0, body.len() as int) =~= body);
    }
}

/// The first attributes of a sequence whose attributes all fit do all fit.
pub proof fn lemma_all_fit_take(attrs: Seq<AttrView>, k: int)
    requires
        all_fit(attrs),
        0 <= k <= attrs.len(),
    ensures
        all_fit(attrs.take(k)),
{
    assert forall|i: int| 0 <= i < attrs.take(k).len() implies (#[trigger] attrs.take(k)[i]).fits()
        && attrs.take(k)[i].wf() by {
        assert(attrs.take(k)[i] == attrs[i]);
    }
}

/// Where the frame of the attribute at `k` stands in the frames of all.
pub proof fn lemma_frame_at(attrs: Seq<AttrView>, header: Seq<u8>, k: int)
    requires
        all_fit(attrs),
        header.len() == 20,
        0 <= k < attrs.len(),
    ensures
        body_len(attrs.take(k)) >= 0,
        body_len(attrs.take(k + 1)) == body_len(attrs.take(k)) + attrs[k].len(),
        body_len(attrs.take(k + 1)) <= attrs_bytes(attrs, header).len(),
        attrs_bytes(attrs, header).subrange(0, body_len(attrs.take(k))) == attrs_bytes(
            attrs.take(k),
            header,
        ),
        attrs_bytes(attrs, header).subrange(
            body_len(attrs.take(k)),
            body_len(attrs.take(k + 1)),
        ) == attrs[k].frame(header, attrs_bytes(attrs.take(k), header)),
{
    let body = attrs_bytes(attrs, header);
    let p = attrs_bytes(attrs.take(k), header);
    let q = attrs_bytes(attrs.take(k + 1), header);
    lemma_all_fit_take(attrs, k);
    lemma_all_fit_take(attrs, k + 1);
    lemma_attrs_bytes_len(attrs.take(k), header);
    lemma_attrs_bytes_len(attrs.take(k + 1), header);
    lemma_attrs_prefix(attrs, header, k);
    lemma_attrs_prefix(attrs, header, k + 1);
    assert(attrs.take(k + 1).drop_last() =~= attrs.take(k));
    assert(attrs.take(k + 1).last() == attrs[k]);
    let frame = attrs[k].frame(header, p);
    assert(q == p + frame);
    assert(body.subrange(p.len() as int, q.len() as int) =~= body.subrange(
        0,
        q.len() as int,
    ).subrange(p.len() as int, q.len() as int));
    assert(q.subrange(p.len() as int, q.len() as int) =~= frame);
    crate::attr::lemma_frame_len(attrs[k], header, p);
}

/// The fields of a frame: type, content length, content.
pub proof fn lemma_frame_fields(a: AttrView, header: Seq<u8>, prefix: Seq<u8>)
    requires
        a.wf(),
        a.fits(),
        header.len() == 20,
    ensures
        0 <= a.length() <= 65528,
        a.frame(header, prefix).len() == 4 + pad4(a.length()),
        a.frame(header, prefix).subrange(0, 2) == be16(a.typ()),
        a.frame(header, prefix).subrange(2, 4) == be16(a.length() as u16),
        a.frame(header, prefix).subrange(4, 4 + a.length()) == a.content(header, prefix),
{
    let frame = a.frame(header, prefix);
    crate::attr::lemma_frame_len(a, header, prefix);
    crate::attr::lemma_content_len(a, header, prefix);
    crate::bytes::lemma_pad4(a.length());
    assert(frame.subrange(0, 2) =~= be16(a.typ()));
    assert(frame.subrange(2, 4) =~= be16(a.length() as u16));
    assert(frame.subrange(4, 4 + a.length()) =~= a.content(header, prefix));
}

/// One step of parsing: where a frame with the given fields stands at `at`,
/// the attributes from `at` on are what its content parses to, then the
/// attributes behind the frame.
pub proof fn lemma_parse_step(
    body: Seq<u8>,
    header: Seq<u8>,
    at: int,
    typ: u16,
    length: int,
    content: Seq<u8>,
)
    requires
        0 <= at,
        0 <= length <= 65535,
        at + 4 + pad4(length) <= body.len(),
        body.subrange(at, at + 2) == be16(typ),
        body.subrange(at + 2, at + 4) == be16(length as u16),
        body.subrange(at + 4, at + 4 + length) == content,
    ensures
        parse_attrs(body, header, at) == (match parse_spec(
            typ,
            content,
            header,
            body.subrange(0, at),
        ) {
            Err(e) => Err::<Seq<AttrView>, StunAttrDecodeErr>(e),
            Ok(a) => match parse_attrs(body, header, at + 4 + pad4(length)) {
                Err(e) => Err(e),
                Ok(rest) => Ok(seq![a] + rest),
            },
        }),
{
    crate::bytes::lemma_be16_roundtrip(typ);
    crate::bytes::lemma_be16_roundtrip(length as u16);
    crate::bytes::lemma_pad4(length);
}

/// Parsing the frames of a sequence of attributes from the frame of the
/// attribute at `k` on gives the attributes from `k` on, as they read back.
pub proof fn lemma_parse_frames(attrs: Seq<AttrView>, header: Seq<u8>, k: int)
    requires
        all_fit(attrs),
        forall|i: int| 0 <= i < attrs.len() ==> (#[trigger] attrs[i]).plain(),
        header.len() == 20,
        0 <= k <= attrs.len(),
    ensures
        parse_attrs(attrs_bytes(attrs, header), header, body_len(attrs.take(k))) == Ok::<
            Seq<AttrView>,
            StunAttrDecodeErr,
        >(read_attrs(attrs, header).skip(k)),
    decreases attrs.len() - k,
{
    let body = attrs_bytes(attrs, header);
    let read = read_attrs(attrs, header);
    let at = body_len(attrs.take(k));
    lemma_attrs_bytes_len(attrs, header);
    if k < attrs.len() {
        lemma_frame_at(attrs, header, k);
        lemma_parse_frames(attrs, header, k + 1);
        let a = attrs[k];
        let p = attrs_bytes(attrs.take(k), header);
        let frame = a.frame(header, p);
        let next = body_len(attrs.take(k + 1));
        let length = a.length();
        lemma_frame_fields(a, header, p);
        assert(body.subrange(at, next) == frame);
        assert(next == at + 4 + pad4(length));
        assert(body.subrange(at, at + 2) =~= body.subrange(at, next).subrange(0, 2));
        assert(body.subrange(at + 2, at + 4) =~= body.subrange(at, next).subrange(2, 4));
        assert(body.subrange(at + 4, at + 4 + length) =~= body.subrange(at, next).subrange(
            4,
            4 + length,
        ));
        lemma_parse_step(body, header, at, a.typ(), length, a.content(header, p));
        crate::attr::lemma_attr_roundtrip(a, header, p);
        assert(read[k] == a.as_read(header, p));
        assert(seq![read[k]] + read.skip(k + 1) =~= read.skip(k));
    } else {
        assert(attrs.take(k) =~= attrs);
        assert(read.skip(k) =~= Seq::<AttrView>::empty());
    }
}

/// A sequence in which every attribute is one that a reader is shown is
/// shown whole.
pub proof fn lemma_retain_all(attrs: Seq<AttrView>)
    requires
        forall|i: int| 0 <= i < attrs.len() ==> kept(attrs, i),
    ensures
        retain(attrs) == attrs,
    decreases attrs.len(),
{
    if attrs.len() > 0 {
        let front = attrs.drop_last();
        assert forall|i: int| 0 <= i < front.len() implies kept(front, i) by {
            assert(kept(attrs, i));
            assert(forall|j: int| 0 <= j <= i ==> front[j] == attrs[j]);
        }
        lemma_retain_all(front);
        assert(kept(attrs, attrs.len() - 1));
        assert(front.push(attrs.last()) =~= attrs);
    }
}

/// Decoding what a message was encoded to gives the message back: the same
/// type and transaction identifier, and each attribute as it reads back in
/// its place (itself, but for the integrity attribute, which reads back as
/// its tag). This holds of every message that can be written and is
/// canonical, whatever bytes follow it in the datagram.
pub proof fn lemma_decode_encode(m: StunView, tail: Seq<u8>)
    requires
        m.encodable(),
        m.canonical(),
    ensures
        decode_spec(m.bytes() + tail) == Ok::<StunView, StunDecodeErr>(m.as_read()),
        m.bytes().len() == 20 + m.length(),
        from_be16(m.bytes().subrange(2, 4)) == m.length(),
        m.length() % 4 == 0,
{
    let header = m.header();
    let body = attrs_bytes(m.attrs, header);
    let buff = m.bytes() + tail;
    let length = m.length();
    lemma_body_len_aligned(m.attrs);
    lemma_attrs_bytes_len(m.attrs, header);
    crate::typ::lemma_typ_roundtrip(m.typ);
    crate::bytes::lemma_be16_roundtrip(m.typ.spec_code());
    crate::bytes::lemma_be16_roundtrip(length as u16);
    crate::bytes::lemma_be32_roundtrip(MAGIC);
    assert(buff.subrange(0, 20) =~= header);
    assert(buff.subrange(0, 2) =~= be16(m.typ.spec_code()));
    assert(buff.subrange(2, 4) =~= be16(length as u16));
    assert(buff.subrange(4, 8) =~= be32(MAGIC));
    assert(buff.subrange(8, 20) =~= m.txid);
    assert(buff.subrange(20, 20 + length) =~= body);
    assert(m.bytes().subrange(2, 4) =~= be16(length as u16));
    lemma_parse_frames(m.attrs, header, 0);
    assert(m.attrs.take(0) =~= Seq::<AttrView>::empty());
    let read = read_attrs(m.attrs, header);
    assert(read.skip(0) =~= read);
    assert forall|i: int| 0 <= i < read.len() implies kept(read, i) by {
        assert(kept(m.attrs, i));
        assert forall|j: int| 0 <= j <= i implies (#[trigger] read[j]).typ() == m.attrs[j].typ()
            && (read[j] is Fingerprint <==> m.attrs[j] is Fingerprint) && (read[j] is Integrity
            <==> m.attrs[j] is Integrity) by {}
    }
    lemma_retain_all(read);
}


/// The offset in `body` of the first frame of type `typ`, walking the frames
/// from `at` on; nothing where there is none or a frame runs past the end.
pub open spec fn find_frame(body: Seq<u8>, at: int, typ: u16) -> Option<int>
    decreases body.len() - at,
{
    if at < 0 || at + 4 > body.len() {
        None
    } else {
        let length = from_be16(body.subrange(at + 2, at + 4)) as int;
        if at + 4 + pad4(length) > body.len() {
            None
        } else if from_be16(body.subrange(at, at + 2)) == typ {
            Some(at)
        } else {
            find_frame(body, at + 4 + pad4(length), typ)
        }
    }
}

/// Whether the datagram holds a whole message body with a fingerprint in
/// it, and the fingerprint is the checksum of the bytes before it.
pub open spec fn fingerprint_ok(buff: Seq<u8>) -> bool {
    &&& buff.len() >= 20
    &&& buff.len() >= 20 + from_be16(buff.subrange(2, 4))
    &&& {
        let body = buff.subrange(20, 20 + from_be16(buff.subrange(2, 4)));
        match find_frame(body, 0, crate::attr::TYP_FINGERPRINT) {
            Some(at) => {
                &&& from_be16(body.subrange(at + 2, at + 4)) == 4
                &&& from_be32(body.subrange(at + 4, at + 8)) == crate::attr::fingerprint_of(
                    buff.subrange(0, 20),
                    body.subrange(0, at),
                )
            },
            None => false,
        }
    }
}

impl Stun {
    /// Verifies the fingerprint of a message on the wire: finds the first
    /// fingerprint attribute of the body and compares it with the checksum of
    /// the bytes before it. A datagram without one does not verify.
    pub fn check_fingerprint(buff: &[u8]) -> (r: bool)
        ensures
            r == fingerprint_ok(buff@),
    {
        if buff.len() < HEADER_LEN {
            return false;
        }
        let length: usize = read_be16(buff, 2) as usize;
        if buff.len() < HEADER_LEN + length {
            return false;
        }
        let header: [u8; 20] = array20(buff, 0);
        let body = slice_subrange(buff, HEADER_LEN, HEADER_LEN + length);
        let mut at: usize = 0;
        while at + 4 <= body.len()
            invariant
                body@.len() <= u16::MAX,
                at <= body@.len(),
                buff@.len() >= 20 + length,
                length == from_be16(buff@.subrange(2, 4)),
                body@ == buff@.subrange(20, 20 + length),
                header@ == buff@.subrange(0, 20),
                find_frame(body@, 0, crate::attr::TYP_FINGERPRINT) == find_frame(
                    body@,
                    at as int,
                    crate::attr::TYP_FINGERPRINT,
                ),
            decreases body@.len() - at,
        {
            let typ: u16 = read_be16(body, at);
            let len: usize = read_be16(body, at + 2) as usize;
            let rest: usize = len % 4;
            let padded: usize = if rest == 0 {
                len
            } else {
                len + (4 - rest)
            };
            if at + 4 + padded > body.len() {
                return false;
            }
            if typ == crate::attr::TYP_FINGERPRINT {
                if len != 4 {
                    return false;
                }
                let ctx = AttrContext { header: &header, attrs_prefix: slice_subrange(body, 0, at) };
                let input = crate::attr::build_digest_input(&ctx, 8);
                let expected: u32 = crate::digest::crc32(input.as_slice())
                    ^ crate::attr::FINGERPRINT_XOR;
                return read_be32(body, at + 4) == expected;
            }
            at = at + 4 + padded;
        }
        false
    }
}


/// The message `m` with an integrity attribute keyed by `key` behind its
/// attributes, where there is a key, and a fingerprint behind that, where one
/// is asked for.
pub open spec fn signed(m: StunView, key: Option<Seq<u8>>, fingerprint: bool) -> StunView {
    let with_key = match key {
        Some(key_data) => m.attrs.push(
            AttrView::Integrity(crate::attr::IntegrityView::Sign { key_data }),
        ),
        None => m.attrs,
    };
    StunView {
        typ: m.typ,
        txid: m.txid,
        attrs: if fingerprint {
            with_key.push(AttrView::Fingerprint)
        } else {
            with_key
        },
    }
}

/// Whether the datagram is a message whose integrity attribute verifies
/// under `key`.
pub open spec fn integrity_ok(buff: Seq<u8>, key: Seq<u8>) -> bool {
    match decode_spec(buff) {
        Ok(m) => match crate::flat::flat_of(m.attrs).integrity {
            Some(integrity) => integrity.verifies(key),
            None => false,
        },
        Err(_) => false,
    }
}

impl Stun {
    /// This message with an integrity attribute for `auth` behind its
    /// attributes, where `auth` has a key, and a fingerprint behind that,
    /// where one is asked for.
    pub fn with_integrity(self, auth: &crate::auth::StunAuth, fingerprint: bool) -> (r: Stun)
        ensures
            r@ == signed(self@, auth.key(), fingerprint),
    {
        let mut attrs = self.attrs;
        let ghost before = attr_views(attrs@);
        match auth.key_data() {
            Some(key_data) => {
                attrs.push(StunAttr::Integrity(crate::attr::Integrity::Sign { key_data }));
            },
            None => {},
        }
        if fingerprint {
            attrs.push(StunAttr::Fingerprint);
        }
        let r = Stun { typ: self.typ, txid: self.txid, attrs };
        assert(r@.attrs =~= signed(self@, auth.key(), fingerprint).attrs);
        r
    }

    /// Writes this message, with an integrity attribute for `auth` and a
    /// fingerprint as in [`Stun::with_integrity`], at the start of `buff`.
    pub fn encode_with_integrity(
        self,
        buff: &mut [u8],
        auth: &crate::auth::StunAuth,
        fingerprint: bool,
    ) -> (r: Option<usize>)
        ensures
            ({
                let m = signed(self@, auth.key(), fingerprint);
                &&& r is Some <==> m.encodable() && 20 + m.length() <= old(buff)@.len()
                &&& r is Some ==> r->0 == 20 + m.length() && final(buff)@ == m.bytes() + old(
                    buff,
                )@.skip(r->0 as int)
                &&& r is None ==> final(buff)@ == old(buff)@
            }),
    {
        self.with_integrity(auth, fingerprint).encode(buff)
    }

    /// Verifies the integrity of a message on the wire under `key`: decodes
    /// it and compares the tag of its integrity attribute, in constant time,
    /// with the tag that `key` gives for the bytes before it. A datagram that
    /// is no message, or a message without the attribute, does not verify.
    pub fn check_integrity(buff: &[u8], key: &[u8]) -> (r: bool)
        ensures
            r == integrity_ok(buff@, key@),
    {
        match Stun::decode(buff) {
            Ok(m) => match m.flat().integrity {
                Some(integrity) => integrity.verify(key),
                None => false,
            },
            Err(_) => false,
        }
    }
}


/// A visitor of the attributes of a message that stops at what a reader is
/// not shown: it gives nothing once the fingerprint has been visited, and
/// nothing but the fingerprint once the integrity attribute has been.
#[derive(Debug, Clone)]
pub struct StunIter<'a> {
    pub integrity: bool,
    pub fingerprint: bool,
    pub attrs: &'a [StunAttr],
}

impl<'a> StunIter<'a> {
    /// Visits the next attribute. It is taken off the attributes left even
    /// where it is not given out.
    pub fn next(&mut self) -> (r: Option<&'a StunAttr>)
        ensures
            old(self).attrs@.len() == 0 ==> r is None && *final(self) == *old(self),
            old(self).attrs@.len() > 0 ==> {
                let attr = old(self).attrs@[0];
                let shown = !old(self).fingerprint && (attr is Fingerprint || !old(self).integrity);
                &&& final(self).attrs@ == old(self).attrs@.skip(1)
                &&& final(self).fingerprint == (old(self).fingerprint || attr is Fingerprint)
                &&& final(self).integrity == (old(self).integrity || (shown && attr is Integrity))
                &&& r is Some <==> shown
                &&& r is Some ==> *r->0 == attr
            },
    {
        if self.attrs.len() == 0 {
            return None;
        }
        let attr = &self.attrs[0];
        let rest = slice_subrange(self.attrs, 1, self.attrs.len());
        assert(rest@ =~= self.attrs@.skip(1));
        self.attrs = rest;
        let is_fingerprint: bool = match attr {
            StunAttr::Fingerprint => true,
            _ => false,
        };
        let is_integrity: bool = match attr {
            StunAttr::Integrity(_) => true,
            _ => false,
        };
        if self.fingerprint {
            return None;
        }
        if is_fingerprint {
            self.fingerprint = true;
            return Some(attr);
        }
        if self.integrity {
            return None;
        }
        if is_integrity {
            self.integrity = true;
        }
        Some(attr)
    }
}

impl Stun {
    /// A visitor of the attributes of this message, from the first one on.
    pub fn iter(&self) -> (r: StunIter<'_>)
        ensures
            r.attrs@ == self.attrs@,
            !r.integrity,
            !r.fingerprint,
    {
        StunIter { integrity: false, fingerprint: false, attrs: self.attrs.as_slice() }
    }
}

} // verus!
