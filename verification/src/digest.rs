//! Checksums and keyed digests, computed by the `crc32fast`, `hmac`, `sha1`
//! and `md5` crates. Their results are named here; nothing in this crate
//! depends on how they are computed.
use hmac::Mac;
use vstd::prelude::*;

verus! {

/// The CRC-32 (IEEE 802.3) checksum of `data`.
pub uninterp spec fn crc32_of(data: Seq<u8>) -> u32;

/// The HMAC-SHA1 tag of `data` under `key`.
pub uninterp spec fn hmac_sha1_of(key: Seq<u8>, data: Seq<u8>) -> [u8; 20];

/// The MD5 digest of `data`.
pub uninterp spec fn md5_of(data: Seq<u8>) -> [u8; 16];

/// The chunks of `chunks`, one after the other.
pub open spec fn joined(chunks: Seq<Seq<u8>>) -> Seq<u8>
    decreases chunks.len(),
{
    if chunks.len() == 0 {
        Seq::empty()
    } else {
        joined(chunks.drop_last()) + chunks.last()
    }
}

/// The byte sequences that a slice of slices holds.
pub open spec fn chunk_views(chunks: Seq<&[u8]>) -> Seq<Seq<u8>> {
    Seq::new(chunks.len(), |i: int| chunks[i]@)
}

/// Calls `crc32fast::hash`. Trusted: the result is the checksum of exactly
/// the bytes given, and depends on nothing else.
#[verifier::external_body]
pub(crate) fn crc32(data: &[u8]) -> (r: u32)
    ensures
        r == crc32_of(data@),
{
    crc32fast::hash(data)
}

/// Calls `Mac::finalize` on an `Hmac<Sha1>` keyed with `key` and fed `data`.
/// Trusted: the 20 bytes returned are the tag of `data` under `key`, and
/// depend on nothing else. `Hmac::new_from_slice` accepts a key of any length.
#[verifier::external_body]
pub(crate) fn hmac_sha1(key: &[u8], data: &[u8]) -> (r: [u8; 20])
    ensures
        r == hmac_sha1_of(key@, data@),
{
    let mut mac = hmac::Hmac::<sha1::Sha1>::new_from_slice(key).unwrap();
    mac.update(data);
    mac.finalize().into_bytes().into()
}

/// Calls `Mac::verify_slice` on an `Hmac<Sha1>` keyed with `key` and fed
/// `data`. Trusted: it accepts `tag` exactly when `tag` is the 20-byte tag of
/// `data` under `key`; the comparison takes the same time whatever the bytes.
#[verifier::external_body]
pub(crate) fn hmac_sha1_verify(key: &[u8], data: &[u8], tag: &[u8]) -> (r: bool)
    ensures
        r == (tag@ == hmac_sha1_of(key@, data@)@),
{
    let mut mac = hmac::Hmac::<sha1::Sha1>::new_from_slice(key).unwrap();
    mac.update(data);
    mac.verify_slice(tag).is_ok()
}

/// Calls `md5::compute`. Trusted: the 16 bytes returned are the digest of
/// exactly the bytes given, and depend on nothing else.
#[verifier::external_body]
pub(crate) fn md5_digest(data: &[u8]) -> (r: [u8; 16])
    ensures
        r == md5_of(data@),
{
    md5::compute(data).0
}

/// All chunks copied into one buffer, in order.
pub fn join_chunks(chunks: &[&[u8]]) -> (r: Vec<u8>)
    ensures
        r@ == joined(chunk_views(chunks@)),
{
    let mut r: Vec<u8> = Vec::new();
    let mut i: usize = 0;
    while i < chunks.len()
        invariant
            i <= chunks@.len(),
            r@ == joined(chunk_views(chunks@).take(i as int)),
        decreases chunks@.len() - i,
    {
        crate::bytes::push_all(&mut r, chunks[i]);
        proof {
            let all = chunk_views(chunks@);
            assert(all.take(i + 1).drop_last() =~= all.take(i as int));
            assert(all.take(i + 1).last() == chunks@[i as int]@);
        }
        i += 1;
    }
    assert(chunk_views(chunks@).take(chunks@.len() as int) =~= chunk_views(chunks@));
    r
}

/// The MD5 digest of the chunks taken as one message.
pub fn md5(chunks: &[&[u8]]) -> (r: [u8; 16])
    ensures
        r == md5_of(joined(chunk_views(chunks@))),
{
    let all = join_chunks(chunks);
    md5_digest(all.as_slice())
}

/// The HMAC-SHA1 tag, under `key_data`, of the chunks taken as one message.
pub fn sha1_hmac(key_data: &[u8], chunks: &[&[u8]]) -> (r: [u8; 20])
    ensures
        r == hmac_sha1_of(key_data@, joined(chunk_views(chunks@))),
{
    let all = join_chunks(chunks);
    hmac_sha1(key_data, all.as_slice())
}

} // verus!
