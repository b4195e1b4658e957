//! The long-term credential: how the key of a user is derived.
use crate::bytes::{copy_range, push_all};
use crate::digest::{md5_digest, md5_of};
use vstd::prelude::*;
use vstd::utf8::encode_utf8;

verus! {

/// The byte between username, realm and password, and between the two halves
/// of an ICE username.
pub const COLON: u8 = 0x3A;

/// What the key of the long-term credential is the digest of: username,
/// realm and password, with a colon between them.
pub open spec fn key_input(username: Seq<char>, realm: Seq<char>, password: Seq<char>) -> Seq<u8> {
    encode_utf8(username) + seq![COLON] + encode_utf8(realm) + seq![COLON] + encode_utf8(password)
}

/// The key of the long-term credential for `username` in `realm` under
/// `password`: the MD5 digest of the three, with a colon between them.
pub fn turn_key(username: &str, realm: &str, password: &str) -> (r: [u8; 16])
    ensures
        r == md5_of(key_input(username@, realm@, password@)),
{
    let mut input: Vec<u8> = Vec::new();
    push_all(&mut input, username.as_bytes());
    input.push(COLON);
    push_all(&mut input, realm.as_bytes());
    input.push(COLON);
    push_all(&mut input, password.as_bytes());
    assert(input@ =~= key_input(username@, realm@, password@));
    md5_digest(input.as_slice())
}

/// How a message is authenticated: not at all, or with the password of a
/// user, in a realm or without one.
#[derive(Debug, Clone, PartialEq, Eq)]
pub enum StunAuth {
    NoAuth,
    Static { username: String, realm: Option<String>, password: String },
}

impl StunAuth {
    /// The key that the integrity attribute is computed with: with a realm,
    /// the key of the long-term credential; without one, the password itself.
    pub open spec fn key(&self) -> Option<Seq<u8>> {
        match self {
            StunAuth::NoAuth => None,
            StunAuth::Static { username, realm: Some(realm), password } => Some(
                md5_of(key_input(username@, realm@, password@))@,
            ),
            StunAuth::Static { realm: None, password, .. } => Some(encode_utf8(password@)),
        }
    }

    /// The key that the integrity attribute is computed with.
    pub fn key_data(&self) -> (r: Option<Vec<u8>>)
        ensures
            match r {
                Some(k) => self.key() == Some(k@),
                None => self.key() is None,
            },
    {
        match self {
            StunAuth::NoAuth => None,
            StunAuth::Static { username, realm, password } => match realm {
                Some(realm) => {
                    let key = turn_key(username.as_str(), realm.as_str(), password.as_str());
                    let owned = copy_range(key.as_slice(), 0, 16);
                    assert(owned@ =~= key@);
                    Some(owned)
                },
                None => {
                    let bytes = password.as_str().as_bytes();
                    let owned = copy_range(bytes, 0, bytes.len());
                    assert(owned@ =~= bytes@);
                    Some(owned)
                },
            },
        }
    }
}

} // verus!
