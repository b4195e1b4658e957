//! The composite username of an allocation: `dst.src.token`.
use crate::bytes::same_bytes;
use vstd::prelude::*;
use vstd::utf8::{encode_utf8, is_char_boundary, is_continuation_byte, valid_utf8};

verus! {

/// The byte that separates the segments of a username.
pub const DOT: u8 = 0x2E;

/// Where the segment that starts at `from` ends: at the next dot, or at the
/// end of `s`.
pub open spec fn segment_end(s: Seq<u8>, from: int) -> int
    decreases s.len() - from,
{
    if from < 0 || from >= s.len() {
        s.len() as int
    } else if s[from] == DOT {
        from
    } else {
        segment_end(s, from + 1)
    }
}

/// The lengths of the three dot-separated segments of `s`, where `s` has
/// exactly three segments and none of them is empty.
pub open spec fn tri_part(s: Seq<u8>) -> Option<(int, int, int)> {
    let e1 = segment_end(s, 0);
    let e2 = segment_end(s, e1 + 1);
    let e3 = segment_end(s, e2 + 1);
    if e1 >= s.len() || e2 >= s.len() || e3 < s.len() {
        None
    } else if e1 == 0 || e2 == e1 + 1 || e3 == e2 + 1 {
        None
    } else {
        Some((e1, e2 - e1 - 1, e3 - e2 - 1))
    }
}

/// A segment ends behind its start, within the sequence, at a dot or at the
/// end, and holds no dot.
pub proof fn lemma_segment_end(s: Seq<u8>, from: int)
    requires
        0 <= from <= s.len(),
    ensures
        from <= segment_end(s, from) <= s.len(),
        segment_end(s, from) < s.len() ==> s[segment_end(s, from)] == DOT,
        forall|i: int| from <= i < segment_end(s, from) ==> s[i] != DOT,
    decreases s.len() - from,
{
    if from < s.len() && s[from] != DOT {
        lemma_segment_end(s, from + 1);
    }
}

/// What the lengths of the three segments say of the bytes: where the two
/// dots stand, that no segment holds a dot, and that the segments with the
/// dots between them are all of the bytes.
pub proof fn lemma_tri_part(s: Seq<u8>)
    ensures
        match tri_part(s) {
            Some((n1, n2, n3)) => {
                &&& n1 > 0 && n2 > 0 && n3 > 0
                &&& n1 + n2 + n3 + 2 == s.len()
                &&& s[n1] == DOT
                &&& s[n1 + 1 + n2] == DOT
                &&& forall|i: int| 0 <= i < s.len() && i != n1 && i != n1 + 1 + n2 ==> s[i] != DOT
                &&& n1 == segment_end(s, 0)
                &&& n1 + 1 + n2 == segment_end(s, n1 + 1)
                &&& n1 + n2 + n3 + 2 == segment_end(s, n1 + n2 + 2)
                &&& s == s.subrange(0, n1) + seq![DOT] + s.subrange(n1 + 1, n1 + 1 + n2)
                    + seq![DOT] + s.subrange(n1 + n2 + 2, s.len() as int)
            },
            None => true,
        },
{
    lemma_segment_end(s, 0);
    let e1 = segment_end(s, 0);
    if e1 < s.len() {
        lemma_segment_end(s, e1 + 1);
        let e2 = segment_end(s, e1 + 1);
        if e2 < s.len() {
            lemma_segment_end(s, e2 + 1);
        }
    }
}

/// A username of three non-empty segments: whom the client wishes to reach,
/// who the client is, and the token that both sides share.
#[derive(Debug)]
pub struct TurnUsername {
    full: String,
    len_1: usize,
    len_2: usize,
    len_3: usize,
}

impl TurnUsername {
    #[verifier::type_invariant]
    closed spec fn inv(&self) -> bool {
        tri_part(encode_utf8(self.full@)) == Some(
            (self.len_1 as int, self.len_2 as int, self.len_3 as int),
        )
    }

    /// The whole username, as bytes.
    pub closed spec fn full_bytes(&self) -> Seq<u8> {
        encode_utf8(self.full@)
    }

    /// The whole username.
    pub closed spec fn full_text(&self) -> Seq<char> {
        self.full@
    }

    /// The first segment, as bytes.
    pub closed spec fn dst_bytes(&self) -> Seq<u8> {
        encode_utf8(self.full@).subrange(0, self.len_1 as int)
    }

    /// The second segment, as bytes.
    pub closed spec fn src_bytes(&self) -> Seq<u8> {
        encode_utf8(self.full@).subrange(self.len_1 + 1, self.len_1 + 1 + self.len_2)
    }

    /// The third segment, as bytes.
    pub closed spec fn token_bytes(&self) -> Seq<u8> {
        encode_utf8(self.full@).subrange(
            self.len_1 + 1 + self.len_2 + 1,
            self.len_1 + 1 + self.len_2 + 1 + self.len_3,
        )
    }

    /// Whether this username and `other` name each other: each one's
    /// destination is the other's source, and the tokens agree.
    pub open spec fn matches_spec(&self, other: &TurnUsername) -> bool {
        &&& self.dst_bytes() == other.src_bytes()
        &&& self.src_bytes() == other.dst_bytes()
        &&& self.token_bytes() == other.token_bytes()
    }

    /// Reads a username. It must have exactly three dot-separated segments,
    /// none of them empty; the three, with a dot between them, then spell it.
    pub fn try_from(value: &str) -> (r: Option<TurnUsername>)
        ensures
            r is Some <==> tri_part(encode_utf8(value@)) is Some,
            match r {
                Some(u) => {
                    let bytes = encode_utf8(value@);
                    let (n1, n2, n3) = tri_part(bytes)->0;
                    &&& u.full_text() == value@
                    &&& u.full_bytes() == bytes
                    &&& u.dst_bytes() == bytes.subrange(0, n1)
                    &&& u.src_bytes() == bytes.subrange(n1 + 1, n1 + 1 + n2)
                    &&& u.token_bytes() == bytes.subrange(n1 + n2 + 2, n1 + n2 + 2 + n3)
                    &&& u.dst_bytes() + seq![DOT] + u.src_bytes() + seq![DOT] + u.token_bytes()
                        == bytes
                },
                None => true,
            },
    {
        let bytes = value.as_bytes();
        let n: usize = bytes.len();
        let e1: usize = find_dot(bytes, 0);
        if e1 >= n || e1 == 0 {
            return None;
        }
        proof {
            lemma_tri_part(bytes@);
        }
        let e2: usize = find_dot(bytes, e1 + 1);
        if e2 >= n || e2 == e1 + 1 {
            return None;
        }
        let e3: usize = find_dot(bytes, e2 + 1);
        if e3 < n || e3 == e2 + 1 {
            return None;
        }
        Some(
            TurnUsername {
                full: value.to_owned(),
                len_1: e1,
                len_2: e2 - e1 - 1,
                len_3: e3 - e2 - 1,
            },
        )
    }

    /// A copy of this username.
    pub fn copy(&self) -> (r: TurnUsername)
        ensures
            r.full_text() == self.full_text(),
            r.full_bytes() == self.full_bytes(),
            r.dst_bytes() == self.dst_bytes(),
            r.src_bytes() == self.src_bytes(),
            r.token_bytes() == self.token_bytes(),
    {
        proof {
            use_type_invariant(self);
        }
        TurnUsername {
            full: self.full.clone(),
            len_1: self.len_1,
            len_2: self.len_2,
            len_3: self.len_3,
        }
    }

    /// The whole username: the three segments with a dot between them.
    pub fn as_str(&self) -> (r: &str)
        ensures
            r@ == self.full_text(),
            encode_utf8(r@) == self.full_bytes(),
            self.full_bytes() == self.dst_bytes() + seq![DOT] + self.src_bytes() + seq![DOT]
                + self.token_bytes(),
            tri_part(self.full_bytes()) is Some,
    {
        proof {
            use_type_invariant(self);
            lemma_tri_part(self.full_bytes());
        }
        self.full.as_str()
    }

    /// The identity that the client wishes to reach.
    pub fn dst(&self) -> (r: &str)
        ensures
            encode_utf8(r@) == self.dst_bytes(),
    {
        let n: usize = self.full.as_str().as_bytes().len();
        proof {
            use_type_invariant(self);
            lemma_tri_part(self.full_bytes());
        }
        segment(self.full.as_str(), 0, self.len_1)
    }

    /// The identity of the client itself.
    pub fn src(&self) -> (r: &str)
        ensures
            encode_utf8(r@) == self.src_bytes(),
    {
        let n: usize = self.full.as_str().as_bytes().len();
        proof {
            use_type_invariant(self);
            lemma_tri_part(self.full_bytes());
        }
        segment(self.full.as_str(), self.len_1 + 1, self.len_1 + 1 + self.len_2)
    }

    /// The token that both sides of a pair share.
    pub fn token(&self) -> (r: &str)
        ensures
            encode_utf8(r@) == self.token_bytes(),
    {
        let n: usize = self.full.as_str().as_bytes().len();
        proof {
            use_type_invariant(self);
            lemma_tri_part(self.full_bytes());
        }
        segment(
            self.full.as_str(),
            self.len_1 + 1 + self.len_2 + 1,
            self.len_1 + 1 + self.len_2 + 1 + self.len_3,
        )
    }

    /// Whether this username and `other` name each other.
    pub fn matches(&self, other: &TurnUsername) -> (r: bool)
        ensures
            r == self.matches_spec(other),
    {
        same_bytes(self.dst().as_bytes(), other.src().as_bytes()) && same_bytes(
            self.src().as_bytes(),
            other.dst().as_bytes(),
        ) && same_bytes(self.token().as_bytes(), other.token().as_bytes())
    }

    /// Whether the whole username is `name`.
    pub fn is(&self, name: &str) -> (r: bool)
        ensures
            r == (self.full_bytes() == encode_utf8(name@)),
    {
        same_bytes(self.full.as_str().as_bytes(), name.as_bytes())
    }
}

/// The index of the first dot of `bytes` from `from` on, or its length.
fn find_dot(bytes: &[u8], from: usize) -> (r: usize)
    requires
        from <= bytes@.len(),
    ensures
        r == segment_end(bytes@, from as int),
        from <= r <= bytes@.len(),
{
    let mut i: usize = from;
    while i < bytes.len() && bytes[i] != DOT
        invariant
            from <= i <= bytes@.len(),
            segment_end(bytes@, from as int) == segment_end(bytes@, i as int),
        decreases bytes@.len() - i,
    {
        i += 1;
    }
    i
}

/// A dot never stands inside the encoding of a character.
proof fn lemma_dot_is_boundary(bytes: Seq<u8>, index: int)
    requires
        valid_utf8(bytes),
        0 <= index <= bytes.len(),
        index < bytes.len() ==> bytes[index] == DOT,
    ensures
        is_char_boundary(bytes, index),
{
    broadcast use vstd::utf8::is_char_boundary_start_end_of_seq;

    if index < bytes.len() {
        let b = bytes[index];
        assert(!is_continuation_byte(b)) by {
            assert(b & 0xC0 != 0x80) by (bit_vector)
                requires
                    b == 0x2Eu8,
            ;
        }
        vstd::utf8::is_char_boundary_iff_not_is_continuation_byte(bytes, index);
    }
}

/// The part of `s` between two places that are each the start of `s`, its
/// end, or just behind or at a dot.
fn segment(s: &str, from: usize, to: usize) -> (r: &str)
    requires
        from <= to <= encode_utf8(s@).len(),
        from == 0 || encode_utf8(s@)[from - 1] == DOT,
        to == encode_utf8(s@).len() || encode_utf8(s@)[to as int] == DOT,
    ensures
        encode_utf8(r@) == encode_utf8(s@).subrange(from as int, to as int),
{
    broadcast use vstd::utf8::encode_utf8_valid_utf8;

    let ghost bytes = encode_utf8(s@);
    proof {
        lemma_dot_is_boundary(bytes, to as int);
    }
    let (head, _) = s.split_at(to);
    proof {
        lemma_after_dot_is_boundary(bytes, from as int);
        assert(encode_utf8(head@) =~= bytes.subrange(0, to as int));
        vstd::utf8::valid_utf8_split(bytes, to as int);
        lemma_boundary_in_head(bytes, from as int, to as int);
    }
    let (_, tail) = head.split_at(from);
    assert(encode_utf8(tail@) =~= bytes.subrange(from as int, to as int));
    tail
}

/// The place behind a dot is the start of a character.
proof fn lemma_after_dot_is_boundary(bytes: Seq<u8>, index: int)
    requires
        valid_utf8(bytes),
        0 <= index <= bytes.len(),
        index == 0 || bytes[index - 1] == DOT,
    ensures
        is_char_boundary(bytes, index),
{
    broadcast use vstd::utf8::is_char_boundary_start_end_of_seq;

    if index > 0 {
        lemma_dot_is_boundary(bytes, index - 1);
        vstd::utf8::valid_utf8_split(bytes, index - 1);
        let rest = bytes.subrange(index - 1, bytes.len() as int);
        // the dot is a whole character, so the character after it starts at 1
        lemma_boundary_shift(bytes, index - 1, index);
        lemma_one_byte_char(rest);
    }
}

/// Behind a leading dot a new character starts.
proof fn lemma_one_byte_char(rest: Seq<u8>)
    requires
        valid_utf8(rest),
        rest.len() >= 1,
        rest[0] == DOT,
    ensures
        is_char_boundary(rest, 1),
{
    reveal_with_fuel(is_char_boundary, 3);
    reveal_with_fuel(valid_utf8, 2);
    let b = rest[0];
    assert(b & 0x80 == 0 && b & 0xC0 != 0x80 && b & 0xE0 != 0xC0 && b & 0xF0 != 0xE0 && b & 0xF8
        != 0xF0) by (bit_vector)
        requires
            b == 0x2Eu8,
    ;
}

/// A boundary of the part behind a boundary is a boundary of the whole.
proof fn lemma_boundary_shift(bytes: Seq<u8>, first: int, index: int)
    requires
        valid_utf8(bytes),
        0 <= first <= index <= bytes.len(),
        is_char_boundary(bytes, first),
        valid_utf8(bytes.subrange(first, bytes.len() as int)),
    ensures
        is_char_boundary(bytes.subrange(first, bytes.len() as int), index - first)
            ==> is_char_boundary(bytes, index),
{
    let rest = bytes.subrange(first, bytes.len() as int);
    if is_char_boundary(rest, index - first) && index < bytes.len() {
        if index - first < rest.len() {
            vstd::utf8::is_char_boundary_iff_not_is_continuation_byte(rest, index - first);
            vstd::utf8::is_char_boundary_iff_not_is_continuation_byte(bytes, index);
        }
    } else if index == bytes.len() {
        vstd::utf8::is_char_boundary_start_end_of_seq(bytes);
    }
}

/// A boundary of the whole that lies in its head is a boundary of the head.
proof fn lemma_boundary_in_head(bytes: Seq<u8>, index: int, to: int)
    requires
        valid_utf8(bytes),
        0 <= index <= to <= bytes.len(),
        is_char_boundary(bytes, index),
        valid_utf8(bytes.subrange(0, to)),
    ensures
        is_char_boundary(bytes.subrange(0, to), index),
{
    let head = bytes.subrange(0, to);
    if index < to {
        vstd::utf8::is_char_boundary_iff_not_is_continuation_byte(bytes, index);
        vstd::utf8::is_char_boundary_iff_not_is_continuation_byte(head, index);
    } else {
        vstd::utf8::is_char_boundary_start_end_of_seq(head);
    }
}

/// Two usernames name each other in either order or in neither.
pub proof fn lemma_matches_commutes(a: TurnUsername, b: TurnUsername)
    ensures
        a.matches_spec(&b) <==> b.matches_spec(&a),
{
}

} // verus!
