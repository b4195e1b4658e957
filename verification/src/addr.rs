//! Transport addresses and their encoding in address attributes, plain and
//! XOR-masked.
use crate::bytes::{
    be16, be32, be64, from_be16, from_be32, from_be64, lemma_be16_roundtrip, lemma_be32_roundtrip,
    lemma_be64_roundtrip, push_all, push_be16, push_be32, push_be64, read_be16, read_be32,
    read_be64,
};
use vstd::slice::slice_subrange;
use crate::error::StunAttrDecodeErr;
use vstd::prelude::*;

verus! {

/// An IP address, held as the integer that its octets spell in network order.
#[derive(Debug, Clone, Copy, PartialEq, Eq, Hash, Structural)]
pub enum IpAddress {
    V4(u32),
    V6(u128),
}

/// An IP address and a port.
#[derive(Debug, Clone, Copy, PartialEq, Eq, Hash, Structural)]
pub struct SocketAddress {
    pub ip: IpAddress,
    pub port: u16,
}

/// The family byte of IPv4.
pub const FAMILY_V4: u8 = 0x01;

/// The family byte of IPv6.
pub const FAMILY_V6: u8 = 0x02;

/// The sixteen bytes of `v`, most significant first.
pub open spec fn be128(v: u128) -> Seq<u8> {
    be64((v / 0x1_0000_0000_0000_0000) as u64) + be64((v % 0x1_0000_0000_0000_0000) as u64)
}

/// The integer whose big-endian bytes are `s[0..16]`.
pub open spec fn from_be128(s: Seq<u8>) -> u128
    recommends
        s.len() >= 16,
{
    (from_be64(s.subrange(0, 8)) as int * 0x1_0000_0000_0000_0000 + from_be64(
        s.subrange(8, 16),
    ) as int) as u128
}

/// `a` with each byte masked by the byte of `seed` at the same place.
pub open spec fn xor_seq(a: Seq<u8>, seed: Seq<u8>) -> Seq<u8>
    recommends
        a.len() <= seed.len(),
{
    Seq::new(a.len(), |i: int| a[i] ^ seed[i])
}

/// Whether `v` is an IPv4 address written as IPv6 (`::ffff:a.b.c.d`).
pub open spec fn is_v4_mapped(v: u128) -> bool {
    v / 0x1_0000_0000 == 0xffff
}

impl IpAddress {
    /// The address with an IPv4-mapped IPv6 address turned into IPv4.
    pub open spec fn canonical(&self) -> IpAddress {
        match *self {
            IpAddress::V4(v) => IpAddress::V4(v),
            IpAddress::V6(v) => if is_v4_mapped(v) {
                IpAddress::V4((v % 0x1_0000_0000) as u32)
            } else {
                IpAddress::V6(v)
            },
        }
    }

    /// The octets in network order: four for IPv4, sixteen for IPv6.
    pub open spec fn octets(&self) -> Seq<u8> {
        match *self {
            IpAddress::V4(v) => be32(v),
            IpAddress::V6(v) => be128(v),
        }
    }

    /// The family byte.
    pub open spec fn family(&self) -> u8 {
        match *self {
            IpAddress::V4(_) => FAMILY_V4,
            IpAddress::V6(_) => FAMILY_V6,
        }
    }

    /// The address with an IPv4-mapped IPv6 address turned into IPv4.
    pub fn to_canonical(&self) -> (r: IpAddress)
        ensures
            r == self.canonical(),
    {
        match *self {
            IpAddress::V4(v) => IpAddress::V4(v),
            IpAddress::V6(v) => if v / 0x1_0000_0000 == 0xffff {
                IpAddress::V4((v % 0x1_0000_0000) as u32)
            } else {
                IpAddress::V6(v)
            },
        }
    }

    /// Appends the octets, in network order, to `out`.
    pub fn push_octets(&self, out: &mut Vec<u8>)
        ensures
            final(out)@ == old(out)@ + self.octets(),
    {
        let ghost before = out@;
        match *self {
            IpAddress::V4(v) => push_be32(out, v),
            IpAddress::V6(v) => {
                push_be64(out, (v / 0x1_0000_0000_0000_0000) as u64);
                push_be64(out, (v % 0x1_0000_0000_0000_0000) as u64);
                assert(out@ =~= before + be128(v));
            },
        }
    }
}

impl SocketAddress {
    /// The address with its IP part made canonical.
    pub open spec fn canonical(&self) -> SocketAddress {
        SocketAddress { ip: self.ip.canonical(), port: self.port }
    }
}

/// The content of an address attribute: a zero byte, the family, the port and
/// the octets. Port and octets are each masked with `seed` from its first
/// byte on. The IP part is written as given.
pub open spec fn raw_addr_bytes(ip: IpAddress, port: u16, seed: Seq<u8>) -> Seq<u8> {
    seq![0u8, ip.family()] + xor_seq(be16(port), seed) + xor_seq(ip.octets(), seed)
}

/// The content of an address attribute for `addr`, made canonical first.
pub open spec fn addr_bytes(addr: SocketAddress, seed: Seq<u8>) -> Seq<u8> {
    raw_addr_bytes(addr.ip.canonical(), addr.port, seed)
}

/// What the content of an address attribute stands for, under `seed`.
pub open spec fn addr_of_bytes(data: Seq<u8>, seed: Seq<u8>) -> Result<
    SocketAddress,
    StunAttrDecodeErr,
> {
    if data.len() < 4 {
        Err(StunAttrDecodeErr::AddrTooShort)
    } else {
        let port = from_be16(xor_seq(data.subrange(2, 4), seed));
        if data[1] == FAMILY_V4 {
            if data.len() != 8 {
                Err(StunAttrDecodeErr::AddrWrongSize)
            } else {
                Ok(
                    SocketAddress {
                        ip: IpAddress::V4(from_be32(xor_seq(data.subrange(4, 8), seed))),
                        port,
                    },
                )
            }
        } else if data[1] == FAMILY_V6 {
            if data.len() != 20 {
                Err(StunAttrDecodeErr::AddrWrongSize)
            } else {
                Ok(
                    SocketAddress {
                        ip: IpAddress::V6(from_be128(xor_seq(data.subrange(4, 20), seed))),
                        port,
                    },
                )
            }
        } else {
            Err(StunAttrDecodeErr::AddrUnknownFamily)
        }
    }
}

/// The length of the content of an address attribute for `addr`.
pub open spec fn addr_len(addr: SocketAddress) -> int {
    match addr.ip.canonical() {
        IpAddress::V4(_) => 8,
        IpAddress::V6(_) => 20,
    }
}

/// Masking twice with the same seed gives the bytes back.
pub proof fn lemma_xor_twice(a: Seq<u8>, seed: Seq<u8>)
    requires
        a.len() <= seed.len(),
    ensures
        xor_seq(xor_seq(a, seed), seed) == a,
{
    assert forall|i: int| 0 <= i < a.len() implies #[trigger] xor_seq(xor_seq(a, seed), seed)[i]
        == a[i] by {
        let x = a[i];
        let y = seed[i];
        assert((x ^ y) ^ y == x) by (bit_vector);
    }
    assert(xor_seq(xor_seq(a, seed), seed) =~= a);
}

/// Masking with a seed of zeros changes nothing.
pub proof fn lemma_xor_zero(a: Seq<u8>, seed: Seq<u8>)
    requires
        a.len() <= seed.len(),
        forall|i: int| 0 <= i < seed.len() ==> seed[i] == 0,
    ensures
        xor_seq(a, seed) == a,
{
    assert forall|i: int| 0 <= i < a.len() implies #[trigger] xor_seq(a, seed)[i] == a[i] by {
        let x = a[i];
        assert(x ^ 0 == x) by (bit_vector);
    }
    assert(xor_seq(a, seed) =~= a);
}

/// Reading back the big-endian bytes of a 128-bit integer gives the integer.
pub proof fn lemma_be128_roundtrip(v: u128)
    ensures
        be128(v).len() == 16,
        from_be128(be128(v)) == v,
{
    let hi = (v / 0x1_0000_0000_0000_0000) as u64;
    let lo = (v % 0x1_0000_0000_0000_0000) as u64;
    lemma_be64_roundtrip(hi);
    lemma_be64_roundtrip(lo);
    assert(be128(v).subrange(0, 8) =~= be64(hi));
    assert(be128(v).subrange(8, 16) =~= be64(lo));
}

/// Encoding a socket address under a seed and decoding the bytes under the
/// same seed gives the address back, with its IP part made canonical.
pub proof fn lemma_addr_roundtrip(addr: SocketAddress, seed: Seq<u8>)
    requires
        seed.len() == 16,
    ensures
        addr_bytes(addr, seed).len() == addr_len(addr),
        addr_of_bytes(addr_bytes(addr, seed), seed) == Ok::<SocketAddress, StunAttrDecodeErr>(
            addr.canonical(),
        ),
{
    let ip = addr.ip.canonical();
    lemma_raw_addr_roundtrip(ip, addr.port, seed);
}

/// Decoding the plain encoding of an IP address and a port, under the seed it
/// was masked with, gives both back.
pub proof fn lemma_raw_addr_roundtrip(ip: IpAddress, port: u16, seed: Seq<u8>)
    requires
        seed.len() == 16,
    ensures
        raw_addr_bytes(ip, port, seed).len() == (if ip is V4 {
            8int
        } else {
            20int
        }),
        addr_of_bytes(raw_addr_bytes(ip, port, seed), seed) == Ok::<
            SocketAddress,
            StunAttrDecodeErr,
        >(SocketAddress { ip, port }),
{
    let data = raw_addr_bytes(ip, port, seed);
    lemma_be16_roundtrip(port);
    assert(data.subrange(2, 4) =~= xor_seq(be16(port), seed));
    lemma_xor_twice(be16(port), seed);
    match ip {
        IpAddress::V4(v) => {
            lemma_be32_roundtrip(v);
            assert(data.subrange(4, 8) =~= xor_seq(be32(v), seed));
            lemma_xor_twice(be32(v), seed);
        },
        IpAddress::V6(v) => {
            lemma_be128_roundtrip(v);
            assert(data.subrange(4, 20) =~= xor_seq(be128(v), seed));
            lemma_xor_twice(be128(v), seed);
        },
    }
}

/// `arr` with each byte masked by the byte of `xor_bytes` at the same place.
pub fn map_xor_bytes(arr: &[u8], xor_bytes: &[u8; 16]) -> (r: Vec<u8>)
    requires
        arr@.len() <= 16,
    ensures
        r@ == xor_seq(arr@, xor_bytes@),
{
    let mut r: Vec<u8> = Vec::new();
    let mut i: usize = 0;
    while i < arr.len()
        invariant
            i <= arr@.len() <= 16,
            r@ == xor_seq(arr@.take(i as int), xor_bytes@),
        decreases arr@.len() - i,
    {
        r.push(arr[i] ^ xor_bytes[i]);
        assert(r@ =~= xor_seq(arr@.take(i + 1), xor_bytes@));
        i += 1;
    }
    assert(arr@.take(arr@.len() as int) =~= arr@);
    r
}

/// Reads the content of an address attribute, masked with `xor_bytes`.
pub fn stun_addr_attr(data: &[u8], xor_bytes: &[u8; 16]) -> (r: Result<
    SocketAddress,
    StunAttrDecodeErr,
>)
    ensures
        r == addr_of_bytes(data@, xor_bytes@),
{
    if data.len() < 4 {
        return Err(StunAttrDecodeErr::AddrTooShort);
    }
    let family: u8 = data[1];
    let port_bytes = map_xor_bytes(slice_subrange(data, 2, 4), xor_bytes);
    let port: u16 = read_be16(port_bytes.as_slice(), 0);
    assert(port_bytes@.subrange(0, 2) =~= port_bytes@);
    if family == FAMILY_V4 {
        if data.len() != 8 {
            return Err(StunAttrDecodeErr::AddrWrongSize);
        }
        let octets = map_xor_bytes(slice_subrange(data, 4, 8), xor_bytes);
        assert(octets@.subrange(0, 4) =~= octets@);
        let v: u32 = read_be32(octets.as_slice(), 0);
        Ok(SocketAddress { ip: IpAddress::V4(v), port })
    } else if family == FAMILY_V6 {
        if data.len() != 20 {
            return Err(StunAttrDecodeErr::AddrWrongSize);
        }
        let octets = map_xor_bytes(slice_subrange(data, 4, 20), xor_bytes);
        let hi: u64 = read_be64(octets.as_slice(), 0);
        let lo: u64 = read_be64(octets.as_slice(), 8);
        let v: u128 = (hi as u128) * 0x1_0000_0000_0000_0000 + (lo as u128);
        Ok(SocketAddress { ip: IpAddress::V6(v), port })
    } else {
        Err(StunAttrDecodeErr::AddrUnknownFamily)
    }
}

/// Appends a zero byte, the family, the masked port and the masked octets.
fn push_raw_addr(ip: &IpAddress, port: u16, out: &mut Vec<u8>, xor_bytes: &[u8; 16])
    ensures
        final(out)@ == old(out)@ + raw_addr_bytes(*ip, port, xor_bytes@),
{
    let ghost before = out@;
    out.push(0);
    out.push(
        match *ip {
            IpAddress::V4(_) => FAMILY_V4,
            IpAddress::V6(_) => FAMILY_V6,
        },
    );
    let mut plain: Vec<u8> = Vec::new();
    push_be16(&mut plain, port);
    let masked_port = map_xor_bytes(plain.as_slice(), xor_bytes);
    push_all(out, masked_port.as_slice());
    let mut octets: Vec<u8> = Vec::new();
    ip.push_octets(&mut octets);
    proof {
        match *ip {
            IpAddress::V4(v) => lemma_be32_roundtrip(v),
            IpAddress::V6(v) => lemma_be128_roundtrip(v),
        }
    }
    let masked = map_xor_bytes(octets.as_slice(), xor_bytes);
    push_all(out, masked.as_slice());
    assert(out@ =~= before + raw_addr_bytes(*ip, port, xor_bytes@));
}

/// Appends the content of an address attribute for `addr` to `out`, masked
/// with `xor_bytes`. An IPv4-mapped IPv6 address is written as IPv4.
pub fn encode_addr_attr(addr: &SocketAddress, out: &mut Vec<u8>, xor_bytes: &[u8; 16])
    ensures
        final(out)@ == old(out)@ + addr_bytes(*addr, xor_bytes@),
{
    let ip = addr.ip.to_canonical();
    push_raw_addr(&ip, addr.port, out, xor_bytes);
}

/// The unmasked encoding of an IP address and a port: a zero byte, the
/// family, the port and the octets. The address is written as given.
pub fn encode_addr(ip: &IpAddress, port: u16) -> (r: Vec<u8>)
    ensures
        r@ == seq![0u8, ip.family()] + be16(port) + ip.octets(),
{
    let zero: [u8; 16] = [0u8; 16];
    let mut r: Vec<u8> = Vec::new();
    push_raw_addr(ip, port, &mut r, &zero);
    proof {
        lemma_xor_zero(be16(port), zero@);
        match *ip {
            IpAddress::V4(v) => lemma_be32_roundtrip(v),
            IpAddress::V6(v) => lemma_be128_roundtrip(v),
        }
        lemma_xor_zero(ip.octets(), zero@);
    }
    r
}

} // verus!
