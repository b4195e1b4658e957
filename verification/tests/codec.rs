use wonk_relay::addr::{encode_addr, encode_addr_attr, map_xor_bytes, stun_addr_attr, IpAddress, SocketAddress};
use wonk_relay::attr::{AttrContext, ErrorCode, Integrity, StunAttr, UnknownAttributes};
use wonk_relay::bytes::{read_be16, read_be32, read_be64};
use wonk_relay::digest::{md5, sha1_hmac};
use wonk_relay::error::{StunAttrDecodeErr, StunDecodeErr};
use wonk_relay::stun::Stun;
use wonk_relay::typ::StunTyp;

const TXID: [u8; 12] = [1, 2, 3, 4, 5, 6, 7, 8, 9, 10, 11, 12];

fn header_for(txid: &[u8; 12]) -> [u8; 20] {
    let mut h = [0u8; 20];
    h[1] = 0x01;
    h[4..8].copy_from_slice(&[0x21, 0x12, 0xA4, 0x42]);
    h[8..].copy_from_slice(txid);
    h
}

fn hex(bytes: &[u8]) -> String {
    let mut s = String::new();
    for b in bytes {
        s.push_str(&format!("{:02x}", b));
    }
    s
}

fn v4(a: u8, b: u8, c: u8, d: u8, port: u16) -> SocketAddress {
    SocketAddress { ip: IpAddress::V4(u32::from_be_bytes([a, b, c, d])), port }
}

#[test]
fn md5_of_known_messages() {
    assert_eq!(hex(&md5(&[])), "d41d8cd98f00b204e9800998ecf8427e");
    assert_eq!(hex(&md5(&[b"abc"])), "900150983cd24fb0d6963f7d28e17f72");
    assert_eq!(hex(&md5(&[b"a", b"", b"bc"])), "900150983cd24fb0d6963f7d28e17f72");
}

#[test]
fn sha1_hmac_of_known_message() {
    let tag = sha1_hmac(b"key", &[b"The quick brown fox ", b"jumps over the lazy dog"]);
    assert_eq!(hex(&tag), "de7c9b85b8b78aa6bc8a7a36f70a90701c9db4d9");
}

#[test]
fn big_endian_reads() {
    let b = [0x12, 0x34, 0x56, 0x78, 0x9a, 0xbc, 0xde, 0xf0, 0x11];
    assert_eq!(read_be16(&b, 0), 0x1234);
    assert_eq!(read_be16(&b, 7), 0xf011);
    assert_eq!(read_be32(&b, 1), 0x3456789a);
    assert_eq!(read_be64(&b, 0), 0x123456789abcdef0);
}

#[test]
fn typ_packs_class_and_method() {
    assert_eq!(StunTyp::Req(0x001).code(), 0x0001);
    assert_eq!(StunTyp::Res(0x001).code(), 0x0101);
    assert_eq!(StunTyp::Error(0x003).code(), 0x0113);
    assert_eq!(StunTyp::Ind(0x006).code(), 0x0016);
    assert_eq!(StunTyp::Req(0xfff).code(), 0x3eef);
    assert_eq!(StunTyp::Req(0x010).code(), 0x0020);
    assert_eq!(StunTyp::try_from(0x0113), Ok(StunTyp::Error(0x003)));
    assert_eq!(StunTyp::try_from(0x3fff), Ok(StunTyp::Error(0xfff)));
    assert_eq!(StunTyp::try_from(0x4000), Err(StunDecodeErr::TypeOutOfRange));
    assert_eq!(StunTyp::try_from(0xffff), Err(StunDecodeErr::TypeOutOfRange));
    assert_eq!(StunTyp::Ind(0x007).method(), 0x007);
    assert!(StunTyp::Res(1).is_response());
    assert!(StunTyp::Error(1).is_response());
    assert!(!StunTyp::Req(1).is_response());
    assert!(!StunTyp::Ind(1).is_response());
}

#[test]
fn typ_round_trips_for_every_field() {
    let mut v: u16 = 0;
    while v < 0x4000 {
        let t = StunTyp::try_from(v).unwrap();
        assert_eq!(t.code(), v);
        v += 1;
    }
}

#[test]
fn xor_bytes_mask_with_the_seed() {
    let seed = [0x21, 0x12, 0xA4, 0x42, 1, 2, 3, 4, 5, 6, 7, 8, 9, 10, 11, 12];
    assert_eq!(map_xor_bytes(&[0x80, 0x55], &seed), vec![0xa1, 0x47]);
    assert_eq!(map_xor_bytes(&[], &seed), Vec::<u8>::new());
    let twice = map_xor_bytes(&map_xor_bytes(&[9, 8, 7, 6, 5], &seed), &seed);
    assert_eq!(twice, vec![9, 8, 7, 6, 5]);
}

#[test]
fn xor_mapped_address_of_the_sample_response() {
    let header = header_for(&TXID);
    let mut seed = [0u8; 16];
    seed.copy_from_slice(&header[4..]);
    let mut out = Vec::new();
    encode_addr_attr(&v4(192, 0, 2, 1, 32853), &mut out, &seed);
    assert_eq!(out, vec![0x00, 0x01, 0xa1, 0x47, 0xe1, 0x12, 0xa6, 0x43]);
    assert_eq!(stun_addr_attr(&out, &seed), Ok(v4(192, 0, 2, 1, 32853)));
}

#[test]
fn xor_address_round_trips_for_ipv6() {
    let seed = [0x21, 0x12, 0xA4, 0x42, 1, 2, 3, 4, 5, 6, 7, 8, 9, 10, 11, 12];
    let addr = SocketAddress { ip: IpAddress::V6(0x2001_0db8_0000_0000_0000_0000_0000_0001), port: 3478 };
    let mut out = Vec::new();
    encode_addr_attr(&addr, &mut out, &seed);
    assert_eq!(out.len(), 20);
    assert_eq!(out[1], 0x02);
    assert_eq!(&out[2..4], &[0x0d ^ 0x21, 0x96 ^ 0x12]);
    assert_eq!(out[4], 0x20 ^ 0x21);
    assert_eq!(out[19], 0x01 ^ 12);
    assert_eq!(stun_addr_attr(&out, &seed), Ok(addr));
}

#[test]
fn mapped_ipv6_is_written_as_ipv4() {
    let seed = [0u8; 16];
    let addr = SocketAddress { ip: IpAddress::V6(0xffff_c000_0201), port: 80 };
    let mut out = Vec::new();
    encode_addr_attr(&addr, &mut out, &seed);
    assert_eq!(out, vec![0, 1, 0, 80, 192, 0, 2, 1]);
    assert_eq!(stun_addr_attr(&out, &seed), Ok(v4(192, 0, 2, 1, 80)));
    assert_eq!(addr.ip.to_canonical(), IpAddress::V4(0xc000_0201));
    assert_eq!(IpAddress::V6(1).to_canonical(), IpAddress::V6(1));
}

#[test]
fn address_errors() {
    let seed = [0u8; 16];
    assert_eq!(stun_addr_attr(&[0, 1, 0], &seed), Err(StunAttrDecodeErr::AddrTooShort));
    assert_eq!(stun_addr_attr(&[0, 1, 0, 80, 1, 2, 3], &seed), Err(StunAttrDecodeErr::AddrWrongSize));
    assert_eq!(stun_addr_attr(&[0, 2, 0, 80, 1, 2, 3, 4], &seed), Err(StunAttrDecodeErr::AddrWrongSize));
    assert_eq!(stun_addr_attr(&[0, 3, 0, 80, 1, 2, 3, 4], &seed), Err(StunAttrDecodeErr::AddrUnknownFamily));
    assert_eq!(stun_addr_attr(&[7, 1, 0, 80, 1, 2, 3, 4], &seed), Ok(v4(1, 2, 3, 4, 80)));
}

#[test]
fn plain_address_encoding() {
    assert_eq!(encode_addr(&IpAddress::V4(0x7f00_0001), 3478), vec![0, 1, 0x0d, 0x96, 127, 0, 0, 1]);
    let v6 = encode_addr(&IpAddress::V6(1), 1);
    assert_eq!(v6.len(), 20);
    assert_eq!(&v6[..4], &[0, 2, 0, 1]);
    assert_eq!(v6[19], 1);
    let mapped = encode_addr(&IpAddress::V6(0xffff_0102_0304), 9);
    assert_eq!(mapped.len(), 20);
    assert_eq!(mapped[1], 2);
}

#[test]
fn attribute_types_and_lengths() {
    let a = v4(1, 2, 3, 4, 5);
    let six = SocketAddress { ip: IpAddress::V6(5), port: 1 };
    let cases: Vec<(StunAttr, u16, u16, u16)> = vec![
        (StunAttr::Mapped(a), 0x0001, 8, 12),
        (StunAttr::XMapped(six), 0x0020, 20, 24),
        (StunAttr::XPeer(a), 0x0012, 8, 12),
        (StunAttr::XRelayed(a), 0x0016, 8, 12),
        (StunAttr::AlternateServer(a), 0x8023, 8, 12),
        (StunAttr::Username("abcde".to_string()), 0x0006, 5, 12),
        (StunAttr::Realm("realm".to_string()), 0x0014, 5, 12),
        (StunAttr::Nonce("".to_string()), 0x0015, 0, 4),
        (StunAttr::Software("é".to_string()), 0x8022, 2, 8),
        (StunAttr::Integrity(Integrity::Sign { key_data: vec![1] }), 0x0008, 20, 24),
        (StunAttr::Error(ErrorCode { code: 401, message: "no".to_string() }), 0x0009, 6, 12),
        (StunAttr::UnknownAttributes(UnknownAttributes::List(vec![1, 2, 3])), 0x000A, 6, 12),
        (StunAttr::UnknownAttributes(UnknownAttributes::Parse(vec![0, 1])), 0x000A, 2, 8),
        (StunAttr::Fingerprint, 0x8028, 4, 8),
        (StunAttr::Channel(1), 0x000C, 4, 8),
        (StunAttr::Lifetime(1), 0x000D, 4, 8),
        (StunAttr::Data(vec![1, 2, 3, 4, 5, 6, 7]), 0x0013, 7, 12),
        (StunAttr::EvenPort(true), 0x0018, 1, 8),
        (StunAttr::RequestedTransport(17), 0x0019, 4, 8),
        (StunAttr::DontFragment, 0x001A, 0, 4),
        (StunAttr::ReservationToken(1), 0x0022, 4, 8),
        (StunAttr::Priority(1), 0x0024, 4, 8),
        (StunAttr::UseCandidate, 0x0025, 0, 4),
        (StunAttr::IceControlled(1), 0x8029, 8, 12),
        (StunAttr::IceControlling(1), 0x802A, 8, 12),
        (StunAttr::Other(0x7777, vec![1]), 0x7777, 1, 8),
    ];
    for (attr, typ, length, len) in cases {
        assert!(attr.fits());
        assert_eq!(attr.typ(), typ, "{:?}", attr);
        assert_eq!(attr.length(), length, "{:?}", attr);
        assert_eq!(attr.len(), len, "{:?}", attr);
        assert_eq!(attr.len() % 4, 0);
    }
}

#[test]
fn attribute_too_long_does_not_fit() {
    assert!(StunAttr::Data(vec![0; 65528]).fits());
    assert!(!StunAttr::Data(vec![0; 65529]).fits());
    assert!(!StunAttr::UnknownAttributes(UnknownAttributes::List(vec![0; 32765])).fits());
    assert!(StunAttr::UnknownAttributes(UnknownAttributes::List(vec![0; 32764])).fits());
}

#[test]
fn unknown_attributes_list_and_bytes() {
    let list = UnknownAttributes::List(vec![0x0001, 0x8022]);
    assert_eq!(list.len(), 4);
    let mut out = vec![9];
    list.encode(&mut out);
    assert_eq!(out, vec![9, 0x00, 0x01, 0x80, 0x22]);
    let bytes = UnknownAttributes::Parse(vec![1, 2, 3, 4, 5, 6]);
    assert_eq!(bytes.len(), 6);
    let mut out = Vec::new();
    bytes.encode(&mut out);
    assert_eq!(out, vec![1, 2, 3, 4, 5, 6]);
}

#[test]
fn attribute_frames_are_padded_with_zeros() {
    let header = header_for(&TXID);
    let ctx = AttrContext { header: &header, attrs_prefix: &[] };
    let mut out = Vec::new();
    StunAttr::Username("abcde".to_string()).encode(&mut out, &ctx);
    assert_eq!(out, vec![0x00, 0x06, 0x00, 0x05, b'a', b'b', b'c', b'd', b'e', 0, 0, 0]);
    let mut out = Vec::new();
    StunAttr::Error(ErrorCode { code: 437, message: "x".to_string() }).encode(&mut out, &ctx);
    assert_eq!(out, vec![0x00, 0x09, 0x00, 0x05, 0, 0, 4, 37, b'x', 0, 0, 0]);
    let mut out = Vec::new();
    StunAttr::RequestedTransport(17).encode(&mut out, &ctx);
    assert_eq!(out, vec![0x00, 0x19, 0x00, 0x04, 17, 0, 0, 0]);
    let mut out = Vec::new();
    StunAttr::EvenPort(true).encode(&mut out, &ctx);
    assert_eq!(out, vec![0x00, 0x18, 0x00, 0x01, 0x80, 0, 0, 0]);
    let mut out = Vec::new();
    StunAttr::IceControlling(0x0102030405060708).encode(&mut out, &ctx);
    assert_eq!(out, vec![0x80, 0x2A, 0x00, 0x08, 1, 2, 3, 4, 5, 6, 7, 8]);
    let mut out = Vec::new();
    StunAttr::Lifetime(60).encode(&mut out, &ctx);
    assert_eq!(out, vec![0x00, 0x0D, 0x00, 0x04, 0, 0, 0, 60]);
    let mut out = Vec::new();
    StunAttr::UseCandidate.encode(&mut out, &ctx);
    assert_eq!(out, vec![0x00, 0x25, 0x00, 0x00]);
}

#[test]
fn fingerprint_is_the_masked_checksum_of_what_precedes() {
    let header = header_for(&TXID);
    let prefix = [0x00u8, 0x25, 0x00, 0x00];
    let ctx = AttrContext { header: &header, attrs_prefix: &prefix };
    let mut out = Vec::new();
    StunAttr::Fingerprint.encode(&mut out, &ctx);
    let mut covered = Vec::new();
    covered.extend_from_slice(&header[..2]);
    covered.extend_from_slice(&12u16.to_be_bytes());
    covered.extend_from_slice(&header[4..]);
    covered.extend_from_slice(&prefix);
    let expected = crc32fast::hash(&covered) ^ 0x5354554E;
    assert_eq!(&out[..4], &[0x80, 0x28, 0x00, 0x04]);
    assert_eq!(&out[4..], &expected.to_be_bytes());
    assert_ne!(&out[4..], &covered[..4]);
}

#[test]
fn crc32_of_the_check_string() {
    assert_eq!(crc32fast::hash(b"123456789"), 0xCBF43926);
}

#[test]
fn integrity_is_the_tag_of_what_precedes() {
    let header = header_for(&TXID);
    let prefix = [0x00u8, 0x25, 0x00, 0x00];
    let ctx = AttrContext { header: &header, attrs_prefix: &prefix };
    let mut out = Vec::new();
    StunAttr::Integrity(Integrity::Sign { key_data: b"key".to_vec() }).encode(&mut out, &ctx);
    let len = 28u16.to_be_bytes();
    let expected = sha1_hmac(b"key", &[&header[..2], &len, &header[4..], &prefix]);
    assert_eq!(&out[..4], &[0x00, 0x08, 0x00, 0x14]);
    assert_eq!(&out[4..], &expected);
    let parsed = StunAttr::parse(0x0008, &out[4..], &ctx).unwrap();
    match parsed {
        StunAttr::Integrity(i) => {
            assert!(i.verify(b"key"));
            assert!(!i.verify(b"kez"));
            assert!(!i.verify(b""));
        }
        _ => panic!("not an integrity attribute"),
    }
    assert!(Integrity::Sign { key_data: vec![1, 2] }.verify(&[1, 2]));
    assert!(!Integrity::Sign { key_data: vec![1, 2] }.verify(&[1, 3]));
}

#[test]
fn attribute_parse_errors() {
    let header = header_for(&TXID);
    let ctx = AttrContext { header: &header, attrs_prefix: &[] };
    assert_eq!(StunAttr::parse(0x0006, &[0xff, 0xfe], &ctx), Err(StunAttrDecodeErr::BadUtf8));
    assert_eq!(StunAttr::parse(0x0014, &[0xc3], &ctx), Err(StunAttrDecodeErr::BadUtf8));
    assert_eq!(StunAttr::parse(0x0008, &[0; 19], &ctx), Err(StunAttrDecodeErr::WrongSize));
    assert_eq!(StunAttr::parse(0x000D, &[0; 3], &ctx), Err(StunAttrDecodeErr::WrongSize));
    assert_eq!(StunAttr::parse(0x8028, &[0; 5], &ctx), Err(StunAttrDecodeErr::WrongSize));
    assert_eq!(StunAttr::parse(0x8029, &[0; 4], &ctx), Err(StunAttrDecodeErr::WrongSize));
    assert_eq!(StunAttr::parse(0x0009, &[0, 0, 4], &ctx), Err(StunAttrDecodeErr::ErrorTooShort));
    assert_eq!(StunAttr::parse(0x0009, &[0, 0, 4, 1, 0xff], &ctx), Err(StunAttrDecodeErr::BadUtf8));
    assert_eq!(StunAttr::parse(0x000A, &[0, 1, 2], &ctx), Err(StunAttrDecodeErr::UnalignedList));
    assert_eq!(StunAttr::parse(0x0019, &[], &ctx), Err(StunAttrDecodeErr::EmptyTransport));
    assert_eq!(StunAttr::parse(0x0001, &[0, 1], &ctx), Err(StunAttrDecodeErr::AddrTooShort));
    assert_eq!(StunAttr::parse(0x0020, &[0, 9, 0, 0], &ctx), Err(StunAttrDecodeErr::AddrUnknownFamily));
    assert_eq!(StunAttr::parse(0x0012, &[0, 1, 0, 0, 0], &ctx), Err(StunAttrDecodeErr::AddrWrongSize));
}

#[test]
fn attribute_parse_values() {
    let header = header_for(&TXID);
    let ctx = AttrContext { header: &header, attrs_prefix: &[] };
    assert_eq!(StunAttr::parse(0x0009, &[0, 0, 4, 1], &ctx), Ok(StunAttr::Error(ErrorCode { code: 401, message: String::new() })));
    assert_eq!(StunAttr::parse(0x0009, &[0, 0, 255, 255, b'h', b'i'], &ctx), Ok(StunAttr::Error(ErrorCode { code: 25755, message: "hi".to_string() })));
    assert_eq!(StunAttr::parse(0x0018, &[], &ctx), Ok(StunAttr::EvenPort(true)));
    assert_eq!(StunAttr::parse(0x0018, &[0x7f], &ctx), Ok(StunAttr::EvenPort(false)));
    assert_eq!(StunAttr::parse(0x0018, &[0x80], &ctx), Ok(StunAttr::EvenPort(true)));
    assert_eq!(StunAttr::parse(0x0019, &[17], &ctx), Ok(StunAttr::RequestedTransport(17)));
    assert_eq!(StunAttr::parse(0x001A, &[1, 2], &ctx), Ok(StunAttr::DontFragment));
    assert_eq!(StunAttr::parse(0x0025, &[], &ctx), Ok(StunAttr::UseCandidate));
    assert_eq!(StunAttr::parse(0x8028, &[1, 2, 3, 4], &ctx), Ok(StunAttr::Fingerprint));
    assert_eq!(StunAttr::parse(0x0024, &[1, 2, 3, 4], &ctx), Ok(StunAttr::Priority(0x01020304)));
    assert_eq!(StunAttr::parse(0x802A, &[1, 2, 3, 4, 5, 6, 7, 8], &ctx), Ok(StunAttr::IceControlling(0x0102030405060708)));
    assert_eq!(StunAttr::parse(0x0013, &[1, 2, 3], &ctx), Ok(StunAttr::Data(vec![1, 2, 3])));
    assert_eq!(StunAttr::parse(0x4444, &[1, 2, 3], &ctx), Ok(StunAttr::Other(0x4444, vec![1, 2, 3])));
    assert_eq!(StunAttr::parse(0x0006, "héllo".as_bytes(), &ctx), Ok(StunAttr::Username("héllo".to_string())));
    assert_eq!(StunAttr::parse(0x000A, &[0, 1, 0, 2], &ctx), Ok(StunAttr::UnknownAttributes(UnknownAttributes::Parse(vec![0, 1, 0, 2]))));
    assert_eq!(StunAttr::parse(0x0001, &[0, 1, 0, 80, 1, 2, 3, 4], &ctx), Ok(StunAttr::Mapped(v4(1, 2, 3, 4, 80))));
    assert_eq!(StunAttr::parse(0x0020, &[0, 1, 0x21, 0x12, 0x21, 0x12, 0xA4, 0x42], &ctx), Ok(StunAttr::XMapped(v4(0, 0, 0, 0, 0))));
}

fn sample() -> Stun {
    Stun {
        typ: StunTyp::Req(0x003),
        txid: TXID,
        attrs: vec![
            StunAttr::Username("a.b.tok".to_string()),
            StunAttr::Realm("realm".to_string()),
            StunAttr::Nonce("nonce".to_string()),
            StunAttr::RequestedTransport(17),
            StunAttr::XPeer(v4(10, 0, 0, 1, 4000)),
            StunAttr::Lifetime(600),
            StunAttr::Data(vec![1, 2, 3]),
            StunAttr::Error(ErrorCode { code: 500, message: "Get kicked!".to_string() }),
            StunAttr::UnknownAttributes(UnknownAttributes::List(vec![7, 8])),
            StunAttr::EvenPort(false),
            StunAttr::DontFragment,
            StunAttr::IceControlled(77),
            StunAttr::Priority(5),
            StunAttr::UseCandidate,
            StunAttr::Other(0x9999, vec![1, 2, 3, 4, 5]),
            StunAttr::Fingerprint,
        ],
    }
}

#[test]
fn decode_of_encode_gives_the_message_back() {
    let m = sample();
    assert!(m.encodable());
    let mut buff = [0xAAu8; 512];
    let n = m.encode(&mut buff).unwrap();
    assert_eq!(n, m.len());
    assert_eq!(n, 20 + m.length() as usize);
    assert_eq!(m.length() % 4, 0);
    assert_eq!(read_be16(&buff, 2), m.length());
    assert!(buff[n..].iter().all(|b| *b == 0xAA));
    let mut expected = m.clone();
    expected.attrs[8] = StunAttr::UnknownAttributes(UnknownAttributes::Parse(vec![0, 7, 0, 8]));
    assert_eq!(Stun::decode(&buff[..n]), Ok(expected.clone()));
    assert_eq!(Stun::decode(&buff), Ok(expected));
    assert_eq!(m.to_bytes().unwrap(), buff[..n].to_vec());
}

#[test]
fn encode_needs_room() {
    let m = sample();
    let n = m.len();
    let mut small = vec![7u8; n - 1];
    assert_eq!(m.encode(&mut small), None);
    assert!(small.iter().all(|b| *b == 7));
    let mut exact = vec![7u8; n];
    assert_eq!(m.encode(&mut exact), Some(n));
}

#[test]
fn message_too_long_is_not_encodable() {
    let m = Stun {
        typ: StunTyp::Ind(7),
        txid: TXID,
        attrs: vec![StunAttr::Data(vec![0; 40000]), StunAttr::Other(0x9999, vec![0; 40000])],
    };
    assert!(!m.encodable());
    assert_eq!(m.to_bytes(), None);
    let mut buff = vec![0u8; 100000];
    assert_eq!(m.encode(&mut buff), None);
    let one = Stun { typ: StunTyp::Ind(7), txid: TXID, attrs: vec![StunAttr::Data(vec![0; 65529])] };
    assert!(!one.encodable());
}

#[test]
fn empty_message_is_the_header() {
    let m = Stun { typ: StunTyp::Req(1), txid: TXID, attrs: vec![] };
    let bytes = m.to_bytes().unwrap();
    assert_eq!(bytes, vec![0, 1, 0, 0, 0x21, 0x12, 0xA4, 0x42, 1, 2, 3, 4, 5, 6, 7, 8, 9, 10, 11, 12]);
    assert_eq!(m.length(), 0);
    assert_eq!(m.len(), 20);
    assert_eq!(Stun::decode(&bytes), Ok(m));
}

#[test]
fn decode_errors() {
    let good = Stun { typ: StunTyp::Req(1), txid: TXID, attrs: vec![StunAttr::Lifetime(1)] }.to_bytes().unwrap();
    assert_eq!(Stun::decode(&good[..19]), Err(StunDecodeErr::PacketTooSmall));
    assert_eq!(Stun::decode(&[]), Err(StunDecodeErr::PacketTooSmall));
    let mut b = good.clone();
    b[0] = 0x40;
    assert_eq!(Stun::decode(&b), Err(StunDecodeErr::TypeOutOfRange));
    let mut b = good.clone();
    b[3] = 7;
    assert_eq!(Stun::decode(&b), Err(StunDecodeErr::UnalignedLength));
    let mut b = good.clone();
    b[4] = 0x22;
    assert_eq!(Stun::decode(&b), Err(StunDecodeErr::BadMagic));
    assert_eq!(Stun::decode(&good[..27]), Err(StunDecodeErr::PacketTooSmall));
    let mut b = good.clone();
    b[23] = 8;
    assert_eq!(Stun::decode(&b), Err(StunDecodeErr::AttrErr(StunAttrDecodeErr::Truncated)));
    let mut b = good.clone();
    b[23] = 3;
    assert_eq!(Stun::decode(&b), Err(StunDecodeErr::AttrErr(StunAttrDecodeErr::WrongSize)));
    let mut b = good.clone();
    b[3] = 4;
    assert_eq!(Stun::decode(&b), Err(StunDecodeErr::AttrErr(StunAttrDecodeErr::Truncated)));
}

#[test]
fn flat_shows_the_first_of_each_type() {
    let m = Stun {
        typ: StunTyp::Req(1),
        txid: TXID,
        attrs: vec![
            StunAttr::Lifetime(1),
            StunAttr::Username("first".to_string()),
            StunAttr::Lifetime(2),
            StunAttr::Username("second".to_string()),
        ],
    };
    let flat = m.flat();
    assert_eq!(flat.lifetime, Some(1));
    assert_eq!(flat.username, Some("first"));
    assert_eq!(flat.realm, None);
    assert!(!flat.use_candidate);
    let decoded = Stun::decode(&m.to_bytes().unwrap()).unwrap();
    assert_eq!(decoded.attrs, vec![StunAttr::Lifetime(1), StunAttr::Username("first".to_string())]);
}

#[test]
fn flat_hides_what_follows_integrity() {
    let m = Stun {
        typ: StunTyp::Req(1),
        txid: TXID,
        attrs: vec![
            StunAttr::Username("u".to_string()),
            StunAttr::Integrity(Integrity::Sign { key_data: vec![1] }),
            StunAttr::Lifetime(9),
            StunAttr::Fingerprint,
            StunAttr::Priority(3),
        ],
    };
    let flat = m.flat();
    assert_eq!(flat.username, Some("u"));
    assert!(flat.integrity.is_some());
    assert_eq!(flat.lifetime, None);
    assert_eq!(flat.priority, None);
    let decoded = Stun::decode(&m.to_bytes().unwrap()).unwrap();
    assert_eq!(decoded.attrs.len(), 3);
    assert_eq!(decoded.attrs[0], StunAttr::Username("u".to_string()));
    assert_eq!(decoded.attrs[2], StunAttr::Fingerprint);
    let flat = decoded.flat();
    assert_eq!(flat.lifetime, None);
    assert_eq!(flat.priority, None);
    assert!(flat.integrity.unwrap().verify(&[1]));
    assert!(!flat.integrity.unwrap().verify(&[2]));
}

#[test]
fn flat_names_every_field() {
    let a = v4(1, 1, 1, 1, 1);
    let b = v4(2, 2, 2, 2, 2);
    let c = v4(3, 3, 3, 3, 3);
    let m = Stun {
        typ: StunTyp::Req(1),
        txid: TXID,
        attrs: vec![
            StunAttr::XMapped(a),
            StunAttr::XPeer(b),
            StunAttr::XRelayed(c),
            StunAttr::Realm("r".to_string()),
            StunAttr::Nonce("n".to_string()),
            StunAttr::Channel(0x4000_0000),
            StunAttr::Data(vec![5]),
            StunAttr::Priority(6),
            StunAttr::IceControlling(7),
            StunAttr::IceControlled(8),
            StunAttr::UseCandidate,
            StunAttr::RequestedTransport(17),
            StunAttr::Error(ErrorCode { code: 437, message: "m".to_string() }),
        ],
    };
    let flat = m.flat();
    assert_eq!(flat.xmapped, Some(a));
    assert_eq!(flat.xpeer, Some(b));
    assert_eq!(flat.xrelayed, Some(c));
    assert_eq!(flat.realm, Some("r"));
    assert_eq!(flat.nonce, Some("n"));
    assert_eq!(flat.channel, Some(0x4000_0000));
    assert_eq!(flat.data, Some(&[5u8][..]));
    assert_eq!(flat.priority, Some(6));
    assert_eq!(flat.ice_controlling, Some(7));
    assert_eq!(flat.ice_controlled, Some(8));
    assert!(flat.use_candidate);
    assert_eq!(flat.requested_transport, Some(17));
    assert_eq!(flat.error, Some(&ErrorCode { code: 437, message: "m".to_string() }));
    assert_eq!(flat.username, None);
    assert!(flat.integrity.is_none());
}

#[test]
fn fingerprint_verifies_and_a_flipped_byte_does_not() {
    let m = sample();
    let bytes = m.to_bytes().unwrap();
    assert!(Stun::check_fingerprint(&bytes));
    let mut i = 0;
    while i < bytes.len() {
        let mut flipped = bytes.clone();
        flipped[i] ^= 0x01;
        assert!(!Stun::check_fingerprint(&flipped), "byte {}", i);
        i += 1;
    }
    let none = Stun { typ: StunTyp::Req(1), txid: TXID, attrs: vec![StunAttr::Lifetime(1)] };
    assert!(!Stun::check_fingerprint(&none.to_bytes().unwrap()));
    assert!(!Stun::check_fingerprint(&[0u8; 5]));
}

#[test]
fn integrity_verifies_under_its_key_only() {
    let m = Stun {
        typ: StunTyp::Req(3),
        txid: TXID,
        attrs: vec![
            StunAttr::Username("a.b.tok".to_string()),
            StunAttr::Integrity(Integrity::Sign { key_data: b"k".to_vec() }),
            StunAttr::Fingerprint,
        ],
    };
    let decoded = Stun::decode(&m.to_bytes().unwrap()).unwrap();
    let flat = decoded.flat();
    let integrity = flat.integrity.unwrap();
    assert!(integrity.verify(b"k"));
    assert!(!integrity.verify(b"K"));
    assert!(!integrity.verify(b"kk"));
    assert_eq!(flat.auth_result(None), None);
    let mut key = [0u8; 16];
    assert_eq!(flat.auth_result(Some(key)), None);
    key[0] = 1;
    assert_eq!(flat.check_auth(|_, _| None), None);
    assert_eq!(flat.check_auth(|_, _| Some(key)), None);
}

#[test]
fn check_auth_asks_for_the_key_of_the_username() {
    let key = [7u8; 16];
    let m = Stun {
        typ: StunTyp::Req(3),
        txid: TXID,
        attrs: vec![
            StunAttr::Username("user".to_string()),
            StunAttr::Realm("here".to_string()),
            StunAttr::Integrity(Integrity::Sign { key_data: key.to_vec() }),
        ],
    };
    let decoded = Stun::decode(&m.to_bytes().unwrap()).unwrap();
    let flat = decoded.flat();
    let got = flat.check_auth(|u, r| {
        assert_eq!(u, "user");
        assert_eq!(r, Some("here"));
        Some(key)
    });
    assert_eq!(got, Some(("user", key)));
    assert_eq!(flat.auth_result(Some(key)), Some(("user", key)));
    assert_eq!(flat.auth_result(Some([8u8; 16])), None);
    let bare = Stun { typ: StunTyp::Req(3), txid: TXID, attrs: vec![StunAttr::Username("user".to_string())] };
    assert_eq!(bare.flat().check_auth(|_, _| panic!("not asked")), None);
}

#[test]
fn responses_keep_method_and_txid() {
    let m = Stun { typ: StunTyp::Req(0x003), txid: TXID, attrs: vec![StunAttr::Lifetime(1)] };
    let res = m.res(vec![StunAttr::Lifetime(2)]);
    assert_eq!(res, Stun { typ: StunTyp::Res(0x003), txid: TXID, attrs: vec![StunAttr::Lifetime(2)] });
    let err = m.err(vec![]);
    assert_eq!(err, Stun { typ: StunTyp::Error(0x003), txid: TXID, attrs: vec![] });
}
