use wonk_relay::addr::{IpAddress, SocketAddress};
use wonk_relay::attr::{ErrorCode, Integrity, StunAttr};
use wonk_relay::digest::md5;
use wonk_relay::relay::{decide, decode_request, fixup_webrtc_creds, hosted_contains, swap_halves, Action, Relay, TurnOp, ICE_PWD, TURN_LIFETIME_SEC, TURN_PWD};
use wonk_relay::stun::Stun;
use wonk_relay::turn::{Data, TurnReq, TurnRes};
use wonk_relay::typ::StunTyp;
use wonk_relay::webrtc::WebRTC;

const TXID: [u8; 12] = [1, 2, 3, 4, 5, 6, 7, 8, 9, 10, 11, 12];
const FRESH: [u8; 12] = *b"txidtxidtxid";

fn addr(last: u8) -> SocketAddress {
    SocketAddress { ip: IpAddress::V4(0xc000_0200 + last as u32), port: 5000 + last as u16 }
}

fn key_of(username: &str) -> [u8; 16] {
    md5(&[username.as_bytes(), b":realm:", TURN_PWD.as_bytes()])
}

fn request(method: u16, username: &str, mut extra: Vec<StunAttr>) -> Vec<u8> {
    let mut attrs = vec![StunAttr::Username(username.to_string()), StunAttr::Realm("realm".to_string())];
    attrs.append(&mut extra);
    attrs.push(StunAttr::Integrity(Integrity::Sign { key_data: key_of(username).to_vec() }));
    attrs.push(StunAttr::Fingerprint);
    Stun { typ: StunTyp::Req(method), txid: TXID, attrs }.to_bytes().unwrap()
}

fn relay() -> Relay {
    Relay::new(vec![], ICE_PWD.as_bytes().to_vec())
}

fn answer(relay: &mut Relay, from: SocketAddress, packet: &[u8], now: u64) -> Option<Stun> {
    let req = decode_request(packet)?;
    match relay.handle_turn(from, req, now) {
        TurnOp::Respond(res) => {
            let mut buff = [0u8; 4096];
            let n = res.encode(&mut buff).unwrap();
            assert!(Stun::check_fingerprint(&buff[..n]));
            assert_eq!((n - 20) % 4, 0);
            Some(Stun::decode(&buff[..n]).unwrap())
        }
        _ => None,
    }
}

fn allocate(relay: &mut Relay, from: SocketAddress, username: &str, now: u64) -> Option<Stun> {
    answer(relay, from, &request(0x003, username, vec![StunAttr::RequestedTransport(17)]), now)
}

#[test]
fn binding_is_answered_with_the_senders_address() {
    let mut r = relay();
    let mut packet = vec![0x00, 0x01, 0x00, 0x00, 0x21, 0x12, 0xA4, 0x42];
    packet.extend_from_slice(&TXID);
    let req = decode_request(&packet).unwrap();
    let op = r.handle_turn(addr(1), req, 100);
    assert_eq!(op, TurnOp::Respond(TurnRes::BindingRes { txid: TXID, xmapped: addr(1) }));
    let mut buff = [0u8; 4096];
    let n = match op {
        TurnOp::Respond(res) => res.encode(&mut buff).unwrap(),
        _ => panic!("no answer"),
    };
    assert_eq!(n, 20 + 12 + 8);
    let m = Stun::decode(&buff[..n]).unwrap();
    assert_eq!(m.typ, StunTyp::Res(0x001));
    assert_eq!(m.txid, TXID);
    assert_eq!(m.attrs, vec![StunAttr::XMapped(addr(1)), StunAttr::Fingerprint]);
    assert_eq!(m.attrs[0].len(), 12);
    let six = SocketAddress { ip: IpAddress::V6(0x2001_0db8_0000_0000_0000_0000_0000_0001), port: 7 };
    let m = answer(&mut r, six, &packet, 100).unwrap();
    assert_eq!(m.attrs[0], StunAttr::XMapped(six));
    assert_eq!(m.attrs[0].len(), 24);
    assert!(r.assocs.is_empty());
}

#[test]
fn allocate_without_credentials_is_challenged() {
    let mut r = relay();
    let bare = Stun { typ: StunTyp::Req(0x003), txid: TXID, attrs: vec![StunAttr::RequestedTransport(17)] };
    let m = answer(&mut r, addr(1), &bare.to_bytes().unwrap(), 100).unwrap();
    assert_eq!(m.typ, StunTyp::Error(0x003));
    assert_eq!(m.txid, TXID);
    assert_eq!(
        m.attrs,
        vec![
            StunAttr::Error(ErrorCode { code: 401, message: String::new() }),
            StunAttr::Realm("realm".to_string()),
            StunAttr::Nonce("nonce".to_string()),
            StunAttr::Fingerprint,
        ]
    );
    assert!(m.flat().integrity.is_none());
    assert!(r.assocs.is_empty());
}

#[test]
fn allocate_with_credentials_creates_the_allocation() {
    let mut r = relay();
    let m = allocate(&mut r, addr(1), "a.b.tok", 100).unwrap();
    assert_eq!(m.typ, StunTyp::Res(0x003));
    assert_eq!(m.txid, TXID);
    assert_eq!(m.attrs.len(), 5);
    assert_eq!(m.attrs[0], StunAttr::XMapped(addr(1)));
    assert_eq!(m.attrs[1], StunAttr::XRelayed(addr(1)));
    assert_eq!(m.attrs[2], StunAttr::Lifetime(60));
    assert!(m.flat().integrity.unwrap().verify(&key_of("a.b.tok")));
    assert!(!m.flat().integrity.unwrap().verify(&key_of("a.b.tol")));
    assert_eq!(m.attrs[4], StunAttr::Fingerprint);
    assert_eq!(r.assocs.len(), 1);
    let assoc = &r.assocs[0];
    assert_eq!(assoc.addr, addr(1));
    assert_eq!(assoc.username.dst(), "a");
    assert_eq!(assoc.username.src(), "b");
    assert_eq!(assoc.username.token(), "tok");
    assert_eq!(assoc.expires, 160);
    assert_eq!(assoc.ice_username, None);
    assert_eq!(assoc.key_data, key_of("a.b.tok"));
}

#[test]
fn allocate_with_a_bad_username_is_dropped() {
    let mut r = relay();
    assert_eq!(allocate(&mut r, addr(1), "nodots", 100), None);
    assert_eq!(allocate(&mut r, addr(1), "a..c", 100), None);
    assert!(r.assocs.is_empty());
}

#[test]
fn allocate_again_under_the_same_name_starts_over() {
    let mut r = relay();
    allocate(&mut r, addr(1), "a.b.tok", 100).unwrap();
    allocate(&mut r, addr(2), "b.a.tok", 100).unwrap();
    let m = allocate(&mut r, addr(1), "a.b.tok", 130).unwrap();
    assert_eq!(m.typ, StunTyp::Res(0x003));
    assert_eq!(r.assocs.len(), 2);
    let again = r.assocs.iter().find(|a| a.addr == addr(1)).unwrap();
    assert_eq!(again.expires, 190);
    assert_eq!(r.assocs.iter().filter(|a| a.addr == addr(2)).count(), 1);
}

#[test]
fn allocate_under_another_name_is_a_mismatch() {
    let mut r = relay();
    allocate(&mut r, addr(1), "a.b.tok", 100).unwrap();
    let m = allocate(&mut r, addr(1), "c.d.tok2", 120).unwrap();
    assert_eq!(m.typ, StunTyp::Error(0x003));
    assert_eq!(m.attrs.len(), 3);
    assert_eq!(m.attrs[0], StunAttr::Error(ErrorCode { code: 437, message: String::new() }));
    assert!(m.flat().integrity.unwrap().verify(&key_of("c.d.tok2")));
    assert_eq!(m.attrs[2], StunAttr::Fingerprint);
    assert_eq!(r.assocs.len(), 1);
    assert_eq!(r.assocs[0].username.as_str(), "a.b.tok");
    assert_eq!(r.assocs[0].expires, 160);
    let m = allocate(&mut r, addr(1), "c.d.tok2", 160).unwrap();
    assert_eq!(m.typ, StunTyp::Error(0x003));
}

#[test]
fn allocation_that_ran_out_gives_way() {
    let mut r = relay();
    allocate(&mut r, addr(1), "a.b.tok", 100).unwrap();
    let m = allocate(&mut r, addr(1), "c.d.tok2", 161).unwrap();
    assert_eq!(m.typ, StunTyp::Res(0x003));
    assert_eq!(r.assocs.len(), 1);
    assert_eq!(r.assocs[0].username.as_str(), "c.d.tok2");
    assert_eq!(r.assocs[0].expires, 221);
}

#[test]
fn refresh_of_an_identity_that_is_not_hosted_is_kicked() {
    let mut r = relay();
    allocate(&mut r, addr(1), "a.b.tok", 100).unwrap();
    let m = answer(&mut r, addr(1), &request(0x004, "a.b.tok", vec![StunAttr::Lifetime(3600)]), 110).unwrap();
    assert_eq!(m.typ, StunTyp::Error(0x004));
    assert_eq!(m.attrs.len(), 3);
    assert_eq!(m.attrs[0], StunAttr::Error(ErrorCode { code: 500, message: "Get kicked!".to_string() }));
    assert!(m.flat().integrity.unwrap().verify(&key_of("a.b.tok")));
    assert_eq!(m.attrs[2], StunAttr::Fingerprint);
    assert_eq!(r.assocs[0].expires, 160);
}

#[test]
fn refresh_of_a_hosted_identity_is_clamped() {
    for (hosted, asked, granted) in [("a", 3600u32, 60u32), ("b", 60, 60), ("a", 59, 59), ("b", 1, 1), ("a", 61, 61.min(TURN_LIFETIME_SEC))] {
        let mut r = Relay::new(vec!["zz".to_string(), hosted.to_string()], ICE_PWD.as_bytes().to_vec());
        allocate(&mut r, addr(1), "a.b.tok", 100).unwrap();
        let m = answer(&mut r, addr(1), &request(0x004, "a.b.tok", vec![StunAttr::Lifetime(asked)]), 130).unwrap();
        assert_eq!(m.typ, StunTyp::Res(0x004));
        assert_eq!(m.attrs[0], StunAttr::Lifetime(granted));
        assert!(m.flat().integrity.unwrap().verify(&key_of("a.b.tok")));
        assert_eq!(r.assocs[0].expires, 130 + granted as u64);
    }
    let mut r = Relay::new(vec!["tok".to_string(), "a.b.tok".to_string()], vec![]);
    allocate(&mut r, addr(1), "a.b.tok", 100).unwrap();
    let m = answer(&mut r, addr(1), &request(0x004, "a.b.tok", vec![StunAttr::Lifetime(5)]), 130).unwrap();
    assert_eq!(m.typ, StunTyp::Error(0x004));
}

#[test]
fn refresh_without_a_lifetime_asks_for_an_hour() {
    let mut r = Relay::new(vec!["a".to_string()], vec![]);
    allocate(&mut r, addr(1), "a.b.tok", 100).unwrap();
    let m = answer(&mut r, addr(1), &request(0x004, "a.b.tok", vec![]), 101).unwrap();
    assert_eq!(m.attrs[0], StunAttr::Lifetime(60));
    assert_eq!(r.assocs[0].expires, 161);
}

#[test]
fn refresh_to_zero_deletes_without_an_answer() {
    let mut r = relay();
    allocate(&mut r, addr(1), "a.b.tok", 100).unwrap();
    allocate(&mut r, addr(2), "b.a.tok", 100).unwrap();
    assert_eq!(answer(&mut r, addr(1), &request(0x004, "a.b.tok", vec![StunAttr::Lifetime(0)]), 110), None);
    assert_eq!(r.assocs.len(), 1);
    assert_eq!(r.assocs[0].addr, addr(2));
}

#[test]
fn refresh_under_another_name_or_without_allocation_is_dropped() {
    let mut r = Relay::new(vec!["a".to_string(), "c".to_string()], vec![]);
    assert_eq!(answer(&mut r, addr(1), &request(0x004, "a.b.tok", vec![StunAttr::Lifetime(5)]), 110), None);
    allocate(&mut r, addr(1), "a.b.tok", 100).unwrap();
    assert_eq!(answer(&mut r, addr(1), &request(0x004, "c.d.tok", vec![StunAttr::Lifetime(5)]), 110), None);
    assert_eq!(answer(&mut r, addr(1), &request(0x004, "c.d.tok", vec![StunAttr::Lifetime(0)]), 110), None);
    assert_eq!(r.assocs.len(), 1);
    assert_eq!(r.assocs[0].expires, 160);
    assert_eq!(answer(&mut r, addr(1), &request(0x004, "a.b.tok", vec![StunAttr::Lifetime(5)]), 161), None);
    assert!(r.assocs.is_empty());
}

#[test]
fn permission_and_channel_binding_need_an_allocation() {
    let mut r = relay();
    let permission = request(0x008, "a.b.tok", vec![StunAttr::XPeer(addr(9))]);
    let bind = request(0x009, "a.b.tok", vec![StunAttr::Channel(0x4000_0000), StunAttr::XPeer(addr(9))]);
    assert_eq!(answer(&mut r, addr(1), &permission, 100), None);
    assert_eq!(answer(&mut r, addr(1), &bind, 100), None);
    allocate(&mut r, addr(1), "a.b.tok", 100).unwrap();
    let m = answer(&mut r, addr(1), &permission, 100).unwrap();
    assert_eq!(m.typ, StunTyp::Res(0x008));
    assert_eq!(m.attrs.len(), 2);
    assert!(m.flat().integrity.unwrap().verify(&key_of("a.b.tok")));
    let m = answer(&mut r, addr(1), &bind, 100).unwrap();
    assert_eq!(m.typ, StunTyp::Res(0x009));
    assert_eq!(m.attrs.len(), 2);
    assert_eq!(answer(&mut r, addr(1), &permission, 161), None);
    assert!(r.assocs.is_empty());
}

#[test]
fn lookup_takes_out_what_ran_out() {
    let mut r = relay();
    allocate(&mut r, addr(1), "a.b.tok", 100).unwrap();
    assert_eq!(r.find(&addr(1)), Some(0));
    assert_eq!(r.find(&addr(2)), None);
    assert_eq!(r.lookup_live(&addr(1), 160), Some(0));
    assert_eq!(r.assocs.len(), 1);
    assert_eq!(r.lookup_live(&addr(1), 161), None);
    assert!(r.assocs.is_empty());
}

#[test]
fn payload_is_handed_over_only_with_an_allocation() {
    let mut r = relay();
    let send = Stun { typ: StunTyp::Ind(0x006), txid: TXID, attrs: vec![StunAttr::XPeer(addr(9)), StunAttr::Data(vec![22, 1])] }.to_bytes().unwrap();
    let frame = [0x40, 0x00, 0x00, 0x02, 22, 1];
    assert_eq!(r.handle_turn(addr(1), decode_request(&send).unwrap(), 100), TurnOp::Nothing);
    assert_eq!(r.handle_turn(addr(1), decode_request(&frame).unwrap(), 100), TurnOp::Nothing);
    allocate(&mut r, addr(1), "a.b.tok", 100).unwrap();
    assert_eq!(r.handle_turn(addr(1), decode_request(&send).unwrap(), 100), TurnOp::Data(vec![22, 1]));
    assert_eq!(r.handle_turn(addr(1), decode_request(&frame).unwrap(), 100), TurnOp::Data(vec![22, 1]));
}

#[test]
fn decisions() {
    let hosted = vec!["b".to_string()];
    let key_data = [0u8; 16];
    assert_eq!(decide(&TurnReq::Binding { txid: TXID }, None, &hosted), Action::BindingRes);
    assert_eq!(decide(&TurnReq::AllocateNoAuth { txid: TXID }, None, &hosted), Action::AllocateUseAuth);
    assert_eq!(decide(&TurnReq::Allocate { txid: TXID, username: "a.b.c".to_string(), key_data, requested_transport: None }, None, &hosted), Action::AllocateSuc);
    assert_eq!(decide(&TurnReq::Allocate { txid: TXID, username: "a.b".to_string(), key_data, requested_transport: None }, None, &hosted), Action::Nothing);
    assert_eq!(decide(&TurnReq::Refresh { txid: TXID, username: "a.b.c".to_string(), key_data, lifetime: 9 }, None, &hosted), Action::Nothing);
    assert_eq!(decide(&TurnReq::Permission { txid: TXID, username: "a.b.c".to_string(), key_data, xpeer: addr(1) }, None, &hosted), Action::Nothing);
    assert_eq!(decide(&TurnReq::Channel { channel: 0x4000, data: vec![] }, None, &hosted), Action::Nothing);
    let mut r = relay();
    allocate(&mut r, addr(1), "a.b.c", 0).unwrap();
    let assoc = Some(&r.assocs[0]);
    assert_eq!(decide(&TurnReq::Refresh { txid: TXID, username: "a.b.c".to_string(), key_data, lifetime: 9 }, assoc, &hosted), Action::RefreshSuc(9));
    assert_eq!(decide(&TurnReq::Refresh { txid: TXID, username: "a.b.c".to_string(), key_data, lifetime: 900 }, assoc, &hosted), Action::RefreshSuc(60));
    assert_eq!(decide(&TurnReq::Refresh { txid: TXID, username: "a.b.c".to_string(), key_data, lifetime: 0 }, assoc, &hosted), Action::Remove);
    assert_eq!(decide(&TurnReq::Refresh { txid: TXID, username: "a.b.c".to_string(), key_data, lifetime: 9 }, assoc, &vec![]), Action::RefreshKick);
    assert_eq!(decide(&TurnReq::Allocate { txid: TXID, username: "a.b.d".to_string(), key_data, requested_transport: None }, assoc, &hosted), Action::AllocateMismatch);
    assert_eq!(decide(&TurnReq::BindChannel { txid: TXID, username: "x".to_string(), key_data, channel: 1, xpeer: addr(1) }, assoc, &hosted), Action::BindChannelSuc);
    assert_eq!(decide(&TurnReq::Send { txid: TXID, xpeer: addr(1), data: vec![] }, assoc, &hosted), Action::Relay);
    assert!(hosted_contains(&hosted, "b"));
    assert!(!hosted_contains(&hosted, "bb"));
    assert!(!hosted_contains(&vec![], ""));
}

fn ice_req(username: &str, key: &[u8]) -> Vec<u8> {
    Stun {
        typ: StunTyp::Req(1),
        txid: [7; 12],
        attrs: vec![
            StunAttr::Username(username.to_string()),
            StunAttr::IceControlling(42),
            StunAttr::UseCandidate,
            StunAttr::Priority(0x6e00_1eff),
            StunAttr::Integrity(Integrity::Sign { key_data: key.to_vec() }),
            StunAttr::Fingerprint,
        ],
    }
    .to_bytes()
    .unwrap()
}

fn inner(res: &TurnRes) -> Vec<u8> {
    let mut buff = [0u8; 4096];
    let n = res.clone().encode(&mut buff).unwrap();
    let m = Stun::decode(&buff[..n]).unwrap();
    assert_eq!(m.typ, StunTyp::Ind(0x007));
    assert_eq!(m.txid, FRESH);
    assert_eq!(m.attrs.len(), 3);
    assert_eq!(m.attrs[2], StunAttr::Fingerprint);
    match &m.attrs[1] {
        StunAttr::Data(d) => d.clone(),
        other => panic!("{:?}", other),
    }
}

#[test]
fn ice_username_is_kept_with_its_halves_swapped() {
    assert_eq!(swap_halves("ufragA:ufragB"), Some("ufragB:ufragA".to_string()));
    assert_eq!(swap_halves("a:b:c"), Some("b:c:a".to_string()));
    assert_eq!(swap_halves(":"), Some(":".to_string()));
    assert_eq!(swap_halves("nocolon"), None);
    let mut r = relay();
    allocate(&mut r, addr(1), "x.y.T", 100).unwrap();
    assert!(r.relay_payload(addr(1), &ice_req("pwdB:ufragA", b"whatever"), 100, FRESH).is_empty());
    assert_eq!(r.assocs[0].ice_username, Some("ufragA:pwdB".to_string()));
    assert!(r.relay_payload(addr(1), &ice_req("other:name", b"whatever"), 100, FRESH).is_empty());
    assert_eq!(r.assocs[0].ice_username, Some("ufragA:pwdB".to_string()));
    allocate(&mut r, addr(2), "y.x.T", 100).unwrap();
    let out = r.relay_payload(addr(2), &ice_req("nocolon", b"whatever"), 100, FRESH);
    assert_eq!(out.len(), 1);
    assert_eq!(out[0].to, addr(1));
    assert_eq!(r.assocs[1].ice_username, None);
    assert_eq!(r.relay_payload(addr(2), &[22, 0, 0], 100, FRESH).len(), 1);
    assert_eq!(r.assocs[1].ice_username, None);
    assert!(r.relay_payload(addr(1), &[22, 0, 0], 100, FRESH).is_empty());
}

fn pair() -> Relay {
    let mut r = relay();
    allocate(&mut r, addr(1), "x.y.T", 100).unwrap();
    allocate(&mut r, addr(2), "y.x.T", 100).unwrap();
    allocate(&mut r, addr(3), "y.x.U", 100).unwrap();
    allocate(&mut r, addr(4), "q.x.T", 100).unwrap();
    assert!(r.relay_payload(addr(1), &ice_req("pwdA:ufragA", b"-"), 100, FRESH).is_empty());
    assert!(r.relay_payload(addr(3), &ice_req("pwdC:ufragC", b"-"), 100, FRESH).is_empty());
    assert!(r.relay_payload(addr(4), &ice_req("pwdD:ufragD", b"-"), 100, FRESH).is_empty());
    let out = r.relay_payload(addr(2), &ice_req("pwdB:ufragB", b"-"), 100, FRESH);
    assert_eq!(out.len(), 1);
    assert_eq!(out[0].to, addr(1));
    r
}

#[test]
fn check_is_passed_on_to_the_matching_peer() {
    let mut r = pair();
    let out = r.relay_payload(addr(1), &ice_req("pwdB:ufragA", ICE_PWD.as_bytes()), 120, FRESH);
    assert_eq!(out.len(), 1);
    assert_eq!(out[0].to, addr(2));
    match &out[0].res {
        TurnRes::Data { txid, xpeer, data: Data::Nested(m) } => {
            assert_eq!(*txid, FRESH);
            assert_eq!(*xpeer, addr(1));
            assert_eq!(m.typ, StunTyp::Req(1));
            assert_eq!(
                m.attrs,
                vec![
                    StunAttr::Username("ufragB:pwdB".to_string()),
                    StunAttr::IceControlling(42),
                    StunAttr::UseCandidate,
                    StunAttr::Priority(1),
                    StunAttr::Integrity(Integrity::Sign { key_data: b"pwdB".to_vec() }),
                    StunAttr::Fingerprint,
                ]
            );
        }
        other => panic!("{:?}", other),
    }
    let bytes = inner(&out[0].res);
    assert!(Stun::check_integrity(&bytes, b"pwdB"));
    assert!(!Stun::check_integrity(&bytes, ICE_PWD.as_bytes()));
    assert!(Stun::check_fingerprint(&bytes));
    match WebRTC::decode(&bytes).unwrap() {
        WebRTC::IceReq { priority, username, tie_breaker, is_controlling, use_candidate, txid, .. } => {
            assert_eq!(priority, 1);
            assert_eq!(username, "ufragB:pwdB");
            assert_eq!(tie_breaker, 42);
            assert!(is_controlling);
            assert!(use_candidate);
            assert_eq!(txid, [7; 12]);
        }
        other => panic!("{:?}", other),
    }
    assert!(r.relay_payload(addr(1), &[0x80, 1, 2, 3], 120, FRESH).is_empty());
}

#[test]
fn check_under_another_password_goes_on_as_it_is() {
    let mut r = pair();
    let packet = ice_req("pwdB:ufragA", b"not the relay's");
    let out = r.relay_payload(addr(1), &packet, 120, FRESH);
    assert_eq!(out.len(), 1);
    assert_eq!(inner(&out[0].res), packet);
}

#[test]
fn responses_are_signed_with_the_relays_password() {
    let mut r = pair();
    let res = Stun {
        typ: StunTyp::Res(1),
        txid: [7; 12],
        attrs: vec![StunAttr::XMapped(addr(9)), StunAttr::Integrity(Integrity::Sign { key_data: b"pwdA".to_vec() }), StunAttr::Fingerprint],
    };
    let out = r.relay_payload(addr(1), &res.to_bytes().unwrap(), 120, FRESH);
    assert_eq!(out.len(), 1);
    let bytes = inner(&out[0].res);
    assert!(Stun::check_integrity(&bytes, ICE_PWD.as_bytes()));
    assert!(!Stun::check_integrity(&bytes, b"pwdA"));
    let err = Stun {
        typ: StunTyp::Error(1),
        txid: [7; 12],
        attrs: vec![
            StunAttr::Error(ErrorCode { code: 487, message: "Role Conflict".to_string() }),
            StunAttr::Integrity(Integrity::Sign { key_data: b"pwdA".to_vec() }),
            StunAttr::Fingerprint,
        ],
    };
    let out = r.relay_payload(addr(2), &err.to_bytes().unwrap(), 120, FRESH);
    assert_eq!(out.len(), 1);
    assert_eq!(out[0].to, addr(1));
    let bytes = inner(&out[0].res);
    assert!(Stun::check_integrity(&bytes, ICE_PWD.as_bytes()));
    assert_eq!(Stun::decode(&bytes).unwrap().attrs[0], StunAttr::Error(ErrorCode { code: 487, message: "Role Conflict".to_string() }));
}

#[test]
fn dtls_goes_on_unchanged_and_rtp_is_dropped() {
    let mut r = pair();
    let out = r.relay_payload(addr(1), &[22, 254, 253, 0], 120, FRESH);
    assert_eq!(out.len(), 1);
    assert_eq!(out[0].to, addr(2));
    assert_eq!(out[0].res, TurnRes::Data { txid: FRESH, xpeer: addr(1), data: Data::Slice(vec![22, 254, 253, 0]) });
    assert_eq!(inner(&out[0].res), vec![22, 254, 253, 0]);
    assert!(r.relay_payload(addr(1), &[0x80, 0, 0, 0], 120, FRESH).is_empty());
    assert!(r.relay_payload(addr(1), &[200, 0, 0, 0], 120, FRESH).is_empty());
    assert!(r.relay_payload(addr(1), &[], 120, FRESH).is_empty());
    assert!(r.relay_payload(addr(9), &[22, 0], 120, FRESH).is_empty());
}

#[test]
fn peers_that_ran_out_or_have_no_ice_username_get_nothing() {
    let mut r = pair();
    assert_eq!(r.relay_payload(addr(1), &[22, 0], 159, FRESH).len(), 1);
    assert!(r.relay_payload(addr(1), &[22, 0], 160, FRESH).is_empty());
    let mut r = relay();
    allocate(&mut r, addr(1), "x.y.T", 100).unwrap();
    allocate(&mut r, addr(2), "y.x.T", 100).unwrap();
    assert!(r.relay_payload(addr(1), &[22, 0], 120, FRESH).is_empty());
    let mut r = relay();
    allocate(&mut r, addr(1), "x.x.T", 100).unwrap();
    assert!(r.relay_payload(addr(1), &ice_req("p:u", b"-"), 100, FRESH).is_empty());
    assert!(r.relay_payload(addr(1), &[22, 0], 120, FRESH).is_empty());
}

#[test]
fn sender_that_ran_out_is_taken_out_and_relays_nothing() {
    let mut r = pair();
    allocate(&mut r, addr(2), "y.x.T", 150).unwrap();
    assert!(r.relay_payload(addr(2), &ice_req("pwdB:ufragB", b"-"), 150, FRESH).len() == 1);
    assert_eq!(r.assocs.len(), 4);
    assert!(r.relay_payload(addr(1), &[22, 0], 161, FRESH).is_empty());
    assert_eq!(r.assocs.len(), 3);
    assert!(r.assocs.iter().all(|a| a.addr != addr(1)));
}

#[test]
fn allocate_under_a_name_of_four_segments_is_dropped() {
    let mut r = relay();
    assert_eq!(allocate(&mut r, addr(1), "a.b.c.d", 100), None);
    assert_eq!(allocate(&mut r, addr(1), "a.b.c.", 100), None);
    assert!(r.assocs.is_empty());
}

#[test]
fn every_matching_peer_gets_the_payload_in_table_order() {
    let mut r = relay();
    allocate(&mut r, addr(1), "x.y.T", 100).unwrap();
    allocate(&mut r, addr(2), "y.x.T", 100).unwrap();
    allocate(&mut r, addr(3), "y.x.T", 100).unwrap();
    assert!(r.relay_payload(addr(2), &ice_req("p2:u2", b"-"), 100, FRESH).is_empty());
    assert!(r.relay_payload(addr(3), &ice_req("p3:u3", b"-"), 100, FRESH).is_empty());
    let out = r.relay_payload(addr(1), &ice_req("p1:u1", ICE_PWD.as_bytes()), 100, FRESH);
    assert_eq!(out.len(), 2);
    assert_eq!(out[0].to, addr(2));
    assert_eq!(out[1].to, addr(3));
    assert!(Stun::check_integrity(&inner(&out[0].res), b"p2"));
    assert!(Stun::check_integrity(&inner(&out[1].res), b"p3"));
}

#[test]
fn credentials_are_rewritten_for_the_peer() {
    let req = WebRTC::decode(&ice_req("a:b", b"relay")).unwrap();
    match fixup_webrtc_creds(req.copy(), "ufrag:pass:word", b"relay") {
        WebRTC::IceReq { integrity, username, priority, tie_breaker, .. } => {
            assert_eq!(integrity, Integrity::Sign { key_data: b"pass:word".to_vec() });
            assert_eq!(username, "ufrag:pass:word");
            assert_eq!(priority, 1);
            assert_eq!(tie_breaker, 42);
        }
        other => panic!("{:?}", other),
    }
    assert_eq!(fixup_webrtc_creds(req.copy(), "ufrag:pass", b"other"), req);
    assert_eq!(fixup_webrtc_creds(WebRTC::Dtls(vec![22]), "u:p", b"relay"), WebRTC::Dtls(vec![22]));
    assert_eq!(fixup_webrtc_creds(WebRTC::Rtp(vec![128]), "u:p", b"relay"), WebRTC::Rtp(vec![128]));
    let res = WebRTC::IceRes { txid: TXID, xmapped: addr(1), integrity: Integrity::Sign { key_data: vec![1] } };
    assert_eq!(
        fixup_webrtc_creds(res, "u:", b"relay"),
        WebRTC::IceRes { txid: TXID, xmapped: addr(1), integrity: Integrity::Sign { key_data: b"relay".to_vec() } }
    );
}
