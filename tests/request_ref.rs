use psk_broker::request_ref::RequestRefError;
use psk_broker::{RequestMsgType, RequestRef, RequestRefMaker};

fn request(kind: u8, len: usize) -> Vec<u8> {
    let mut b = vec![0u8; len];
    b[0] = kind;
    b
}

#[test]
fn parse_ping_request() {
    let buf = request(1, 272);
    let r = RequestRef::parse(&buf).unwrap();
    assert!(matches!(r, RequestRef::Ping(_)));
    assert_eq!(r.message_type(), RequestMsgType::Ping);
    assert!(std::ptr::eq(r.bytes(), &buf[..]));
}

#[test]
fn parse_each_kind() {
    assert_eq!(RequestRef::parse(&request(2, 16)).unwrap().message_type(), RequestMsgType::SupplyKeypair);
    assert_eq!(RequestRef::parse(&request(3, 16)).unwrap().message_type(), RequestMsgType::AddListenSocket);
    assert_eq!(RequestRef::parse(&request(4, 16)).unwrap().message_type(), RequestMsgType::AddPskBroker);
}

#[test]
fn parse_rejects_unknown_and_wrong_sizes() {
    assert_eq!(RequestRef::parse(&request(9, 16)).err(), Some(RequestRefError::UnknownMessageType));
    assert_eq!(RequestRef::parse(&[1u8; 4]).err(), Some(RequestRefError::UnknownMessageType));
    let mut b = request(1, 272);
    b[5] = 1;
    assert_eq!(RequestRef::parse(&b).err(), Some(RequestRefError::UnknownMessageType));
    assert_eq!(
        RequestRef::parse(&request(1, 300)).err(),
        Some(RequestRefError::WrongSize { have: 300, need: 272 })
    );
}

#[test]
fn parse_from_prefix_and_suffix() {
    let mut buf = request(1, 300);
    buf[299] = 7;
    let p = RequestRef::parse_from_prefix(&buf).unwrap();
    assert_eq!(p.bytes().len(), 272);
    assert!(std::ptr::eq(p.bytes(), &buf[..272]));
    let s = RequestRef::parse_from_suffix(&buf).unwrap();
    assert_eq!(s.message_type(), RequestMsgType::Ping);
    assert!(std::ptr::eq(s.bytes(), &buf[28..]));
    assert_eq!(
        RequestRef::parse_from_prefix(&request(1, 100)).err(),
        Some(RequestRefError::Undersized { have: 100, need: 272 })
    );
}

#[test]
fn maker_ensure_fit() {
    let buf = request(1, 100);
    let m = RequestRefMaker::new(&buf).unwrap();
    assert_eq!(m.target_size(), 272);
    assert_eq!(m.ensure_fit(), Err(RequestRefError::Undersized { have: 100, need: 272 }));
    let buf = request(4, 20);
    let m = RequestRefMaker::new(&buf).unwrap();
    assert_eq!(m.ensure_fit(), Ok(()));
    let m = m.from_suffix().unwrap();
    let mut r = m.parse().unwrap();
    assert_eq!(r.bytes_mut(), &buf[4..]);
}
