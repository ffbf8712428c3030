use psk_broker::{
    BrokerClient, BrokerClientPollResponseError, BrokerClientSetPskError, BrokerError, FlushStep,
    ReadFault, RecvStep, SerializedBrokerConfig, WriteOutcome,
};

fn expected_request(iface: &[u8], peer: &[u8; 32], psk: &[u8; 32], extra: &[u8]) -> Vec<u8> {
    let mut p = Vec::new();
    p.extend((iface.len() as u16).to_le_bytes());
    p.extend(iface);
    p.extend(peer);
    p.extend(psk);
    p.extend((extra.len() as u16).to_le_bytes());
    p.extend(extra);
    let mut f = (p.len() as u32).to_le_bytes().to_vec();
    f.extend(p);
    f
}

fn drain(c: &mut BrokerClient) -> Vec<u8> {
    let out = c.pending_bytes().to_vec();
    assert_eq!(c.after_write(WriteOutcome::Written(out.len())), FlushStep::Done);
    assert!(c.exhausted());
    out
}

fn deliver(c: &mut BrokerClient, bytes: &[u8]) -> RecvStep {
    let mut step = RecvStep::Again;
    let mut i = 0;
    while i < bytes.len() {
        let take = c.read_window().min(bytes.len() - i);
        step = c.after_read(&bytes[i..i + take]);
        i += take;
    }
    step
}

fn wg0_config<'a>(peer: &'a [u8; 32], psk: &'a [u8; 32]) -> SerializedBrokerConfig<'a> {
    SerializedBrokerConfig { interface: b"wg0", peer_id: peer, psk, additional_params: &[] }
}

#[test]
fn set_psk_success_scenario() {
    let peer = [0u8; 32];
    let psk = [0u8; 32];
    let mut c = BrokerClient::new();
    assert_eq!(c.set_psk(&wg0_config(&peer, &psk)), Ok(()));
    let sent = drain(&mut c);
    assert_eq!(sent, expected_request(b"wg0", &peer, &psk, &[]));
    assert_eq!(&sent[..6], &[71, 0, 0, 0, 3, 0]);
    assert_eq!(deliver(&mut c, &[1, 0, 0, 0]), RecvStep::Again);
    assert_eq!(deliver(&mut c, &[0]), RecvStep::MessageReady);
    assert_eq!(c.poll_response(), Ok(Some(Ok(()))));
    assert_eq!(c.poll_response(), Ok(None));
}

#[test]
fn set_psk_failure_scenario_keeps_connection_usable() {
    let peer = [0u8; 32];
    let psk = [0u8; 32];
    let mut c = BrokerClient::new();
    c.set_psk(&wg0_config(&peer, &psk)).unwrap();
    drain(&mut c);
    assert_eq!(deliver(&mut c, &[2, 0, 0, 0, 1, 3]), RecvStep::MessageReady);
    assert_eq!(c.poll_response(), Ok(Some(Err(BrokerError(3)))));
    assert_eq!(c.set_psk(&wg0_config(&peer, &psk)), Ok(()));
    drain(&mut c);
    assert_eq!(deliver(&mut c, &[1, 0, 0, 0, 0]), RecvStep::MessageReady);
    assert_eq!(c.poll_response(), Ok(Some(Ok(()))));
}

#[test]
fn blocking_fallback_scenario() {
    let peer = [1u8; 32];
    let psk = [2u8; 32];
    let mut c = BrokerClient::new();
    c.set_psk(&wg0_config(&peer, &psk)).unwrap();
    let total = c.pending_bytes().len();
    assert_eq!(c.after_write(WriteOutcome::Written(total - 10)), FlushStep::Done);
    assert_eq!(c.pending_bytes().len(), 10);
    assert!(!c.exhausted());
    // the blocking drain: keep writing until nothing is pending
    assert_eq!(c.after_write(WriteOutcome::Interrupted), FlushStep::Retry);
    assert_eq!(c.after_write(WriteOutcome::Written(4)), FlushStep::Done);
    assert_eq!(c.after_write(WriteOutcome::Written(6)), FlushStep::Done);
    assert!(c.exhausted());
    let cfg = SerializedBrokerConfig {
        interface: b"wg1",
        peer_id: &peer,
        psk: &psk,
        additional_params: b"x",
    };
    c.set_psk(&cfg).unwrap();
    assert_eq!(c.pending_bytes(), &expected_request(b"wg1", &peer, &psk, b"x")[..]);
}

#[test]
fn poll_without_data_is_idempotent() {
    let mut c = BrokerClient::new();
    assert_eq!(c.poll_response(), Ok(None));
    assert_eq!(c.poll_response(), Ok(None));
    assert_eq!(deliver(&mut c, &[1, 0]), RecvStep::Again);
    assert_eq!(c.poll_response(), Ok(None));
    assert_eq!(c.poll_response(), Ok(None));
    assert_eq!(c.read_window(), 2);
    assert_eq!(deliver(&mut c, &[0, 0, 0]), RecvStep::MessageReady);
    assert_eq!(c.poll_response(), Ok(Some(Ok(()))));
}

#[test]
fn interface_name_too_long() {
    let peer = [0u8; 32];
    let psk = [0u8; 32];
    let iface = vec![b'a'; 256];
    let cfg = SerializedBrokerConfig { interface: &iface, peer_id: &peer, psk: &psk, additional_params: &[] };
    let mut c = BrokerClient::new();
    assert_eq!(c.set_psk(&cfg), Err(BrokerClientSetPskError::IfaceOutOfBounds));
    assert!(c.exhausted());
    let iface = vec![b'a'; 255];
    let cfg = SerializedBrokerConfig { interface: &iface, peer_id: &peer, psk: &psk, additional_params: &[] };
    assert_eq!(c.set_psk(&cfg), Ok(()));
}

#[test]
fn request_too_large_for_frame() {
    let peer = [0u8; 32];
    let psk = [0u8; 32];
    // 2 + 3 + 64 + 2 + extra must stay within 4092
    let extra = vec![0u8; 4022];
    let cfg = SerializedBrokerConfig { interface: b"wg0", peer_id: &peer, psk: &psk, additional_params: &extra };
    let mut c = BrokerClient::new();
    assert_eq!(c.set_psk(&cfg), Err(BrokerClientSetPskError::MsgError));
    assert!(c.exhausted());
    let extra = vec![0u8; 4021];
    let cfg = SerializedBrokerConfig { interface: b"wg0", peer_id: &peer, psk: &psk, additional_params: &extra };
    assert_eq!(c.set_psk(&cfg), Ok(()));
    assert_eq!(c.pending_bytes().len(), 4096);
}

#[test]
fn malformed_responses_are_invalid() {
    for resp in [vec![2u8], vec![0, 0], vec![1], vec![1, 3, 4], vec![]] {
        let mut c = BrokerClient::new();
        let mut frame = (resp.len() as u32).to_le_bytes().to_vec();
        frame.extend(&resp);
        assert_eq!(deliver(&mut c, &frame), RecvStep::MessageReady);
        assert_eq!(c.poll_response(), Err(BrokerClientPollResponseError::InvalidMessage));
        assert_eq!(c.poll_response(), Ok(None));
    }
}

#[test]
fn read_steps() {
    let mut c = BrokerClient::new();
    assert_eq!(c.after_read_fault(ReadFault::WouldBlock), RecvStep::Suspend);
    assert_eq!(c.after_read_fault(ReadFault::Interrupted), RecvStep::Again);
    assert_eq!(c.after_read_fault(ReadFault::Failed), RecvStep::Failed);
    assert_eq!(c.after_read(&[]), RecvStep::Closed);
    assert_eq!(c.after_read(&[0xff, 0xff, 0xff, 0xff]), RecvStep::TooLarge);
    assert_eq!(c.read_window(), 4);
    assert_eq!(c.after_read(&[1, 0, 0, 0]), RecvStep::Again);
    assert_eq!(c.after_read(&[0]), RecvStep::MessageReady);
    assert_eq!(c.read_window(), 0);
    assert_eq!(c.after_read(&[]), RecvStep::MessageReady);
    assert!(c.has_response());
}

#[test]
fn decode_response_values() {
    assert_eq!(psk_broker::broker_client::decode_response(&[0]), Some(Ok(())));
    assert_eq!(psk_broker::broker_client::decode_response(&[1, 9]), Some(Err(BrokerError(9))));
    assert_eq!(psk_broker::broker_client::decode_response(&[5]), None);
}
