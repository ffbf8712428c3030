use psk_broker::framing::{CapacityExceeded, FrameTooLarge};
use psk_broker::{FlushStep, LengthPrefixDecoder, LengthPrefixEncoder, WriteOutcome};

fn drain(enc: &mut LengthPrefixEncoder) -> Vec<u8> {
    let out = enc.pending_bytes().to_vec();
    let n = out.len();
    assert_eq!(enc.after_write(WriteOutcome::Written(n)), FlushStep::Done);
    assert!(enc.exhausted());
    out
}

fn decode_all(dec: &mut LengthPrefixDecoder, bytes: &[u8], chunk: usize) -> Vec<Vec<u8>> {
    let mut msgs = Vec::new();
    let mut i = 0;
    while i < bytes.len() {
        let want = dec.read_window();
        let take = want.min(chunk).min(bytes.len() - i);
        dec.feed(&bytes[i..i + take]).unwrap();
        i += take;
        if let Some(m) = dec.message() {
            msgs.push(m.to_vec());
            dec.clear();
        }
    }
    msgs
}

#[test]
fn round_trip_various_lengths() {
    for len in [0usize, 1, 100, 4092] {
        let payload: Vec<u8> = (0..len).map(|i| (i % 251) as u8).collect();
        let mut enc = LengthPrefixEncoder::new(4096);
        enc.emplace(&payload).unwrap();
        let wire = drain(&mut enc);
        assert_eq!(wire.len(), len + 4);
        let mut dec = LengthPrefixDecoder::new(4096);
        let msgs = decode_all(&mut dec, &wire, usize::MAX);
        assert_eq!(msgs, vec![payload]);
    }
}

#[test]
fn prefix_is_little_endian() {
    let mut enc = LengthPrefixEncoder::new(4096);
    enc.emplace(&[7u8; 300]).unwrap();
    let wire = drain(&mut enc);
    assert_eq!(&wire[..4], &[44, 1, 0, 0]);
    assert_eq!(&wire[4..], &[7u8; 300][..]);
}

#[test]
fn bytewise_chunking_yields_one_message() {
    let payload = b"hello broker".to_vec();
    let mut enc = LengthPrefixEncoder::new(64);
    enc.emplace(&payload).unwrap();
    let wire = drain(&mut enc);
    let mut dec = LengthPrefixDecoder::new(64);
    let mut seen = 0;
    for (i, b) in wire.iter().enumerate() {
        assert!(dec.read_window() >= 1);
        dec.feed(&[*b]).unwrap();
        if i + 1 < wire.len() {
            assert!(dec.message().is_none());
        } else {
            assert_eq!(dec.message(), Some(&payload[..]));
            seen += 1;
        }
    }
    assert_eq!(seen, 1);
    assert_eq!(dec.read_window(), 0);
}

#[test]
fn two_frames_in_a_stream_are_kept_apart() {
    let mut enc = LengthPrefixEncoder::new(64);
    enc.emplace(b"ab").unwrap();
    let mut wire = drain(&mut enc);
    enc.emplace(b"cde").unwrap();
    wire.extend(drain(&mut enc));
    let mut dec = LengthPrefixDecoder::new(64);
    let msgs = decode_all(&mut dec, &wire, 3);
    assert_eq!(msgs, vec![b"ab".to_vec(), b"cde".to_vec()]);
}

#[test]
fn oversize_payload_is_rejected_unchanged() {
    let mut enc = LengthPrefixEncoder::new(4096);
    let r = enc.emplace(&vec![1u8; 4093]);
    assert_eq!(r, Err(CapacityExceeded { requested: 4093, available: 4092 }));
    assert!(enc.exhausted());
    assert!(enc.pending_bytes().is_empty());
    assert_eq!(
        enc.restart_write_with_new_message(5000),
        Err(CapacityExceeded { requested: 5000, available: 4092 })
    );
    assert!(enc.exhausted());
}

#[test]
fn largest_payload_fits() {
    let mut enc = LengthPrefixEncoder::new(16);
    assert!(enc.emplace(&[9u8; 12]).is_ok());
    assert_eq!(enc.pending_bytes().len(), 16);
}

#[test]
fn oversize_prefix_is_refused_by_decoder() {
    let mut dec = LengthPrefixDecoder::new(4096);
    dec.feed(&[0xfd, 0x0f]).unwrap();
    let r = dec.feed(&[0, 0]);
    assert_eq!(r, Err(FrameTooLarge { announced: 4093, available: 4092 }));
    assert_eq!(dec.read_window(), 2);
}

#[test]
fn strict_ordering_of_frames() {
    let mut enc = LengthPrefixEncoder::new(64);
    let mut wire = Vec::new();
    enc.emplace(b"first").unwrap();
    let part = enc.pending_bytes()[..3].to_vec();
    assert_eq!(enc.after_write(WriteOutcome::Written(3)), FlushStep::Done);
    wire.extend(part);
    assert!(!enc.exhausted());
    wire.extend(drain(&mut enc));
    enc.emplace(b"second").unwrap();
    wire.extend(drain(&mut enc));
    let mut expected = vec![5, 0, 0, 0];
    expected.extend(b"first");
    expected.extend([6, 0, 0, 0]);
    expected.extend(b"second");
    assert_eq!(wire, expected);
}

#[test]
fn write_outcomes_drive_the_flush() {
    let mut enc = LengthPrefixEncoder::new(64);
    enc.emplace(b"xyz").unwrap();
    assert_eq!(enc.after_write(WriteOutcome::WouldBlock), FlushStep::Done);
    assert_eq!(enc.pending_bytes().len(), 7);
    assert_eq!(enc.after_write(WriteOutcome::Interrupted), FlushStep::Retry);
    assert_eq!(enc.after_write(WriteOutcome::Failed), FlushStep::Fail);
    assert_eq!(enc.after_write(WriteOutcome::Written(8)), FlushStep::Fail);
    assert_eq!(enc.after_write(WriteOutcome::Written(0)), FlushStep::Fail);
    assert_eq!(enc.pending_bytes().len(), 7);
    assert_eq!(enc.after_write(WriteOutcome::Written(2)), FlushStep::Done);
    assert_eq!(enc.pending_bytes(), &[0, 0, b'x', b'y', b'z']);
}
