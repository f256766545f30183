//! Integers, capsules, datagrams and tunnels on concrete bytes.

use bytes::Bytes;
use std::io::{Error, ErrorKind};
use vproxy::capsule::{
    decode_capsule_header, CapsuleDecoder, MAX_CAPSULE_DATAGRAM_SIZE, MAX_UDP_RELAY_PAYLOAD_SIZE,
};
use vproxy::datagram::{
    encode_datagram_capsule, encode_target_datagram, forward_capsule_datagram, usable_udp_payload,
};
use vproxy::error::{IoErrorKind, ProtocolError};
use vproxy::relay::{RelayAction, RelayEvent, RelayStage};
use vproxy::session::{datagram_not_sent, DatagramAction, SessionTable};
use vproxy::tunnel::{
    StreamClose, Tunnel, TunnelAction, TunnelEvent, TunnelExit, TunnelOutcome, TunnelSignal,
};
use vproxy::varint::{decode_varint, decode_varint_length};

#[test]
fn integers_of_every_width_are_read() {
    assert_eq!(decode_varint_length(&[0x25]), Some((37, 1)));
    assert_eq!(decode_varint_length(&[0x40, 0x25]), Some((37, 2)));
    assert_eq!(decode_varint_length(&[0x7b, 0xbd]), Some((15_293, 2)));
    assert_eq!(
        decode_varint_length(&[0x9d, 0x7f, 0x3e, 0x7d]),
        Some((494_878_333, 4))
    );
    assert_eq!(
        decode_varint_length(&[0xc2, 0x19, 0x7c, 0x5e, 0xff, 0x14, 0xe8, 0x8c]),
        Some((151_288_809_941_952_652, 8))
    );
    assert_eq!(
        decode_varint_length(&[0xff; 8]),
        Some((0x3fff_ffff_ffff_ffff, 8))
    );
}

#[test]
fn integers_ignore_what_follows_them() {
    assert_eq!(
        decode_varint(&[0x7b, 0xbd, 9, 8]),
        Some((15_293, &[9, 8][..]))
    );
    assert_eq!(decode_varint(&[0x3f]), Some((63, &[][..])));
}

#[test]
fn truncated_integers_are_refused() {
    let whole = [0xc2, 0x19, 0x7c, 0x5e, 0xff, 0x14, 0xe8, 0x8c];
    for count in 0..whole.len() {
        assert_eq!(decode_varint_length(&whole[..count]), None);
    }
    assert_eq!(decode_varint_length(&[0x9d, 0x7f, 0x3e]), None);
}

#[test]
fn written_integers_are_read_back() {
    for index in [
        0u64,
        63,
        64,
        16_383,
        16_384,
        0x3fff_ffff,
        0x4000_0000,
        0x0fff_ffff_ffff_ffff,
    ] {
        let datagram = encode_target_datagram(index * 4, b"x").expect("valid stream ID");
        assert_eq!(decode_varint(&datagram), Some((index, &[0, b'x'][..])));
    }
}

#[test]
fn stream_indices_take_the_shortest_form() {
    let encode = |stream_id: u64| encode_target_datagram(stream_id, b"").expect("valid stream ID");
    assert_eq!(encode(0).as_ref(), &[0, 0]);
    assert_eq!(encode(3).as_ref(), &[0, 0]);
    assert_eq!(encode(252).as_ref(), &[63, 0]);
    assert_eq!(encode(256).as_ref(), &[0x40, 64, 0]);
    assert_eq!(encode(65_536).as_ref(), &[0x80, 0, 0x40, 0, 0]);
    assert_eq!(
        encode(0x1_0000_0000).as_ref(),
        &[0xc0, 0, 0, 0, 0x40, 0, 0, 0, 0]
    );
}

#[test]
fn stream_ids_beyond_the_limit_are_refused() {
    assert!(encode_target_datagram(0x3fff_ffff_ffff_ffff, b"").is_ok());
    let error = encode_target_datagram(0x4000_0000_0000_0000, b"").unwrap_err();
    assert_eq!(error, ProtocolError::InvalidStreamId);
    assert_eq!(error.kind(), IoErrorKind::InvalidData);
    assert_eq!(error.message(), "invalid request stream ID");
}

#[test]
fn framing_errors_have_their_words() {
    assert_eq!(
        ProtocolError::InvalidCapsuleHeader.message(),
        "invalid capsule header"
    );
    assert_eq!(
        ProtocolError::InvalidCapsuleHeader.kind(),
        IoErrorKind::InvalidData
    );
    assert_eq!(
        ProtocolError::TruncatedCapsule.message(),
        "truncated capsule"
    );
    assert_eq!(
        ProtocolError::TruncatedCapsule.kind(),
        IoErrorKind::UnexpectedEof
    );
    assert_eq!(
        ProtocolError::CapsuleTooLarge.message(),
        "capsule payload too large"
    );
    assert_eq!(
        ProtocolError::CapsuleTooLarge.kind(),
        IoErrorKind::InvalidData
    );
    assert_eq!(
        ProtocolError::MissingContextId.message(),
        "missing CONNECT-UDP context ID"
    );
    assert_eq!(
        ProtocolError::MissingContextId.kind(),
        IoErrorKind::InvalidData
    );
}

#[test]
fn capsule_headers_are_two_integers() {
    assert_eq!(decode_capsule_header(&[0, 4]), Some((0, 4)));
    assert_eq!(
        decode_capsule_header(&[0x7b, 0xbd, 0x40, 0x25, 1]),
        Some((15_293, 37))
    );
    assert_eq!(decode_capsule_header(&[]), None);
    assert_eq!(decode_capsule_header(&[0]), None);
    assert_eq!(decode_capsule_header(&[0, 0x40]), None);
    assert_eq!(
        decode_capsule_header(&[0xff; 16]),
        Some((0x3fff_ffff_ffff_ffff, 0x3fff_ffff_ffff_ffff))
    );
}

fn capsule(capsule_type: u8, payload: &[u8]) -> Vec<u8> {
    let length = payload.len();
    let mut bytes = vec![capsule_type, 0x40 | (length >> 8) as u8, length as u8];
    bytes.extend_from_slice(payload);
    bytes
}

#[test]
fn one_piece_may_hold_many_capsules() {
    let mut stream = capsule(0, b"\0one");
    stream.extend(capsule(9, b"skipped"));
    stream.extend(capsule(0, b""));
    stream.extend(capsule(0, b"\0two"));
    let mut decoder = CapsuleDecoder::default();
    let datagrams = decoder.push(&stream).expect("valid stream");
    assert_eq!(
        datagrams,
        vec![
            Bytes::from_static(b"\0one"),
            Bytes::new(),
            Bytes::from_static(b"\0two")
        ]
    );
    assert_eq!(decoder.finish(), Ok(()));
}

#[test]
fn a_stream_may_be_cut_anywhere() {
    let mut stream = capsule(0, b"\0one");
    stream.extend(capsule(9, b"skipped"));
    stream.extend(capsule(0, b"\0two"));
    let whole = CapsuleDecoder::default()
        .push(&stream)
        .expect("valid stream");
    for cut in 0..=stream.len() {
        let mut decoder = CapsuleDecoder::default();
        let mut datagrams = decoder.push(&stream[..cut]).expect("valid piece");
        datagrams.extend(decoder.push(&stream[cut..]).expect("valid piece"));
        assert_eq!(datagrams, whole);
        assert_eq!(decoder.finish(), Ok(()));
    }
}

#[test]
fn a_truncated_capsule_may_not_end_the_stream() {
    let stream = capsule(0, b"\0udp");
    for count in 1..stream.len() {
        let mut decoder = CapsuleDecoder::default();
        assert!(decoder
            .push(&stream[..count])
            .expect("valid piece")
            .is_empty());
        assert_eq!(decoder.finish(), Err(ProtocolError::TruncatedCapsule));
    }
    assert_eq!(CapsuleDecoder::default().finish(), Ok(()));
}

#[test]
fn large_capsules_are_skipped() {
    let fits = vec![7; MAX_CAPSULE_DATAGRAM_SIZE];
    let large = vec![7; MAX_CAPSULE_DATAGRAM_SIZE + 1];
    let mut decoder = CapsuleDecoder::default();
    assert_eq!(
        decoder.push(&capsule(0, &fits)).expect("valid capsule"),
        vec![Bytes::from(fits)]
    );
    assert!(decoder
        .push(&capsule(0, &large))
        .expect("valid capsule")
        .is_empty());
    assert_eq!(decoder.finish(), Ok(()));
}

#[test]
fn sixteen_byte_headers_are_read() {
    let mut decoder = CapsuleDecoder::default();
    let mut stream = vec![0xc0, 0, 0, 0, 0, 0, 0, 0, 0xc0, 0, 0, 0, 0, 0, 0];
    assert!(decoder.push(&stream).expect("valid piece").is_empty());
    stream = vec![2, 5, 6];
    assert_eq!(
        decoder.push(&stream).expect("valid piece"),
        vec![Bytes::from_static(&[5, 6])]
    );
}

#[test]
fn long_capsules_have_long_lengths() {
    let payload = vec![1; 63];
    let encoded = encode_datagram_capsule(&payload).expect("valid capsule");
    assert_eq!(&encoded[..4], &[0, 0x40, 64, 0]);
    assert_eq!(&encoded[4..], &payload[..]);
}

#[test]
fn a_capsule_carries_its_payload() {
    for length in [0, 1, 62, 63, MAX_UDP_RELAY_PAYLOAD_SIZE] {
        let payload = vec![3; length];
        let encoded = encode_datagram_capsule(&payload).expect("valid capsule");
        let mut decoder = CapsuleDecoder::default();
        let datagrams = decoder.push(&encoded).expect("valid capsule");
        assert_eq!(datagrams.len(), 1);
        assert_eq!(
            forward_capsule_datagram(&datagrams[0]),
            Ok(Some(&payload[..]))
        );
        assert_eq!(decoder.finish(), Ok(()));
    }
}

#[test]
fn only_context_zero_is_forwarded() {
    assert_eq!(
        forward_capsule_datagram(b"\0udp"),
        Ok(Some(&b"udp"[..]))
    );
    assert_eq!(
        forward_capsule_datagram(b"\x40\0udp"),
        Ok(Some(&b"udp"[..]))
    );
    assert_eq!(forward_capsule_datagram(b"\0"), Ok(Some(&b""[..])));
    assert_eq!(forward_capsule_datagram(b"\x02udp"), Ok(None));
    assert_eq!(
        forward_capsule_datagram(b""),
        Err(ProtocolError::MissingContextId)
    );
    assert_eq!(
        forward_capsule_datagram(b"\x80\0"),
        Err(ProtocolError::MissingContextId)
    );
}

#[test]
fn payloads_above_the_relay_limit_are_not_forwarded() {
    let mut datagram = vec![0; 1 + MAX_UDP_RELAY_PAYLOAD_SIZE];
    assert_eq!(
        forward_capsule_datagram(&datagram),
        Ok(Some(&[0; MAX_UDP_RELAY_PAYLOAD_SIZE][..]))
    );
    datagram.push(0);
    assert_eq!(forward_capsule_datagram(&datagram), Ok(None));
}

#[test]
fn received_payloads_are_cut_to_their_length() {
    assert_eq!(usable_udp_payload(b"payload", 3), Some(&b"pay"[..]));
    assert_eq!(usable_udp_payload(b"payload", 0), Some(&b""[..]));
}

fn exit_of(action: TunnelAction) -> TunnelExit {
    match action {
        TunnelAction::Exit(exit) => exit,
        _ => panic!("the tunnel goes on"),
    }
}

fn forwarded(action: TunnelAction) -> (Vec<Vec<u8>>, Option<TunnelExit>) {
    match action {
        TunnelAction::Forward { payloads, exit } => (payloads, exit),
        _ => panic!("nothing is forwarded"),
    }
}

#[test]
fn client_capsules_reach_the_target() {
    let mut tunnel = Tunnel::open(4);
    let mut stream = encode_datagram_capsule(b"one").expect("valid capsule").to_vec();
    stream.extend(capsule(0, b"\x01other context"));
    stream.extend_from_slice(&encode_datagram_capsule(b"two").expect("valid capsule"));
    let (payloads, exit) = forwarded(tunnel.on_event(TunnelEvent::StreamData(&stream)));
    assert_eq!(payloads, vec![b"one".to_vec(), b"two".to_vec()]);
    assert_eq!(exit, None);
}

#[test]
fn pieces_reach_the_target_like_the_whole() {
    let mut stream = encode_datagram_capsule(b"one").expect("valid capsule").to_vec();
    stream.extend_from_slice(&encode_datagram_capsule(b"two").expect("valid capsule"));
    for cut in 0..=stream.len() {
        let mut tunnel = Tunnel::open(0);
        let (mut payloads, exit) =
            forwarded(tunnel.on_event(TunnelEvent::StreamData(&stream[..cut])));
        assert_eq!(exit, None);
        let (rest, exit) = forwarded(tunnel.on_event(TunnelEvent::StreamData(&stream[cut..])));
        assert_eq!(exit, None);
        payloads.extend(rest);
        assert_eq!(payloads, vec![b"one".to_vec(), b"two".to_vec()]);
    }
}

#[test]
fn single_bytes_reach_the_target_like_the_whole() {
    let mut stream = capsule(9, b"skipped");
    stream.extend_from_slice(&encode_datagram_capsule(b"one").expect("valid capsule"));
    stream.extend_from_slice(&encode_datagram_capsule(b"").expect("valid capsule"));
    let mut tunnel = Tunnel::open(0);
    let mut payloads = Vec::new();
    for byte in stream.chunks(1) {
        let (more, exit) = forwarded(tunnel.on_event(TunnelEvent::StreamData(byte)));
        assert_eq!(exit, None);
        payloads.extend(more);
    }
    assert_eq!(payloads, vec![b"one".to_vec(), Vec::new()]);
}

#[test]
fn nothing_is_forwarded_after_a_malformed_datagram() {
    let mut stream = capsule(0, b"\0before");
    stream.extend(capsule(0, b""));
    stream.extend(capsule(0, b"\0after"));
    let (payloads, exit) = forwarded(Tunnel::open(0).on_event(TunnelEvent::StreamData(&stream)));
    assert_eq!(payloads, vec![b"before".to_vec()]);
    assert_eq!(
        exit,
        Some(TunnelExit {
            close: StreamClose::Stop,
            outcome: TunnelOutcome::Violation(ProtocolError::MissingContextId),
        })
    );
}

#[test]
fn a_finished_stream_is_reset_only_if_truncated() {
    let mut tunnel = Tunnel::open(0);
    assert_eq!(
        exit_of(tunnel.on_event(TunnelEvent::StreamEnded)),
        TunnelExit {
            close: StreamClose::Leave,
            outcome: TunnelOutcome::Ended,
        }
    );
    let mut tunnel = Tunnel::open(0);
    tunnel.on_event(TunnelEvent::StreamData(&[0, 4, 0]));
    assert_eq!(
        exit_of(tunnel.on_event(TunnelEvent::StreamEnded)),
        TunnelExit {
            close: StreamClose::Stop,
            outcome: TunnelOutcome::Ended,
        }
    );
}

fn received(datagrams: bool, max_datagram_size: Option<usize>) -> TunnelEvent<'static> {
    TunnelEvent::SocketReceived {
        buffer: b"payload and more",
        length: 7,
        datagrams,
        max_datagram_size,
    }
}

#[test]
fn target_payloads_go_out_as_datagrams_where_they_fit() {
    match Tunnel::open(4).on_event(received(true, Some(9))) {
        TunnelAction::SendDatagram(bytes) => assert_eq!(bytes.as_ref(), b"\x01\0payload"),
        _ => panic!("the datagram fits"),
    }
    assert!(matches!(
        Tunnel::open(4).on_event(received(true, Some(8))),
        TunnelAction::Continue
    ));
}

#[test]
fn target_payloads_go_out_as_capsules_otherwise() {
    for event in [
        received(true, None),
        received(false, None),
        received(false, Some(1200)),
    ] {
        match Tunnel::open(4).on_event(event) {
            TunnelAction::SendCapsule(bytes) => assert_eq!(bytes.as_ref(), b"\0\x08\0payload"),
            _ => panic!("there are no datagrams"),
        }
    }
}

#[test]
fn tunnels_need_a_valid_stream_id() {
    assert_eq!(
        exit_of(Tunnel::open(1 << 62).on_event(received(true, Some(1200)))),
        TunnelExit {
            close: StreamClose::Leave,
            outcome: TunnelOutcome::Violation(ProtocolError::InvalidStreamId),
        }
    );
}

#[test]
fn tunnels_survive_oversized_payloads() {
    let error = Error::from(ErrorKind::Other);
    let buffer = [0; MAX_UDP_RELAY_PAYLOAD_SIZE + 1];
    let mut tunnel = Tunnel::open(0);
    for event in [
        TunnelEvent::SocketReceived {
            buffer: &buffer,
            length: buffer.len(),
            datagrams: true,
            max_datagram_size: Some(1200),
        },
        TunnelEvent::ReceiveFailed { oversized: true },
        TunnelEvent::ForwardFailed {
            oversized: true,
            error: &error,
        },
        TunnelEvent::DatagramFailed { too_large: true },
    ] {
        assert!(matches!(tunnel.on_event(event), TunnelAction::Continue));
    }
}

#[test]
fn other_failures_end_a_tunnel() {
    let failed = |close: StreamClose| TunnelExit {
        close,
        outcome: TunnelOutcome::Failed,
    };
    let refused = Error::from(ErrorKind::ConnectionRefused);
    let invalid = Error::new(ErrorKind::InvalidData, "invalid");
    let mut tunnel = Tunnel::open(0);
    assert_eq!(
        exit_of(tunnel.on_event(TunnelEvent::ReceiveFailed { oversized: false })),
        failed(StreamClose::Finish)
    );
    assert_eq!(
        exit_of(tunnel.on_event(TunnelEvent::ForwardFailed {
            oversized: false,
            error: &refused,
        })),
        failed(StreamClose::Leave)
    );
    assert_eq!(
        exit_of(tunnel.on_event(TunnelEvent::ForwardFailed {
            oversized: false,
            error: &invalid,
        })),
        failed(StreamClose::Stop)
    );
    assert_eq!(
        exit_of(tunnel.on_event(TunnelEvent::DatagramFailed { too_large: false })),
        failed(StreamClose::Leave)
    );
    assert_eq!(
        exit_of(tunnel.on_event(TunnelEvent::StreamFailed)),
        failed(StreamClose::Leave)
    );
}

#[test]
fn signals_and_shutdown_end_a_tunnel() {
    let ended = |close: StreamClose| TunnelExit {
        close,
        outcome: TunnelOutcome::Ended,
    };
    let mut tunnel = Tunnel::open(0);
    assert_eq!(
        exit_of(tunnel.on_event(TunnelEvent::Shutdown)),
        ended(StreamClose::Finish)
    );
    assert_eq!(
        exit_of(tunnel.on_event(TunnelEvent::Signal(Some(TunnelSignal::DatagramError)))),
        ended(StreamClose::Stop)
    );
    assert_eq!(
        exit_of(tunnel.on_event(TunnelEvent::Signal(Some(TunnelSignal::SocketError)))),
        ended(StreamClose::Finish)
    );
    assert_eq!(
        exit_of(tunnel.on_event(TunnelEvent::Signal(None))),
        ended(StreamClose::Finish)
    );
}

#[test]
fn datagrams_find_their_tunnel() {
    let mut table: SessionTable<&str> = SessionTable::new();
    assert_eq!(table.get(4), None);
    assert!(matches!(
        table.process_datagram(4, b"\0udp"),
        DatagramAction::Ignore
    ));
    table.insert(4, "four");
    table.insert(8, "eight");
    assert_eq!(table.get(4), Some(&"four"));
    match table.process_datagram(4, b"\0udp") {
        DatagramAction::Forward(payload) => assert_eq!(payload, b"udp"),
        _ => panic!("the payload is forwarded"),
    }
    table.remove(4);
    assert_eq!(table.get(4), None);
    assert_eq!(table.get(8), Some(&"eight"));
    assert!(matches!(
        table.process_datagram(4, b"\0udp"),
        DatagramAction::Ignore
    ));
    assert!(matches!(
        table.process_datagram(8, b"\0udp"),
        DatagramAction::Forward(_)
    ));
}

#[test]
fn bad_datagrams_are_reported_or_dropped() {
    let mut table: SessionTable<()> = SessionTable::new();
    table.insert(0, ());
    assert!(matches!(
        table.process_datagram(0, b""),
        DatagramAction::Signal(TunnelSignal::DatagramError)
    ));
    assert!(matches!(
        table.process_datagram(0, b"\x02udp"),
        DatagramAction::Ignore
    ));
    assert!(matches!(
        table.process_datagram(0, &[0; MAX_UDP_RELAY_PAYLOAD_SIZE + 2]),
        DatagramAction::Ignore
    ));
    assert_eq!(datagram_not_sent(true), None);
    assert_eq!(datagram_not_sent(false), Some(TunnelSignal::SocketError));
}

fn exit(close: StreamClose, outcome: TunnelOutcome) -> RelayEvent {
    RelayEvent::Ended(TunnelExit { close, outcome })
}

/// What becomes of a table and a permit, what is sent, and whether a failure is returned.
fn relayed(events: &[RelayEvent]) -> (Vec<&'static str>, Vec<u16>, bool) {
    let mut table: SessionTable<()> = SessionTable::new();
    table.insert(4, ());
    let mut log = Vec::new();
    let mut answers = Vec::new();
    let (mut stage, mut action) = RelayStage::start();
    let mut failed = None;
    for event in events {
        match &action {
            RelayAction::ResolvePeer => log.push("resolve"),
            RelayAction::Register => {
                table.insert(8, ());
                log.push("register");
            }
            RelayAction::Answer(head) => {
                assert!(table.get(8).is_some());
                answers.push(head.status);
                log.push("answer");
            }
            RelayAction::Relay => {
                assert!(table.get(8).is_some());
                log.push("relay");
            }
            RelayAction::Close(_) => log.push("close"),
            RelayAction::Unregister => {
                table.remove(8);
                log.push("unregister");
            }
            RelayAction::Release => log.push("release"),
            RelayAction::Return { .. } => panic!("the tunnel has returned"),
        }
        (stage, action) = stage.advance(*event);
        if let RelayAction::Return { failed: returned } = action {
            failed = Some(returned);
        }
    }
    assert_eq!(stage, RelayStage::Returned);
    assert!(table.get(8).is_none());
    assert!(table.get(4).is_some());
    (log, answers, failed.expect("the tunnel returns"))
}

#[test]
fn a_tunnel_is_registered_before_it_is_answered() {
    let (log, answers, failed) = relayed(&[
        RelayEvent::Done,
        RelayEvent::Done,
        RelayEvent::Done,
        exit(StreamClose::Finish, TunnelOutcome::Ended),
        RelayEvent::Done,
        RelayEvent::Done,
        RelayEvent::Done,
    ]);
    assert_eq!(
        log,
        vec![
            "resolve",
            "register",
            "answer",
            "relay",
            "close",
            "unregister",
            "release"
        ]
    );
    assert_eq!(answers, vec![200]);
    assert!(!failed);
}

#[test]
fn every_way_out_of_a_tunnel_gives_everything_back() {
    let done = RelayEvent::Done;
    let ended = exit(StreamClose::Leave, TunnelOutcome::Ended);
    let broken = exit(
        StreamClose::Stop,
        TunnelOutcome::Violation(ProtocolError::MissingContextId),
    );
    for events in [
        vec![done, done, RelayEvent::Failed, done, done],
        vec![done, done, RelayEvent::CutOff, done, done],
        vec![done, done, done, RelayEvent::CutOff, done, done],
        vec![done, done, done, ended, RelayEvent::Failed, done, done],
        vec![done, done, done, ended, RelayEvent::CutOff, done, done],
        vec![done, done, done, broken, done, done, done],
        vec![
            done,
            done,
            done,
            exit(StreamClose::Finish, TunnelOutcome::Failed),
            done,
            done,
            done,
        ],
    ] {
        let (log, _, failed) = relayed(&events);
        assert!(log.ends_with(&["unregister", "release"]));
        assert!(failed);
    }
}

#[test]
fn a_tunnel_without_a_target_only_gives_its_permit_back() {
    let (log, answers, failed) = relayed(&[RelayEvent::Failed, RelayEvent::Done]);
    assert_eq!(log, vec!["resolve", "release"]);
    assert!(answers.is_empty());
    assert!(failed);
}

#[test]
fn a_tunnel_leaves_its_stream_as_it_ends() {
    for close in [StreamClose::Leave, StreamClose::Finish, StreamClose::Stop] {
        let (_, action) = RelayStage::Relaying.advance(exit(close, TunnelOutcome::Ended));
        assert!(matches!(action, RelayAction::Close(taken) if taken == close));
    }
}
