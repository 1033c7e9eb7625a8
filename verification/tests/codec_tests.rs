use veritas::codec::decode_command;
use veritas::codec::decode_response;
use veritas::codec::encode_command;
use veritas::codec::encode_response;
use veritas::codec::frame_payload;
use veritas::codec::unframe;
use veritas::protocol::Command;
use veritas::protocol::Response;
use veritas::protocol::System;
use veritas::protocol::TransitionData;
use veritas::replay::VeritasMode;

fn round_trip_command(c: Command) {
    let bytes = encode_command(&c);
    let back = decode_command(&bytes).expect("well-formed payload must decode");
    assert_eq!(back, c);
    // and decoding then re-encoding reproduces the bytes exactly
    assert_eq!(encode_command(&back), bytes);
}

#[test]
fn command_round_trips() {
    round_trip_command(Command::Ping);
    round_trip_command(Command::GetStatus);
    round_trip_command(Command::SetReplayMode(VeritasMode::ReplayNes));
    round_trip_command(Command::SetReplayLength(3));
    round_trip_command(Command::SetReplayLength(0xFFFF_FFFF_FFFF_FFFF));
    round_trip_command(Command::SetLatchFilter(8000));
    round_trip_command(Command::UseInitialReset(false));
    round_trip_command(Command::ProvideInput(System::Nes, vec![0x7F, 0xFF]));
    round_trip_command(Command::ProvideInput(System::Genesis, vec![]));
    round_trip_command(Command::ProvideTransitions(vec![]));
    round_trip_command(Command::ProvideTransitions(vec![
        TransitionData { index: 5, index_kind: 1, transition_kind: 0x01 },
        TransitionData { index: 900, index_kind: 1, transition_kind: 0x02 },
    ]));
}

#[test]
fn response_round_trips() {
    for r in [
        Response::Okay,
        Response::Pong,
        Response::Error,
        Response::BufferStatus { written: 2, remaining_space: 2046 },
        Response::DeviceStatus(String::from("Mode: Idle, Index: 0/3")),
    ] {
        let bytes = encode_response(&r);
        let back = decode_response(&bytes).expect("well-formed payload must decode");
        assert_eq!(back, r);
        assert_eq!(encode_response(&back), bytes);
    }
}

#[test]
fn decode_rejects_malformed_payloads() {
    // empty, unknown tag, trailing bytes, bad enum bytes, bad bool
    assert_eq!(decode_command(&vec![]), None);
    assert_eq!(decode_command(&vec![0x99]), None);
    assert_eq!(decode_command(&vec![0x07, 0x00]), None);
    assert_eq!(decode_command(&vec![0x02, 0x06]), None);
    assert_eq!(decode_command(&vec![0x05, 0x02]), None);
    assert_eq!(decode_command(&vec![0x03, 1, 2, 3]), None);
    // a transition list whose count disagrees with its length
    assert_eq!(decode_command(&vec![0x01, 0, 0, 0, 1]), None);
    assert_eq!(decode_response(&vec![]), None);
    assert_eq!(decode_response(&vec![0x05]), None);
    assert_eq!(decode_response(&vec![0x00, 0x00]), None);
    // a status response whose text is not UTF-8
    assert_eq!(decode_response(&vec![0x01, 0, 0, 0, 1, 0xFF]), None);
}

#[test]
fn known_command_bytes_round_trip() {
    // One pinned wire image: encode(decode(b)) == b for a well-formed b.
    let b = vec![0x00, 0x01, 0x7F, 0xFF];
    let c = decode_command(&b).expect("decodes");
    assert_eq!(c, Command::ProvideInput(System::Nes, vec![0x7F, 0xFF]));
    assert_eq!(encode_command(&c), b);
}

#[test]
fn framing_round_trips() {
    let payload = vec![0x07];
    let framed = frame_payload(&payload);
    assert_eq!(framed, vec![0, 0, 0, 1, 0x07]);
    assert_eq!(unframe(&framed), Some(payload));
    // a frame whose header disagrees with its body is incomplete
    assert_eq!(unframe(&vec![0, 0, 0, 2, 0x07]), None);
    assert_eq!(unframe(&vec![0, 0, 0]), None);
}
