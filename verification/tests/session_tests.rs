use veritas::codec::decode_command;
use veritas::codec::decode_response;
use veritas::codec::encode_command;
use veritas::codec::frame_payload;
use veritas::codec::unframe;
use veritas::device::DeviceCore;
use veritas::host::PrefillAction;
use veritas::host::PrefillState;
use veritas::protocol::Command;
use veritas::protocol::Response;
use veritas::protocol::System;
use veritas::replay::VeritasMode;

/// One full wire exchange: the host frames an encoded command, the
/// device unframes, decodes, handles and answers, and the host reads the
/// response back.
fn exchange(dev: &mut DeviceCore, cmd: &Command) -> Response {
    let framed = frame_payload(&encode_command(cmd));
    let payload = unframe(&framed).expect("the device sees a complete frame");
    let framed_resp = dev.respond_frame(&payload);
    let resp_payload = unframe(&framed_resp).expect("the host sees a complete frame");
    decode_response(&resp_payload).expect("the device only sends well-formed responses")
}

#[test]
fn framed_ping_pong() {
    let mut dev = DeviceCore::new();
    assert_eq!(exchange(&mut dev, &Command::Ping), Response::Pong);
}

#[test]
fn prefill_until_queue_full_then_start() {
    // Stream a 4096-byte NES movie under flow control: chunks sized to
    // the device's reported free space, replay started on the first
    // full-queue reply, the whole movie delivered.
    let movie: Vec<u8> = (0..4096u32).map(|i| (i % 251) as u8).collect();
    let mut dev = DeviceCore::new();
    let mut st = PrefillState::new(2);
    assert_eq!(exchange(&mut dev, &Command::SetLatchFilter(8000)), Response::Okay);
    assert_eq!(
        exchange(&mut dev, &Command::SetReplayLength((movie.len() / 2) as u64)),
        Response::Okay
    );
    let mut started = 0;
    let mut sends = 0;
    while !st.done(movie.len()) {
        let (from, to) = st.next_chunk(movie.len());
        let chunk = movie[from..to].to_vec();
        match exchange(&mut dev, &Command::ProvideInput(System::Nes, chunk)) {
            Response::BufferStatus { written, remaining_space } => {
                match st.apply_reply(written, remaining_space) {
                    PrefillAction::StartReplay => {
                        started += 1;
                        assert_eq!(remaining_space, 0);
                        assert!(dev.nes_queue.is_full());
                        assert_eq!(
                            exchange(&mut dev, &Command::SetReplayMode(VeritasMode::ReplayNes)),
                            Response::Okay
                        );
                        // pretend the engine drained some frames
                        for _ in 0..512 {
                            dev.nes_queue.dequeue();
                        }
                    },
                    PrefillAction::Throttle => {
                        // where the driver would sleep, the engine drains
                        for _ in 0..256 {
                            dev.nes_queue.dequeue();
                        }
                    },
                    PrefillAction::Continue => {},
                }
            },
            other => panic!("expected a buffer status, got {:?}", other),
        }
        sends += 1;
        assert!(sends < 10_000, "the prefill loop must make progress");
    }
    assert_eq!(started, 1);
    assert_eq!(dev.mode, VeritasMode::ReplayNes);
    // everything the host cut off was accepted in order: drain what is
    // left and check the tail of the movie is still intact
    let mut rest = Vec::new();
    while let Some(f) = dev.nes_queue.dequeue() {
        rest.extend_from_slice(&f);
    }
    assert_eq!(&movie[movie.len() - rest.len()..], &rest[..]);
}

#[test]
fn malformed_frame_gets_error_reply() {
    // A payload outside the grammar is answered with the error reply and
    // the device state is untouched.
    let mut dev = DeviceCore::new();
    let bogus = vec![0x99, 0x01, 0x02];
    assert_eq!(decode_command(&bogus), None);
    let framed = dev.respond_frame(&bogus);
    let resp = decode_response(&unframe(&framed).unwrap()).unwrap();
    assert_eq!(resp, Response::Error);
    assert_eq!(dev.mode, VeritasMode::Initial);
}
