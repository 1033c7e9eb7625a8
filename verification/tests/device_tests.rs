use veritas::device::DeviceCore;
use veritas::device::provide_input;
use veritas::protocol::Command;
use veritas::protocol::Response;
use veritas::protocol::System;
use veritas::protocol::TransitionData;
use veritas::queue::InputQueue;
use veritas::replay::VeritasMode;

#[test]
fn manual_press_session() {
    // Ping, set NES replay mode, set the latch filter, then provide one
    // frame: the device acknowledges each step and reports one frame
    // written with 1023 free slots (2046 bytes) left.
    let mut dev = DeviceCore::new();
    assert_eq!(dev.handle_command(&Command::Ping), Response::Pong);
    assert_eq!(
        dev.handle_command(&Command::SetReplayMode(VeritasMode::ReplayNes)),
        Response::Okay
    );
    assert_eq!(dev.handle_command(&Command::SetLatchFilter(8000)), Response::Okay);
    assert_eq!(
        dev.handle_command(&Command::ProvideInput(System::Nes, vec![0x7F, 0xFF])),
        Response::BufferStatus { written: 2, remaining_space: 2046 }
    );
    assert_eq!(dev.nes_queue.len(), 1);
}

#[test]
fn provide_input_empty_payload_reports_free_bytes() {
    // An empty payload writes nothing and reports the current free
    // space.
    let mut dev = DeviceCore::new();
    assert_eq!(
        dev.handle_command(&Command::ProvideInput(System::Nes, vec![])),
        Response::BufferStatus { written: 0, remaining_space: 2048 }
    );
}

#[test]
fn provide_input_takes_whole_frames_up_to_free_slots() {
    // k whole frames into s free slots: written = w * min(k, s) and
    // remaining_space = w * (s - min(k, s)).
    let mut q = InputQueue::new(2, 4);
    q.enqueue(vec![0, 0]);
    // 3 whole frames offered (7 bytes), 3 free slots: all 3 fit
    let payload = vec![1, 2, 3, 4, 5, 6, 7];
    assert_eq!(provide_input(&mut q, &payload), (6, 0));
    assert_eq!(q.len(), 4);
    // the trailing partial byte was never consumed
    assert_eq!(q.dequeue(), Some(vec![0, 0]));
    assert_eq!(q.dequeue(), Some(vec![1, 2]));
    // 3 frames offered, 2 free slots: only 2 fit
    let mut q2 = InputQueue::new(2, 2);
    assert_eq!(provide_input(&mut q2, &vec![9, 8, 7, 6, 5, 4]), (4, 0));
    assert_eq!(q2.dequeue(), Some(vec![9, 8]));
    assert_eq!(q2.dequeue(), Some(vec![7, 6]));
    assert_eq!(q2.dequeue(), None);
}

#[test]
fn provide_input_rejects_unknown_and_mismatched_systems() {
    let mut dev = DeviceCore::new();
    assert_eq!(
        dev.handle_command(&Command::ProvideInput(System::Snes, vec![1, 2])),
        Response::Error
    );
    assert_eq!(
        dev.handle_command(&Command::ProvideInput(System::N64, vec![0; 16])),
        Response::Error
    );
    dev.handle_command(&Command::SetReplayMode(VeritasMode::ReplayNes));
    // Genesis input while NES replay runs is mismatched
    assert_eq!(
        dev.handle_command(&Command::ProvideInput(System::Genesis, vec![1, 2, 3, 4])),
        Response::Error
    );
    // but NES input is accepted
    assert!(matches!(
        dev.handle_command(&Command::ProvideInput(System::Nes, vec![1, 2])),
        Response::BufferStatus { .. }
    ));
}

#[test]
fn set_replay_length_rejects_oversized() {
    // The wire carries 64 bits but the device cursor is 32 bits wide;
    // an index that cannot be represented is rejected rather than
    // silently truncated.
    let mut dev = DeviceCore::new();
    assert_eq!(dev.handle_command(&Command::SetReplayLength(3)), Response::Okay);
    assert_eq!(dev.state.index_len, 3);
    assert_eq!(
        dev.handle_command(&Command::SetReplayLength(0x1_0000_0000)),
        Response::Error
    );
    assert_eq!(dev.state.index_len, 3);
}

#[test]
fn provide_transitions_installs_sorted() {
    let mut dev = DeviceCore::new();
    let resp = dev.handle_command(&Command::ProvideTransitions(vec![
        TransitionData { index: 9, index_kind: 1, transition_kind: 0x01 },
        TransitionData { index: 2, index_kind: 1, transition_kind: 0x01 },
    ]));
    assert_eq!(resp, Response::Okay);
    let indices: Vec<u32> = dev.state.transitions.iter().map(|p| p.0).collect();
    assert_eq!(indices, vec![2, 9]);
    // an index beyond 32 bits is rejected and nothing changes
    let resp = dev.handle_command(&Command::ProvideTransitions(vec![TransitionData {
        index: 0x1_0000_0000,
        index_kind: 1,
        transition_kind: 0x01,
    }]));
    assert_eq!(resp, Response::Error);
    assert_eq!(dev.state.transitions.len(), 2);
}

#[test]
fn get_status_reports_mode_and_cursor() {
    let mut dev = DeviceCore::new();
    dev.handle_command(&Command::SetReplayLength(3));
    match dev.handle_command(&Command::GetStatus) {
        Response::DeviceStatus(text) => {
            assert_eq!(text, "Mode: Initial, Index: 0/3");
        },
        other => panic!("expected a status string, got {:?}", other),
    }
    dev.handle_command(&Command::SetReplayMode(VeritasMode::Idle));
    match dev.handle_command(&Command::GetStatus) {
        Response::DeviceStatus(text) => {
            assert_eq!(text, "Mode: Idle, Index: 0/3");
        },
        other => panic!("expected a status string, got {:?}", other),
    }
}

#[test]
fn use_initial_reset_toggles_flag() {
    let mut dev = DeviceCore::new();
    assert!(dev.state.use_initial_reset);
    assert_eq!(dev.handle_command(&Command::UseInitialReset(false)), Response::Okay);
    assert!(!dev.state.use_initial_reset);
}

#[test]
fn stop_replay_drains_and_resets() {
    let mut dev = DeviceCore::new();
    dev.handle_command(&Command::SetReplayLength(4));
    dev.handle_command(&Command::ProvideInput(System::Nes, vec![1, 2, 3, 4]));
    dev.handle_command(&Command::SetReplayMode(VeritasMode::Idle));
    dev.stop_replay();
    assert!(dev.nes_queue.is_empty());
    assert_eq!(dev.state.index_cur, 0);
    assert_eq!(dev.state.transitions.len(), 0);
    // the mode word stays whatever the communications core last wrote
    assert_eq!(dev.mode, VeritasMode::Idle);
}
