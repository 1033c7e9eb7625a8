use veritas::genesis::GenesisEngine;
use veritas::interrupts::gpio_mask;
use veritas::interrupts::Edge;
use veritas::n64::encode_joybus;
use veritas::n64::respond;
use veritas::n64::N64Action;
use veritas::nes::nes_edge_priority;
use veritas::nes::NesEdge;
use veritas::nes::NesEngine;
use veritas::queue::InputQueue;
use veritas::replay::ReplayState;
use veritas::replay::Transition;
use veritas::replay::select_engine;
use veritas::replay::EngineChoice;
use veritas::replay::VeritasMode;

fn nes_queue(frames: &[[u8; 2]]) -> InputQueue {
    let mut q = InputQueue::new(2, 1024);
    for f in frames {
        assert!(q.enqueue(f.to_vec()));
    }
    q
}

#[test]
fn nes_latch_drives_first_bit_then_clocks_shift() {
    // A held A button (0x7F, active-low) reads 0,1,1,1,1,1,1,1 on the
    // port-1 data line: latch drives bit 7, each clock shifts the next
    // bit out.
    let mut q = nes_queue(&[[0x7F, 0xFF]]);
    let mut eng = NesEngine::new(&mut q);
    assert!(eng.on_latch());
    let mut bits = vec![eng.ser[0]];
    for _ in 0..7 {
        eng.on_clock(0);
        bits.push(eng.ser[0]);
    }
    assert_eq!(bits, vec![false, true, true, true, true, true, true, true]);
    // port 2 held 0xFF the whole time
    assert!(eng.ser[1]);
}

#[test]
fn nes_latch_bounce_arms_alarm_once() {
    // Two rising latch edges inside the filter window: only the first
    // arms the frame-boundary alarm, so one frame advance happens.
    let mut q = nes_queue(&[[0x7F, 0xFF]]);
    let mut eng = NesEngine::new(&mut q);
    assert!(eng.on_latch());
    assert!(!eng.on_latch());
    assert!(!eng.on_latch());
    // after the alarm the next latch arms again
    let mut st = ReplayState::new();
    st.index_len = 3;
    let mut mode = VeritasMode::ReplayNes;
    eng.on_alarm(&mut q, &mut st, &mut mode);
    assert!(eng.on_latch());
}

#[test]
fn nes_three_frame_replay_ends_in_idle() {
    // Three frames, length 3: after the third frame-boundary alarm the
    // cursor equals the length and the mode flips to Idle.
    let mut q = nes_queue(&[[0x7F, 0xFF], [0xBF, 0xFF], [0xFF, 0xFF]]);
    let mut st = ReplayState::new();
    st.index_len = 3;
    let mut mode = VeritasMode::ReplayNes;
    let mut eng = NesEngine::new(&mut q);
    assert_eq!(eng.frame_input, vec![0x7F, 0xFF]);
    for boundary in 1..=3u32 {
        assert_eq!(mode, VeritasMode::ReplayNes);
        eng.on_latch();
        let due = eng.on_alarm(&mut q, &mut st, &mut mode);
        assert_eq!(due, None);
        assert_eq!(st.index_cur, boundary);
    }
    assert_eq!(st.index_cur, 3);
    assert_eq!(st.index_len, 3);
    assert_eq!(mode, VeritasMode::Idle);
}

#[test]
fn nes_replay_stops_at_length_with_frames_left() {
    // A length shorter than the buffered movie: the engine stops at the
    // length regardless of queue contents.
    let mut q = nes_queue(&[[1, 2], [3, 4], [5, 6], [7, 8], [9, 10]]);
    let mut st = ReplayState::new();
    st.index_len = 2;
    let mut mode = VeritasMode::ReplayNes;
    let mut eng = NesEngine::new(&mut q);
    eng.on_alarm(&mut q, &mut st, &mut mode);
    assert_eq!(mode, VeritasMode::ReplayNes);
    eng.on_alarm(&mut q, &mut st, &mut mode);
    assert_eq!(mode, VeritasMode::Idle);
    assert!(!q.is_empty());
}

#[test]
fn nes_transition_pulses_on_its_own_boundary() {
    // Length 10, one soft reset at index 5: the boundary that advances
    // the cursor from 5 to 6 hands the reset out, and the frame staged
    // there is still the movie's frame 5 successor (frame index 6) —
    // the transition replaces no input.
    let mut frames = Vec::new();
    for k in 0..10u8 {
        frames.push([k, 0xFF]);
    }
    let mut q = nes_queue(&frames);
    let mut st = ReplayState::new();
    st.index_len = 10;
    st.insert_transition(5, Transition::SoftReset);
    let mut mode = VeritasMode::ReplayNes;
    let mut eng = NesEngine::new(&mut q);
    let mut pulses = Vec::new();
    while st.index_cur < st.index_len {
        let cur_before = st.index_cur;
        eng.on_latch();
        let due = eng.on_alarm(&mut q, &mut st, &mut mode);
        if let Some(t) = due {
            pulses.push((cur_before, t));
            assert_eq!(eng.frame_input[0], (cur_before + 1) as u8);
        }
    }
    assert_eq!(pulses, vec![(5, Transition::SoftReset)]);
}

#[test]
fn genesis_select_low_presses_a_and_forces_directions() {
    // Mode ReplayGenesis, input 0x7F on port 0 (A held, active-low).
    // With SELECT high all six outputs follow bits 0-5 (here released);
    // on the SELECT-low step B/A carries bit 7 (pressed), LEFT and
    // RIGHT are forced low, and C/START carries bit 6.
    let mut q = InputQueue::new(4, 1024);
    assert!(q.enqueue(vec![0x7F, 0xFF, 0xFF, 0xFF]));
    let mut eng = GenesisEngine::new(&mut q);
    // SELECT-high state of 0x7F: bits 0-5 all released, outputs high
    for pin in [24u32, 21, 19, 17, 15, 13] {
        assert_ne!(eng.pins & (1 << pin), 0, "pin {} should be high", pin);
    }
    // falling SELECT edge commits the low-step masks
    eng.on_select_edge(0, false);
    assert_ne!(eng.pins & (1 << 24), 0, "C/START carries bit 6 (released)");
    assert_eq!(eng.pins & (1 << 21), 0, "B/A carries bit 7: A is pressed");
    assert_eq!(eng.pins & (1 << 19), 0, "RIGHT forced low");
    assert_eq!(eng.pins & (1 << 17), 0, "LEFT forced low");
    assert_ne!(eng.pins & (1 << 15), 0, "DOWN repeats bit 4");
    assert_ne!(eng.pins & (1 << 13), 0, "UP repeats bit 5");
    assert_eq!(eng.steps[0], 1);
    // rising edge returns to the high-step pattern
    eng.on_select_edge(0, true);
    for pin in [24u32, 21, 19, 17, 15, 13] {
        assert_ne!(eng.pins & (1 << pin), 0);
    }
    assert_eq!(eng.steps[0], 2);
    // the frame-boundary alarm resets the step count and stages the
    // next frame (neutral: the queue is empty now)
    eng.on_alarm(0, true, &mut q);
    assert_eq!(eng.steps[0], 0);
    assert_eq!(eng.latched_input, vec![0xFF, 0xFF, 0xFF, 0xFF]);
}

#[test]
fn joybus_encoding_is_exact() {
    assert_eq!(encode_joybus(0x80), 0x7111_1111);
    assert_eq!(encode_joybus(0xFF), 0x7777_7777);
    assert_eq!(encode_joybus(0x00), 0x1111_1111);
    assert_eq!(encode_joybus(0x05), 0x1111_1717);
    assert_eq!(encode_joybus(0x02), 0x1111_1171);
}

#[test]
fn n64_status_poll_sends_frame_then_stop_bit() {
    // Console sends 0xFF: the device answers with the current 4-byte
    // frame as Joybus cells, then the controller stop bit.
    let mut q = InputQueue::new(16, 1024);
    let mut frame = vec![0x80, 0x00, 0x00, 0x00];
    frame.resize(16, 0);
    assert!(q.enqueue(frame));
    match respond(0xFF, &mut q) {
        N64Action::Respond { words, trailing_silence_us } => {
            assert_eq!(
                words,
                vec![0x7111_1111, 0x1111_1111, 0x1111_1111, 0x1111_1111, 0x3FFF_FFFF]
            );
            assert_eq!(trailing_silence_us, 16);
        },
        other => panic!("expected a response, got {:?}", describe(&other)),
    }
    // a drained queue answers with the all-zero frame
    match respond(0x01, &mut q) {
        N64Action::Respond { words, .. } => {
            assert_eq!(
                words,
                vec![0x1111_1111, 0x1111_1111, 0x1111_1111, 0x1111_1111, 0x3FFF_FFFF]
            );
        },
        other => panic!("expected a response, got {:?}", describe(&other)),
    }
}

#[test]
fn n64_identify_and_pak_commands() {
    let mut q = InputQueue::new(16, 1024);
    match respond(0x00, &mut q) {
        N64Action::Respond { words, trailing_silence_us } => {
            assert_eq!(words, vec![0x1111_1717, 0x1111_1111, 0x1111_1171, 0x3FFF_FFFF]);
            assert_eq!(trailing_silence_us, 16);
        },
        other => panic!("expected the identity response, got {:?}", describe(&other)),
    }
    assert!(matches!(respond(0x02, &mut q), N64Action::DelayUs(150)));
    assert!(matches!(respond(0x03, &mut q), N64Action::DelayUs(150)));
    assert!(matches!(respond(0x42, &mut q), N64Action::Ignore));
}

fn describe(action: &N64Action) -> &'static str {
    match action {
        N64Action::Respond { .. } => "a response",
        N64Action::DelayUs(_) => "a delay",
        N64Action::Ignore => "ignored",
    }
}

#[test]
fn gpio_interrupt_masks() {
    // pin 3 rising edge sits at bit 3*4+3 of the first bank register
    assert_eq!(gpio_mask(3, Edge::EdgeHigh), 1 << 15);
    // pin 11 (SELECT of Genesis port 0) wraps into the second register
    assert_eq!(gpio_mask(11, Edge::EdgeLow), 1 << 14);
    assert_eq!(gpio_mask(8, Edge::LevelLow), 1);
}

#[test]
fn mode_dispatch_selects_each_engine() {
    assert_eq!(select_engine(VeritasMode::ReplayNes), EngineChoice::Nes);
    assert_eq!(select_engine(VeritasMode::ReplayN64), EngineChoice::N64);
    assert_eq!(select_engine(VeritasMode::ReplayGenesis), EngineChoice::Genesis);
    assert_eq!(select_engine(VeritasMode::Initial), EngineChoice::Wait);
    assert_eq!(select_engine(VeritasMode::Idle), EngineChoice::Wait);
    assert_eq!(select_engine(VeritasMode::ReplayA2600), EngineChoice::Wait);
}

#[test]
fn coincident_latch_and_clock_is_a_frame_advance() {
    // latch wins over any pending clock, so the console never clocks a
    // stale bit out of the previous frame
    assert_eq!(nes_edge_priority(true, true, true), NesEdge::Latch);
    assert_eq!(nes_edge_priority(true, false, false), NesEdge::Latch);
    assert_eq!(nes_edge_priority(false, true, true), NesEdge::Clock0);
    assert_eq!(nes_edge_priority(false, false, true), NesEdge::Clock1);
    assert_eq!(nes_edge_priority(false, false, false), NesEdge::NoneDue);
}
