use veritas::host::genesis_manual_frame;
use veritas::host::halve_transition_indices;
use veritas::host::interleave_genesis;
use veritas::host::nes_manual_frame;
use veritas::host::ManualKey;
use veritas::host::PrefillAction;
use veritas::host::PrefillState;
use veritas::protocol::TransitionData;

#[test]
fn backpressure_prefill_schedule() {
    // The first send probes with one frame; once the device reports its
    // free space the driver sends 16-byte chunks until the queue fills,
    // then starts replay.
    let total = 4096usize;
    let mut st = PrefillState::new(2);
    let (a, b) = st.next_chunk(total);
    assert_eq!((a, b), (0, 2));
    assert_eq!(st.apply_reply(2, 2046), PrefillAction::Continue);
    let (a, b) = st.next_chunk(total);
    assert_eq!((a, b), (2, 18));
    assert_eq!(st.apply_reply(16, 2030), PrefillAction::Continue);
    let (a, b) = st.next_chunk(total);
    assert_eq!(a, 18);
    assert_eq!(b - a, 16);
    // the reply that reports a full queue starts the replay, once
    assert_eq!(st.apply_reply(16, 0), PrefillAction::StartReplay);
    assert!(st.has_started);
    // from then on a well-stocked device throttles the stream
    assert_eq!(st.apply_reply(2, 100), PrefillAction::Throttle);
    assert_eq!(st.apply_reply(2, 500), PrefillAction::Continue);
    assert_eq!(st.apply_reply(2, 0), PrefillAction::Throttle);
}

#[test]
fn chunk_never_exceeds_what_remains() {
    let mut st = PrefillState::new(2);
    st.apply_reply(0, 2048);
    // 6 bytes left: the probe limit shrinks to what remains
    let (a, b) = st.next_chunk(6);
    assert_eq!((a, b), (0, 6));
}

#[test]
fn genesis_interleaving_pads_port_two() {
    // Port bytes are interleaved into 4-byte frames with the extended
    // layer reserved; port 1 is padded with the neutral mask.
    let out = interleave_genesis(&vec![0x7F, 0xBF], &vec![0xDF]);
    assert_eq!(
        out,
        vec![0x7F, 0xFF, 0xDF, 0xFF, 0xBF, 0xFF, 0xFF, 0xFF]
    );
}

#[test]
fn transition_indices_are_halved() {
    // The movie container double-counts 2-byte NES frames.
    let ts = vec![
        TransitionData { index: 10, index_kind: 1, transition_kind: 1 },
        TransitionData { index: 7, index_kind: 1, transition_kind: 2 },
    ];
    let halved = halve_transition_indices(&ts);
    assert_eq!(halved[0].index, 5);
    assert_eq!(halved[1].index, 3);
    assert_eq!(halved[1].transition_kind, 2);
}

#[test]
fn manual_key_tables_match_the_pads() {
    assert_eq!(nes_manual_frame(ManualKey::Letter('z')), Some((0x7F, 0xFF)));
    assert_eq!(nes_manual_frame(ManualKey::Letter('x')), Some((0xBF, 0xFF)));
    assert_eq!(nes_manual_frame(ManualKey::Enter), Some((0xEF, 0xFF)));
    assert_eq!(nes_manual_frame(ManualKey::ArrowLeft), Some((0xFD, 0xFF)));
    assert_eq!(nes_manual_frame(ManualKey::Letter('q')), None);
    assert_eq!(
        genesis_manual_frame(ManualKey::Letter('c')),
        Some((0xFE, 0xFF, 0xFF, 0xFF))
    );
    assert_eq!(
        genesis_manual_frame(ManualKey::Enter),
        Some((0xBF, 0xFF, 0xFF, 0xFF))
    );
    assert_eq!(genesis_manual_frame(ManualKey::Letter('q')), None);
}
