use veritas::replay::ReplayState;
use veritas::replay::Transition;
use veritas::replay::UNSET_LENGTH;

#[test]
fn reset_clears_cursor_and_transitions() {
    // After reset: cursor at zero, no transitions, transition cursor at
    // zero.
    let mut st = ReplayState::new();
    st.index_len = 10;
    st.index_cur = 7;
    st.insert_transition(3, Transition::SoftReset);
    st.reset();
    assert_eq!(st.index_cur, 0);
    assert_eq!(st.index_len, UNSET_LENGTH);
    assert_eq!(st.transitions.len(), 0);
    assert_eq!(st.traptr, 0);
}

#[test]
fn insert_keeps_transitions_sorted() {
    let mut st = ReplayState::new();
    assert!(st.insert_transition(9, Transition::SoftReset).is_some());
    assert!(st.insert_transition(3, Transition::SoftReset).is_some());
    assert!(st.insert_transition(6, Transition::PowerReset).is_some());
    // a duplicate index is refused and changes nothing
    assert!(st.insert_transition(6, Transition::SoftReset).is_none());
    let indices: Vec<u32> = st.transitions.iter().map(|p| p.0).collect();
    assert_eq!(indices, vec![3, 6, 9]);
    assert_eq!(st.transitions[1].1, Transition::PowerReset);
}

#[test]
fn next_transition_fires_only_at_its_index() {
    let mut st = ReplayState::new();
    st.insert_transition(1, Transition::SoftReset);
    assert_eq!(st.next_transition(), None);
    st.index_cur = 1;
    assert_eq!(st.next_transition(), Some(Transition::SoftReset));
    // handed out at most once
    assert_eq!(st.next_transition(), None);
}

#[test]
fn advance_emits_each_transition_once_in_order() {
    // Every transition is emitted exactly once, ascending, at the
    // boundary whose cursor equals its index.
    let mut st = ReplayState::new();
    st.index_len = 8;
    st.insert_transition(5, Transition::SoftReset);
    st.insert_transition(2, Transition::PowerReset);
    let mut emitted = Vec::new();
    while st.index_cur < st.index_len {
        let cur_before = st.index_cur;
        if let Some(t) = st.advance() {
            emitted.push((cur_before, t));
        }
    }
    assert_eq!(
        emitted,
        vec![(2, Transition::PowerReset), (5, Transition::SoftReset)]
    );
}
