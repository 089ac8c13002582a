use sysmon::{key_event, step, LoopAction, LoopEvent, LoopState, QUIT_KEY};

#[test]
fn quit_while_waiting_terminates_without_sampling() {
    let (state, action) = step(LoopState::Waiting, LoopEvent::Quit);
    assert_eq!(state, LoopState::Terminated);
    assert_eq!(action, LoopAction::Stop);
    for e in [LoopEvent::Timeout, LoopEvent::OtherInput, LoopEvent::TickDone, LoopEvent::Quit] {
        let (next, act) = step(state, e);
        assert_eq!(next, LoopState::Terminated);
        assert_ne!(act, LoopAction::Tick);
    }
}

#[test]
fn timeout_starts_a_tick_and_tick_returns_to_waiting() {
    assert_eq!(step(LoopState::Waiting, LoopEvent::Timeout), (LoopState::Sampling, LoopAction::Tick));
    assert_eq!(step(LoopState::Sampling, LoopEvent::TickDone), (LoopState::Waiting, LoopAction::Poll));
}

#[test]
fn other_input_is_ignored() {
    assert_eq!(step(LoopState::Waiting, LoopEvent::OtherInput), (LoopState::Waiting, LoopAction::Poll));
    assert_eq!(step(LoopState::Sampling, LoopEvent::Quit), (LoopState::Sampling, LoopAction::Carry));
}

#[test]
fn keys_map_to_events() {
    assert_eq!(key_event(QUIT_KEY), LoopEvent::Quit);
    assert_eq!(key_event('q'), LoopEvent::Quit);
    assert_eq!(key_event('x'), LoopEvent::OtherInput);
}
