use vstd::prelude::*;

verus! {

/// The key that ends the dashboard.
pub const QUIT_KEY: char = 'q';

/// How long the loop waits for input before a tick, in milliseconds.
pub const TICK_MILLIS: u64 = 1000;

/// Samples kept by each time series unless configured otherwise.
pub const DEFAULT_CAPACITY: usize = 60;

/// Where the refresh loop stands.
#[derive(Clone, Copy, Debug, PartialEq, Eq, Structural)]
pub enum LoopState {
    /// Blocked on an input poll of at most one period.
    Waiting,
    /// Sampling every tracker, then rendering.
    Sampling,
    /// Done: the terminal is restored and the process exits.
    Terminated,
}

/// What the loop observed.
#[derive(Clone, Copy, Debug, PartialEq, Eq, Structural)]
pub enum LoopEvent {
    /// The poll's period elapsed without input.
    Timeout,
    /// The quit key was pressed.
    Quit,
    /// Some other input arrived; it is ignored.
    OtherInput,
    /// A tick's sampling and rendering finished.
    TickDone,
}

/// What the loop is to do next.
#[derive(Clone, Copy, Debug, PartialEq, Eq, Structural)]
pub enum LoopAction {
    /// Wait up to one period for input.
    Poll,
    /// Sample CPU, then memory, then disks, then render once.
    Tick,
    /// Restore the terminal and exit.
    Stop,
    /// Nothing new: carry on with what is under way.
    Carry,
}

/// The loop's transitions. Only a poll that times out starts a tick; the
/// quit key is heeded only while waiting, never in the middle of a tick.
pub open spec fn transition(state: LoopState, event: LoopEvent) -> (LoopState, LoopAction) {
    match (state, event) {
        (LoopState::Waiting, LoopEvent::Timeout) => (LoopState::Sampling, LoopAction::Tick),
        (LoopState::Waiting, LoopEvent::Quit) => (LoopState::Terminated, LoopAction::Stop),
        (LoopState::Waiting, _) => (LoopState::Waiting, LoopAction::Poll),
        (LoopState::Sampling, LoopEvent::TickDone) => (LoopState::Waiting, LoopAction::Poll),
        (LoopState::Sampling, _) => (LoopState::Sampling, LoopAction::Carry),
        (LoopState::Terminated, _) => (LoopState::Terminated, LoopAction::Carry),
    }
}

/// The next state of the loop and its next action, for `event` observed in
/// `state`.
pub fn step(state: LoopState, event: LoopEvent) -> (r: (LoopState, LoopAction))
    ensures
        r == transition(state, event),
        r.1 == LoopAction::Tick <==> (state == LoopState::Waiting && event == LoopEvent::Timeout),
        state == LoopState::Waiting && event == LoopEvent::Quit ==> r == (
        LoopState::Terminated,
        LoopAction::Stop,
        ),
        state == LoopState::Terminated ==> r.0 == LoopState::Terminated,
{
    match state {
        LoopState::Waiting => match event {
            LoopEvent::Timeout => (LoopState::Sampling, LoopAction::Tick),
            LoopEvent::Quit => (LoopState::Terminated, LoopAction::Stop),
            _ => (LoopState::Waiting, LoopAction::Poll),
        },
        LoopState::Sampling => match event {
            LoopEvent::TickDone => (LoopState::Waiting, LoopAction::Poll),
            _ => (LoopState::Sampling, LoopAction::Carry),
        },
        LoopState::Terminated => (LoopState::Terminated, LoopAction::Carry),
    }
}

/// The event that a key press stands for.
pub fn key_event(key: char) -> (r: LoopEvent)
    ensures
        key == QUIT_KEY ==> r == LoopEvent::Quit,
        key != QUIT_KEY ==> r == LoopEvent::OtherInput,
{
    if key == QUIT_KEY {
        LoopEvent::Quit
    } else {
        LoopEvent::OtherInput
    }
}

/// The state after the loop observed `events` in order, from `state`.
pub open spec fn run(state: LoopState, events: Seq<LoopEvent>) -> LoopState
    decreases events.len(),
{
    if events.len() == 0 {
        state
    } else {
        transition(run(state, events.drop_last()), events.last()).0
    }
}

/// A quit observed while waiting ends the loop for good: whatever is
/// observed after it, the loop stays terminated and never starts a tick.
pub proof fn lemma_quit_is_final(events: Seq<LoopEvent>)
    ensures
        run(LoopState::Waiting, seq![LoopEvent::Quit] + events) == LoopState::Terminated,
        forall|i: int|
            0 <= i < events.len() ==> transition(
                #[trigger] run(LoopState::Terminated, events.subrange(0, i)),
                events[i],
            ).1 != LoopAction::Tick,
    decreases events.len(),
{
    let all = seq![LoopEvent::Quit] + events;
    if events.len() > 0 {
        let front = events.drop_last();
        lemma_quit_is_final(front);
        assert(all.drop_last() =~= seq![LoopEvent::Quit] + front);
        assert(all.last() == events.last());
        assert(run(LoopState::Waiting, all.drop_last()) == LoopState::Terminated);
    } else {
        assert(all.drop_last() =~= Seq::<LoopEvent>::empty());
        assert(all.last() == LoopEvent::Quit);
        assert(run(LoopState::Waiting, all.drop_last()) == LoopState::Waiting);
    }
    assert(all.len() > 0);
    assert(run(LoopState::Waiting, all) == transition(
        run(LoopState::Waiting, all.drop_last()),
        all.last(),
    ).0);
    assert forall|i: int| 0 <= i < events.len() implies transition(
        #[trigger] run(LoopState::Terminated, events.subrange(0, i)),
        events[i],
    ).1 != LoopAction::Tick by {
        lemma_terminated_stays(events.subrange(0, i));
    }
}

proof fn lemma_terminated_stays(events: Seq<LoopEvent>)
    ensures
        run(LoopState::Terminated, events) == LoopState::Terminated,
    decreases events.len(),
{
    if events.len() > 0 {
        lemma_terminated_stays(events.drop_last());
    }
}

} // verus!
