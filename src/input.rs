use vstd::prelude::*;

verus! {

/// The key of a key event.
#[derive(Debug, Clone, Copy, PartialEq, Eq, Structural)]
pub enum KeyCode {
    /// A key that types a character.
    Char(char),
    /// Any other key.
    Other,
}

/// Whether a key went down, repeated, or came up.
#[derive(Debug, Clone, Copy, PartialEq, Eq, Structural)]
pub enum KeyKind {
    Press,
    Repeat,
    Release,
}

/// The set of modifier keys held during a key event, one bit per key;
/// `NO_MODIFIERS` when none is held.
pub const NO_MODIFIERS: u8 = 0;

/// An event from the terminal.
#[derive(Debug, Clone, Copy, PartialEq, Eq, Structural)]
pub enum InputEvent {
    Key { code: KeyCode, modifiers: u8, kind: KeyKind },
    Resize { width: u16, height: u16 },
    Other,
}

/// Whether the editor is still running.
#[derive(Debug, Clone, Copy, PartialEq, Eq, Structural)]
pub enum SessionState {
    Running,
    Terminated,
}

/// The event that ends a session: `q` pressed with no modifier.
pub open spec fn is_quit(e: InputEvent) -> bool {
    e == InputEvent::Key { code: KeyCode::Char('q'), modifiers: NO_MODIFIERS, kind: KeyKind::Press }
}

/// The state after event `e` in state `s`.
pub open spec fn next_state(s: SessionState, e: InputEvent) -> SessionState {
    match s {
        SessionState::Terminated => SessionState::Terminated,
        SessionState::Running => if is_quit(e) {
            SessionState::Terminated
        } else {
            SessionState::Running
        },
    }
}

/// The state after the events `es`, one after the other, from state `s`.
pub open spec fn state_after(s: SessionState, es: Seq<InputEvent>) -> SessionState
    decreases es.len(),
{
    if es.len() == 0 {
        s
    } else {
        next_state(state_after(s, es.drop_last()), es.last())
    }
}

/// Whether `e` is the quit event.
pub fn is_quit_event(e: &InputEvent) -> (r: bool)
    ensures
        r == is_quit(*e),
{
    match e {
        InputEvent::Key { code: KeyCode::Char(c), modifiers, kind: KeyKind::Press } => *c == 'q' && *modifiers
            == NO_MODIFIERS,
        _ => false,
    }
}

/// Advances the session by one event: the quit event ends a running session;
/// every other event leaves the state as it is, and a terminated session stays
/// terminated.
pub fn dispatch(state: SessionState, e: &InputEvent) -> (r: SessionState)
    ensures
        r == next_state(state, *e),
{
    match state {
        SessionState::Terminated => SessionState::Terminated,
        SessionState::Running => if is_quit_event(e) {
            SessionState::Terminated
        } else {
            SessionState::Running
        },
    }
}

/// Runs a session from `Running` over `events` and stops at the first quit
/// event: returns the final state and how many events were taken, the quit
/// event included. No event after the quit event is taken.
pub fn run(events: &Vec<InputEvent>) -> (r: (SessionState, usize))
    ensures
        r.1 <= events@.len(),
        r.0 == state_after(SessionState::Running, events@.take(r.1 as int)),
        forall|j: int| 0 <= j < r.1 - 1 ==> !is_quit(#[trigger] events@[j]),
        r.0 == SessionState::Terminated ==> r.1 > 0 && is_quit(events@[r.1 - 1]),
        r.0 == SessionState::Running ==> r.1 == events@.len(),
        (r.0 == SessionState::Terminated) <==> exists|j: int| 0 <= j < events@.len() && is_quit(#[trigger] events@[j]),
{
    let mut state = SessionState::Running;
    let mut taken: usize = 0;
    assert(events@.take(0) == Seq::<InputEvent>::empty());
    while taken < events.len() && state == SessionState::Running
        invariant
            taken <= events@.len(),
            state == state_after(SessionState::Running, events@.take(taken as int)),
            forall|j: int| 0 <= j < taken - 1 ==> !is_quit(#[trigger] events@[j]),
            state == SessionState::Running ==> forall|j: int| 0 <= j < taken ==> !is_quit(#[trigger] events@[j]),
            state == SessionState::Terminated ==> taken > 0 && is_quit(events@[taken - 1]),
        decreases events@.len() - taken,
    {
        assert(events@.take(taken + 1).drop_last() == events@.take(taken as int));
        state = dispatch(state, &events[taken]);
        taken = taken + 1;
    }
    (state, taken)
}

/// A running session ends on the quit event and on no other, and once ended it
/// stays ended whatever events follow.
pub proof fn lemma_quit_once(es: Seq<InputEvent>)
    ensures
        state_after(SessionState::Terminated, es) == SessionState::Terminated,
        (state_after(SessionState::Running, es) == SessionState::Terminated) <==> exists|j: int|
            0 <= j < es.len() && is_quit(#[trigger] es[j]),
    decreases es.len(),
{
    if es.len() > 0 {
        lemma_quit_once(es.drop_last());
        let p = es.drop_last();
        if exists|j: int| 0 <= j < p.len() && is_quit(#[trigger] p[j]) {
            let j = choose|j: int| 0 <= j < p.len() && is_quit(#[trigger] p[j]);
            assert(es[j] == p[j]);
        }
        if exists|j: int| 0 <= j < es.len() && is_quit(#[trigger] es[j]) {
            let j = choose|j: int| 0 <= j < es.len() && is_quit(#[trigger] es[j]);
            if j < p.len() {
                assert(p[j] == es[j]);
            }
        }
    }
}

} // verus!
