//! Shell lifecycle controller: a two-state machine (plus a terminal state)
//! that drives the window's event loop. The only event it acts on is a
//! window-close request, which moves it to the terminal state and asks the
//! event loop to exit; the terminal state absorbs every further event.
use vstd::prelude::*;

verus! {

#[derive(Clone, Copy, PartialEq, Eq, Structural, Debug)]
pub enum ShellState {
    /// The window and browser view are still being constructed.
    Starting,
    /// The window is up; the event loop waits for platform events.
    Running,
    /// A close request was seen; the process is to exit.
    Terminated,
}

#[derive(Clone, Copy, PartialEq, Eq, Structural, Debug)]
pub enum ShellEvent {
    /// Window and browser view construction completed.
    WindowCreated,
    /// The user asked the window to close.
    CloseRequested,
    /// Any other platform event; left to default handling.
    Other,
}

#[derive(Clone, Copy, PartialEq, Eq, Structural, Debug)]
pub enum ControlAction {
    /// Keep pumping events, blocking until the next one arrives.
    Wait,
    /// Leave the event loop; the process terminates.
    Exit,
}

pub open spec fn step_spec(s: ShellState, e: ShellEvent) -> (ShellState, ControlAction) {
    match s {
        ShellState::Starting => match e {
            ShellEvent::WindowCreated => (ShellState::Running, ControlAction::Wait),
            _ => (ShellState::Starting, ControlAction::Wait),
        },
        ShellState::Running => match e {
            ShellEvent::CloseRequested => (ShellState::Terminated, ControlAction::Exit),
            _ => (ShellState::Running, ControlAction::Wait),
        },
        ShellState::Terminated => (ShellState::Terminated, ControlAction::Exit),
    }
}

/// One transition of the controller.
pub fn step(s: ShellState, e: ShellEvent) -> (r: (ShellState, ControlAction))
    ensures
        r == step_spec(s, e),
{
    match s {
        ShellState::Starting => match e {
            ShellEvent::WindowCreated => (ShellState::Running, ControlAction::Wait),
            _ => (ShellState::Starting, ControlAction::Wait),
        },
        ShellState::Running => match e {
            ShellEvent::CloseRequested => (ShellState::Terminated, ControlAction::Exit),
            _ => (ShellState::Running, ControlAction::Wait),
        },
        ShellState::Terminated => (ShellState::Terminated, ControlAction::Exit),
    }
}

/// The state after feeding a whole sequence of events, in order.
pub open spec fn run_spec(s: ShellState, evs: Seq<ShellEvent>) -> ShellState
    decreases evs.len(),
{
    if evs.len() == 0 {
        s
    } else {
        run_spec(step_spec(s, evs[0]).0, evs.skip(1))
    }
}

/// Feeds a sequence of events through the controller.
pub fn run_events(s: ShellState, evs: &Vec<ShellEvent>) -> (r: ShellState)
    ensures
        r == run_spec(s, evs@),
{
    let mut state = s;
    let n = evs.len();
    let mut i: usize = 0;
    proof {
        assert(evs@.skip(0) =~= evs@);
    }
    while i < n
        invariant
            i <= n,
            n == evs@.len(),
            run_spec(s, evs@) == run_spec(state, evs@.skip(i as int)),
        decreases n - i,
    {
        proof {
            assert(evs@.skip(i as int)[0] == evs@[i as int]);
            assert(evs@.skip(i as int).skip(1) =~= evs@.skip(i as int + 1));
        }
        let (next, _action) = step(state, evs[i]);
        state = next;
        i = i + 1;
    }
    proof {
        assert(evs@.skip(n as int) =~= Seq::<ShellEvent>::empty());
    }
    state
}

/// A close request while running is terminal: the controller moves to
/// `Terminated` and asks the loop to exit, and no later event changes the
/// state or the exit decision again.
pub proof fn lemma_close_is_terminal(evs: Seq<ShellEvent>)
    ensures
        step_spec(ShellState::Running, ShellEvent::CloseRequested) == (
            ShellState::Terminated,
            ControlAction::Exit,
        ),
        run_spec(ShellState::Terminated, evs) == ShellState::Terminated,
        forall|e: ShellEvent| #[trigger] step_spec(ShellState::Terminated, e) == (
            ShellState::Terminated,
            ControlAction::Exit,
        ),
    decreases evs.len(),
{
    if evs.len() > 0 {
        lemma_close_is_terminal(evs.skip(1));
    }
}

} // verus!
