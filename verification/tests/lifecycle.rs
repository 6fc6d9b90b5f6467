use shell_core::lifecycle::{run_events, step, ControlAction, ShellEvent, ShellState};

#[test]
fn window_creation_starts_running() {
    assert_eq!(
        step(ShellState::Starting, ShellEvent::WindowCreated),
        (ShellState::Running, ControlAction::Wait)
    );
}

#[test]
fn other_events_keep_running() {
    assert_eq!(
        step(ShellState::Running, ShellEvent::Other),
        (ShellState::Running, ControlAction::Wait)
    );
}

#[test]
fn close_request_terminates_and_exits() {
    assert_eq!(
        step(ShellState::Running, ShellEvent::CloseRequested),
        (ShellState::Terminated, ControlAction::Exit)
    );
}

#[test]
fn terminal_state_absorbs_every_event() {
    assert_eq!(
        step(ShellState::Terminated, ShellEvent::Other),
        (ShellState::Terminated, ControlAction::Exit)
    );
    assert_eq!(
        step(ShellState::Terminated, ShellEvent::WindowCreated),
        (ShellState::Terminated, ControlAction::Exit)
    );
    assert_eq!(
        step(ShellState::Terminated, ShellEvent::CloseRequested),
        (ShellState::Terminated, ControlAction::Exit)
    );
}

#[test]
fn no_event_after_close_changes_the_outcome() {
    let events = vec![
        ShellEvent::WindowCreated,
        ShellEvent::Other,
        ShellEvent::CloseRequested,
        ShellEvent::Other,
        ShellEvent::WindowCreated,
        ShellEvent::CloseRequested,
    ];
    assert_eq!(run_events(ShellState::Starting, &events), ShellState::Terminated);
}

#[test]
fn full_session_without_close_keeps_running() {
    let events = vec![ShellEvent::WindowCreated, ShellEvent::Other, ShellEvent::Other];
    assert_eq!(run_events(ShellState::Starting, &events), ShellState::Running);
}
