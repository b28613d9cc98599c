use stream_owl::cli::{force_cli_arguments, CliArgs, UiArg};
use stream_owl::stream::task::{step, ClientKind, Outcome, StreamDone, TaskAction, TaskEvent, TaskState};
use stream_owl::stream::{Id, PauseSwitch};
use stream_owl::stream::task::{gate_step, Gate, GateEvent, GateStep};

#[test]
fn task_follows_range_stream() {
    let (state, action) = step(TaskState::Connecting, TaskEvent::Seek(Some(50)), 0);
    assert_eq!((state, action), (TaskState::Connecting, TaskAction::SetPos(50)));
    let (state, action) = step(state, TaskEvent::Connected(ClientKind::RangesSupported), 50);
    assert_eq!((state, action), (TaskState::StreamingRange, TaskAction::Continue));
    let (state, action) = step(state, TaskEvent::ChunkStreamed(ClientKind::RangesSupported), 1050);
    assert_eq!((state, action), (TaskState::StreamingRange, TaskAction::Continue));
    let (state, action) = step(state, TaskEvent::Seek(Some(10)), 2050);
    assert_eq!((state, action), (TaskState::Reconnecting, TaskAction::SetPos(10)));
    let (state, action) = step(state, TaskEvent::Connected(ClientKind::RangesSupported), 10);
    assert_eq!(state, TaskState::StreamingRange);
    assert_eq!(action, TaskAction::Continue);
    let (state, action) = step(state, TaskEvent::StreamComplete, 5000);
    assert_eq!(state, TaskState::Finished);
    assert_eq!(action, TaskAction::Finish(Outcome::Done(StreamDone::DownloadedAll)));
    assert_eq!(step(state, TaskEvent::Seek(Some(3)), 0), (TaskState::Finished, TaskAction::Continue));
}

#[test]
fn task_without_ranges_restarts_on_seek_back() {
    let (state, _) = step(TaskState::Connecting, TaskEvent::Connected(ClientKind::RangesRefused), 0);
    assert_eq!(state, TaskState::StreamingAll);
    assert_eq!(step(state, TaskEvent::Seek(Some(900)), 500), (TaskState::StreamingAll, TaskAction::Continue));
    let (state, action) = step(state, TaskEvent::Seek(Some(100)), 500);
    assert_eq!((state, action), (TaskState::Restarting { pos: 100 }, TaskAction::Continue));
    let (state, action) = step(state, TaskEvent::Connected(ClientKind::RangesRefused), 500);
    assert_eq!((state, action), (TaskState::StreamingAll, TaskAction::SetPos(100)));
    let (state, action) = step(state, TaskEvent::WriteFinished, 8000);
    assert_eq!((state, action), (TaskState::AtEnd, TaskAction::MarkStreamEnd));
    let (state, _) = step(state, TaskEvent::Seek(Some(9000)), 8000);
    assert_eq!(state, TaskState::Restarting { pos: 9000 });
}

#[test]
fn task_ends_on_cancel_and_failure() {
    for state in [
        TaskState::Connecting,
        TaskState::StreamingRange,
        TaskState::Reconnecting,
        TaskState::StreamingAll,
        TaskState::AtEnd,
    ] {
        assert_eq!(
            step(state, TaskEvent::Seek(None), 0),
            (TaskState::Finished, TaskAction::Finish(Outcome::Done(StreamDone::Canceld)))
        );
    }
    let failed = (TaskState::Finished, TaskAction::Finish(Outcome::Failed));
    assert_eq!(step(TaskState::Connecting, TaskEvent::ConnectFailed, 0), failed);
    assert_eq!(step(TaskState::Restarting { pos: 4 }, TaskEvent::ConnectFailed, 0), failed);
    assert_eq!(step(TaskState::StreamingRange, TaskEvent::ChunkFailed, 0), failed);
    assert_eq!(step(TaskState::StreamingAll, TaskEvent::WriteFailed, 0), failed);
    assert_eq!(
        step(TaskState::StreamingRange, TaskEvent::ChunkStreamed(ClientKind::RangesRefused), 0),
        (TaskState::StreamingAll, TaskAction::Continue)
    );
}

#[test]
fn ids_count_up() {
    let mut next = 0usize;
    let a = Id::new(&mut next);
    let b = Id::new(&mut next);
    assert_ne!(a, b);
    assert_eq!(next, 2);
    let mut last = usize::MAX;
    let c = Id::new(&mut last);
    assert_eq!(last, 0);
    assert_eq!(c, Id::new(&mut usize::MAX.clone()));
}

#[test]
fn pause_sends_only_on_change() {
    let mut switch = PauseSwitch::new(false);
    assert_eq!(switch.pause(), Some(true));
    assert_eq!(switch.pause(), None);
    assert!(switch.is_paused());
    assert_eq!(switch.unpause(), Some(false));
    assert_eq!(switch.unpause(), None);
    assert!(!switch.is_paused());
}

#[test]
fn cli_forces_remote_and_server() {
    let (remote, server) = force_cli_arguments(CliArgs {
        ui: UiArg::Tui,
        connect_to: Some(42),
        password: Some("secret".to_string()),
        server: false,
        server_password: None,
        server_port: None,
    });
    let remote = remote.unwrap();
    assert_eq!(remote.id, 42);
    assert_eq!(remote.password.as_deref(), Some("secret"));
    assert!(server.is_none());

    let (remote, server) = force_cli_arguments(CliArgs {
        ui: UiArg::NoUi,
        connect_to: None,
        password: None,
        server: false,
        server_password: None,
        server_port: Some(8080),
    });
    assert!(remote.is_none());
    let server = server.unwrap();
    assert_eq!(server.port, Some(8080));
    assert_eq!(server.password, None);

    let (_, server) = force_cli_arguments(CliArgs {
        ui: UiArg::Gui,
        connect_to: None,
        password: None,
        server: true,
        server_password: None,
        server_port: None,
    });
    let server = server.unwrap();
    assert_eq!(server.port, None);
}

#[test]
fn gate_pauses_task() {
    assert_eq!(gate_step(Gate::Running, GateEvent::Pause(Some(true))), GateStep::Continue(Gate::Paused));
    assert_eq!(gate_step(Gate::Paused, GateEvent::Pause(Some(true))), GateStep::Continue(Gate::Paused));
    assert_eq!(gate_step(Gate::Paused, GateEvent::Pause(Some(false))), GateStep::Continue(Gate::Running));
    assert_eq!(gate_step(Gate::Running, GateEvent::TaskEnded), GateStep::TaskResult);
    assert_eq!(gate_step(Gate::Paused, GateEvent::Pause(None)), GateStep::Cancel);
    assert_eq!(gate_step(Gate::Running, GateEvent::Pause(None)), GateStep::Cancel);
}
