//! The decisions of the task that streams from the server into the store.
//!
//! The task races the work of its current state against the next seek:
//! - `Connecting`, `Reconnecting`: connecting with a range request at the
//!   target position;
//! - `StreamingRange`: writing one chunk of a range response, then asking
//!   for the next range;
//! - `StreamingAll`: writing a response without range support to its end,
//!   while only seeks back before the write position interrupt it;
//! - `AtEnd`: waiting for a seek after such a response ended;
//! - `Restarting`: connecting anew (without racing seeks) after such a
//!   seek, then moving to the seek's position.
//!
//! [`step`] takes what finished first and says where to go and what to do.
use vstd::prelude::*;

verus! {

/// How the stream task ended well.
#[derive(Debug, Clone, Copy, PartialEq, Eq, Structural)]
pub enum StreamDone {
    DownloadedAll,
    Canceld,
}

/// What the server answered a connection attempt with.
#[derive(Debug, Clone, Copy, PartialEq, Eq, Structural)]
pub enum ClientKind {
    /// a range response: the server lets us seek
    RangesSupported,
    /// the whole stream: the server refused the range
    RangesRefused,
}

#[derive(Debug, Clone, Copy, PartialEq, Eq, Structural)]
pub enum TaskState {
    Connecting,
    StreamingRange,
    Reconnecting,
    StreamingAll,
    AtEnd,
    Restarting { pos: u64 },
    Finished,
}

/// What finished first in the current state.
#[derive(Debug, Clone, Copy, PartialEq, Eq, Structural)]
pub enum TaskEvent {
    /// A seek arrived; `None` when the seek channel closed, which happens
    /// when the stream is dropped.
    Seek(Option<u64>),
    /// A connection attempt got a response of this kind.
    Connected(ClientKind),
    /// A connection attempt failed.
    ConnectFailed,
    /// A chunk of a range response was written and the next range was
    /// requested; the server answered with this kind.
    ChunkStreamed(ClientKind),
    /// A chunk of a range response was written and nothing is left to get.
    StreamComplete,
    /// Writing a chunk or requesting the next range failed.
    ChunkFailed,
    /// A response without range support was written to its end.
    WriteFinished,
    /// Writing a response without range support failed.
    WriteFailed,
}

/// How the task ends.
#[derive(Debug, Clone, Copy, PartialEq, Eq, Structural)]
pub enum Outcome {
    Done(StreamDone),
    /// with the error of the event that ended it
    Failed,
}

#[derive(Debug, Clone, Copy, PartialEq, Eq, Structural)]
pub enum TaskAction {
    /// nothing to do but go on in the new state
    Continue,
    /// move the write target to this position
    SetPos(u64),
    /// the stream ends at the write target's position
    MarkStreamEnd,
    /// stop the task
    Finish(Outcome),
}

/// A seek during a download without range support only matters when it
/// goes back before the write position: everything after it is going to
/// come in anyway.
pub open spec fn actionable_seek(pos: u64, write_pos: u64) -> bool {
    pos < write_pos
}

/// The state a connection of kind `kind` streams in.
pub open spec fn streaming_state(kind: ClientKind) -> TaskState {
    match kind {
        ClientKind::RangesSupported => TaskState::StreamingRange,
        ClientKind::RangesRefused => TaskState::StreamingAll,
    }
}

/// The task is connecting: at the start, again after a seek while
/// streaming ranges, or anew after a seek during a download without range
/// support.
pub open spec fn is_connecting(state: TaskState) -> bool {
    state is Connecting || state is Reconnecting || state is Restarting
}

/// Where a seek to `pos` takes the task, with the write target at
/// `write_pos`: connecting goes on at the new position, streaming ranges
/// reconnects there, a download without range support restarts only for a
/// seek back before what it wrote (or once it ended); a restart under way
/// and an ended task are not interrupted.
pub open spec fn after_seek(state: TaskState, pos: u64, write_pos: u64) -> (TaskState, TaskAction) {
    match state {
        TaskState::Connecting | TaskState::Reconnecting => (state, TaskAction::SetPos(pos)),
        TaskState::StreamingRange => (TaskState::Reconnecting, TaskAction::SetPos(pos)),
        TaskState::StreamingAll => if actionable_seek(pos, write_pos) {
            (TaskState::Restarting { pos }, TaskAction::Continue)
        } else {
            (state, TaskAction::Continue)
        },
        TaskState::AtEnd => (TaskState::Restarting { pos }, TaskAction::Continue),
        TaskState::Restarting { .. } | TaskState::Finished => (state, TaskAction::Continue),
    }
}

/// The task's transitions, event by event; `write_pos` is the write
/// target's position. An event that cannot occur in a state changes nothing.
pub open spec fn step_spec(state: TaskState, event: TaskEvent, write_pos: u64) -> (
    TaskState,
    TaskAction,
) {
    let ignore = (state, TaskAction::Continue);
    let fail = (TaskState::Finished, TaskAction::Finish(Outcome::Failed));
    match event {
        // a dropped stream ends the task, but for a restart under way
        TaskEvent::Seek(None) => if state is Restarting || state == TaskState::Finished {
            ignore
        } else {
            (TaskState::Finished, TaskAction::Finish(Outcome::Done(StreamDone::Canceld)))
        },
        TaskEvent::Seek(Some(pos)) => after_seek(state, pos, write_pos),
        // a connection streams as its kind allows; a restart moves the
        // target to the position sought
        TaskEvent::Connected(kind) => match state {
            TaskState::Connecting | TaskState::Reconnecting => (streaming_state(kind), TaskAction::Continue),
            TaskState::Restarting { pos } => (streaming_state(kind), TaskAction::SetPos(pos)),
            _ => ignore,
        },
        TaskEvent::ConnectFailed => if is_connecting(state) { fail } else { ignore },
        TaskEvent::ChunkStreamed(kind) => if state == TaskState::StreamingRange {
            (streaming_state(kind), TaskAction::Continue)
        } else {
            ignore
        },
        TaskEvent::StreamComplete => if state == TaskState::StreamingRange {
            (TaskState::Finished, TaskAction::Finish(Outcome::Done(StreamDone::DownloadedAll)))
        } else {
            ignore
        },
        TaskEvent::ChunkFailed => if state == TaskState::StreamingRange { fail } else { ignore },
        TaskEvent::WriteFinished => if state == TaskState::StreamingAll {
            (TaskState::AtEnd, TaskAction::MarkStreamEnd)
        } else {
            ignore
        },
        TaskEvent::WriteFailed => if state == TaskState::StreamingAll { fail } else { ignore },
    }
}

/// While a connection is being made, a seek moves the write target to the
/// position sought and the connection attempt goes on: the target always
/// follows the latest seek. Two seeks in a row leave the target at the
/// second.
pub proof fn lemma_seek_while_connecting(state: TaskState, pos: u64, pos2: u64, write_pos: u64)
    requires
        state == TaskState::Connecting || state == TaskState::Reconnecting,
    ensures
        step_spec(state, TaskEvent::Seek(Some(pos)), write_pos) == (state, TaskAction::SetPos(pos)),
        ({
            let first = step_spec(state, TaskEvent::Seek(Some(pos)), write_pos);
            step_spec(first.0, TaskEvent::Seek(Some(pos2)), write_pos) == (state, TaskAction::SetPos(pos2))
        }),
{
}

/// A seek while a range is streaming moves the write target to the
/// position sought and reconnects there; a further seek before the
/// connection is made moves the target again.
pub proof fn lemma_seek_while_streaming_range(pos: u64, pos2: u64, write_pos: u64)
    ensures
        step_spec(TaskState::StreamingRange, TaskEvent::Seek(Some(pos)), write_pos) == (
            TaskState::Reconnecting,
            TaskAction::SetPos(pos),
        ),
        step_spec(TaskState::Reconnecting, TaskEvent::Seek(Some(pos2)), write_pos) == (
            TaskState::Reconnecting,
            TaskAction::SetPos(pos2),
        ),
{
}

/// During a download without range support, a seek restarts the download
/// exactly when it goes back before the write position, and so does any
/// seek once that download ended; the restart, once connected, moves the
/// write target to the position sought.
pub proof fn lemma_seek_without_ranges(pos: u64, write_pos: u64, kind: ClientKind)
    ensures
        step_spec(TaskState::StreamingAll, TaskEvent::Seek(Some(pos)), write_pos) == if pos < write_pos {
            (TaskState::Restarting { pos }, TaskAction::Continue)
        } else {
            (TaskState::StreamingAll, TaskAction::Continue)
        },
        step_spec(TaskState::AtEnd, TaskEvent::Seek(Some(pos)), write_pos) == (
            TaskState::Restarting { pos },
            TaskAction::Continue,
        ),
        step_spec(TaskState::Restarting { pos }, TaskEvent::Connected(kind), write_pos).1
            == TaskAction::SetPos(pos),
{
}

/// A connection made streams ranges when the server lets the client seek
/// and the whole stream when it does not; the write target stays where it
/// is, except after a restart, which moves it to the position sought.
pub proof fn lemma_connected(state: TaskState, kind: ClientKind, write_pos: u64)
    requires
        state is Connecting || state is Reconnecting || state is Restarting,
    ensures
        step_spec(state, TaskEvent::Connected(kind), write_pos).0 == (if kind
            == ClientKind::RangesSupported {
            TaskState::StreamingRange
        } else {
            TaskState::StreamingAll
        }),
        !(state is Restarting) ==> step_spec(state, TaskEvent::Connected(kind), write_pos).1
            == TaskAction::Continue,
{
}

/// The write target only moves on a seek or when a restart connects, and
/// then to the position sought; the stream end is only marked when a
/// download without range support wrote everything.
pub proof fn lemma_target_moves_only_on_seek(state: TaskState, event: TaskEvent, write_pos: u64, p: u64)
    ensures
        step_spec(state, event, write_pos).1 == TaskAction::SetPos(p) ==> event == TaskEvent::Seek(Some(p))
            || (state == TaskState::Restarting { pos: p } && event is Connected),
        step_spec(state, event, write_pos).1 == TaskAction::MarkStreamEnd ==> state
            == TaskState::StreamingAll && event == TaskEvent::WriteFinished,
{
}

/// A range stream that got everything ends as downloaded in full; a
/// download without range support that wrote everything waits at the end
/// for a seek, marking where the stream ends.
pub proof fn lemma_stream_ends(write_pos: u64)
    ensures
        step_spec(TaskState::StreamingRange, TaskEvent::StreamComplete, write_pos) == (
            TaskState::Finished,
            TaskAction::Finish(Outcome::Done(StreamDone::DownloadedAll)),
        ),
        step_spec(TaskState::StreamingAll, TaskEvent::WriteFinished, write_pos) == (
            TaskState::AtEnd,
            TaskAction::MarkStreamEnd,
        ),
{
}

/// After a chunk of a range response the task goes on streaming ranges
/// when the next request got a range response, and streams the whole
/// stream when the server stopped supporting ranges.
pub proof fn lemma_chunk_streamed(kind: ClientKind, write_pos: u64)
    ensures
        step_spec(TaskState::StreamingRange, TaskEvent::ChunkStreamed(kind), write_pos) == (
            if kind == ClientKind::RangesSupported {
                TaskState::StreamingRange
            } else {
                TaskState::StreamingAll
            },
            TaskAction::Continue,
        ),
{
}

/// Events of work that is not under way in a state change nothing there:
/// the results of a connection outside connecting, of a range chunk outside
/// streaming ranges, of writing the whole stream outside that download.
pub proof fn lemma_out_of_place_events(state: TaskState, event: TaskEvent, write_pos: u64)
    requires
        (event is Connected || event is ConnectFailed) && !(state is Connecting || state is Reconnecting
            || state is Restarting) || (event is ChunkStreamed || event is StreamComplete
            || event is ChunkFailed) && state != TaskState::StreamingRange || (event is WriteFinished
            || event is WriteFailed) && state != TaskState::StreamingAll,
    ensures
        step_spec(state, event, write_pos) == (state, TaskAction::Continue),
{
}

/// Where the task goes and what it does when `event` finished first in
/// `state`, with the write target at `write_pos`.
pub fn step(state: TaskState, event: TaskEvent, write_pos: u64) -> (r: (TaskState, TaskAction))
    ensures
        r == step_spec(state, event, write_pos),
        // a dropped stream always ends the task, unless it is connecting
        // anew after a seek, which it does not interrupt
        state != TaskState::Finished && !(state is Restarting) && event == TaskEvent::Seek(None)
            ==> r == (TaskState::Finished, TaskAction::Finish(Outcome::Done(StreamDone::Canceld))),
        // a failure of the work under way ends the task with it
        ((state is Connecting || state is Reconnecting || state is Restarting) && event
            == TaskEvent::ConnectFailed) || (state == TaskState::StreamingRange && event
            == TaskEvent::ChunkFailed) || (state == TaskState::StreamingAll && event
            == TaskEvent::WriteFailed) ==> r == (
            TaskState::Finished,
            TaskAction::Finish(Outcome::Failed),
        ),
        // an ended task stays ended and does nothing
        state == TaskState::Finished ==> r == (TaskState::Finished, TaskAction::Continue),
        // the task only finishes by saying how
        r.0 == TaskState::Finished && state != TaskState::Finished ==> r.1 is Finish,
        // while connecting, the write target follows every seek
        (state == TaskState::Connecting || state == TaskState::Reconnecting) && event is Seek
            && (event->Seek_0) is Some ==> r == (state, TaskAction::SetPos(event->Seek_0->0)),
        // a seek while streaming ranges reconnects at the position sought
        state == TaskState::StreamingRange && event is Seek && (event->Seek_0) is Some ==> r == (
            TaskState::Reconnecting,
            TaskAction::SetPos(event->Seek_0->0),
        ),
        // the target only moves on a seek, or to the position sought when a
        // restart connects
        r.1 is SetPos ==> event == TaskEvent::Seek(Some(r.1->SetPos_0)) || (state == TaskState::Restarting {
            pos: r.1->SetPos_0,
        } && event is Connected),
{
    proof {
        if let TaskEvent::Seek(Some(pos)) = event {
            if state == TaskState::Connecting || state == TaskState::Reconnecting {
                lemma_seek_while_connecting(state, pos, pos, write_pos);
            }
            lemma_seek_while_streaming_range(pos, pos, write_pos);
        }
        if let TaskAction::SetPos(p) = step_spec(state, event, write_pos).1 {
            lemma_target_moves_only_on_seek(state, event, write_pos, p);
        }
    }
    let cancel = (TaskState::Finished, TaskAction::Finish(Outcome::Done(StreamDone::Canceld)));
    let fail = (TaskState::Finished, TaskAction::Finish(Outcome::Failed));
    let ignore = (state, TaskAction::Continue);
    match state {
        TaskState::Connecting | TaskState::Reconnecting => match event {
            TaskEvent::Seek(None) => cancel,
            TaskEvent::Seek(Some(pos)) => (state, TaskAction::SetPos(pos)),
            TaskEvent::Connected(kind) => (streaming_state_of(kind), TaskAction::Continue),
            TaskEvent::ConnectFailed => fail,
            _ => ignore,
        },
        TaskState::StreamingRange => match event {
            TaskEvent::Seek(None) => cancel,
            TaskEvent::Seek(Some(pos)) => (TaskState::Reconnecting, TaskAction::SetPos(pos)),
            TaskEvent::ChunkStreamed(kind) => (streaming_state_of(kind), TaskAction::Continue),
            TaskEvent::StreamComplete => (
                TaskState::Finished,
                TaskAction::Finish(Outcome::Done(StreamDone::DownloadedAll)),
            ),
            TaskEvent::ChunkFailed => fail,
            _ => ignore,
        },
        TaskState::StreamingAll => match event {
            TaskEvent::Seek(None) => cancel,
            TaskEvent::Seek(Some(pos)) => if pos < write_pos {
                (TaskState::Restarting { pos }, TaskAction::Continue)
            } else {
                ignore
            },
            TaskEvent::WriteFinished => (TaskState::AtEnd, TaskAction::MarkStreamEnd),
            TaskEvent::WriteFailed => fail,
            _ => ignore,
        },
        TaskState::AtEnd => match event {
            TaskEvent::Seek(None) => cancel,
            TaskEvent::Seek(Some(pos)) => (TaskState::Restarting { pos }, TaskAction::Continue),
            _ => ignore,
        },
        TaskState::Restarting { pos } => match event {
            TaskEvent::Connected(kind) => (streaming_state_of(kind), TaskAction::SetPos(pos)),
            TaskEvent::ConnectFailed => fail,
            _ => ignore,
        },
        TaskState::Finished => ignore,
    }
}

/// The state a connection of kind `kind` streams in.
fn streaming_state_of(kind: ClientKind) -> (s: TaskState)
    ensures
        s == streaming_state(kind),
{
    match kind {
        ClientKind::RangesSupported => TaskState::StreamingRange,
        ClientKind::RangesRefused => TaskState::StreamingAll,
    }
}

/// Whether the stream task may run: a paused task is not worked on until
/// it is unpaused.
#[derive(Debug, Clone, Copy, PartialEq, Eq, Structural)]
pub enum Gate {
    Running,
    Paused,
}

/// What happened while the task was gated.
#[derive(Debug, Clone, Copy, PartialEq, Eq, Structural)]
pub enum GateEvent {
    /// A pause message: `Some(true)` pauses, `Some(false)` unpauses, `None`
    /// means the stream's handle was dropped. While paused, only these
    /// arrive.
    Pause(Option<bool>),
    /// The task ended (only while running).
    TaskEnded,
}

#[derive(Debug, Clone, Copy, PartialEq, Eq, Structural)]
pub enum GateStep {
    /// go on in this state
    Continue(Gate),
    /// end with `StreamDone::Canceld`
    Cancel,
    /// end with what the task ended with
    TaskResult,
}

/// How pausing and unpausing gate the stream task.
pub open spec fn gate_step_spec(gate: Gate, event: GateEvent) -> GateStep {
    match event {
        GateEvent::Pause(None) => GateStep::Cancel,
        GateEvent::Pause(Some(true)) => GateStep::Continue(Gate::Paused),
        GateEvent::Pause(Some(false)) => GateStep::Continue(Gate::Running),
        GateEvent::TaskEnded => match gate {
            Gate::Running => GateStep::TaskResult,
            Gate::Paused => GateStep::Continue(Gate::Paused),
        },
    }
}

/// Decides what a pause message, or the end of the task, does.
pub fn gate_step(gate: Gate, event: GateEvent) -> (r: GateStep)
    ensures
        r == gate_step_spec(gate, event),
        // a dropped handle always cancels
        event == GateEvent::Pause(None) ==> r == GateStep::Cancel,
        // the task's own end only counts while it runs
        r == GateStep::TaskResult ==> gate == Gate::Running,
{
    match event {
        GateEvent::Pause(None) => GateStep::Cancel,
        GateEvent::Pause(Some(true)) => GateStep::Continue(Gate::Paused),
        GateEvent::Pause(Some(false)) => GateStep::Continue(Gate::Running),
        GateEvent::TaskEnded => match gate {
            Gate::Running => GateStep::TaskResult,
            Gate::Paused => GateStep::Continue(Gate::Paused),
        },
    }
}

} // verus!
