//! The supervisor of the polling loop.
//!
//! The supervisor owns one fact: whether a loop counts as running. The
//! commands `start`, `stop` and `status` read and change it, and tell the
//! caller what to do: spawn a loop, broadcast a cancellation, or nothing.
//! The caller holds the supervisor under an exclusive lock, so that
//! commands never interleave, owns the cancellation channel, and reports
//! back when a loop has left.
use crate::detection_loop::{next_action, DetectionLoop, LoopEvent};
use vstd::prelude::*;

verus! {

/// The answer to every command: whether the loop counts as running.
#[derive(Clone, Copy, Debug, PartialEq, Eq, Structural)]
pub struct NotifyStateResponse {
    pub is_running: bool,
}

/// The answer to `start`, with the loop to spawn if one is due.
#[derive(Debug)]
pub struct StartReply {
    pub response: NotifyStateResponse,
    /// The loop that the caller must now spawn, with a fresh cancellation
    /// signal; `None` when a loop was already running.
    pub spawn: Option<DetectionLoop>,
}

/// The answer to `stop`, with the order to cancel if a loop is running.
#[derive(Clone, Copy, Debug, PartialEq, Eq, Structural)]
pub struct StopReply {
    pub response: NotifyStateResponse,
    /// Whether the caller must now broadcast the cancellation signal.
    pub cancel: bool,
}

/// A command to the supervisor.
pub enum Command {
    Start,
    Stop,
    Status,
}

/// One step in the life of the supervisor: a command, or the report of a
/// loop that has received its cancellation and left.
pub enum Step {
    Asked(Command),
    LoopExited,
}

/// Whether the loop counts as running once `step` has been taken.
///
/// A stop does not clear the flag: it only orders the cancellation, and
/// the loop counts as running until it reports that it has left.
pub open spec fn running_after(running: bool, step: Step) -> bool {
    match step {
        Step::Asked(Command::Start) => true,
        Step::Asked(Command::Stop) => running,
        Step::Asked(Command::Status) => running,
        Step::LoopExited => false,
    }
}

/// The `is_running` that answers `command`.
pub open spec fn reply_to(running: bool, command: Command) -> bool {
    match command {
        Command::Start => true,
        Command::Stop => false,
        Command::Status => running,
    }
}

/// Whether `step` makes the caller spawn a loop.
pub open spec fn orders_spawn(running: bool, step: Step) -> bool {
    step == Step::Asked(Command::Start) && !running
}

/// Whether `step` makes the caller broadcast a cancellation.
pub open spec fn orders_cancel(running: bool, step: Step) -> bool {
    step == Step::Asked(Command::Stop) && running
}

/// The lifecycle state of the polling loop.
#[derive(Debug)]
pub struct NotifyState {
    is_running: bool,
}

impl NotifyState {
    /// Whether a loop counts as running.
    pub closed spec fn running(&self) -> bool {
        self.is_running
    }

    /// The state at startup: no loop is running.
    pub fn new() -> (state: Self)
        ensures
            !state.running(),
    {
        NotifyState { is_running: false }
    }

    /// Starts watching for `phrases`.
    ///
    /// When no loop is running, marks the loop as running and hands out
    /// the loop to spawn. When one is running already, changes nothing:
    /// the running loop keeps its own phrases and `phrases` is dropped.
    pub fn start_notifying(&mut self, phrases: Vec<String>) -> (reply: StartReply)
        ensures
            final(self).running() == running_after(
                old(self).running(),
                Step::Asked(Command::Start),
            ),
            reply.response.is_running == reply_to(old(self).running(), Command::Start),
            reply.spawn is Some == orders_spawn(old(self).running(), Step::Asked(Command::Start)),
            reply.spawn matches Some(detection) ==> detection.targets() == phrases.deep_view()
                && !detection.stopped(),
    {
        let response = NotifyStateResponse { is_running: true };
        if self.is_running {
            return StartReply { response, spawn: None };
        }
        self.is_running = true;
        StartReply { response, spawn: Some(DetectionLoop::new(phrases)) }
    }

    /// Stops watching.
    ///
    /// When a loop is running, orders the cancellation broadcast; the loop
    /// still counts as running until it reports that it has left. When
    /// none is running there is nothing to do.
    pub fn stop_notifying(&self) -> (reply: StopReply)
        ensures
            reply.response.is_running == reply_to(self.running(), Command::Stop),
            reply.cancel == orders_cancel(self.running(), Step::Asked(Command::Stop)),
    {
        StopReply { response: NotifyStateResponse { is_running: false }, cancel: self.is_running }
    }

    /// Reports whether a loop counts as running.
    pub fn is_notifying(&self) -> (response: NotifyStateResponse)
        ensures
            response.is_running == reply_to(self.running(), Command::Status),
    {
        NotifyStateResponse { is_running: self.is_running }
    }

    /// Records that the loop has received its cancellation and left.
    pub fn loop_exited(&mut self)
        ensures
            final(self).running() == running_after(old(self).running(), Step::LoopExited),
    {
        self.is_running = false;
    }
}

/// Whether the loop counts as running after a whole history of steps.
pub open spec fn running_after_all(running: bool, history: Seq<Step>) -> bool
    decreases history.len(),
{
    if history.len() == 0 {
        running
    } else {
        running_after(running_after_all(running, history.drop_last()), history.last())
    }
}

/// How many loops are alive after a history of steps that began with
/// `alive` of them: each ordered spawn adds one, each report of a loop
/// that has left takes one away.
pub open spec fn loops_alive(running: bool, alive: nat, history: Seq<Step>) -> nat
    decreases history.len(),
{
    if history.len() == 0 {
        alive
    } else {
        let before = loops_alive(running, alive, history.drop_last());
        let was_running = running_after_all(running, history.drop_last());
        if orders_spawn(was_running, history.last()) {
            before + 1
        } else if history.last() is LoopExited && before > 0 {
            (before - 1) as nat
        } else {
            before
        }
    }
}

/// Starting twice in a row spawns at most one loop: both calls answer
/// that the loop is running, the first spawns exactly when nothing was
/// running, the second never spawns and leaves the state as the first
/// left it.
pub proof fn law_start_is_idempotent(running: bool)
    ensures
        reply_to(running, Command::Start),
        reply_to(running_after(running, Step::Asked(Command::Start)), Command::Start),
        orders_spawn(running, Step::Asked(Command::Start)) == !running,
        !orders_spawn(
            running_after(running, Step::Asked(Command::Start)),
            Step::Asked(Command::Start),
        ),
        running_after(
            running_after(running, Step::Asked(Command::Start)),
            Step::Asked(Command::Start),
        ) == running_after(running, Step::Asked(Command::Start)),
{
}

/// Stopping while no loop is running answers "not running", orders
/// nothing and changes nothing.
pub proof fn law_stop_when_idle_is_noop(running: bool)
    requires
        !running,
    ensures
        !reply_to(running, Command::Stop),
        !orders_cancel(running, Step::Asked(Command::Stop)),
        !orders_spawn(running, Step::Asked(Command::Stop)),
        running_after(running, Step::Asked(Command::Stop)) == running,
{
}

/// A status taken right after a start says "running", whatever the state
/// was before.
pub proof fn law_status_follows_start(running: bool)
    ensures
        reply_to(running_after(running, Step::Asked(Command::Start)), Command::Status),
{
}

/// Stopping a running loop leads to "not running" without waiting for a
/// cycle or a delay: the stop orders the cancellation, a loop answers a
/// cancellation by leaving whatever it was doing, and once it has
/// reported that it left, a status says "not running".
pub proof fn law_status_follows_stop(running: bool, loop_stopped: bool)
    requires
        running,
    ensures
        orders_cancel(running, Step::Asked(Command::Stop)),
        next_action(loop_stopped, LoopEvent::Cancelled) is Exit,
        !reply_to(
            running_after(running_after(running, Step::Asked(Command::Stop)), Step::LoopExited),
            Command::Status,
        ),
{
}

/// The loop counts as running exactly when one loop is alive, and never
/// are two alive: this holds after every history of steps that begins in
/// the startup state.
pub proof fn law_at_most_one_loop(history: Seq<Step>)
    ensures
        loops_alive(false, 0, history) == if running_after_all(false, history) {
            1nat
        } else {
            0nat
        },
    decreases history.len(),
{
    if history.len() > 0 {
        law_at_most_one_loop(history.drop_last());
    }
}

} // verus!
