//! The decisions of the polling loop.
//!
//! The loop itself runs outside this library: it captures, recognizes,
//! notifies and sleeps. After each step it reports what happened as a
//! [`LoopEvent`] and is told what to do next as a [`LoopAction`]. Nothing
//! but a cancellation ends the loop; a failed cycle is retried after the
//! short delay.
use crate::cycle::CycleResult;
use crate::recognition::DetectError;
use vstd::prelude::*;

verus! {

/// Seconds to wait after a cycle that matched at least one phrase.
pub const MATCH_DELAY_SECS: u64 = 120;

/// Seconds to wait after a cycle that matched nothing or failed.
pub const IDLE_DELAY_SECS: u64 = 5;

/// The cycle succeeded and matched at least one phrase.
pub open spec fn is_match(outcome: Result<CycleResult, DetectError>) -> bool {
    match outcome {
        Ok(found) => !found@.is_empty(),
        Err(_) => false,
    }
}

/// The delay before the next cycle: long after a match, short otherwise.
pub open spec fn delay_after(outcome: Result<CycleResult, DetectError>) -> u64 {
    if is_match(outcome) {
        MATCH_DELAY_SECS
    } else {
        IDLE_DELAY_SECS
    }
}

/// The phrases to announce after a cycle: those of a match, else none.
pub open spec fn notification(outcome: Result<CycleResult, DetectError>) -> Option<
    Seq<Seq<char>>,
> {
    match outcome {
        Ok(found) => if is_match(outcome) {
            Some(found.listed())
        } else {
            None
        },
        Err(_) => None,
    }
}

/// Computes the delay before the next cycle.
pub fn delay_secs(outcome: &Result<CycleResult, DetectError>) -> (secs: u64)
    ensures
        secs == delay_after(*outcome),
{
    match outcome {
        Ok(found) => if found.is_empty() {
            IDLE_DELAY_SECS
        } else {
            MATCH_DELAY_SECS
        },
        Err(_) => IDLE_DELAY_SECS,
    }
}

/// What the running loop reports.
#[derive(Debug, PartialEq, Eq)]
pub enum LoopEvent {
    /// The loop task has just been spawned.
    Started,
    /// A detection cycle has ended, with its outcome.
    CycleFinished(Result<CycleResult, DetectError>),
    /// The delay after a cycle has elapsed.
    SleepElapsed,
    /// The cancellation signal arrived, whatever the loop was doing.
    Cancelled,
}

/// What the loop is to do next.
#[derive(Debug, PartialEq, Eq)]
pub enum LoopAction {
    /// Run one detection cycle.
    RunCycle,
    /// Announce `notify`, if there is anything to announce, then sleep.
    Wait { notify: Option<Vec<String>>, secs: u64 },
    /// Leave the loop.
    Exit,
}

/// A [`LoopAction`] with its phrases as character sequences.
pub enum LoopActionView {
    RunCycle,
    Wait { notify: Option<Seq<Seq<char>>>, secs: u64 },
    Exit,
}

impl View for LoopAction {
    type V = LoopActionView;

    open spec fn view(&self) -> LoopActionView {
        match self {
            LoopAction::RunCycle => LoopActionView::RunCycle,
            LoopAction::Wait { notify, secs } => LoopActionView::Wait {
                notify: match notify {
                    Some(phrases) => Some(phrases.deep_view()),
                    None => None,
                },
                secs: *secs,
            },
            LoopAction::Exit => LoopActionView::Exit,
        }
    }
}

/// The action that answers `event` in a loop that is `stopped` or not.
///
/// A stopped loop only ever exits. A live loop exits on cancellation and
/// on nothing else; it starts a cycle when it is spawned and whenever a
/// delay has elapsed; after a cycle it announces a match and waits.
pub open spec fn next_action(stopped: bool, event: LoopEvent) -> LoopActionView {
    if stopped {
        LoopActionView::Exit
    } else {
        match event {
            LoopEvent::Started => LoopActionView::RunCycle,
            LoopEvent::SleepElapsed => LoopActionView::RunCycle,
            LoopEvent::CycleFinished(outcome) => LoopActionView::Wait {
                notify: notification(outcome),
                secs: delay_after(outcome),
            },
            LoopEvent::Cancelled => LoopActionView::Exit,
        }
    }
}

/// One instance of the polling loop: its target phrases, fixed for its
/// lifetime, and whether it has been told to stop.
#[derive(Debug)]
pub struct DetectionLoop {
    phrases: Vec<String>,
    stopped: bool,
}

impl DetectionLoop {
    /// The target phrases of this loop, in the order they were given.
    pub closed spec fn targets(&self) -> Seq<Seq<char>> {
        self.phrases.deep_view()
    }

    /// Whether the loop has received its cancellation.
    pub closed spec fn stopped(&self) -> bool {
        self.stopped
    }

    /// A loop that is about to start, watching for `phrases`.
    pub fn new(phrases: Vec<String>) -> (detection: Self)
        ensures
            detection.targets() == phrases.deep_view(),
            !detection.stopped(),
    {
        DetectionLoop { phrases, stopped: false }
    }

    /// The target phrases.
    pub fn phrases(&self) -> (phrases: &Vec<String>)
        ensures
            phrases.deep_view() == self.targets(),
    {
        &self.phrases
    }

    /// Whether the loop has been cancelled.
    pub fn is_stopped(&self) -> (stopped: bool)
        ensures
            stopped == self.stopped(),
    {
        self.stopped
    }

    /// Takes in what the loop reports and decides what it does next.
    pub fn on_event(&mut self, event: LoopEvent) -> (action: LoopAction)
        ensures
            action@ == next_action(old(self).stopped(), event),
            final(self).stopped() == (old(self).stopped() || event is Cancelled),
            final(self).targets() == old(self).targets(),
    {
        if self.stopped {
            return LoopAction::Exit;
        }
        match event {
            LoopEvent::Started => LoopAction::RunCycle,
            LoopEvent::SleepElapsed => LoopAction::RunCycle,
            LoopEvent::CycleFinished(outcome) => {
                let secs = delay_secs(&outcome);
                let notify = match outcome {
                    Ok(found) => if found.is_empty() {
                        None
                    } else {
                        Some(found.into_phrases())
                    },
                    Err(_) => None,
                };
                LoopAction::Wait { notify, secs }
            },
            LoopEvent::Cancelled => {
                self.stopped = true;
                LoopAction::Exit
            },
        }
    }
}

/// Nothing but a cancellation ends a live loop: not a failed cycle, not a
/// match, not an elapsed delay. And a cancellation ends it whatever it
/// was doing.
pub proof fn law_only_cancellation_ends_loop(event: LoopEvent)
    ensures
        next_action(false, event) is Exit <==> event is Cancelled,
{
}

/// A cycle is announced exactly when it is followed by the long delay,
/// and that is exactly when it matched something; every other cycle is
/// followed by the short delay.
pub proof fn law_long_delay_follows_match(outcome: Result<CycleResult, DetectError>)
    ensures
        delay_after(outcome) == MATCH_DELAY_SECS <==> is_match(outcome),
        delay_after(outcome) == IDLE_DELAY_SECS <==> !is_match(outcome),
        notification(outcome) is Some <==> is_match(outcome),
        outcome is Err ==> delay_after(outcome) == IDLE_DELAY_SECS,
{
}

} // verus!
