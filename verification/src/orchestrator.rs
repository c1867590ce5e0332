//! The loop around the pipeline: one event at a time, in the order in which
//! the subscription delivers them.

use vstd::prelude::*;

verus! {

/// Where the loop stands.
#[derive(Clone, Copy, Debug, PartialEq, Eq, Structural)]
pub enum Phase {
    /// Waiting for the next event.
    Listening,
    /// Handling an event: enriching, composing, notifying.
    Processing,
    /// The subscription failed; nothing more is done.
    Stopped,
}

/// What happened outside.
#[derive(Clone, Copy, Debug, PartialEq, Eq, Structural)]
pub enum Signal {
    /// The subscription delivered an event.
    EventArrived,
    /// The event in hand has been handled to its end.
    EventHandled,
    /// The subscription failed or ended.
    SubscriptionLost,
}

/// What the loop is to do next.
#[derive(Clone, Copy, Debug, PartialEq, Eq, Structural)]
pub enum Step {
    /// Take the next event from the subscription.
    AwaitEvent,
    /// Handle the event that arrived.
    HandleEvent,
    /// Leave the event that arrived where it is until the one in hand is
    /// done.
    HoldEvent,
    /// End the process, for a supervisor to start it again.
    Halt,
}

/// Where to begin reading the chain.
#[derive(Clone, Copy, Debug, PartialEq, Eq, Structural)]
pub enum StartingPoint {
    /// At the current head: nothing of the past is replayed.
    Head,
    /// At the given block.
    Block(u64),
}

/// The phase and the step that follow `signal` in `phase`.
pub open spec fn next_of(phase: Phase, signal: Signal) -> (Phase, Step) {
    match (phase, signal) {
        (Phase::Stopped, _) => (Phase::Stopped, Step::Halt),
        (_, Signal::SubscriptionLost) => (Phase::Stopped, Step::Halt),
        (Phase::Listening, Signal::EventArrived) => (Phase::Processing, Step::HandleEvent),
        (Phase::Listening, Signal::EventHandled) => (Phase::Listening, Step::AwaitEvent),
        (Phase::Processing, Signal::EventArrived) => (Phase::Processing, Step::HoldEvent),
        (Phase::Processing, Signal::EventHandled) => (Phase::Listening, Step::AwaitEvent),
    }
}

/// Where to begin for a configured starting block: at the head for zero or
/// for no value, else at the block.
pub open spec fn starting_point_of(starting_block: Option<u64>) -> StartingPoint {
    match starting_block {
        Some(block) => if block == 0 {
            StartingPoint::Head
        } else {
            StartingPoint::Block(block)
        },
        None => StartingPoint::Head,
    }
}

/// The phase in which the loop begins.
pub fn initial_phase() -> (r: Phase)
    ensures
        r == Phase::Listening,
{
    Phase::Listening
}

/// The phase and the step that follow `signal` in `phase`.
pub fn advance(phase: Phase, signal: Signal) -> (r: (Phase, Step))
    ensures
        r == next_of(phase, signal),
{
    match phase {
        Phase::Stopped => (Phase::Stopped, Step::Halt),
        Phase::Listening => match signal {
            Signal::SubscriptionLost => (Phase::Stopped, Step::Halt),
            Signal::EventArrived => (Phase::Processing, Step::HandleEvent),
            Signal::EventHandled => (Phase::Listening, Step::AwaitEvent),
        },
        Phase::Processing => match signal {
            Signal::SubscriptionLost => (Phase::Stopped, Step::Halt),
            Signal::EventArrived => (Phase::Processing, Step::HoldEvent),
            Signal::EventHandled => (Phase::Listening, Step::AwaitEvent),
        },
    }
}

/// Where to begin for a configured starting block.
pub fn starting_point(starting_block: Option<u64>) -> (r: StartingPoint)
    ensures
        r == starting_point_of(starting_block),
{
    match starting_block {
        Some(block) => if block == 0 {
            StartingPoint::Head
        } else {
            StartingPoint::Block(block)
        },
        None => StartingPoint::Head,
    }
}

/// An event is taken in hand only while listening, so that no two events
/// are ever handled at once; and handling is what then follows.
pub proof fn lemma_one_event_at_a_time(phase: Phase, signal: Signal)
    ensures
        next_of(phase, signal).1 == Step::HandleEvent <==> phase == Phase::Listening && signal
            == Signal::EventArrived,
        next_of(phase, signal).1 == Step::HandleEvent ==> next_of(phase, signal).0
            == Phase::Processing,
        phase == Phase::Processing && next_of(phase, signal).0 == Phase::Listening ==> signal
            == Signal::EventHandled,
{
}

/// Once stopped the loop stays stopped, and it stops on the loss of the
/// subscription only.
pub proof fn lemma_stopped_is_final(phase: Phase, signal: Signal)
    ensures
        phase == Phase::Stopped ==> next_of(phase, signal) == (Phase::Stopped, Step::Halt),
        next_of(phase, signal).0 == Phase::Stopped <==> phase == Phase::Stopped || signal
            == Signal::SubscriptionLost,
{
}

} // verus!
