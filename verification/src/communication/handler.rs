//! The handler of one connection on the server.
//!
//! A handler starts when a connection is accepted and ends when the
//! connection does. In between it waits for a message, has the project of a
//! payload built, and forwards the outcome, one job at a time.

use vstd::prelude::*;
use crate::cargo::BuildError;
use crate::communication::Message;

verus! {

/// Where a handler stands.
#[derive(Clone, Copy, Debug, PartialEq, Eq, Structural)]
pub enum Phase {
    /// The connection is accepted; the handshake is under way.
    Established,
    /// The peer is registered and no job is in flight.
    AwaitingMessage,
    /// A job is in flight.
    Dispatching,
    /// The outcome of a job is on its way out.
    Forwarding,
    /// The handler has ended.
    Closed,
}

/// What a handler is told.
#[derive(Debug)]
pub enum HandlerEvent {
    /// The handshake succeeded.
    HandshakeDone,
    /// The handshake failed.
    HandshakeFailed,
    /// A message came in.
    Inbound(Message),
    /// The job in flight ended: with the archive of the binaries, or with
    /// the reason for which there is none.
    BuildFinished(Result<Vec<u8>, BuildError>),
    /// The outcome of the job was handed on.
    Forwarded,
    /// The connection broke, or one of its two directions ended.
    Disconnected,
}

/// What a handler asks for.
#[derive(Debug)]
pub enum HandlerAction {
    /// Enter the peer into the registry.
    Register,
    /// Build the project of this archive.
    Dispatch(Vec<u8>),
    /// Put this message on the outbound channel.
    Reply(Message),
    /// Log this text of the peer.
    LogControl(String),
    /// Log that the job failed. The connection stays open.
    LogFailure(BuildError),
    /// Hand this message in again once the handler awaits one.
    Defer(Message),
    /// Take the peer out of the registry.
    Deregister,
    /// Nothing.
    Nothing,
}

/// Whether the peer of a handler in this phase is registered.
pub open spec fn registered(phase: Phase) -> bool {
    phase is AwaitingMessage || phase is Dispatching || phase is Forwarding
}

/// The phase that follows `phase` on `event`, and what the handler asks for.
pub open spec fn transition(phase: Phase, event: HandlerEvent) -> (Phase, HandlerAction) {
    match phase {
        Phase::Established => match event {
            HandlerEvent::HandshakeDone => (Phase::AwaitingMessage, HandlerAction::Register),
            HandlerEvent::HandshakeFailed => (Phase::Closed, HandlerAction::Nothing),
            HandlerEvent::Disconnected => (Phase::Closed, HandlerAction::Nothing),
            HandlerEvent::Inbound(message) => (Phase::Established, HandlerAction::Defer(message)),
            _ => (Phase::Established, HandlerAction::Nothing),
        },
        Phase::AwaitingMessage => match event {
            HandlerEvent::Inbound(Message::Payload(archive)) => (
                Phase::Dispatching,
                HandlerAction::Dispatch(archive),
            ),
            HandlerEvent::Inbound(Message::Control(text)) => (
                Phase::AwaitingMessage,
                HandlerAction::LogControl(text),
            ),
            HandlerEvent::Inbound(Message::Close) => (Phase::Closed, HandlerAction::Deregister),
            HandlerEvent::Disconnected => (Phase::Closed, HandlerAction::Deregister),
            _ => (Phase::AwaitingMessage, HandlerAction::Nothing),
        },
        Phase::Dispatching => match event {
            HandlerEvent::BuildFinished(Ok(binaries)) => (
                Phase::Forwarding,
                HandlerAction::Reply(Message::Payload(binaries)),
            ),
            HandlerEvent::BuildFinished(Err(reason)) => (
                Phase::Forwarding,
                HandlerAction::LogFailure(reason),
            ),
            HandlerEvent::Inbound(message) => (Phase::Dispatching, HandlerAction::Defer(message)),
            HandlerEvent::Disconnected => (Phase::Closed, HandlerAction::Deregister),
            _ => (Phase::Dispatching, HandlerAction::Nothing),
        },
        Phase::Forwarding => match event {
            HandlerEvent::Forwarded => (Phase::AwaitingMessage, HandlerAction::Nothing),
            HandlerEvent::Inbound(message) => (Phase::Forwarding, HandlerAction::Defer(message)),
            HandlerEvent::Disconnected => (Phase::Closed, HandlerAction::Deregister),
            _ => (Phase::Forwarding, HandlerAction::Nothing),
        },
        Phase::Closed => (Phase::Closed, HandlerAction::Nothing),
    }
}

/// The phase in which a handler that starts in `start` stands after
/// `events`.
pub open spec fn phase_after(start: Phase, events: Seq<HandlerEvent>) -> Phase
    decreases events.len(),
{
    if events.len() == 0 {
        start
    } else {
        transition(phase_after(start, events.drop_last()), events.last()).0
    }
}

/// What a handler that starts in `start` asks for on the event at `index`.
pub open spec fn action_at(start: Phase, events: Seq<HandlerEvent>, index: int) -> HandlerAction {
    transition(phase_after(start, events.take(index)), events[index]).1
}

/// How often a handler that starts in `start` asks for registration over
/// `events`.
pub open spec fn registrations(start: Phase, events: Seq<HandlerEvent>) -> nat
    decreases events.len(),
{
    if events.len() == 0 {
        0
    } else {
        registrations(start, events.drop_last()) + if action_at(
            start,
            events,
            events.len() - 1,
        ) is Register {
            1nat
        } else {
            0nat
        }
    }
}

/// How often a handler that starts in `start` asks for deregistration over
/// `events`.
pub open spec fn deregistrations(start: Phase, events: Seq<HandlerEvent>) -> nat
    decreases events.len(),
{
    if events.len() == 0 {
        0
    } else {
        deregistrations(start, events.drop_last()) + if action_at(
            start,
            events,
            events.len() - 1,
        ) is Deregister {
            1nat
        } else {
            0nat
        }
    }
}

/// One step of the handler of a connection: what it does in `phase` when
/// `event` happens.
///
/// A payload is dispatched only while no job is in flight, so the jobs of
/// one connection never overlap; a message that comes in while the handler
/// is busy is handed back, to be handed in again later. A failed job is
/// logged and leaves the connection open. The peer is registered when the
/// handshake is done and deregistered when the handler ends, however it
/// ends.
pub fn handle_server_connection(phase: Phase, event: HandlerEvent) -> (r: (Phase, HandlerAction))
    ensures
        r == transition(phase, event),
{
    match phase {
        Phase::Established => match event {
            HandlerEvent::HandshakeDone => (Phase::AwaitingMessage, HandlerAction::Register),
            HandlerEvent::HandshakeFailed => (Phase::Closed, HandlerAction::Nothing),
            HandlerEvent::Disconnected => (Phase::Closed, HandlerAction::Nothing),
            HandlerEvent::Inbound(message) => (Phase::Established, HandlerAction::Defer(message)),
            _ => (Phase::Established, HandlerAction::Nothing),
        },
        Phase::AwaitingMessage => match event {
            HandlerEvent::Inbound(message) => match message {
                Message::Payload(archive) => (Phase::Dispatching, HandlerAction::Dispatch(archive)),
                Message::Control(text) => (Phase::AwaitingMessage, HandlerAction::LogControl(text)),
                Message::Close => (Phase::Closed, HandlerAction::Deregister),
            },
            HandlerEvent::Disconnected => (Phase::Closed, HandlerAction::Deregister),
            _ => (Phase::AwaitingMessage, HandlerAction::Nothing),
        },
        Phase::Dispatching => match event {
            HandlerEvent::BuildFinished(outcome) => match outcome {
                Ok(binaries) => (
                    Phase::Forwarding,
                    HandlerAction::Reply(Message::Payload(binaries)),
                ),
                Err(reason) => (Phase::Forwarding, HandlerAction::LogFailure(reason)),
            },
            HandlerEvent::Inbound(message) => (Phase::Dispatching, HandlerAction::Defer(message)),
            HandlerEvent::Disconnected => (Phase::Closed, HandlerAction::Deregister),
            _ => (Phase::Dispatching, HandlerAction::Nothing),
        },
        Phase::Forwarding => match event {
            HandlerEvent::Forwarded => (Phase::AwaitingMessage, HandlerAction::Nothing),
            HandlerEvent::Inbound(message) => (Phase::Forwarding, HandlerAction::Defer(message)),
            HandlerEvent::Disconnected => (Phase::Closed, HandlerAction::Deregister),
            _ => (Phase::Forwarding, HandlerAction::Nothing),
        },
        Phase::Closed => (Phase::Closed, HandlerAction::Nothing),
    }
}

/// The events up to `index` plus the event at `index` are the events up to
/// `index + 1`.
proof fn lemma_phase_step(start: Phase, events: Seq<HandlerEvent>, index: int)
    requires
        0 <= index < events.len(),
    ensures
        phase_after(start, events.take(index + 1)) == transition(
            phase_after(start, events.take(index)),
            events[index],
        ).0,
{
    let prefix = events.take(index + 1);
    assert(prefix.drop_last() =~= events.take(index));
    assert(prefix.last() == events[index]);
}

/// A handler that has closed stays closed.
pub proof fn lemma_closed_is_final(events: Seq<HandlerEvent>)
    ensures
        phase_after(Phase::Closed, events) is Closed,
    decreases events.len(),
{
    if events.len() > 0 {
        lemma_closed_is_final(events.drop_last());
    }
}

/// While no build finishes, a handler with a job in flight stays with that
/// job or closes, and dispatches nothing.
proof fn lemma_busy_until_finished(start: Phase, events: Seq<HandlerEvent>, from: int, to: int)
    requires
        0 <= from <= to <= events.len(),
        phase_after(start, events.take(from)) is Dispatching || phase_after(
            start,
            events.take(from),
        ) is Closed,
        forall|k: int| from <= k < to ==> !((#[trigger] events[k]) is BuildFinished),
    ensures
        phase_after(start, events.take(to)) is Dispatching || phase_after(
            start,
            events.take(to),
        ) is Closed,
        forall|k: int| from <= k < to ==> !(#[trigger] action_at(start, events, k) is Dispatch),
    decreases to - from,
{
    if from < to {
        lemma_busy_until_finished(start, events, from, to - 1);
        lemma_phase_step(start, events, to - 1);
        assert(!(events[to - 1] is BuildFinished));
    }
}

/// One job at a time: between two dispatches on one connection, the build
/// of the first has finished.
pub proof fn lemma_single_job_in_flight(
    start: Phase,
    events: Seq<HandlerEvent>,
    first: int,
    second: int,
)
    requires
        0 <= first < second < events.len(),
        action_at(start, events, first) is Dispatch,
        action_at(start, events, second) is Dispatch,
    ensures
        exists|k: int| first < k < second && (#[trigger] events[k]) is BuildFinished,
{
    lemma_phase_step(start, events, first);
    assert(phase_after(start, events.take(first + 1)) is Dispatching);
    if forall|k: int| first < k < second ==> !((#[trigger] events[k]) is BuildFinished) {
        lemma_busy_until_finished(start, events, first + 1, second);
        assert(false);
    }
}

/// A payload that comes in while a job is in flight is not dispatched: it
/// is handed back, and the job in flight stays the only one.
pub proof fn lemma_payload_waits(archive: Vec<u8>)
    ensures
        transition(Phase::Dispatching, HandlerEvent::Inbound(Message::Payload(archive)))
            == (Phase::Dispatching, HandlerAction::Defer(Message::Payload(archive))),
        transition(Phase::Forwarding, HandlerEvent::Inbound(Message::Payload(archive)))
            == (Phase::Forwarding, HandlerAction::Defer(Message::Payload(archive))),
{
}

/// A handler registers its peer at most once and deregisters it at most
/// once, and only after it has registered it. A handler that has closed has
/// deregistered its peer exactly if it had registered it; one that has not
/// closed has not deregistered it.
pub proof fn lemma_deregisters_once(events: Seq<HandlerEvent>)
    ensures
        registrations(Phase::Established, events) <= 1,
        deregistrations(Phase::Established, events) <= registrations(Phase::Established, events),
        phase_after(Phase::Established, events) is Closed ==> deregistrations(
            Phase::Established,
            events,
        ) == registrations(Phase::Established, events),
        phase_after(Phase::Established, events) is Established ==> registrations(
            Phase::Established,
            events,
        ) == 0,
        registered(phase_after(Phase::Established, events)) ==> registrations(
            Phase::Established,
            events,
        ) == 1 && deregistrations(Phase::Established, events) == 0,
    decreases events.len(),
{
    if events.len() > 0 {
        let start = Phase::Established;
        let before = events.drop_last();
        lemma_deregisters_once(before);
        assert(events.take(events.len() - 1) =~= before);
        assert(action_at(start, events, events.len() - 1) == transition(
            phase_after(start, before),
            events.last(),
        ).1);
    }
}

/// A control message is advisory: it changes nothing but the log, and a
/// handler that has closed does not even log it.
pub proof fn lemma_control_is_advisory(phase: Phase, text: String)
    ensures
        transition(phase, HandlerEvent::Inbound(Message::Control(text))).0 == phase,
        !(transition(phase, HandlerEvent::Inbound(Message::Control(text))).1 is Dispatch),
        !(transition(phase, HandlerEvent::Inbound(Message::Control(text))).1 is Reply),
        !(transition(phase, HandlerEvent::Inbound(Message::Control(text))).1 is Deregister),
{
}

/// How many payloads a handler that starts in `start` dispatches over
/// `events`.
pub open spec fn dispatches(start: Phase, events: Seq<HandlerEvent>) -> nat
    decreases events.len(),
{
    if events.len() == 0 {
        0
    } else {
        dispatches(start, events.drop_last()) + if action_at(
            start,
            events,
            events.len() - 1,
        ) is Dispatch {
            1nat
        } else {
            0nat
        }
    }
}

/// How many outcomes of jobs, replies and failures together, a handler that
/// starts in `start` hands on over `events`.
pub open spec fn outcomes(start: Phase, events: Seq<HandlerEvent>) -> nat
    decreases events.len(),
{
    if events.len() == 0 {
        0
    } else {
        outcomes(start, events.drop_last()) + if action_at(start, events, events.len() - 1) is Reply
            || action_at(start, events, events.len() - 1) is LogFailure {
            1nat
        } else {
            0nat
        }
    }
}

/// One outcome for each payload: a handler hands on one reply or one
/// failure for each payload that it has dispatched, but for the one whose
/// job is in flight, and for one whose job was lost when the connection
/// ended.
pub proof fn lemma_one_outcome_per_payload(events: Seq<HandlerEvent>)
    ensures
        outcomes(Phase::Established, events) <= dispatches(Phase::Established, events),
        dispatches(Phase::Established, events) <= outcomes(Phase::Established, events) + 1,
        phase_after(Phase::Established, events) is Dispatching ==> dispatches(
            Phase::Established,
            events,
        ) == outcomes(Phase::Established, events) + 1,
        !(phase_after(Phase::Established, events) is Dispatching) && !(phase_after(
            Phase::Established,
            events,
        ) is Closed) ==> dispatches(Phase::Established, events) == outcomes(
            Phase::Established,
            events,
        ),
    decreases events.len(),
{
    if events.len() > 0 {
        let start = Phase::Established;
        let before = events.drop_last();
        lemma_one_outcome_per_payload(before);
        assert(events.take(events.len() - 1) =~= before);
        assert(action_at(start, events, events.len() - 1) == transition(
            phase_after(start, before),
            events.last(),
        ).1);
    }
}

} // verus!
