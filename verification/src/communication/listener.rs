//! The listener of the server.
//!
//! The server binds an IPv4 and an IPv6 endpoint, each on its own, and runs
//! with whichever could be bound. It accepts connections until it is told to
//! shut down, and then asks every registered peer to close.

use vstd::prelude::*;
use crate::communication::communication_error::CommunicationError;
use crate::communication::PeerAddr;

verus! {

/// One of the two address families.
#[derive(Clone, Copy, Debug, PartialEq, Eq, Structural)]
pub enum Family {
    Ipv4,
    Ipv6,
}

/// The endpoints on which a listener accepts connections.
#[derive(Clone, Copy, Debug, PartialEq, Eq, Structural)]
pub enum ListenMode {
    DualStack,
    Ipv4Only,
    Ipv6Only,
}

/// Where a listener stands.
#[derive(Clone, Copy, Debug, PartialEq, Eq, Structural)]
pub enum Listener {
    /// The endpoints are being bound.
    Binding,
    /// Connections are accepted on these endpoints.
    Listening(ListenMode),
    /// The shutdown signal has come.
    Stopped,
    /// No endpoint could be bound.
    Refused,
}

/// What a listener is told.
#[derive(Debug)]
pub enum ListenerEvent {
    /// The two endpoints were tried; each flag says whether that one is
    /// bound.
    Bound { ipv4: bool, ipv6: bool },
    /// A connection came in on the endpoint of this family.
    Accepted(Family, PeerAddr),
    /// Accepting a connection on the endpoint of this family failed.
    AcceptFailed(Family),
    /// The shutdown signal came.
    Shutdown,
}

/// What a listener asks for.
#[derive(Debug)]
pub enum ListenerAction {
    /// Start to accept connections on these endpoints.
    Serve(ListenMode),
    /// Give up and report why.
    Refuse(CommunicationError),
    /// Start a handler for the connection of this peer.
    Spawn(PeerAddr),
    /// Log that accepting failed, and go on.
    LogAcceptError(Family),
    /// Stop accepting, and put a close notice on the outbound channel of
    /// every registered peer.
    CloseAll,
    /// Nothing.
    Nothing,
}

/// The endpoints that are served when these are bound: none when neither
/// is.
pub open spec fn listen_mode(ipv4: bool, ipv6: bool) -> Option<ListenMode> {
    if ipv4 && ipv6 {
        Some(ListenMode::DualStack)
    } else if ipv4 {
        Some(ListenMode::Ipv4Only)
    } else if ipv6 {
        Some(ListenMode::Ipv6Only)
    } else {
        None
    }
}

/// Whether a listener in this mode accepts connections of `family`.
pub open spec fn serves(mode: ListenMode, family: Family) -> bool {
    match mode {
        ListenMode::DualStack => true,
        ListenMode::Ipv4Only => family is Ipv4,
        ListenMode::Ipv6Only => family is Ipv6,
    }
}

/// The state that follows `state` on `event`, and what the listener asks
/// for.
pub open spec fn transition(state: Listener, event: ListenerEvent) -> (Listener, ListenerAction) {
    match state {
        Listener::Binding => match event {
            ListenerEvent::Bound { ipv4, ipv6 } => match listen_mode(ipv4, ipv6) {
                Some(mode) => (Listener::Listening(mode), ListenerAction::Serve(mode)),
                None => (Listener::Refused, ListenerAction::Refuse(CommunicationError::Unbound)),
            },
            ListenerEvent::Shutdown => (Listener::Stopped, ListenerAction::CloseAll),
            _ => (Listener::Binding, ListenerAction::Nothing),
        },
        Listener::Listening(mode) => match event {
            ListenerEvent::Accepted(family, addr) => if serves(mode, family) {
                (state, ListenerAction::Spawn(addr))
            } else {
                (state, ListenerAction::Nothing)
            },
            ListenerEvent::AcceptFailed(family) => (state, ListenerAction::LogAcceptError(family)),
            ListenerEvent::Shutdown => (Listener::Stopped, ListenerAction::CloseAll),
            ListenerEvent::Bound { .. } => (state, ListenerAction::Nothing),
        },
        Listener::Stopped => (Listener::Stopped, ListenerAction::Nothing),
        Listener::Refused => (Listener::Refused, ListenerAction::Nothing),
    }
}

/// The state in which a listener that starts in `start` stands after
/// `events`.
pub open spec fn state_after(start: Listener, events: Seq<ListenerEvent>) -> Listener
    decreases events.len(),
{
    if events.len() == 0 {
        start
    } else {
        transition(state_after(start, events.drop_last()), events.last()).0
    }
}

/// What a listener that starts in `start` asks for on the event at `index`.
pub open spec fn action_at(start: Listener, events: Seq<ListenerEvent>, index: int) -> ListenerAction {
    transition(state_after(start, events.take(index)), events[index]).1
}

/// Decides on which endpoints the server listens, given which of the two
/// could be bound. One bound endpoint is enough.
///
/// Fails with `Unbound` exactly when neither is bound.
pub fn bound_endpoints(ipv4: bool, ipv6: bool) -> (r: Result<ListenMode, CommunicationError>)
    ensures
        match r {
            Ok(mode) => listen_mode(ipv4, ipv6) == Some(mode),
            Err(e) => listen_mode(ipv4, ipv6) is None && e is Unbound,
        },
{
    if ipv4 && ipv6 {
        Ok(ListenMode::DualStack)
    } else if ipv4 {
        Ok(ListenMode::Ipv4Only)
    } else if ipv6 {
        Ok(ListenMode::Ipv6Only)
    } else {
        Err(CommunicationError::Unbound)
    }
}

/// Whether a listener in this mode accepts connections of `family`.
pub fn mode_serves(mode: ListenMode, family: Family) -> (r: bool)
    ensures
        r == serves(mode, family),
{
    match mode {
        ListenMode::DualStack => true,
        ListenMode::Ipv4Only => match family {
            Family::Ipv4 => true,
            Family::Ipv6 => false,
        },
        ListenMode::Ipv6Only => match family {
            Family::Ipv4 => false,
            Family::Ipv6 => true,
        },
    }
}

/// One step of the listener: what it does in `state` when `event` happens.
///
/// Once the endpoints were tried, the listener serves those that are bound,
/// and gives up if none is. While it listens, every connection on a served
/// endpoint gets a handler of its own, and a failure to accept is logged and
/// changes nothing. On the shutdown signal it stops and asks for a close
/// notice to every registered peer; from then on it accepts nothing.
pub fn create_server_listener(state: Listener, event: ListenerEvent) -> (r: (
    Listener,
    ListenerAction,
))
    ensures
        r == transition(state, event),
{
    match state {
        Listener::Binding => match event {
            ListenerEvent::Bound { ipv4, ipv6 } => match bound_endpoints(ipv4, ipv6) {
                Ok(mode) => (Listener::Listening(mode), ListenerAction::Serve(mode)),
                Err(e) => (Listener::Refused, ListenerAction::Refuse(e)),
            },
            ListenerEvent::Shutdown => (Listener::Stopped, ListenerAction::CloseAll),
            _ => (Listener::Binding, ListenerAction::Nothing),
        },
        Listener::Listening(mode) => match event {
            ListenerEvent::Accepted(family, addr) => if mode_serves(mode, family) {
                (state, ListenerAction::Spawn(addr))
            } else {
                (state, ListenerAction::Nothing)
            },
            ListenerEvent::AcceptFailed(family) => (state, ListenerAction::LogAcceptError(family)),
            ListenerEvent::Shutdown => (Listener::Stopped, ListenerAction::CloseAll),
            ListenerEvent::Bound { .. } => (state, ListenerAction::Nothing),
        },
        Listener::Stopped => (Listener::Stopped, ListenerAction::Nothing),
        Listener::Refused => (Listener::Refused, ListenerAction::Nothing),
    }
}

/// The events up to `index` plus the event at `index` are the events up to
/// `index + 1`.
proof fn lemma_state_step(start: Listener, events: Seq<ListenerEvent>, index: int)
    requires
        0 <= index < events.len(),
    ensures
        state_after(start, events.take(index + 1)) == transition(
            state_after(start, events.take(index)),
            events[index],
        ).0,
{
    let prefix = events.take(index + 1);
    assert(prefix.drop_last() =~= events.take(index));
    assert(prefix.last() == events[index]);
}

/// A listener that has stopped or given up stays so, and starts no handler.
proof fn lemma_ended_stays(start: Listener, events: Seq<ListenerEvent>, from: int, to: int)
    requires
        0 <= from <= to <= events.len(),
        state_after(start, events.take(from)) is Stopped || state_after(
            start,
            events.take(from),
        ) is Refused,
    ensures
        state_after(start, events.take(to)) == state_after(start, events.take(from)),
        forall|k: int| from <= k < to ==> (#[trigger] action_at(start, events, k)) is Nothing,
    decreases to - from,
{
    if from < to {
        lemma_ended_stays(start, events, from, to - 1);
        lemma_state_step(start, events, to - 1);
    }
}

/// Shutdown: after the shutdown signal the listener has stopped, whatever
/// its state was, and accepts no connection any more. A listener that was
/// binding or listening asks for the close notices at the signal.
pub proof fn lemma_shutdown_stops(start: Listener, events: Seq<ListenerEvent>, signal: int)
    requires
        0 <= signal < events.len(),
        events[signal] is Shutdown,
    ensures
        !(state_after(start, events) is Listening) && !(state_after(start, events) is Binding),
        forall|k: int| signal < k < events.len() ==> (#[trigger] action_at(start, events, k)) is Nothing,
        state_after(start, events.take(signal)) is Binding || state_after(
            start,
            events.take(signal),
        ) is Listening ==> action_at(start, events, signal) is CloseAll && state_after(
            start,
            events,
        ) is Stopped,
{
    lemma_state_step(start, events, signal);
    lemma_ended_stays(start, events, signal + 1, events.len() as int);
    assert(events.take(events.len() as int) =~= events);
}

/// Degraded bind: a listener that could bind at least one of its endpoints
/// listens, and starts a handler for every connection that comes in on an
/// endpoint that is bound.
pub proof fn lemma_degraded_bind(ipv4: bool, ipv6: bool, family: Family, addr: PeerAddr)
    requires
        ipv4 || ipv6,
        family is Ipv4 ==> ipv4,
        family is Ipv6 ==> ipv6,
    ensures
        transition(Listener::Binding, ListenerEvent::Bound { ipv4, ipv6 }).0 is Listening,
        transition(
            transition(Listener::Binding, ListenerEvent::Bound { ipv4, ipv6 }).0,
            ListenerEvent::Accepted(family, addr),
        ).1 == ListenerAction::Spawn(addr),
{
}

/// A listener that could bind neither endpoint reports that and never
/// starts a handler.
pub proof fn lemma_unbound_refuses(events: Seq<ListenerEvent>)
    requires
        events.len() > 0,
        events[0] == (ListenerEvent::Bound { ipv4: false, ipv6: false }),
    ensures
        action_at(Listener::Binding, events, 0) == ListenerAction::Refuse(
            CommunicationError::Unbound,
        ),
        state_after(Listener::Binding, events) is Refused,
        forall|k: int|
            0 < k < events.len() ==> (#[trigger] action_at(Listener::Binding, events, k)) is Nothing,
{
    let start = Listener::Binding;
    assert(events.take(0).len() == 0);
    lemma_state_step(start, events, 0);
    lemma_ended_stays(start, events, 1, events.len() as int);
    assert(events.take(events.len() as int) =~= events);
}

} // verus!
