//! The session of the client.
//!
//! The client connects to the server and packages its project, in either
//! order. It sends the archive as one payload, waits for one payload in
//! reply, and unpacks it. A connection that ends without a reply is a
//! failure.

use vstd::prelude::*;
use crate::communication::Message;
use crate::file_handler::file_handler_error::FileHandlerError;

verus! {

/// Where a session stands.
#[derive(Debug)]
pub enum ClientSession {
    /// The project is not sent yet: the connection is not up, or the archive
    /// is not there.
    Preparing { connected: bool, archive: Option<Vec<u8>> },
    /// The project is sent; the reply has not come.
    AwaitingReply,
    /// The reply has come.
    Done,
    /// The session failed.
    Failed,
}

/// What a session is told.
#[derive(Debug)]
pub enum ClientEvent {
    /// The connection is up.
    Connected,
    /// The connection could not be set up.
    ConnectFailed,
    /// The project was packaged, or could not be.
    Packaged(Result<Vec<u8>, FileHandlerError>),
    /// A message came in.
    Inbound(Message),
    /// The connection ended.
    Disconnected,
}

/// Why a session failed.
#[derive(Debug)]
pub enum ClientFailure {
    /// The project could not be packaged.
    Packaging(FileHandlerError),
    /// The connection could not be set up, or broke before the project was
    /// sent.
    Connection,
    /// The connection ended without a reply.
    NoReply,
}

/// What a session asks for.
#[derive(Debug)]
pub enum ClientAction {
    /// Send this message to the server.
    Send(Message),
    /// Unpack this archive of binaries.
    Unpack(Vec<u8>),
    /// Log this text of the server.
    LogControl(String),
    /// End with a failure.
    Fail(ClientFailure),
    /// Nothing.
    Nothing,
}

/// The session that follows `session` on `event`, and what the session asks
/// for.
pub open spec fn transition(session: ClientSession, event: ClientEvent) -> (
    ClientSession,
    ClientAction,
) {
    match session {
        ClientSession::Preparing { connected, archive } => match event {
            ClientEvent::Connected => match archive {
                Some(project) => (
                    ClientSession::AwaitingReply,
                    ClientAction::Send(Message::Payload(project)),
                ),
                None => (
                    ClientSession::Preparing { connected: true, archive: None },
                    ClientAction::Nothing,
                ),
            },
            ClientEvent::Packaged(Ok(project)) => if archive is Some {
                (session, ClientAction::Nothing)
            } else if connected {
                (ClientSession::AwaitingReply, ClientAction::Send(Message::Payload(project)))
            } else {
                (
                    ClientSession::Preparing { connected: false, archive: Some(project) },
                    ClientAction::Nothing,
                )
            },
            ClientEvent::Packaged(Err(reason)) => (
                ClientSession::Failed,
                ClientAction::Fail(ClientFailure::Packaging(reason)),
            ),
            ClientEvent::ConnectFailed => (
                ClientSession::Failed,
                ClientAction::Fail(ClientFailure::Connection),
            ),
            ClientEvent::Disconnected => (
                ClientSession::Failed,
                ClientAction::Fail(ClientFailure::Connection),
            ),
            ClientEvent::Inbound(Message::Control(text)) => (
                session,
                ClientAction::LogControl(text),
            ),
            ClientEvent::Inbound(Message::Close) => (
                ClientSession::Failed,
                ClientAction::Fail(ClientFailure::NoReply),
            ),
            ClientEvent::Inbound(Message::Payload(_)) => (session, ClientAction::Nothing),
        },
        ClientSession::AwaitingReply => match event {
            ClientEvent::Inbound(Message::Payload(binaries)) => (
                ClientSession::Done,
                ClientAction::Unpack(binaries),
            ),
            ClientEvent::Inbound(Message::Control(text)) => (
                ClientSession::AwaitingReply,
                ClientAction::LogControl(text),
            ),
            ClientEvent::Inbound(Message::Close) => (
                ClientSession::Failed,
                ClientAction::Fail(ClientFailure::NoReply),
            ),
            ClientEvent::Disconnected => (
                ClientSession::Failed,
                ClientAction::Fail(ClientFailure::NoReply),
            ),
            _ => (ClientSession::AwaitingReply, ClientAction::Nothing),
        },
        ClientSession::Done => (ClientSession::Done, ClientAction::Nothing),
        ClientSession::Failed => (ClientSession::Failed, ClientAction::Nothing),
    }
}

/// The session in which a client that starts in `start` stands after
/// `events`.
pub open spec fn session_after(start: ClientSession, events: Seq<ClientEvent>) -> ClientSession
    decreases events.len(),
{
    if events.len() == 0 {
        start
    } else {
        transition(session_after(start, events.drop_last()), events.last()).0
    }
}

/// What a client that starts in `start` asks for on the event at `index`.
pub open spec fn action_at(start: ClientSession, events: Seq<ClientEvent>, index: int) -> ClientAction {
    transition(session_after(start, events.take(index)), events[index]).1
}

/// How many payloads a client that starts in `start` sends over `events`.
pub open spec fn payloads_sent(start: ClientSession, events: Seq<ClientEvent>) -> nat
    decreases events.len(),
{
    if events.len() == 0 {
        0
    } else {
        payloads_sent(start, events.drop_last()) + if action_at(
            start,
            events,
            events.len() - 1,
        ) is Send {
            1nat
        } else {
            0nat
        }
    }
}

/// How many replies a client that starts in `start` unpacks over `events`.
pub open spec fn replies_unpacked(start: ClientSession, events: Seq<ClientEvent>) -> nat
    decreases events.len(),
{
    if events.len() == 0 {
        0
    } else {
        replies_unpacked(start, events.drop_last()) + if action_at(
            start,
            events,
            events.len() - 1,
        ) is Unpack {
            1nat
        } else {
            0nat
        }
    }
}

/// The session of a client that has neither a connection nor an archive.
pub open spec fn fresh() -> ClientSession {
    ClientSession::Preparing { connected: false, archive: None }
}

/// The directory into which the client unpacks the reply.
pub fn unpack_directory() -> (r: String)
    ensures
        r@ == "./"@,
{
    String::from_str("./")
}

/// The exit status of a client whose session stands as `session`: zero
/// exactly when the reply has come.
pub fn exit_status(session: &ClientSession) -> (r: i32)
    ensures
        r == if session is Done {
            0i32
        } else {
            1i32
        },
{
    match session {
        ClientSession::Done => 0,
        _ => 1,
    }
}

/// The session of a client that has neither a connection nor an archive.
pub fn new_session() -> (r: ClientSession)
    ensures
        r == fresh(),
{
    ClientSession::Preparing { connected: false, archive: None }
}

/// One step of the session of the client: what it does in `session` when
/// `event` happens.
///
/// The project is sent as one payload as soon as the connection is up and
/// the archive is there. The first payload that comes back is unpacked and
/// ends the session. The session fails when the project cannot be packaged,
/// when the connection cannot be set up, and when the connection ends or
/// the server asks to close before a reply has come.
pub fn create_client_connection(session: ClientSession, event: ClientEvent) -> (r: (
    ClientSession,
    ClientAction,
))
    ensures
        r == transition(session, event),
{
    match session {
        ClientSession::Preparing { connected, archive } => match event {
            ClientEvent::Connected => match archive {
                Some(project) => (
                    ClientSession::AwaitingReply,
                    ClientAction::Send(Message::Payload(project)),
                ),
                None => (
                    ClientSession::Preparing { connected: true, archive: None },
                    ClientAction::Nothing,
                ),
            },
            ClientEvent::Packaged(outcome) => match outcome {
                Ok(project) => if archive.is_some() {
                    (ClientSession::Preparing { connected, archive }, ClientAction::Nothing)
                } else if connected {
                    (ClientSession::AwaitingReply, ClientAction::Send(Message::Payload(project)))
                } else {
                    (
                        ClientSession::Preparing { connected: false, archive: Some(project) },
                        ClientAction::Nothing,
                    )
                },
                Err(reason) => (
                    ClientSession::Failed,
                    ClientAction::Fail(ClientFailure::Packaging(reason)),
                ),
            },
            ClientEvent::ConnectFailed => (
                ClientSession::Failed,
                ClientAction::Fail(ClientFailure::Connection),
            ),
            ClientEvent::Disconnected => (
                ClientSession::Failed,
                ClientAction::Fail(ClientFailure::Connection),
            ),
            ClientEvent::Inbound(message) => match message {
                Message::Control(text) => (
                    ClientSession::Preparing { connected, archive },
                    ClientAction::LogControl(text),
                ),
                Message::Close => (
                    ClientSession::Failed,
                    ClientAction::Fail(ClientFailure::NoReply),
                ),
                Message::Payload(_) => (
                    ClientSession::Preparing { connected, archive },
                    ClientAction::Nothing,
                ),
            },
        },
        ClientSession::AwaitingReply => match event {
            ClientEvent::Inbound(message) => match message {
                Message::Payload(binaries) => (ClientSession::Done, ClientAction::Unpack(binaries)),
                Message::Control(text) => (
                    ClientSession::AwaitingReply,
                    ClientAction::LogControl(text),
                ),
                Message::Close => (
                    ClientSession::Failed,
                    ClientAction::Fail(ClientFailure::NoReply),
                ),
            },
            ClientEvent::Disconnected => (
                ClientSession::Failed,
                ClientAction::Fail(ClientFailure::NoReply),
            ),
            _ => (ClientSession::AwaitingReply, ClientAction::Nothing),
        },
        ClientSession::Done => (ClientSession::Done, ClientAction::Nothing),
        ClientSession::Failed => (ClientSession::Failed, ClientAction::Nothing),
    }
}

/// A client sends its project once at most, and unpacks one reply at most,
/// which it does only after it has sent the project. While it prepares it
/// has sent nothing; once it awaits the reply it has sent the project and
/// unpacked nothing; once it is done it has sent the project and unpacked
/// the reply.
pub proof fn lemma_one_payload_each_way(events: Seq<ClientEvent>)
    ensures
        payloads_sent(fresh(), events) <= 1,
        replies_unpacked(fresh(), events) <= payloads_sent(fresh(), events),
        session_after(fresh(), events) is Preparing ==> payloads_sent(fresh(), events) == 0,
        session_after(fresh(), events) is AwaitingReply ==> payloads_sent(fresh(), events) == 1
            && replies_unpacked(fresh(), events) == 0,
        session_after(fresh(), events) is Done ==> payloads_sent(fresh(), events) == 1
            && replies_unpacked(fresh(), events) == 1,
    decreases events.len(),
{
    if events.len() > 0 {
        let before = events.drop_last();
        lemma_one_payload_each_way(before);
        assert(events.take(events.len() - 1) =~= before);
        assert(action_at(fresh(), events, events.len() - 1) == transition(
            session_after(fresh(), before),
            events.last(),
        ).1);
    }
}

/// A control message is advisory: it changes nothing but the log.
pub proof fn lemma_control_is_advisory(session: ClientSession, text: String)
    ensures
        transition(session, ClientEvent::Inbound(Message::Control(text))).0 == session,
        !(transition(session, ClientEvent::Inbound(Message::Control(text))).1 is Send),
        !(transition(session, ClientEvent::Inbound(Message::Control(text))).1 is Unpack),
        !(transition(session, ClientEvent::Inbound(Message::Control(text))).1 is Fail),
{
}

} // verus!
