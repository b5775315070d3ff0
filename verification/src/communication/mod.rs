//! The session between client and server.
//!
//! The two ends exchange messages over one persistent connection. This
//! module holds what each end decides: the messages and the endpoints, the
//! registry of connected peers, the listener, the handler of one connection
//! on the server, and the session of the client. Each of the three machines
//! is a function from a state and an event to the next state and an action;
//! the caller owns the sockets, performs the action and reports what happened
//! next.

pub mod client;
pub mod communication_error;
pub mod handler;
pub mod listener;
pub mod registry;

pub use crate::communication::client::create_client_connection;
pub use crate::communication::communication_error::CommunicationError;
pub use crate::communication::handler::handle_server_connection;
pub use crate::communication::listener::create_server_listener;

use vstd::prelude::*;
use crate::text::{decimal, to_decimal};

verus! {

/// The port on which the server listens.
pub const PORT: u16 = 8888;

/// The unit of exchange on a connection.
#[derive(Debug)]
pub enum Message {
    /// An archive: the project on its way to the server, the binaries on
    /// their way back.
    Payload(Vec<u8>),
    /// Free text on the state of things. Nothing depends on it.
    Control(String),
    /// The request to end the connection.
    Close,
}

/// The address of the far end of a connection.
#[derive(Clone, Copy, Debug, PartialEq, Eq, Hash, Structural)]
pub enum PeerAddr {
    /// An IPv4 address, its four octets in one number, and a port.
    V4 { octets: u32, port: u16 },
    /// An IPv6 address, its eight segments in one number, with port, flow
    /// information and scope.
    V6 { segments: u128, port: u16, flowinfo: u32, scope_id: u32 },
}

/// The loopback endpoint of the IPv4 listener, as text.
pub open spec fn ipv4_endpoint_text(port: nat) -> Seq<char> {
    "127.0.0.1:"@ + decimal(port)
}

/// The loopback endpoint of the IPv6 listener, as text.
pub open spec fn ipv6_endpoint_text(port: nat) -> Seq<char> {
    "[::1]:"@ + decimal(port)
}

/// The address under which the client reaches the server, as text.
pub open spec fn server_url_text(port: nat) -> Seq<char> {
    "ws://127.0.0.1:"@ + decimal(port)
}

/// The loopback endpoint on which the server listens for IPv4 connections.
pub fn ipv4_endpoint(port: u16) -> (r: String)
    ensures
        r@ == ipv4_endpoint_text(port as nat),
{
    let mut r = String::from_str("127.0.0.1:");
    let number = to_decimal(port as u128);
    r.append(number.as_str());
    r
}

/// The loopback endpoint on which the server listens for IPv6 connections.
pub fn ipv6_endpoint(port: u16) -> (r: String)
    ensures
        r@ == ipv6_endpoint_text(port as nat),
{
    let mut r = String::from_str("[::1]:");
    let number = to_decimal(port as u128);
    r.append(number.as_str());
    r
}

/// `url::Url`: a parsed URL.
#[verifier::external_type_specification]
#[verifier::external_body]
pub struct ExUrl(url::Url);

/// Whether `url::Url::parse` accepts `text` as an absolute URL.
pub uninterp spec fn parses_as_url(text: Seq<char>) -> bool;

/// Calls `url::Url::parse`. Believed of it: whether it gives a URL depends
/// on the text alone.
#[verifier::external_body]
fn parse_url(text: &str) -> (r: Result<url::Url, url::ParseError>)
    ensures
        r is Ok == parses_as_url(text@),
{
    url::Url::parse(text)
}

/// The address under which the client reaches the server on `port`.
///
/// Fails with `Url` exactly when the text of the address is no URL.
pub fn server_url(port: u16) -> (r: Result<url::Url, CommunicationError>)
    ensures
        match r {
            Ok(_) => parses_as_url(server_url_text(port as nat)),
            Err(e) => !parses_as_url(server_url_text(port as nat)) && e is Url,
        },
{
    let mut text = String::from_str("ws://127.0.0.1:");
    let number = to_decimal(port as u128);
    text.append(number.as_str());
    match parse_url(text.as_str()) {
        Ok(url) => Ok(url),
        Err(e) => Err(CommunicationError::Url(e)),
    }
}

} // verus!
