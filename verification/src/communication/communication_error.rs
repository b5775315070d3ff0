//! What can go wrong on the connection between client and server.

use vstd::prelude::*;
use vstd::std_specs::convert::FromSpecImpl;

verus! {

/// `tungstenite::Error`, carried through without looking inside.
#[verifier::external_type_specification]
#[verifier::external_body]
pub struct ExTransportError(tokio_tungstenite::tungstenite::Error);

/// `url::ParseError`, carried through without looking inside.
#[verifier::external_type_specification]
#[verifier::external_body]
pub struct ExAddressError(url::ParseError);

/// A failure of the connection, or of setting one up.
#[derive(Debug)]
pub enum CommunicationError {
    /// The transport reported a failure.
    Tungstenite(tokio_tungstenite::tungstenite::Error),
    /// The address of the server is no URL.
    Url(url::ParseError),
    /// Neither the IPv4 nor the IPv6 endpoint could be bound.
    Unbound,
}

impl From<tokio_tungstenite::tungstenite::Error> for CommunicationError {
    fn from(err: tokio_tungstenite::tungstenite::Error) -> (r: Self) {
        CommunicationError::Tungstenite(err)
    }
}

impl FromSpecImpl<tokio_tungstenite::tungstenite::Error> for CommunicationError {
    open spec fn obeys_from_spec() -> bool {
        true
    }

    open spec fn from_spec(err: tokio_tungstenite::tungstenite::Error) -> Self {
        CommunicationError::Tungstenite(err)
    }
}

impl CommunicationError {
    /// The text that introduces a failure of this kind in a message.
    pub open spec fn heading(self) -> Seq<char> {
        match self {
            CommunicationError::Tungstenite(_) => "Tungstenite error: "@,
            CommunicationError::Url(_) => "Address error: "@,
            CommunicationError::Unbound => "Could not bind to an IPv4 or an IPv6 endpoint"@,
        }
    }

    /// Whether `detail` is what follows the heading in a description of
    /// this failure: the text that the error inside displays, and nothing
    /// where there is no error inside.
    pub open spec fn has_detail(self, detail: String) -> bool {
        match self {
            CommunicationError::Tungstenite(err) => vstd::string::to_string_from_display_ensures::<
                tokio_tungstenite::tungstenite::Error,
            >(&err, detail),
            CommunicationError::Url(err) => vstd::string::to_string_from_display_ensures::<
                url::ParseError,
            >(&err, detail),
            CommunicationError::Unbound => detail@.len() == 0,
        }
    }

    /// A line of text that describes the failure: the heading of its kind,
    /// and then its detail.
    pub fn description(&self) -> (r: String)
        ensures
            exists|detail: String| #[trigger] self.has_detail(detail) && r@ == self.heading() + detail@,
    {
        let (mut r, detail) = match self {
            CommunicationError::Tungstenite(err) => (
                String::from_str("Tungstenite error: "),
                err.to_string(),
            ),
            CommunicationError::Url(err) => (String::from_str("Address error: "), err.to_string()),
            CommunicationError::Unbound => (
                String::from_str("Could not bind to an IPv4 or an IPv6 endpoint"),
                String::new(),
            ),
        };
        r.append(detail.as_str());
        assert(self.has_detail(detail));
        r
    }
}

} // verus!
