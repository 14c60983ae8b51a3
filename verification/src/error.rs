//! The errors of connections and channels.
use vstd::prelude::*;

verus! {

/// What went wrong while two peers were being connected.
#[derive(Debug)]
pub enum RtcPeerConnectionError {
    Creation(String),
    Negotiation(String),
    DataChannelMismatch(String),
    IceNegotiationFailure(String),
}

/// What went wrong on an open channel.
#[derive(Debug)]
pub enum RtcDataChannelError {
    Send(String),
    Receive(String),
    WriteError(std::io::Error),
}

/// `std::io::Error`, carried through as it is.
#[verifier::external_type_specification]
#[verifier::external_body]
pub struct ExIoError(std::io::Error);

/// A connection error by its text.
pub enum PeerErrorView {
    Creation(Seq<char>),
    Negotiation(Seq<char>),
    DataChannelMismatch(Seq<char>),
    IceNegotiationFailure(Seq<char>),
}

/// A channel error by its text.
pub enum ChannelErrorView {
    Send(Seq<char>),
    Receive(Seq<char>),
    WriteError(std::io::Error),
}

impl View for RtcPeerConnectionError {
    type V = PeerErrorView;

    open spec fn view(&self) -> PeerErrorView {
        match self {
            RtcPeerConnectionError::Creation(x) => PeerErrorView::Creation(x@),
            RtcPeerConnectionError::Negotiation(x) => PeerErrorView::Negotiation(x@),
            RtcPeerConnectionError::DataChannelMismatch(x) => PeerErrorView::DataChannelMismatch(
                x@,
            ),
            RtcPeerConnectionError::IceNegotiationFailure(x) =>
                PeerErrorView::IceNegotiationFailure(x@),
        }
    }
}

impl View for RtcDataChannelError {
    type V = ChannelErrorView;

    open spec fn view(&self) -> ChannelErrorView {
        match self {
            RtcDataChannelError::Send(x) => ChannelErrorView::Send(x@),
            RtcDataChannelError::Receive(x) => ChannelErrorView::Receive(x@),
            RtcDataChannelError::WriteError(x) => ChannelErrorView::WriteError(*x),
        }
    }
}

/// The sentence that reports a connection error.
pub open spec fn peer_error_text(e: PeerErrorView) -> Seq<char> {
    match e {
        PeerErrorView::Creation(x) => "An error occurred during connection creation: "@ + x,
        PeerErrorView::Negotiation(x) => "An error occurred during channel negotiation: "@ + x,
        PeerErrorView::DataChannelMismatch(x) =>
            "The data channel configuration was not the same for both peers: "@ + x,
        PeerErrorView::IceNegotiationFailure(x) => "ICE negotiation failed: "@ + x,
    }
}

/// The sentence that reports a channel error; `io` is how a failed write describes itself.
pub open spec fn channel_error_text(e: ChannelErrorView, io: Seq<char>) -> Seq<char> {
    match e {
        ChannelErrorView::Send(x) => "An error occurred during message sending: "@ + x,
        ChannelErrorView::Receive(x) => "An error occurred during message receiving: "@ + x,
        ChannelErrorView::WriteError(_) => "An error occurred while writing to std::io::Write: "@
            + io,
    }
}

/// `std::io::Error`'s own description, by its `Display`. The words of an operating
/// system error come from the system, so nothing is claimed of them.
#[verifier::external_body]
fn describe_io_error(e: &std::io::Error) -> (r: String) {
    format!("{}", e)
}

/// `io` is a description that the error gives of itself.
pub closed spec fn describes(e: std::io::Error, io: String) -> bool {
    call_ensures(describe_io_error, (&e,), io)
}

impl RtcPeerConnectionError {
    /// The error as a sentence.
    pub fn to_text(&self) -> (r: String)
        ensures
            r@ == peer_error_text(self@),
    {
        let (prefix, detail): (&str, &String) = match self {
            RtcPeerConnectionError::Creation(x) => (
                "An error occurred during connection creation: ",
                x,
            ),
            RtcPeerConnectionError::Negotiation(x) => (
                "An error occurred during channel negotiation: ",
                x,
            ),
            RtcPeerConnectionError::DataChannelMismatch(x) => (
                "The data channel configuration was not the same for both peers: ",
                x,
            ),
            RtcPeerConnectionError::IceNegotiationFailure(x) => ("ICE negotiation failed: ", x),
        };
        prefix.to_string().concat(detail.as_str())
    }
}

impl RtcDataChannelError {
    /// The error as a sentence, where `io` is the description of a failed write.
    pub fn text_with(&self, io: &str) -> (r: String)
        ensures
            r@ == channel_error_text(self@, io@),
    {
        match self {
            RtcDataChannelError::Send(x) => "An error occurred during message sending: ".to_string(
            ).concat(x.as_str()),
            RtcDataChannelError::Receive(x) =>
                "An error occurred during message receiving: ".to_string().concat(x.as_str()),
            RtcDataChannelError::WriteError(_) =>
                "An error occurred while writing to std::io::Write: ".to_string().concat(io),
        }
    }

    /// The error as a sentence.
    pub fn to_text(&self) -> (r: String)
        ensures
            match self {
                RtcDataChannelError::WriteError(e) => exists|io: String| #[trigger]
                    describes(*e, io) && r@ == channel_error_text(self@, io@),
                _ => r@ == channel_error_text(self@, Seq::empty()),
            },
    {
        match self {
            RtcDataChannelError::WriteError(e) => {
                let io: String = describe_io_error(e);
                assert(describes(*e, io));
                self.text_with(io.as_str())
            },
            _ => self.text_with(String::new().as_str()),
        }
    }
}

/// The sentence for a connection error says what failed and then, to the last letter, the
/// reason that the error carries.
pub proof fn law_connection_error_tells_its_reason(reason: String)
    ensures
        peer_error_text(RtcPeerConnectionError::Creation(reason)@)
            == "An error occurred during connection creation: "@ + reason@,
        peer_error_text(RtcPeerConnectionError::Negotiation(reason)@)
            == "An error occurred during channel negotiation: "@ + reason@,
        peer_error_text(RtcPeerConnectionError::DataChannelMismatch(reason)@)
            == "The data channel configuration was not the same for both peers: "@ + reason@,
        peer_error_text(RtcPeerConnectionError::IceNegotiationFailure(reason)@)
            == "ICE negotiation failed: "@ + reason@,
{
}

/// The sentence for a channel error says what failed and then, to the last letter, the reason
/// that the error carries, which for a failed write is its own description.
pub proof fn law_channel_error_tells_its_reason(reason: String, e: std::io::Error, io: Seq<char>)
    ensures
        channel_error_text(RtcDataChannelError::Send(reason)@, io)
            == "An error occurred during message sending: "@ + reason@,
        channel_error_text(RtcDataChannelError::Receive(reason)@, io)
            == "An error occurred during message receiving: "@ + reason@,
        channel_error_text(RtcDataChannelError::WriteError(e)@, io)
            == "An error occurred while writing to std::io::Write: "@ + io,
{
}

/// An error is known by its kind and its text: what the contracts say of the one they say of
/// the other.
pub proof fn law_errors_are_known_by_kind_and_text(
    a: RtcPeerConnectionError,
    b: RtcDataChannelError,
)
    ensures
        match a {
            RtcPeerConnectionError::Creation(x) => a@ == PeerErrorView::Creation(x@),
            RtcPeerConnectionError::Negotiation(x) => a@ == PeerErrorView::Negotiation(x@),
            RtcPeerConnectionError::DataChannelMismatch(x) => a@
                == PeerErrorView::DataChannelMismatch(x@),
            RtcPeerConnectionError::IceNegotiationFailure(x) => a@
                == PeerErrorView::IceNegotiationFailure(x@),
        },
        match b {
            RtcDataChannelError::Send(x) => b@ == ChannelErrorView::Send(x@),
            RtcDataChannelError::Receive(x) => b@ == ChannelErrorView::Receive(x@),
            RtcDataChannelError::WriteError(x) => b@ == ChannelErrorView::WriteError(x),
        },
{
}

/// The sentence that is written for a connection error says what failed and then, to the last
/// letter, the reason.
pub proof fn law_connection_error_is_written_out(e: RtcPeerConnectionError, text: String)
    requires
        call_ensures(RtcPeerConnectionError::to_text, (&e,), text),
    ensures
        match e {
            RtcPeerConnectionError::Creation(x) => text@
                == "An error occurred during connection creation: "@ + x@,
            RtcPeerConnectionError::Negotiation(x) => text@
                == "An error occurred during channel negotiation: "@ + x@,
            RtcPeerConnectionError::DataChannelMismatch(x) => text@
                == "The data channel configuration was not the same for both peers: "@ + x@,
            RtcPeerConnectionError::IceNegotiationFailure(x) => text@
                == "ICE negotiation failed: "@ + x@,
        },
{
}

/// The sentence that is written for a channel error says what failed and then, to the last
/// letter, the reason; for a failed write, a description that the error gives of itself.
pub proof fn law_channel_error_is_written_out(
    e: RtcDataChannelError,
    text: String,
    io: &str,
    with: String,
)
    requires
        call_ensures(RtcDataChannelError::to_text, (&e,), text),
        call_ensures(RtcDataChannelError::text_with, (&e, io), with),
    ensures
        match e {
            RtcDataChannelError::Send(x) => {
                &&& text@ == "An error occurred during message sending: "@ + x@
                &&& with@ == text@
            },
            RtcDataChannelError::Receive(x) => {
                &&& text@ == "An error occurred during message receiving: "@ + x@
                &&& with@ == text@
            },
            RtcDataChannelError::WriteError(x) => {
                &&& with@ == "An error occurred while writing to std::io::Write: "@ + io@
                &&& exists|own: String| #[trigger]
                    describes(x, own) && text@
                        == "An error occurred while writing to std::io::Write: "@ + own@
            },
        },
{
}

} // verus!
