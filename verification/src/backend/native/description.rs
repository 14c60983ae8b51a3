//! The other side's description in the form that `libdatachannel` takes.
use crate::error::{PeerErrorView, RtcPeerConnectionError};
use crate::message::{
    law_roles_have_their_words, law_sdp_type_round_trip, sdp_type_of, sdp_type_text,
    RtcSessionDescription, SdpType,
};
use crate::sdp::{parse_sdp, parsed_sdp, sdp_error_text, write_sdp_error};
use vstd::prelude::*;
use webrtc_sdp::error::SdpParserError;
use webrtc_sdp::SdpSession;

verus! {

/// A description of the other side, parsed, with its role.
pub struct RemoteDescription {
    pub sdp: SdpSession,
    pub sdp_type: SdpType,
}

/// What comes of a description, by what the parser makes of it: the session in the role
/// that its word names, or an error with the parser's own account.
pub open spec fn is_description(
    sdp_type: Seq<char>,
    parsed: Result<SdpSession, SdpParserError>,
    r: Result<RemoteDescription, RtcPeerConnectionError>,
) -> bool {
    match parsed {
        Ok(sdp) => r == Ok::<_, RtcPeerConnectionError>(
            RemoteDescription { sdp, sdp_type: sdp_type_of(sdp_type) },
        ),
        Err(e) => r matches Err(RtcPeerConnectionError::Negotiation(text)) && text@
            == sdp_error_text(e),
    }
}

impl RemoteDescription {
    /// A description whose text has been parsed.
    pub fn from_parsed(sdp_type: &str, parsed: Result<SdpSession, SdpParserError>) -> (r: Result<
        RemoteDescription,
        RtcPeerConnectionError,
    >)
        ensures
            is_description(sdp_type@, parsed, r),
    {
        match parsed {
            Ok(sdp) => Ok(RemoteDescription { sdp, sdp_type: SdpType::from_text(sdp_type) }),
            Err(e) => Err(RtcPeerConnectionError::Negotiation(write_sdp_error(&e))),
        }
    }

    /// The description as the other peer has sent it. Questionable parts are let pass.
    pub fn parse(description: &RtcSessionDescription) -> (r: Result<
        RemoteDescription,
        RtcPeerConnectionError,
    >)
        ensures
            is_description(description.sdp_type@, parsed_sdp(description.sdp@, false), r),
    {
        let parsed = parse_sdp(description.sdp.as_str(), false);
        Self::from_parsed(description.sdp_type.as_str(), parsed)
    }
}

/// A description survives the way from one peer to the other: sent with the word for its
/// role, it is taken up in that role, as the session that its text parses to.
pub proof fn law_description_keeps_its_role(
    t: SdpType,
    sdp: SdpSession,
    r: Result<RemoteDescription, RtcPeerConnectionError>,
)
    requires
        is_description(sdp_type_text(t), Ok(sdp), r),
    ensures
        r == Ok::<_, RtcPeerConnectionError>(RemoteDescription { sdp, sdp_type: t }),
{
    law_sdp_type_round_trip(t);
}

/// The role is read off the word alone, and the session off the text alone: an answer is
/// taken up as an answer, and so on, and what is none of these as an offer.
pub proof fn law_word_decides_the_role(
    word: Seq<char>,
    sdp: SdpSession,
    r: Result<RemoteDescription, RtcPeerConnectionError>,
)
    requires
        is_description(word, Ok(sdp), r),
    ensures
        r matches Ok(d) && {
            &&& d.sdp == sdp
            &&& d.sdp_type is Answer <==> word == "answer"@
            &&& d.sdp_type is Pranswer <==> word == "pranswer"@
            &&& d.sdp_type is Rollback <==> word == "rollback"@
        },
{
    law_roles_have_their_words(word);
}

/// A text that is no description is an error of the negotiation, with the parser's own
/// account, whatever the word.
pub proof fn law_unreadable_description_is_an_error(
    word: Seq<char>,
    e: SdpParserError,
    r: Result<RemoteDescription, RtcPeerConnectionError>,
)
    requires
        is_description(word, Err(e), r),
    ensures
        r matches Err(x) && x@ == PeerErrorView::Negotiation(sdp_error_text(e)),
{
}

/// A description that one peer passes on is taken up by the other in the same role, as the
/// session that its text parses to; where the text does not parse, the parser's account is the
/// error's.
pub proof fn law_sent_description_is_taken_up(
    t: SdpType,
    d: RtcSessionDescription,
    word: String,
    r: Result<RemoteDescription, RtcPeerConnectionError>,
)
    requires
        call_ensures(SdpType::text, (t,), word),
        d.sdp_type@ == word@,
        call_ensures(RemoteDescription::parse, (&d,), r),
    ensures
        match parsed_sdp(d.sdp@, false) {
            Ok(sdp) => r == Ok::<_, RtcPeerConnectionError>(RemoteDescription { sdp, sdp_type: t }),
            Err(e) => r matches Err(x) && x@ == PeerErrorView::Negotiation(sdp_error_text(e)),
        },
{
    law_sdp_type_round_trip(t);
}

} // verus!
