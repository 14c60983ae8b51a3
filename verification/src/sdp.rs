//! Session descriptions in the form that the `webrtc_sdp` parser gives them.
use vstd::prelude::*;
use webrtc_sdp::error::SdpParserError;
use webrtc_sdp::SdpSession;

verus! {

/// A session description, parsed.
#[verifier::external_type_specification]
#[verifier::external_body]
pub struct ExSdpSession(SdpSession);

/// Why a text is no session description.
#[verifier::external_type_specification]
#[verifier::external_body]
pub struct ExSdpParserError(SdpParserError);

/// What `webrtc_sdp::parse_sdp` makes of a text.
pub uninterp spec fn parsed_sdp(text: Seq<char>, fail_on_warning: bool) -> Result<
    SdpSession,
    SdpParserError,
>;

/// What `SdpSession`'s `Display` writes.
pub uninterp spec fn sdp_session_text(session: SdpSession) -> Seq<char>;

/// What `SdpParserError`'s `Debug` writes.
pub uninterp spec fn sdp_error_text(error: SdpParserError) -> Seq<char>;

/// `webrtc_sdp::parse_sdp`: its result is a function of its arguments.
#[verifier::external_body]
pub(crate) fn parse_sdp(text: &str, fail_on_warning: bool) -> (r: Result<
    SdpSession,
    SdpParserError,
>)
    ensures
        r == parsed_sdp(text@, fail_on_warning),
{
    webrtc_sdp::parse_sdp(text, fail_on_warning)
}

/// `SdpSession`'s `Display`: the text is a function of the session.
#[verifier::external_body]
pub(crate) fn write_sdp(session: &SdpSession) -> (r: String)
    ensures
        r@ == sdp_session_text(*session),
{
    format!("{}", session)
}

/// `SdpParserError`'s `Debug`: the text is a function of the error.
#[verifier::external_body]
pub(crate) fn write_sdp_error(error: &SdpParserError) -> (r: String)
    ensures
        r@ == sdp_error_text(*error),
{
    format!("{:?}", error)
}

} // verus!
