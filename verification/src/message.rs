//! What two peers tell each other while they negotiate.
use crate::text::same_text;
use vstd::prelude::*;

verus! {

/// A message of the negotiation, from one peer to the other.
#[derive(Debug, Clone)]
pub enum RtcNegotiationMessage {
    RemoteCandidate(RtcIceCandidate),
    RemoteSessionDescription(RtcSessionDescription),
}

/// A network path on which the sender can perhaps be reached.
#[derive(Debug, Clone)]
pub struct RtcIceCandidate {
    pub candidate: String,
    pub sdp_mid: String,
}

/// One side's description of the session, with its role in the negotiation.
#[derive(Debug, Clone)]
pub struct RtcSessionDescription {
    pub sdp: String,
    pub sdp_type: String,
}

/// The role of a session description in the negotiation.
#[derive(Copy, Clone, PartialEq, Eq, Structural, Debug)]
pub enum SdpType {
    Answer,
    Offer,
    Pranswer,
    Rollback,
}

/// A candidate by its texts.
pub struct CandidateView {
    pub candidate: Seq<char>,
    pub sdp_mid: Seq<char>,
}

/// A description by its texts.
pub struct DescriptionView {
    pub sdp: Seq<char>,
    pub sdp_type: Seq<char>,
}

/// A message by its texts.
pub enum MessageView {
    RemoteCandidate(CandidateView),
    RemoteSessionDescription(DescriptionView),
}

impl View for RtcIceCandidate {
    type V = CandidateView;

    open spec fn view(&self) -> CandidateView {
        CandidateView { candidate: self.candidate@, sdp_mid: self.sdp_mid@ }
    }
}

impl View for RtcSessionDescription {
    type V = DescriptionView;

    open spec fn view(&self) -> DescriptionView {
        DescriptionView { sdp: self.sdp@, sdp_type: self.sdp_type@ }
    }
}

impl View for RtcNegotiationMessage {
    type V = MessageView;

    open spec fn view(&self) -> MessageView {
        match self {
            RtcNegotiationMessage::RemoteCandidate(c) => MessageView::RemoteCandidate(c@),
            RtcNegotiationMessage::RemoteSessionDescription(d) =>
                MessageView::RemoteSessionDescription(d@),
        }
    }
}

/// The word that stands for a role on the wire.
pub open spec fn sdp_type_text(t: SdpType) -> Seq<char> {
    match t {
        SdpType::Answer => "answer"@,
        SdpType::Offer => "offer"@,
        SdpType::Pranswer => "pranswer"@,
        SdpType::Rollback => "rollback"@,
    }
}

/// The role that a word on the wire stands for; an unknown word counts as an offer.
pub open spec fn sdp_type_of(text: Seq<char>) -> SdpType {
    if text == "answer"@ {
        SdpType::Answer
    } else if text == "pranswer"@ {
        SdpType::Pranswer
    } else if text == "rollback"@ {
        SdpType::Rollback
    } else {
        SdpType::Offer
    }
}

impl SdpType {
    /// The word for this role.
    pub fn text(self) -> (r: String)
        ensures
            r@ == sdp_type_text(self),
    {
        match self {
            SdpType::Answer => "answer".to_string(),
            SdpType::Offer => "offer".to_string(),
            SdpType::Pranswer => "pranswer".to_string(),
            SdpType::Rollback => "rollback".to_string(),
        }
    }

    /// The role for a word; any word that is not a role is read as an offer.
    pub fn from_text(text: &str) -> (r: SdpType)
        ensures
            r == sdp_type_of(text@),
    {
        if same_text(text, "answer") {
            SdpType::Answer
        } else if same_text(text, "offer") {
            proof {
                law_sdp_type_round_trip(SdpType::Offer);
            }
            SdpType::Offer
        } else if same_text(text, "pranswer") {
            SdpType::Pranswer
        } else if same_text(text, "rollback") {
            SdpType::Rollback
        } else {
            SdpType::Offer
        }
    }
}

/// A role survives the way over the wire: reading the word for it gives it back.
pub proof fn law_sdp_type_round_trip(t: SdpType)
    ensures
        sdp_type_of(sdp_type_text(t)) == t,
{
    reveal_strlit("answer");
    reveal_strlit("offer");
    reveal_strlit("pranswer");
    reveal_strlit("rollback");
    assert("answer"@[0] == 'a');
    assert("offer"@[0] == 'o');
    assert("pranswer"@[0] == 'p');
    assert("rollback"@[0] == 'r');
}

/// The words on the wire are those that every peer understands, and every other word is read
/// as an offer.
pub proof fn law_roles_have_their_words(word: Seq<char>)
    ensures
        sdp_type_text(SdpType::Answer) == "answer"@,
        sdp_type_text(SdpType::Offer) == "offer"@,
        sdp_type_text(SdpType::Pranswer) == "pranswer"@,
        sdp_type_text(SdpType::Rollback) == "rollback"@,
        sdp_type_of(word) is Answer <==> word == "answer"@,
        sdp_type_of(word) is Pranswer <==> word == "pranswer"@,
        sdp_type_of(word) is Rollback <==> word == "rollback"@,
        sdp_type_of(word) is Offer <==> word != "answer"@ && word != "pranswer"@ && word
            != "rollback"@,
{
    law_sdp_type_round_trip(SdpType::Answer);
    law_sdp_type_round_trip(SdpType::Pranswer);
    law_sdp_type_round_trip(SdpType::Rollback);
}

/// A message is known by its texts, each in its own place.
pub proof fn law_messages_are_known_by_their_texts(
    c: RtcIceCandidate,
    d: RtcSessionDescription,
)
    ensures
        c@.candidate == c.candidate@,
        c@.sdp_mid == c.sdp_mid@,
        d@.sdp == d.sdp@,
        d@.sdp_type == d.sdp_type@,
        RtcNegotiationMessage::RemoteCandidate(c)@ == MessageView::RemoteCandidate(c@),
        RtcNegotiationMessage::RemoteSessionDescription(d)@
            == MessageView::RemoteSessionDescription(d@),
{
}

/// The word that one peer writes for a role is read as that role by the other.
pub proof fn law_written_role_is_read_back(t: SdpType, word: String, text: &str, r: SdpType)
    requires
        call_ensures(SdpType::text, (t,), word),
        text@ == word@,
        call_ensures(SdpType::from_text, (text,), r),
    ensures
        r == t,
{
    law_sdp_type_round_trip(t);
}

/// The role that is read off a word is the one whose word it is, and an offer where it is none
/// of the words.
pub proof fn law_role_is_read_off_the_word(text: &str, r: SdpType)
    requires
        call_ensures(SdpType::from_text, (text,), r),
    ensures
        r is Answer <==> text@ == "answer"@,
        r is Pranswer <==> text@ == "pranswer"@,
        r is Rollback <==> text@ == "rollback"@,
{
    law_roles_have_their_words(text@);
}

} // verus!
