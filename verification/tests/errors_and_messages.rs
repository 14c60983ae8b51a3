use rtc::text::{after_prefix, same_text};
use rtc::{RtcDataChannelError, RtcPeerConnectionError, SdpType};

#[test]
fn connection_errors_are_sentences() {
    assert_eq!(
        RtcPeerConnectionError::Creation("x".to_string()).to_text(),
        "An error occurred during connection creation: x"
    );
    assert_eq!(
        RtcPeerConnectionError::Negotiation("y".to_string()).to_text(),
        "An error occurred during channel negotiation: y"
    );
    assert_eq!(
        RtcPeerConnectionError::DataChannelMismatch("z".to_string()).to_text(),
        "The data channel configuration was not the same for both peers: z"
    );
    assert_eq!(
        RtcPeerConnectionError::IceNegotiationFailure(String::new()).to_text(),
        "ICE negotiation failed: "
    );
}

#[test]
fn channel_errors_are_sentences() {
    assert_eq!(
        RtcDataChannelError::Send("full".to_string()).to_text(),
        "An error occurred during message sending: full"
    );
    assert_eq!(
        RtcDataChannelError::Receive("gone".to_string()).to_text(),
        "An error occurred during message receiving: gone"
    );
    let io = std::io::Error::new(std::io::ErrorKind::Other, "disk full");
    assert_eq!(
        RtcDataChannelError::WriteError(io).to_text(),
        "An error occurred while writing to std::io::Write: disk full"
    );
}

#[test]
fn a_failed_write_is_described_by_the_given_text() {
    let io = std::io::Error::new(std::io::ErrorKind::Other, "disk full");
    assert_eq!(
        RtcDataChannelError::WriteError(io).text_with("no room"),
        "An error occurred while writing to std::io::Write: no room"
    );
    assert_eq!(
        RtcDataChannelError::Send("full".to_string()).text_with("no room"),
        "An error occurred during message sending: full"
    );
}

#[test]
fn roles_have_words() {
    assert_eq!(SdpType::Answer.text(), "answer");
    assert_eq!(SdpType::Offer.text(), "offer");
    assert_eq!(SdpType::Pranswer.text(), "pranswer");
    assert_eq!(SdpType::Rollback.text(), "rollback");
}

#[test]
fn words_are_read_back() {
    for t in [SdpType::Answer, SdpType::Offer, SdpType::Pranswer, SdpType::Rollback] {
        assert_eq!(SdpType::from_text(&t.text()), t);
    }
    assert_eq!(SdpType::from_text("Answer"), SdpType::Offer);
    assert_eq!(SdpType::from_text(""), SdpType::Offer);
}

#[test]
fn texts_are_compared_whole() {
    assert!(same_text("turn", "turn"));
    assert!(!same_text("turn", "turn:"));
    assert!(same_text("", ""));
}

#[test]
fn a_beginning_is_cut_off_once() {
    assert_eq!(after_prefix("turn:turn:x", "turn:"), Some("turn:x"));
    assert_eq!(after_prefix("turn:", "turn:"), Some(""));
    assert_eq!(after_prefix("turns:x", "turn:"), None);
    assert_eq!(after_prefix("tu", "turn:"), None);
    assert_eq!(after_prefix("ééa", "é"), Some("éa"));
}
