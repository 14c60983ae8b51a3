use rtc::negotiation::{Negotiation, NegotiationAction, Received, Reply};
use rtc::{RtcIceCandidate, RtcNegotiationMessage, RtcPeerConnectionError, RtcSessionDescription};

type Action = NegotiationAction<RtcSessionDescription>;

fn candidate(text: &str) -> RtcIceCandidate {
    RtcIceCandidate { candidate: text.to_string(), sdp_mid: "0".to_string() }
}

fn description(sdp_type: &str) -> RtcSessionDescription {
    RtcSessionDescription { sdp: "sdp".to_string(), sdp_type: sdp_type.to_string() }
}

fn hear(n: &mut Negotiation, m: RtcNegotiationMessage, described: bool) -> Received<RtcSessionDescription> {
    let a: Action = n.idle();
    assert!(matches!(a, NegotiationAction::ReceiveMessage));
    let a: Result<Action, RtcPeerConnectionError> = n.message_received(Ok(Some(m)));
    assert!(matches!(a, Ok(NegotiationAction::CheckRemoteDescription)));
    n.receive_negotiation_message(described)
}

fn go_on(n: &mut Negotiation) {
    let a: Action = n.resume();
    assert!(matches!(a, NegotiationAction::Poll));
}

#[test]
fn a_message_is_sent_and_others_get_their_turn() {
    let mut n = Negotiation::new();
    let a: Action = n.relay(RtcNegotiationMessage::RemoteCandidate(candidate("x")));
    assert!(matches!(
        a,
        NegotiationAction::SendMessage(RtcNegotiationMessage::RemoteCandidate(c))
            if c.candidate == "x" && c.sdp_mid == "0"
    ));
    let a: Result<Action, RtcPeerConnectionError> = n.message_sent(Ok(()));
    assert!(matches!(a, Ok(NegotiationAction::Yield)));
    go_on(&mut n);
}

#[test]
fn a_message_that_cannot_be_sent_ends_the_attempt() {
    let mut n = Negotiation::new();
    let _: Action = n.relay(RtcNegotiationMessage::RemoteCandidate(candidate("x")));
    let a: Result<Action, RtcPeerConnectionError> =
        n.message_sent(Err(RtcPeerConnectionError::Creation("lost".to_string())));
    assert!(matches!(a, Err(RtcPeerConnectionError::Creation(x)) if x == "lost"));
}

#[test]
fn silence_of_the_other_peer_is_no_error() {
    let mut n = Negotiation::new();
    let _: Action = n.idle();
    let a: Result<Action, RtcPeerConnectionError> = n.message_received(Ok(None));
    assert!(matches!(a, Ok(NegotiationAction::Yield)));
    go_on(&mut n);
    let _: Action = n.idle();
    let a: Result<Action, RtcPeerConnectionError> =
        n.message_received(Err(RtcPeerConnectionError::Negotiation("deaf".to_string())));
    assert!(matches!(a, Err(RtcPeerConnectionError::Negotiation(x)) if x == "deaf"));
}

#[test]
fn kept_candidates_are_added_in_their_order() {
    let mut n = Negotiation::new();
    for text in ["one", "two"] {
        let r = hear(&mut n, RtcNegotiationMessage::RemoteCandidate(candidate(text)), false);
        assert!(matches!(r, Received::Act(NegotiationAction::Yield)));
        go_on(&mut n);
    }
    let d = match hear(
        &mut n,
        RtcNegotiationMessage::RemoteSessionDescription(description("answer")),
        false,
    ) {
        Received::Describe(d) => d,
        _ => panic!("the first description is taken up"),
    };
    assert_eq!(d.sdp_type, "answer");
    let a: Action = n.describe(d, Reply::Nothing);
    assert!(matches!(a, NegotiationAction::SetRemoteDescription(d) if d.sdp == "sdp"));
    let a: Result<Action, RtcPeerConnectionError> = n.remote_description_set(Ok(()));
    assert!(matches!(a, Ok(NegotiationAction::AddRemoteCandidate(c)) if c.candidate == "one"));
    let a: Result<Action, RtcPeerConnectionError> = n.candidate_added(Ok(()));
    assert!(matches!(a, Ok(NegotiationAction::AddRemoteCandidate(c)) if c.candidate == "two"));
    let a: Result<Action, RtcPeerConnectionError> = n.candidate_added(Ok(()));
    assert!(matches!(a, Ok(NegotiationAction::Yield)));
    go_on(&mut n);

    let r = hear(&mut n, RtcNegotiationMessage::RemoteCandidate(candidate("three")), true);
    assert!(
        matches!(r, Received::Act(NegotiationAction::AddRemoteCandidate(c)) if c.candidate == "three")
    );
    let a: Result<Action, RtcPeerConnectionError> = n.candidate_added(Ok(()));
    assert!(matches!(a, Ok(NegotiationAction::Yield)));
}

#[test]
fn a_second_description_is_passed_over() {
    let mut n = Negotiation::new();
    let r = hear(
        &mut n,
        RtcNegotiationMessage::RemoteSessionDescription(description("offer")),
        true,
    );
    assert!(matches!(r, Received::Act(NegotiationAction::Yield)));
}

#[test]
fn an_offer_is_answered_after_its_candidates() {
    let mut n = Negotiation::new();
    let _ = hear(&mut n, RtcNegotiationMessage::RemoteCandidate(candidate("one")), false);
    go_on(&mut n);
    let d = match hear(
        &mut n,
        RtcNegotiationMessage::RemoteSessionDescription(description("offer")),
        false,
    ) {
        Received::Describe(d) => d,
        _ => panic!("the first description is taken up"),
    };
    let _: Action = n.describe(d, Reply::Answer);
    let a: Result<Action, RtcPeerConnectionError> = n.remote_description_set(Ok(()));
    assert!(matches!(a, Ok(NegotiationAction::AddRemoteCandidate(_))));
    let a: Result<Action, RtcPeerConnectionError> = n.candidate_added(Ok(()));
    assert!(matches!(a, Ok(NegotiationAction::CreateAnswer)));
    let a: Result<Action, RtcPeerConnectionError> = n.answer_created(Ok(description("answer")));
    assert!(matches!(a, Ok(NegotiationAction::SetLocalDescription(d)) if d.sdp_type == "answer"));
    let a: Result<Action, RtcPeerConnectionError> = n.local_description_set(Ok(()));
    assert!(matches!(
        a,
        Ok(NegotiationAction::SendMessage(RtcNegotiationMessage::RemoteSessionDescription(d)))
            if d.sdp_type == "answer" && d.sdp == "sdp"
    ));
    let a: Result<Action, RtcPeerConnectionError> = n.message_sent(Ok(()));
    assert!(matches!(a, Ok(NegotiationAction::Yield)));
}

#[test]
fn a_refused_description_ends_the_attempt() {
    let mut n = Negotiation::new();
    let d = match hear(
        &mut n,
        RtcNegotiationMessage::RemoteSessionDescription(description("offer")),
        false,
    ) {
        Received::Describe(d) => d,
        _ => panic!("the first description is taken up"),
    };
    let _: Action = n.describe(d, Reply::Answer);
    let a: Result<Action, RtcPeerConnectionError> = n.remote_description_set(Err("bad".to_string()));
    assert!(matches!(a, Err(RtcPeerConnectionError::Negotiation(x)) if x == "bad"));
}

#[test]
fn a_refused_description_leaves_the_kept_candidates() {
    let mut n = Negotiation::new();
    let _ = hear(&mut n, RtcNegotiationMessage::RemoteCandidate(candidate("one")), false);
    go_on(&mut n);
    let d = match hear(
        &mut n,
        RtcNegotiationMessage::RemoteSessionDescription(description("answer")),
        false,
    ) {
        Received::Describe(d) => d,
        _ => panic!("the first description is taken up"),
    };
    let _: Action = n.describe(d, Reply::Nothing);
    let a: Result<Action, RtcPeerConnectionError> = n.remote_description_set(Err("bad".to_string()));
    assert!(a.is_err());
    let a: Result<Action, RtcPeerConnectionError> = n.remote_description_set(Ok(()));
    assert!(matches!(a, Ok(NegotiationAction::AddRemoteCandidate(c)) if c.candidate == "one"));
}

#[test]
fn a_refused_candidate_ends_the_attempt() {
    let mut n = Negotiation::new();
    let _ = hear(&mut n, RtcNegotiationMessage::RemoteCandidate(candidate("one")), true);
    let a: Result<Action, RtcPeerConnectionError> = n.candidate_added(Err("bad".to_string()));
    assert!(matches!(a, Err(RtcPeerConnectionError::Negotiation(x)) if x == "bad"));
}

#[test]
fn an_answer_that_fails_ends_the_attempt() {
    for at_once in [true, false] {
        let mut n = Negotiation::new();
        let d = match hear(
            &mut n,
            RtcNegotiationMessage::RemoteSessionDescription(description("offer")),
            false,
        ) {
            Received::Describe(d) => d,
            _ => panic!("the first description is taken up"),
        };
        let _: Action = n.describe(d, Reply::Answer);
        let a: Result<Action, RtcPeerConnectionError> = n.remote_description_set(Ok(()));
        assert!(matches!(a, Ok(NegotiationAction::CreateAnswer)));
        let a: Result<Action, RtcPeerConnectionError> = if at_once {
            n.answer_created(Err("no".to_string()))
        } else {
            let _: Result<Action, RtcPeerConnectionError> =
                n.answer_created(Ok(description("answer")));
            n.local_description_set(Err("no".to_string()))
        };
        assert!(matches!(a, Err(RtcPeerConnectionError::Negotiation(x)) if x == "no"));
    }
}
