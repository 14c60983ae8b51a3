use rtc::backend::handshake::{Handshake, HandshakeAction, LocalOffer};
use rtc::backend::{native_pion, wasm};
use rtc::delivery::Delivery;
use rtc::negotiation::{NegotiationAction, RtcNegotiationNotification};
use rtc::queue::{queue, Polled};
use rtc::{
    RtcConfiguration, RtcDataChannelBuilder, RtcDataChannelConfiguration, RtcDataChannelError,
    RtcIceCandidate, RtcNegotiationMessage, RtcPeerConnection, RtcPeerConnectionAttempt,
    RtcPeerConnectionError, RtcSessionDescription,
};

fn channel(label: &str, id: Option<u16>) -> RtcDataChannelBuilder {
    RtcDataChannelBuilder::new_with_options(
        label,
        RtcDataChannelConfiguration { id, ..Default::default() },
    )
}

fn request(
    attempt: RtcPeerConnectionAttempt,
    channels: Vec<RtcDataChannelBuilder>,
) -> RtcPeerConnection {
    RtcPeerConnection::new(RtcConfiguration::default(), attempt, channels)
}

fn answering(total: usize) -> Handshake<u16> {
    let (_outbox, inbox) = queue();
    let mut h = Handshake::new(total, &RtcPeerConnectionAttempt::Answer, inbox);
    let mut a = h.initialize_channels();
    while let HandshakeAction::CreateChannel(_) = a {
        a = h.channel_created();
    }
    assert!(matches!(a, HandshakeAction::Negotiate(NegotiationAction::Poll)));
    h
}

fn offer(sdp_type: Option<&str>) -> LocalOffer {
    LocalOffer { sdp: "mine".to_string(), sdp_type: sdp_type.map(|t| t.to_string()) }
}

fn description(sdp_type: &str) -> RtcSessionDescription {
    RtcSessionDescription { sdp: "theirs".to_string(), sdp_type: sdp_type.to_string() }
}

#[test]
fn the_offer_is_sent_when_every_channel_is_made() {
    let (_outbox, inbox) = queue();
    let mut h: Handshake<u16> = Handshake::new(2, &RtcPeerConnectionAttempt::Offer, inbox);
    assert!(matches!(h.initialize_channels(), HandshakeAction::CreateChannel(0)));
    assert!(matches!(h.channel_created(), HandshakeAction::CreateChannel(1)));
    assert!(matches!(h.channel_created(), HandshakeAction::CreateOffer));
    assert!(matches!(h.offer_created(Ok(offer(Some("offer")))), Ok(HandshakeAction::CommitOffer)));
    match h.offer_committed(Ok(())) {
        Ok(HandshakeAction::Negotiate(NegotiationAction::SendMessage(
            RtcNegotiationMessage::RemoteSessionDescription(d),
        ))) => {
            assert_eq!(d.sdp, "mine");
            assert_eq!(d.sdp_type, "offer");
        }
        _ => panic!("the offer is sent"),
    }
    assert!(matches!(
        h.message_sent(Ok(())),
        Ok(HandshakeAction::Negotiate(NegotiationAction::Poll))
    ));
}

#[test]
fn an_offer_that_fails_ends_the_attempt() {
    let (_outbox, inbox) = queue();
    let mut h: Handshake<u16> = Handshake::new(0, &RtcPeerConnectionAttempt::Offer, inbox);
    assert!(matches!(h.initialize_channels(), HandshakeAction::CreateOffer));
    assert!(matches!(
        h.offer_created(Err("no".to_string())),
        Err(RtcPeerConnectionError::Negotiation(x)) if x == "no"
    ));

    let (_outbox, inbox) = queue();
    let mut h: Handshake<u16> = Handshake::new(0, &RtcPeerConnectionAttempt::Offer, inbox);
    let _ = h.initialize_channels();
    assert!(h.offer_created(Ok(offer(Some("offer")))).is_ok());
    assert!(matches!(
        h.offer_committed(Err("not here".to_string())),
        Err(RtcPeerConnectionError::Negotiation(x)) if x == "not here"
    ));

    let (_outbox, inbox) = queue();
    let mut h: Handshake<u16> = Handshake::new(0, &RtcPeerConnectionAttempt::Offer, inbox);
    let _ = h.initialize_channels();
    assert!(h.offer_created(Ok(offer(None))).is_ok());
    assert!(matches!(
        h.offer_committed(Ok(())),
        Err(RtcPeerConnectionError::Negotiation(x)) if x == "Unexpected SDP type"
    ));

    let (_outbox, inbox) = queue();
    let mut h: Handshake<u16> = Handshake::new(0, &RtcPeerConnectionAttempt::Offer, inbox);
    let _ = h.initialize_channels();
    assert!(h.offer_created(Ok(offer(Some("offer")))).is_ok());
    assert!(h.offer_committed(Ok(())).is_ok());
    assert!(matches!(
        h.message_sent(Err(RtcPeerConnectionError::Creation("lost".to_string()))),
        Err(RtcPeerConnectionError::Creation(x)) if x == "lost"
    ));
}

#[test]
fn nothing_is_waited_for_without_channels() {
    let (_outbox, inbox) = queue();
    let mut h: Handshake<u16> = Handshake::new(0, &RtcPeerConnectionAttempt::Answer, inbox);
    assert!(matches!(h.initialize_channels(), HandshakeAction::Accept));
    assert_eq!(h.into_channels(), Vec::<u16>::new());
}

#[test]
fn channels_are_kept_as_they_open() {
    let mut h = answering(2);
    assert!(matches!(
        h.polled(Polled::Item(RtcNegotiationNotification::DataChannelOpened(8))),
        Ok(HandshakeAction::Negotiate(NegotiationAction::Poll))
    ));
    assert!(matches!(
        h.polled(Polled::Item(RtcNegotiationNotification::DataChannelOpened(3))),
        Ok(HandshakeAction::Accept)
    ));
    assert_eq!(h.into_channels(), vec![8, 3]);
}

#[test]
fn a_notification_is_looked_for() {
    let (mut outbox, inbox) = queue();
    let mut h: Handshake<u16> = Handshake::new(1, &RtcPeerConnectionAttempt::Answer, inbox);
    let _ = h.initialize_channels();
    let _ = h.channel_created();
    outbox.post(RtcNegotiationNotification::DataChannelOpened(4));
    assert!(matches!(h.negotiate(), Ok(HandshakeAction::Accept)));
    assert_eq!(h.into_channels(), vec![4]);
}

#[test]
fn a_failure_or_the_loss_of_the_callbacks_is_noticed() {
    let mut h = answering(1);
    let e = RtcPeerConnectionError::IceNegotiationFailure("far".to_string());
    assert!(matches!(
        h.polled(Polled::Item(RtcNegotiationNotification::Failed(e))),
        Err(RtcPeerConnectionError::IceNegotiationFailure(x)) if x == "far"
    ));
    let mut h = answering(1);
    assert!(matches!(h.polled(Polled::Closed), Ok(HandshakeAction::Disconnected)));
}

#[test]
fn an_offer_of_the_other_side_is_answered() {
    let mut h = answering(1);
    assert!(matches!(
        h.polled(Polled::Empty),
        Ok(HandshakeAction::Negotiate(NegotiationAction::ReceiveMessage))
    ));
    let m = RtcNegotiationMessage::RemoteSessionDescription(description("offer"));
    assert!(matches!(
        h.message_received(Ok(Some(m))),
        Ok(HandshakeAction::Negotiate(NegotiationAction::CheckRemoteDescription))
    ));
    assert!(matches!(
        h.receive_negotiation_message(false),
        Ok(HandshakeAction::Negotiate(NegotiationAction::SetRemoteDescription(d)))
            if d.sdp == "theirs"
    ));
    assert!(matches!(
        h.remote_description_set(Ok(())),
        Ok(HandshakeAction::Negotiate(NegotiationAction::CreateAnswer))
    ));
    let answer = wasm::answer_description("reply".to_string());
    assert!(matches!(
        h.answer_created(Ok(answer)),
        Ok(HandshakeAction::Negotiate(NegotiationAction::SetLocalDescription(d)))
            if d.sdp == "reply" && d.sdp_type == "answer"
    ));
    assert!(matches!(
        h.local_description_set(Ok(())),
        Ok(HandshakeAction::Negotiate(NegotiationAction::SendMessage(
            RtcNegotiationMessage::RemoteSessionDescription(d)
        ))) if d.sdp == "reply" && d.sdp_type == "answer"
    ));
    assert!(matches!(
        h.message_sent(Ok(())),
        Ok(HandshakeAction::Negotiate(NegotiationAction::Yield))
    ));
    assert!(matches!(h.resume(), Ok(HandshakeAction::Negotiate(NegotiationAction::Poll))));
}

#[test]
fn an_answer_of_the_other_side_is_not_answered() {
    let mut h = answering(1);
    assert!(h.polled(Polled::Empty).is_ok());
    let c = RtcIceCandidate { candidate: "path".to_string(), sdp_mid: "0".to_string() };
    assert!(h.message_received(Ok(Some(RtcNegotiationMessage::RemoteCandidate(c)))).is_ok());
    assert!(matches!(
        h.receive_negotiation_message(false),
        Ok(HandshakeAction::Negotiate(NegotiationAction::Yield))
    ));
    assert!(h.resume().is_ok());
    assert!(h.polled(Polled::Empty).is_ok());
    let m = RtcNegotiationMessage::RemoteSessionDescription(description("answer"));
    assert!(h.message_received(Ok(Some(m))).is_ok());
    assert!(h.receive_negotiation_message(false).is_ok());
    assert!(matches!(
        h.remote_description_set(Ok(())),
        Ok(HandshakeAction::Negotiate(NegotiationAction::AddRemoteCandidate(c)))
            if c.candidate == "path"
    ));
    assert!(matches!(
        h.add_remote_candidate(Ok(())),
        Ok(HandshakeAction::Negotiate(NegotiationAction::Yield))
    ));
}

#[test]
fn the_browser_needs_numbers_that_differ() {
    let (_outbox, inbox) = queue::<RtcNegotiationNotification<u16>>();
    let r = wasm::RtcPeerConnector::connect(
        request(
            RtcPeerConnectionAttempt::Offer,
            vec![channel("a", Some(1)), channel("b", Some(1))],
        ),
        inbox,
        Ok(()),
    );
    assert!(matches!(r, Err(RtcPeerConnectionError::Creation(x))
        if x == "Multiple data channels requested with the same ID"));
    let (_outbox, inbox) = queue::<RtcNegotiationNotification<u16>>();
    let r = wasm::RtcPeerConnector::connect(
        request(RtcPeerConnectionAttempt::Offer, vec![]),
        inbox,
        Err("blocked".to_string()),
    );
    assert!(matches!(r, Err(RtcPeerConnectionError::Creation(x)) if x == "blocked"));
}

#[test]
fn the_browser_hands_channels_over_in_the_order_of_the_request() {
    let (_outbox, inbox) = queue::<RtcNegotiationNotification<u16>>();
    let (c, mut h) = match wasm::RtcPeerConnector::connect(
        request(RtcPeerConnectionAttempt::Answer, vec![channel("a", Some(6)), channel("b", None)]),
        inbox,
        Ok(()),
    ) {
        Ok(r) => r,
        Err(_) => panic!("the connection begins"),
    };
    let first = c.channel_request(0);
    assert_eq!(first.label, "a");
    assert_eq!(first.init.id, Some(6));
    assert_eq!(first.init.negotiated, None);
    let second = c.channel_request(1);
    assert_eq!(second.init.id, Some(1));
    assert_eq!(second.init.negotiated, Some(true));
    assert!(matches!(h.initialize_channels(), HandshakeAction::CreateChannel(0)));
    let id_of = |x: &u16| -> u16 { *x };
    assert!(matches!(c.accept_connection(vec![1u16, 6], id_of), Ok(v) if v == vec![6, 1]));
    assert!(matches!(
        c.accept_connection(vec![1u16, 2], id_of),
        Err(RtcPeerConnectionError::DataChannelMismatch(x))
            if x == "Data channel IDs did not match"
    ));
    assert!(c.accept_connection(vec![1u16, 1], id_of).is_err());
}

#[test]
fn the_browser_tells_of_candidates() {
    let (outbox, mut inbox) = queue::<RtcNegotiationNotification<u16>>();
    let mut callbacks = wasm::RtcPeerConnectionEventHandlers::new(outbox);
    let mut other = callbacks.another();
    callbacks.on_ice_candidate(Some(wasm::FoundCandidate {
        candidate: "path".to_string(),
        sdp_mid: Some("0".to_string()),
    }));
    callbacks.on_ice_candidate(Some(wasm::FoundCandidate {
        candidate: "way".to_string(),
        sdp_mid: None,
    }));
    other.on_ice_candidate(None);
    for (candidate, mid) in [("path", "0"), ("way", ""), ("", "")] {
        match inbox.poll() {
            Polled::Item(RtcNegotiationNotification::SendMessage(
                RtcNegotiationMessage::RemoteCandidate(c),
            )) => {
                assert_eq!(c.candidate, candidate);
                assert_eq!(c.sdp_mid, mid);
            }
            _ => panic!("the candidate is told"),
        }
    }
    other.on_data_channel_open(5);
    assert!(matches!(
        inbox.poll(),
        Polled::Item(RtcNegotiationNotification::DataChannelOpened(5))
    ));
}

#[test]
fn the_browser_tells_of_a_failure_only() {
    let (outbox, mut inbox) = queue::<RtcNegotiationNotification<u16>>();
    let mut callbacks = wasm::RtcPeerConnectionEventHandlers::new(outbox);
    callbacks.on_connection_state_change("connected");
    assert!(matches!(inbox.poll(), Polled::Empty));
    callbacks.on_connection_state_change("failed");
    assert!(matches!(
        inbox.poll(),
        Polled::Item(RtcNegotiationNotification::Failed(
            RtcPeerConnectionError::IceNegotiationFailure(x)
        )) if x == "ICE protocol could not find a valid candidate pair."
    ));
}

#[test]
fn the_browser_delivers_messages() {
    let (message_send, message_recv) = queue::<Delivery>();
    let mut callbacks = wasm::RtcDataChannelEventHandlers::new(message_send);
    let mut c = wasm::RtcDataChannel::new(11u8, "chat".to_string(), message_recv);
    assert_eq!(*c.handle(), 11);
    assert_eq!(c.label(), "chat");
    assert!(matches!(c.receive_vec(), Some(Ok(None))));
    callbacks.on_message(Ok(vec![1, 2]));
    callbacks.on_message(Err("text".to_string()));
    callbacks.on_close("bye".to_string());
    match c.receive() {
        Some(Ok(Some(m))) => {
            assert!(matches!(wasm::RtcDataChannel::<u8>::written(&m, Ok(2)), Ok(Some(2))))
        }
        _ => panic!("the message is there"),
    }
    assert!(matches!(
        c.receive_vec(),
        Some(Err(RtcDataChannelError::Receive(x))) if x == "text"
    ));
    assert!(matches!(c.receive(), Some(Err(RtcDataChannelError::Receive(x))) if x == "bye"));
    drop(callbacks);
    assert!(c.receive_vec().is_none());
    assert!(wasm::RtcDataChannel::<u8>::send(Ok(())).is_ok());
    assert!(matches!(
        wasm::RtcDataChannel::<u8>::send(Err("full".to_string())),
        Err(RtcDataChannelError::Send(x)) if x == "full"
    ));
    let io = std::io::Error::new(std::io::ErrorKind::Other, "disk full");
    assert!(matches!(
        wasm::RtcDataChannel::<u8>::written(&vec![1], Err(io)),
        Err(RtcDataChannelError::WriteError(_))
    ));
}

#[test]
fn without_a_browser_equal_numbers_go_out_as_they_are() {
    let (_outbox, inbox) = queue::<RtcNegotiationNotification<u16>>();
    let (c, _h) = match native_pion::RtcPeerConnector::<u16>::connect(
        request(
            RtcPeerConnectionAttempt::Offer,
            vec![channel("a", Some(1)), channel("b", Some(1)), channel("c", None)],
        ),
        inbox,
        Ok(()),
    ) {
        Ok(r) => r,
        Err(_) => panic!("the connection begins"),
    };
    assert_eq!(c.channel_request(0).init.id, Some(1));
    assert_eq!(c.channel_request(1).init.id, Some(1));
    assert_eq!(c.channel_request(2).init.id, None);
}

#[test]
fn without_a_browser_channels_are_told_apart_by_what_they_are() {
    let (_outbox, inbox) = queue::<RtcNegotiationNotification<u16>>();
    let (mut c, mut h) = match native_pion::RtcPeerConnector::<u16>::connect(
        request(RtcPeerConnectionAttempt::Answer, vec![channel("a", None), channel("b", None)]),
        inbox,
        Ok(()),
    ) {
        Ok(r) => r,
        Err(_) => panic!("the connection begins"),
    };
    assert!(matches!(h.initialize_channels(), HandshakeAction::CreateChannel(0)));
    assert!(matches!(c.channel_created(&mut h, Ok(70)), Ok(HandshakeAction::CreateChannel(1))));
    assert!(matches!(
        c.channel_created(&mut h, Ok(80)),
        Ok(HandshakeAction::Negotiate(NegotiationAction::Poll))
    ));
    let same = |x: &u16, y: &u16| -> bool { x == y };
    assert!(matches!(c.accept_connection(vec![80u16, 70], same), Ok(v) if v == vec![70, 80]));
    assert!(matches!(
        c.accept_connection(vec![80u16, 90], same),
        Err(RtcPeerConnectionError::DataChannelMismatch(x))
            if x == "Data channel IDs did not match"
    ));
}

#[test]
fn without_a_browser_a_refused_channel_is_an_error() {
    let (_outbox, inbox) = queue::<RtcNegotiationNotification<u16>>();
    let (mut c, mut h) = match native_pion::RtcPeerConnector::<u16>::connect(
        request(RtcPeerConnectionAttempt::Answer, vec![channel("a", None)]),
        inbox,
        Ok(()),
    ) {
        Ok(r) => r,
        Err(_) => panic!("the connection begins"),
    };
    let _ = h.initialize_channels();
    assert!(matches!(
        c.channel_created(&mut h, Err("full".to_string())),
        Err(RtcPeerConnectionError::Creation(x)) if x == "full"
    ));
    let (_outbox, inbox) = queue::<RtcNegotiationNotification<u16>>();
    let r = native_pion::RtcPeerConnector::<u16>::connect(
        request(RtcPeerConnectionAttempt::Answer, vec![]),
        inbox,
        Err("no port".to_string()),
    );
    assert!(matches!(r, Err(RtcPeerConnectionError::Creation(x)) if x == "no port"));
}

#[test]
fn without_a_browser_the_end_of_the_search_is_not_told() {
    let (outbox, mut inbox) = queue::<RtcNegotiationNotification<u16>>();
    let mut callbacks = native_pion::RtcPeerConnectionEventHandlers::new(outbox);
    let mut other = callbacks.another();
    callbacks.on_ice_candidate(None);
    assert!(matches!(inbox.poll(), Polled::Empty));
    let c = RtcIceCandidate { candidate: "path".to_string(), sdp_mid: "0".to_string() };
    callbacks.on_ice_candidate(Some(c));
    assert!(matches!(
        inbox.poll(),
        Polled::Item(RtcNegotiationNotification::SendMessage(
            RtcNegotiationMessage::RemoteCandidate(c)
        )) if c.candidate == "path"
    ));
    other.on_open(5);
    assert!(matches!(
        inbox.poll(),
        Polled::Item(RtcNegotiationNotification::DataChannelOpened(5))
    ));
}

#[test]
fn without_a_browser_messages_are_delivered() {
    let (mut c, mut callbacks) = native_pion::RtcDataChannel::new(11u8);
    assert_eq!(*c.handle(), 11);
    callbacks.on_message(vec![1, 2]);
    callbacks.on_error("broken".to_string());
    callbacks.on_close();
    match c.receive() {
        Some(Ok(Some(m))) => {
            assert!(matches!(native_pion::RtcDataChannel::<u8>::written(&m), Ok(Some(2))))
        }
        _ => panic!("the message is there"),
    }
    assert!(matches!(
        c.receive_vec(),
        Some(Err(RtcDataChannelError::Receive(x))) if x == "broken"
    ));
    assert!(matches!(
        c.receive_vec(),
        Some(Err(RtcDataChannelError::Receive(x))) if x == "Channel closed."
    ));
    assert!(matches!(c.receive(), Some(Ok(None))));
    assert!(native_pion::RtcDataChannel::<u8>::send(Ok(())).is_ok());
    assert!(matches!(
        native_pion::RtcDataChannel::<u8>::send(Err("full".to_string())),
        Err(RtcDataChannelError::Send(x)) if x == "full"
    ));
}

#[test]
fn an_opening_channel_ends_the_wait_of_kept_candidates() {
    let mut h = answering(2);
    assert!(h.polled(Polled::Empty).is_ok());
    let c = RtcIceCandidate { candidate: "path".to_string(), sdp_mid: "0".to_string() };
    assert!(h.message_received(Ok(Some(RtcNegotiationMessage::RemoteCandidate(c)))).is_ok());
    assert!(h.receive_negotiation_message(false).is_ok());
    assert!(h.resume().is_ok());
    assert!(matches!(
        h.polled(Polled::Item(RtcNegotiationNotification::DataChannelOpened(8))),
        Ok(HandshakeAction::Negotiate(NegotiationAction::Poll))
    ));
    assert!(h.polled(Polled::Empty).is_ok());
    let m = RtcNegotiationMessage::RemoteSessionDescription(description("answer"));
    assert!(h.message_received(Ok(Some(m))).is_ok());
    assert!(h.receive_negotiation_message(false).is_ok());
    assert!(matches!(
        h.remote_description_set(Ok(())),
        Ok(HandshakeAction::Negotiate(NegotiationAction::Yield))
    ));
}

#[test]
fn the_browser_reports_a_close_after_the_messages() {
    let (message_send, message_recv) = queue::<Delivery>();
    let mut callbacks = wasm::RtcDataChannelEventHandlers::new(message_send);
    let mut c = wasm::RtcDataChannel::new(11u8, "chat".to_string(), message_recv);
    for k in 0..4u8 {
        callbacks.on_message(Ok(vec![k]));
    }
    callbacks.on_close("bye".to_string());
    for k in 0..4u8 {
        assert!(matches!(c.receive_vec_beside(&callbacks), Some(Ok(Some(m))) if m == vec![k]));
    }
    assert!(matches!(
        c.receive_vec_beside(&callbacks),
        Some(Err(RtcDataChannelError::Receive(x))) if x == "bye"
    ));
    assert!(matches!(c.receive_vec_beside(&callbacks), Some(Ok(None))));
}

#[test]
fn without_a_browser_a_close_is_reported_after_the_messages() {
    let (mut c, mut callbacks) = native_pion::RtcDataChannel::new(11u8);
    for k in 0..4u8 {
        callbacks.on_message(vec![k]);
    }
    callbacks.on_close();
    for k in 0..4u8 {
        assert!(matches!(c.receive_vec_beside(&callbacks), Some(Ok(Some(m))) if m == vec![k]));
    }
    assert!(matches!(
        c.receive_vec_beside(&callbacks),
        Some(Err(RtcDataChannelError::Receive(x))) if x == "Channel closed."
    ));
    assert!(matches!(c.receive_vec_beside(&callbacks), Some(Ok(None))));
}
