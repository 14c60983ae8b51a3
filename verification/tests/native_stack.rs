use rtc::backend::native::channel::channel_id;
use rtc::backend::native::{
    ConnectorAction, Notification, RemoteDescription, RtcDataChannel, RtcDataChannelEventHandlers,
    RtcPeerConnectionEventHandlers, RtcPeerConnector,
};
use rtc::delivery::Delivery;
use rtc::negotiation::{NegotiationAction, RtcNegotiationNotification};
use rtc::queue::{queue, Outbox, Polled};
use rtc::{
    RtcConfiguration, RtcDataChannelBuilder, RtcDataChannelConfiguration, RtcDataChannelError,
    RtcDataChannelReadyState, RtcIceCandidate, RtcNegotiationMessage, RtcPeerConnection,
    RtcPeerConnectionAttempt, RtcPeerConnectionError, RtcPeerConnectionState,
    RtcSessionDescription, SdpType,
};

const SDP: &str = "v=0\r\no=- 0 0 IN IP6 ::1\r\ns=-\r\nc=IN IP6 ::1\r\nt=0 0\r\n";

/// A channel of a network stack that does nothing.
struct Line {
    stream: usize,
    label: String,
}

fn stream_of(line: &Line) -> u16 {
    channel_id(line.stream)
}

fn label_of(line: &Line) -> String {
    line.label.clone()
}

fn id_of(channel: &RtcDataChannel<Line>) -> u16 {
    channel.id(|line: &Line| line.stream)
}

fn channel(label: &str, id: Option<u16>) -> RtcDataChannelBuilder {
    RtcDataChannelBuilder::new_with_options(
        label,
        RtcDataChannelConfiguration { id, ..Default::default() },
    )
}

fn request(channels: Vec<RtcDataChannelBuilder>) -> RtcPeerConnection {
    RtcPeerConnection::new(RtcConfiguration::default(), RtcPeerConnectionAttempt::Offer, channels)
}

/// A connector with every channel made, and the callbacks of the channels.
fn made(
    channels: Vec<RtcDataChannelBuilder>,
) -> (RtcPeerConnector<Line>, Vec<RtcDataChannelEventHandlers>, Outbox<Notification>) {
    let (mut outbox, inbox) = queue::<Notification>();
    let another = outbox.another();
    let mut connector: RtcPeerConnector<Line> =
        match RtcPeerConnector::connect(request(channels), outbox, inbox, Ok(())) {
            Ok(c) => c,
            Err(_) => panic!("the connection begins"),
        };
    let mut handlers = Vec::new();
    let mut action = connector.initialize_channels();
    while let ConnectorAction::CreateChannel(r) = action {
        let line = Line { stream: r.init.stream as usize, label: r.label };
        handlers.push(r.handlers);
        action = match connector.channel_created(Ok(line)) {
            Ok(a) => a,
            Err(_) => panic!("the channel is made"),
        };
    }
    (connector, handlers, another)
}

#[test]
fn a_stack_that_cannot_be_set_up_is_an_error() {
    let (outbox, inbox) = queue::<Notification>();
    let r: Result<RtcPeerConnector<Line>, RtcPeerConnectionError> =
        RtcPeerConnector::connect(request(vec![]), outbox, inbox, Err("no port".to_string()));
    assert!(matches!(r, Err(RtcPeerConnectionError::Creation(x)) if x == "no port"));
}

#[test]
fn two_channels_with_one_number_are_an_error() {
    let (outbox, inbox) = queue::<Notification>();
    let r: Result<RtcPeerConnector<Line>, RtcPeerConnectionError> = RtcPeerConnector::connect(
        request(vec![channel("a", Some(1)), channel("b", Some(1))]),
        outbox,
        inbox,
        Ok(()),
    );
    assert!(matches!(r, Err(RtcPeerConnectionError::Creation(x))
        if x == "Multiple data channels requested with the same ID"));
}

#[test]
fn a_channel_that_cannot_be_made_is_an_error() {
    let (outbox, inbox) = queue::<Notification>();
    let mut connector: RtcPeerConnector<Line> =
        match RtcPeerConnector::connect(request(vec![channel("a", None)]), outbox, inbox, Ok(())) {
            Ok(c) => c,
            Err(_) => panic!("the connection begins"),
        };
    match connector.initialize_channels() {
        ConnectorAction::CreateChannel(r) => {
            assert_eq!(r.label, "a");
            assert_eq!(r.init.stream, 0);
            assert!(r.init.negotiated);
            assert!(r.init.manual_stream);
        }
        _ => panic!("a channel is to be made"),
    }
    let r = connector.channel_created(Err("full".to_string()));
    assert!(matches!(r, Err(RtcPeerConnectionError::Creation(x)) if x == "full"));
}

#[test]
fn nothing_is_negotiated_about_no_channels() {
    let (mut connector, handlers, _another) = made(vec![]);
    assert_eq!(handlers.len(), 0);
    assert!(matches!(connector.initialize_channels(), ConnectorAction::Accept));
    assert!(matches!(connector.accept_connection(id_of), Ok(v) if v.is_empty()));
}

#[test]
fn channels_are_handed_over_in_the_order_of_the_request() {
    let (mut connector, mut handlers, _another) =
        made(vec![channel("a", None), channel("b", Some(7)), channel("c", None)]);
    assert_eq!(handlers.len(), 3);
    for k in [2usize, 0, 1] {
        drop(handlers[k].on_open());
        let a = connector.negotiate(stream_of, label_of);
        if k == 1 {
            assert!(matches!(a, Ok(ConnectorAction::Accept)));
        } else {
            assert!(matches!(a, Ok(ConnectorAction::Negotiate(NegotiationAction::Poll))));
        }
    }
    let v = match connector.accept_connection(id_of) {
        Ok(v) => v,
        Err(_) => panic!("every channel is open"),
    };
    let labels: Vec<&str> = v.iter().map(|c| c.label()).collect();
    assert_eq!(labels, vec!["a", "b", "c"]);
    let ids: Vec<u16> = v.iter().map(id_of).collect();
    assert_eq!(ids, vec![1, 7, 2]);
    assert_eq!(v[0].ready_state(), RtcDataChannelReadyState::Open);
}

#[test]
fn a_channel_is_announced_once() {
    let (mut connector, mut handlers, _another) = made(vec![channel("a", None), channel("b", None)]);
    assert!(handlers[0].on_open().is_some());
    assert!(handlers[0].on_open().is_none());
    assert!(matches!(
        connector.negotiate(stream_of, label_of),
        Ok(ConnectorAction::Negotiate(NegotiationAction::Poll))
    ));
    assert!(matches!(
        connector.negotiate(stream_of, label_of),
        Ok(ConnectorAction::Negotiate(NegotiationAction::ReceiveMessage))
    ));
}

#[test]
fn a_channel_with_an_unknown_number_is_an_error() {
    let (mut connector, _handlers, mut another) = made(vec![channel("a", None)]);
    let (_deliveries, messages) = queue::<Delivery>();
    another.post(RtcNegotiationNotification::DataChannelOpened((9, messages)));
    let r = connector.negotiate(stream_of, label_of);
    assert!(matches!(r, Err(RtcPeerConnectionError::DataChannelMismatch(x))
        if x == "Data channel IDs did not match"));
}

#[test]
fn a_failed_connection_ends_the_attempt() {
    let (mut connector, _handlers, another) = made(vec![channel("a", None)]);
    let mut callbacks = RtcPeerConnectionEventHandlers::new(another);
    callbacks.on_connection_state_change(RtcPeerConnectionState::Connected);
    assert!(matches!(
        connector.polled(Polled::Empty, stream_of, label_of),
        Ok(ConnectorAction::Negotiate(NegotiationAction::ReceiveMessage))
    ));
    assert!(matches!(
        connector.message_received(Ok(None)),
        Ok(ConnectorAction::Negotiate(NegotiationAction::Yield))
    ));
    assert!(matches!(
        connector.resume(),
        Ok(ConnectorAction::Negotiate(NegotiationAction::Poll))
    ));
    callbacks.on_connection_state_change(RtcPeerConnectionState::Failed);
    let r = connector.negotiate(stream_of, label_of);
    assert!(matches!(r, Err(RtcPeerConnectionError::IceNegotiationFailure(x))
        if x == "ICE protocol could not find a valid candidate pair."));
}

#[test]
fn candidates_and_descriptions_are_passed_on() {
    let (mut connector, _handlers, another) = made(vec![channel("a", None)]);
    let mut callbacks = RtcPeerConnectionEventHandlers::new(another);
    callbacks.on_candidate("path".to_string(), "0".to_string());
    match connector.negotiate(stream_of, label_of) {
        Ok(ConnectorAction::Negotiate(NegotiationAction::SendMessage(
            RtcNegotiationMessage::RemoteCandidate(c),
        ))) => {
            assert_eq!(c.candidate, "path");
            assert_eq!(c.sdp_mid, "0");
        }
        _ => panic!("the candidate is sent"),
    }
    assert!(matches!(
        connector.message_sent(Ok(())),
        Ok(ConnectorAction::Negotiate(NegotiationAction::Yield))
    ));
    assert!(connector.resume().is_ok());
    let session = match RemoteDescription::parse(&RtcSessionDescription {
        sdp: SDP.to_string(),
        sdp_type: "pranswer".to_string(),
    }) {
        Ok(d) => d,
        Err(_) => panic!("the text is a description"),
    };
    assert_eq!(session.sdp_type, SdpType::Pranswer);
    callbacks.on_description(&session.sdp, SdpType::Answer);
    match connector.negotiate(stream_of, label_of) {
        Ok(ConnectorAction::Negotiate(NegotiationAction::SendMessage(
            RtcNegotiationMessage::RemoteSessionDescription(d),
        ))) => {
            assert_eq!(d.sdp, SDP);
            assert_eq!(d.sdp_type, "answer");
        }
        _ => panic!("the description is sent"),
    }
}

#[test]
fn a_description_is_parsed_and_put_in_place() {
    let (mut connector, _handlers, _another) = made(vec![channel("a", None)]);
    assert!(connector.negotiate(stream_of, label_of).is_ok());
    let m = RtcNegotiationMessage::RemoteSessionDescription(RtcSessionDescription {
        sdp: SDP.to_string(),
        sdp_type: "unheard of".to_string(),
    });
    assert!(matches!(
        connector.message_received(Ok(Some(m))),
        Ok(ConnectorAction::Negotiate(NegotiationAction::CheckRemoteDescription))
    ));
    match connector.receive_negotiation_message(false) {
        Ok(ConnectorAction::Negotiate(NegotiationAction::SetRemoteDescription(d))) => {
            assert_eq!(d.sdp_type, SdpType::Offer);
            assert_eq!(d.sdp.get_origin().username, "-");
        }
        _ => panic!("the description is put in place"),
    }
    assert!(matches!(
        connector.remote_description_set(Ok(())),
        Ok(ConnectorAction::Negotiate(NegotiationAction::Yield))
    ));
    assert!(connector.resume().is_ok());
    assert!(connector.negotiate(stream_of, label_of).is_ok());
    let c = RtcIceCandidate { candidate: "path".to_string(), sdp_mid: "0".to_string() };
    assert!(connector
        .message_received(Ok(Some(RtcNegotiationMessage::RemoteCandidate(c))))
        .is_ok());
    assert!(matches!(
        connector.receive_negotiation_message(true),
        Ok(ConnectorAction::Negotiate(NegotiationAction::AddRemoteCandidate(_)))
    ));
    assert!(matches!(
        connector.add_remote_candidate(Err("no such path".to_string())),
        Err(RtcPeerConnectionError::Negotiation(x)) if x == "no such path"
    ));
}

#[test]
fn a_text_that_is_no_description_ends_the_attempt() {
    let (mut connector, _handlers, _another) = made(vec![channel("a", None)]);
    assert!(connector.negotiate(stream_of, label_of).is_ok());
    let m = RtcNegotiationMessage::RemoteSessionDescription(RtcSessionDescription {
        sdp: "nonsense".to_string(),
        sdp_type: "offer".to_string(),
    });
    assert!(connector.message_received(Ok(Some(m))).is_ok());
    let expected = match webrtc_sdp::parse_sdp("nonsense", false) {
        Err(e) => format!("{:?}", e),
        Ok(_) => panic!("no description"),
    };
    assert!(matches!(
        connector.receive_negotiation_message(false),
        Err(RtcPeerConnectionError::Negotiation(x)) if x == expected
    ));
}

#[test]
fn a_parsed_description_is_taken_as_it_is() {
    let parsed = webrtc_sdp::parse_sdp(SDP, false);
    let d = match RemoteDescription::from_parsed("rollback", parsed) {
        Ok(d) => d,
        Err(_) => panic!("a description"),
    };
    assert_eq!(d.sdp_type, SdpType::Rollback);
    assert_eq!(d.sdp.to_string(), SDP);
    let failed = webrtc_sdp::parse_sdp("", false);
    assert!(matches!(
        RemoteDescription::from_parsed("rollback", failed),
        Err(RtcPeerConnectionError::Negotiation(x)) if x.contains("empty SDP")
    ));
}

#[test]
fn lost_callbacks_are_noticed() {
    let (mut connector, _handlers, _another) = made(vec![channel("a", None)]);
    assert!(matches!(
        connector.polled(Polled::Closed, stream_of, label_of),
        Ok(ConnectorAction::Disconnected)
    ));
}

#[test]
fn messages_reach_the_channel() {
    let (mut connector, mut handlers, _another) = made(vec![channel("a", None)]);
    handlers[0].on_message(&[9]);
    drop(handlers[0].on_open());
    assert!(matches!(connector.negotiate(stream_of, label_of), Ok(ConnectorAction::Accept)));
    let mut v = match connector.accept_connection(id_of) {
        Ok(v) => v,
        Err(_) => panic!("every channel is open"),
    };
    let c = &mut v[0];
    handlers[0].on_message(&[1, 2, 3]);
    handlers[0].on_error("broken");
    handlers[0].on_closed();
    assert!(matches!(c.receive_vec(), Some(Ok(Some(m))) if m == vec![9]));
    match c.receive() {
        Some(Ok(Some(m))) => {
            assert!(matches!(RtcDataChannel::<Line>::written(&m, Ok(1)), Ok(Some(3))))
        }
        _ => panic!("the message is there"),
    }
    assert!(matches!(
        c.receive(),
        Some(Err(RtcDataChannelError::Receive(x)))
            if x == "The channel encountered an error: broken"
    ));
    assert_eq!(c.ready_state(), RtcDataChannelReadyState::Open);
    assert!(matches!(
        c.receive_vec(),
        Some(Err(RtcDataChannelError::Receive(x))) if x == "The channel was closed."
    ));
    assert_eq!(c.ready_state(), RtcDataChannelReadyState::Closed);
    assert!(matches!(c.receive_vec(), Some(Ok(None))));
    drop(handlers);
    assert!(c.receive_vec().is_none());
    assert!(c.receive().is_none());
}

#[test]
fn a_refused_message_closes_the_channel() {
    let (_outbox, inbox) = queue::<Delivery>();
    let line = Line { stream: 65536 + 5, label: "a".to_string() };
    let mut c = RtcDataChannel::new(line, "a".to_string(), inbox);
    assert_eq!(id_of(&c), 5);
    assert_eq!(c.handle().label, "a");
    assert!(c.send(Ok(())).is_ok());
    assert_eq!(c.ready_state(), RtcDataChannelReadyState::Open);
    assert!(matches!(
        c.send(Err("full".to_string())),
        Err(RtcDataChannelError::Send(x)) if x == "full"
    ));
    assert_eq!(c.ready_state(), RtcDataChannelReadyState::Closed);
}

#[test]
fn a_failed_write_is_reported() {
    let io = std::io::Error::new(std::io::ErrorKind::Other, "disk full");
    assert!(matches!(
        RtcDataChannel::<Line>::written(&vec![1], Err(io)),
        Err(RtcDataChannelError::WriteError(x)) if x.to_string() == "disk full"
    ));
}

#[test]
fn a_found_error_closes_the_channel() {
    let (_outbox, inbox) = queue::<Delivery>();
    let line = Line { stream: 0, label: "a".to_string() };
    let mut c = RtcDataChannel::new(line, "a".to_string(), inbox);
    assert!(matches!(c.deliver_vec(Polled::Empty), Some(Ok(None))));
    assert_eq!(c.ready_state(), RtcDataChannelReadyState::Open);
    let e = RtcDataChannelError::Receive("gone".to_string());
    assert!(matches!(c.deliver_vec(Polled::Item(Err(e))), Some(Err(_))));
    assert_eq!(c.ready_state(), RtcDataChannelReadyState::Closed);
}

#[test]
fn a_closed_channel_stays_closed() {
    let (mut outbox, inbox) = queue::<Delivery>();
    let line = Line { stream: 0, label: "a".to_string() };
    let mut c = RtcDataChannel::new(line, "a".to_string(), inbox);
    assert!(c.send(Err("full".to_string())).is_err());
    assert!(c.send(Ok(())).is_ok());
    outbox.post(Ok(vec![1]));
    assert!(matches!(c.receive_vec(), Some(Ok(Some(_)))));
    assert_eq!(c.ready_state(), RtcDataChannelReadyState::Closed);
}

#[test]
fn the_order_of_opening_has_no_influence() {
    for order in [[0usize, 1, 2], [0, 2, 1], [1, 0, 2], [1, 2, 0], [2, 0, 1], [2, 1, 0]] {
        let (mut connector, mut handlers, _another) =
            made(vec![channel("a", None), channel("b", Some(7)), channel("c", None)]);
        for k in order {
            drop(handlers[k].on_open());
            assert!(connector.negotiate(stream_of, label_of).is_ok());
        }
        let v = match connector.accept_connection(id_of) {
            Ok(v) => v,
            Err(_) => panic!("every channel is open"),
        };
        let seen: Vec<(u16, &str)> = v.iter().map(|c| (id_of(c), c.label())).collect();
        assert_eq!(seen, vec![(1, "a"), (7, "b"), (2, "c")]);
    }
}

#[test]
fn later_notifications_stay_queued_after_a_failure() {
    let (mut connector, mut handlers, another) = made(vec![channel("a", None)]);
    let mut callbacks = RtcPeerConnectionEventHandlers::new(another);
    callbacks.on_connection_state_change(RtcPeerConnectionState::Failed);
    drop(handlers[0].on_open());
    assert!(connector.negotiate(stream_of, label_of).is_err());
    assert!(matches!(connector.negotiate(stream_of, label_of), Ok(ConnectorAction::Accept)));
}

#[test]
fn deliveries_come_out_whole_with_the_close_last() {
    let (mut connector, mut handlers, _another) = made(vec![channel("a", None)]);
    drop(handlers[0].on_open());
    assert!(connector.negotiate(stream_of, label_of).is_ok());
    let mut v = match connector.accept_connection(id_of) {
        Ok(v) => v,
        Err(_) => panic!("every channel is open"),
    };
    for k in 0..5u8 {
        handlers[0].on_message(&[k]);
    }
    handlers[0].on_closed();
    assert!(matches!(v[0].receive_vec(), Some(Ok(Some(m))) if m == vec![0]));
    for k in 1..5u8 {
        let r = v[0].receive_vec_beside(&handlers[0]);
        assert!(matches!(r, Some(Ok(Some(m))) if m == vec![k]));
    }
    assert_eq!(v[0].ready_state(), RtcDataChannelReadyState::Open);
    assert!(matches!(
        v[0].receive_vec_beside(&handlers[0]),
        Some(Err(RtcDataChannelError::Receive(x))) if x == "The channel was closed."
    ));
    assert_eq!(v[0].ready_state(), RtcDataChannelReadyState::Closed);
    assert!(matches!(v[0].receive_vec_beside(&handlers[0]), Some(Ok(None))));
}
