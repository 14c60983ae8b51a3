use rtc::backend::init::{ChannelRequest, RtcDataChannelInit};
use rtc::backend::native::{format_ice_url, DataChannelInit, RtcConfig};
use rtc::{
    RtcConfiguration, RtcDataChannelBuilder, RtcDataChannelConfiguration,
    RtcDataChannelReadyState, RtcIceServer, RtcIceTransportPolicy,
};

fn some(text: &str) -> Option<String> {
    Some(text.to_string())
}

#[test]
fn a_server_has_one_address_at_first() {
    let server = RtcIceServer::new("stun:example.org");
    assert_eq!(server.urls, vec!["stun:example.org".to_string()]);
    assert_eq!(server.username, None);
    assert_eq!(server.credential, None);
    assert_eq!(RtcIceServer::default().urls.len(), 0);
}

#[test]
fn any_path_may_be_used_at_first() {
    assert_eq!(RtcIceTransportPolicy::default(), RtcIceTransportPolicy::All);
    let x = RtcConfiguration::default();
    assert_eq!(x.ice_servers.len(), 0);
    assert_eq!(x.ice_transport_policy, RtcIceTransportPolicy::All);
}

#[test]
fn a_relay_address_carries_the_login() {
    assert_eq!(format_ice_url("host:1", &None, &None), "turn:host:1");
    assert_eq!(format_ice_url("host:1", &some("ann"), &None), "turn:ann@host:1");
    assert_eq!(format_ice_url("host:1", &some("ann"), &some("pw")), "turn:ann:pw@host:1");
    assert_eq!(format_ice_url("host:1", &None, &some("pw")), "turn:host:1");
}

#[test]
fn only_relay_addresses_are_rewritten() {
    let x = RtcConfiguration {
        ice_servers: vec![
            RtcIceServer {
                urls: vec!["turn:a".to_string(), "stun:b".to_string(), "turns:c".to_string()],
                username: some("ann"),
                credential: some("pw"),
            },
            RtcIceServer::default(),
            RtcIceServer::new("turn:turn:d"),
        ],
        ice_transport_policy: RtcIceTransportPolicy::Relay,
    };
    let r = RtcConfig::from(&x);
    assert_eq!(
        r.ice_servers,
        vec![
            "turn:ann:pw@a".to_string(),
            "stun:b".to_string(),
            "turns:c".to_string(),
            "turn:turn:d".to_string(),
        ]
    );
    assert_eq!(r.ice_transport_policy, RtcIceTransportPolicy::Relay);
}

#[test]
fn an_unset_option_has_its_default() {
    let r = DataChannelInit::from(&RtcDataChannelConfiguration::default());
    assert_eq!(r.protocol, "");
    assert!(!r.unordered);
    assert!(!r.unreliable);
    assert_eq!(r.max_packet_life_time, 0);
    assert_eq!(r.max_retransmits, 0);
    assert!(!r.negotiated);
    assert!(!r.manual_stream);
    assert_eq!(r.stream, 0);
}

#[test]
fn options_are_passed_on() {
    let r = DataChannelInit::from(&RtcDataChannelConfiguration {
        ordered: Some(false),
        max_packet_life_time: Some(30),
        max_retransmits: Some(4),
        protocol: some("chat"),
        negotiated: Some(true),
        id: Some(9),
    });
    assert_eq!(r.protocol, "chat");
    assert!(r.unordered);
    assert!(r.unreliable);
    assert_eq!(r.max_packet_life_time, 30);
    assert_eq!(r.max_retransmits, 4);
    assert!(r.negotiated);
    assert!(r.manual_stream);
    assert_eq!(r.stream, 9);
}

#[test]
fn options_are_passed_on_one_by_one() {
    let x = RtcDataChannelConfiguration {
        ordered: Some(false),
        max_packet_life_time: Some(30),
        max_retransmits: None,
        protocol: some("chat"),
        negotiated: Some(false),
        id: Some(9),
    };
    let r = RtcDataChannelInit::from(&x);
    assert_eq!(r.max_packet_life_time, Some(30));
    assert_eq!(r.max_retransmits, None);
    assert_eq!(r.protocol, some("chat"));
    assert_eq!(r.negotiated, Some(false));
    assert_eq!(r.id, Some(9));

    let request = ChannelRequest::from(&RtcDataChannelBuilder::new_with_options("talk", x));
    assert_eq!(request.label, "talk");
    assert_eq!(request.init.id, Some(9));
}

#[test]
fn states_have_words() {
    assert_eq!(
        RtcDataChannelReadyState::from_word("connecting"),
        Some(RtcDataChannelReadyState::Connecting)
    );
    assert_eq!(RtcDataChannelReadyState::from_word("open"), Some(RtcDataChannelReadyState::Open));
    assert_eq!(
        RtcDataChannelReadyState::from_word("closing"),
        Some(RtcDataChannelReadyState::Closing)
    );
    assert_eq!(
        RtcDataChannelReadyState::from_word("closed"),
        Some(RtcDataChannelReadyState::Closed)
    );
    assert_eq!(RtcDataChannelReadyState::from_word("Open"), None);
}
