use rtc::channel::{assign_channel_ids, channel_ids_suffice};
use rtc::{
    RtcConfiguration, RtcDataChannelBuilder, RtcDataChannelConfiguration, RtcPeerConnection,
    RtcPeerConnectionAttempt, RtcPeerConnectionError,
};

fn channel(label: &str, id: Option<u16>) -> RtcDataChannelBuilder {
    RtcDataChannelBuilder::new_with_options(
        label,
        RtcDataChannelConfiguration { id, ..Default::default() },
    )
}

fn ids(channels: &[RtcDataChannelBuilder]) -> Vec<Option<u16>> {
    channels.iter().map(|c| c.configuration().id).collect()
}

#[test]
fn a_new_channel_asks_for_nothing() {
    let c = RtcDataChannelBuilder::new("chat");
    assert_eq!(c.label(), "chat");
    let x = c.configuration();
    assert_eq!(x.ordered, None);
    assert_eq!(x.max_packet_life_time, None);
    assert_eq!(x.max_retransmits, None);
    assert_eq!(x.protocol, None);
    assert_eq!(x.negotiated, None);
    assert_eq!(x.id, None);
}

#[test]
fn channels_without_numbers_are_counted() {
    let mut channels = vec![channel("a", None), channel("b", None), channel("c", None)];
    assert!(assign_channel_ids(&mut channels).is_ok());
    assert_eq!(ids(&channels), vec![Some(0), Some(1), Some(2)]);
}

#[test]
fn a_wanted_number_is_kept_and_avoided() {
    let mut channels =
        vec![channel("a", None), channel("b", Some(1)), channel("c", None), channel("d", Some(7))];
    assert!(assign_channel_ids(&mut channels).is_ok());
    assert_eq!(ids(&channels), vec![Some(2), Some(1), Some(3), Some(7)]);
}

#[test]
fn the_search_goes_past_taken_numbers() {
    let mut channels = vec![channel("a", Some(1)), channel("b", Some(2)), channel("c", None)];
    assert!(assign_channel_ids(&mut channels).is_ok());
    assert_eq!(ids(&channels), vec![Some(1), Some(2), Some(3)]);
}

#[test]
fn only_a_channel_that_gets_a_number_is_negotiated() {
    let mut channels = vec![channel("a", None), channel("b", Some(9))];
    assert!(assign_channel_ids(&mut channels).is_ok());
    assert_eq!(channels[0].configuration().negotiated, Some(true));
    assert_eq!(channels[1].configuration().negotiated, None);
    assert_eq!(channels[0].label(), "a");
    assert_eq!(channels[1].label(), "b");
}

#[test]
fn a_number_asked_for_twice_is_an_error() {
    let mut channels = vec![channel("a", Some(4)), channel("b", None), channel("c", Some(4))];
    assert!(channel_ids_suffice(&channels));
    match assign_channel_ids(&mut channels) {
        Err(RtcPeerConnectionError::Creation(text)) => {
            assert_eq!(text, "Multiple data channels requested with the same ID")
        }
        _ => panic!("two channels with one number"),
    }
    assert_eq!(ids(&channels), vec![Some(4), None, Some(4)]);
}

#[test]
fn the_search_ends_with_the_numbers() {
    let lone = vec![channel("a", Some(65535)), channel("b", None)];
    assert!(channel_ids_suffice(&lone));

    let top: u16 = 65535;
    let mut tight: Vec<RtcDataChannelBuilder> = Vec::new();
    for k in 32768..=top {
        tight.push(channel("k", Some(k)));
    }
    tight.push(channel("last", None));
    assert!(!channel_ids_suffice(&tight));
}

#[test]
fn as_many_channels_as_half_the_numbers_are_numbered() {
    let mut channels: Vec<RtcDataChannelBuilder> = Vec::new();
    for _ in 0..32768 {
        channels.push(channel("k", None));
    }
    assert!(channel_ids_suffice(&channels));
    assert!(assign_channel_ids(&mut channels).is_ok());
    assert_eq!(channels[32767].configuration().id, Some(32767));
}

#[test]
fn every_number_can_be_asked_for() {
    let mut channels: Vec<RtcDataChannelBuilder> = Vec::new();
    for k in 0..=65535u16 {
        channels.push(channel("k", Some(k)));
    }
    assert!(channel_ids_suffice(&channels));
    assert!(assign_channel_ids(&mut channels).is_ok());
    channels.push(channel("one more", None));
    assert!(!channel_ids_suffice(&channels));
}

#[test]
fn a_connection_numbers_its_channels() {
    let mut builder = RtcPeerConnection::new(
        RtcConfiguration::default(),
        RtcPeerConnectionAttempt::Answer,
        vec![channel("a", None), channel("b", Some(0))],
    );
    assert!(matches!(builder.attempt(), RtcPeerConnectionAttempt::Answer));
    assert_eq!(builder.configuration().ice_servers.len(), 0);
    assert!(builder.channel_ids_suffice());
    assert!(builder.assign_channel_ids().is_ok());
    assert_eq!(ids(builder.channels()), vec![Some(1), Some(0)]);
}

#[test]
fn both_sides_number_alike() {
    let mut ours = vec![channel("a", None), channel("b", Some(3)), channel("c", None)];
    let mut theirs = vec![channel("x", None), channel("y", Some(3)), channel("z", None)];
    assert!(assign_channel_ids(&mut ours).is_ok());
    assert!(assign_channel_ids(&mut theirs).is_ok());
    assert_eq!(ids(&ours), ids(&theirs));
    assert_eq!(ids(&ours), vec![Some(1), Some(3), Some(2)]);
}
