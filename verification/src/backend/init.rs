//! The options of a channel, for the stacks that take them one by one.
use crate::channel::{RtcDataChannelBuilder, RtcDataChannelConfiguration};
use vstd::prelude::*;

verus! {

/// The options of a channel that are passed on; what is `None` is left as the stack has it.
pub struct RtcDataChannelInit {
    pub max_packet_life_time: Option<u16>,
    pub max_retransmits: Option<u16>,
    pub protocol: Option<String>,
    pub negotiated: Option<bool>,
    pub id: Option<u16>,
}

impl RtcDataChannelInit {
    /// The options that `x` asks for. Whether the channel is ordered is not passed on.
    pub fn from(x: &RtcDataChannelConfiguration) -> (r: RtcDataChannelInit)
        ensures
            r == (RtcDataChannelInit {
                max_packet_life_time: x.max_packet_life_time,
                max_retransmits: x.max_retransmits,
                protocol: x.protocol,
                negotiated: x.negotiated,
                id: x.id,
            }),
    {
        RtcDataChannelInit {
            max_packet_life_time: x.max_packet_life_time,
            max_retransmits: x.max_retransmits,
            protocol: match &x.protocol {
                Some(protocol) => Some(protocol.clone()),
                None => None,
            },
            negotiated: x.negotiated,
            id: x.id,
        }
    }
}

/// A channel that is to be made: its name and its options.
pub struct ChannelRequest {
    pub label: String,
    pub init: RtcDataChannelInit,
}

/// What is to be done for a channel that was asked for.
pub open spec fn is_request(
    request: ChannelRequest,
    channel: RtcDataChannelBuilder,
) -> bool {
    let x = channel@.configuration;
    &&& request.label@ == channel@.label
    &&& request.init == (RtcDataChannelInit {
        max_packet_life_time: x.max_packet_life_time,
        max_retransmits: x.max_retransmits,
        protocol: x.protocol,
        negotiated: x.negotiated,
        id: x.id,
    })
}

impl ChannelRequest {
    pub fn from(channel: &RtcDataChannelBuilder) -> (r: ChannelRequest)
        ensures
            is_request(r, *channel),
    {
        ChannelRequest {
            label: channel.label().to_string(),
            init: RtcDataChannelInit::from(channel.configuration()),
        }
    }
}

/// What is requested of the network stack is what the channel was asked for: its label and
/// its options, each as it is.
pub proof fn law_request_is_the_channels_own(
    request: ChannelRequest,
    channel: RtcDataChannelBuilder,
)
    requires
        is_request(request, channel),
    ensures
        request.label@ == channel@.label,
        request.init.max_packet_life_time == channel@.configuration.max_packet_life_time,
        request.init.max_retransmits == channel@.configuration.max_retransmits,
        request.init.protocol == channel@.configuration.protocol,
        request.init.negotiated == channel@.configuration.negotiated,
        request.init.id == channel@.configuration.id,
{
}

/// What is requested of the network stack is what the channel was asked for, whatever the
/// options.
pub proof fn law_channel_is_requested_as_asked(channel: RtcDataChannelBuilder, r: ChannelRequest)
    requires
        call_ensures(ChannelRequest::from, (&channel,), r),
    ensures
        r.label@ == channel@.label,
        r.init.max_packet_life_time == channel@.configuration.max_packet_life_time,
        r.init.max_retransmits == channel@.configuration.max_retransmits,
        r.init.protocol == channel@.configuration.protocol,
        r.init.negotiated == channel@.configuration.negotiated,
        r.init.id == channel@.configuration.id,
{
}

} // verus!
