//! Peer-to-peer data channels: configuration, negotiation and message delivery.
//!
//! The crate holds what a WebRTC endpoint decides; the network stack that
//! carries the decisions out is driven from outside, one action at a time.
pub mod backend;
pub mod channel;
pub mod channel_ids;
pub mod claim;
pub mod delivery;
pub mod drain;
pub mod error;
pub mod message;
pub mod negotiation;
pub mod negotiation_laws;
pub mod peer;
pub mod poll;
pub mod queue;
pub mod sdp;
pub mod text;

pub use channel::{
    RtcDataChannelBuilder, RtcDataChannelConfiguration, RtcDataChannelReadyState,
};
pub use error::{RtcDataChannelError, RtcPeerConnectionError};
pub use message::{RtcIceCandidate, RtcNegotiationMessage, RtcSessionDescription, SdpType};
pub use peer::{
    RtcConfiguration, RtcIceConnectionState, RtcIceServer, RtcIceTransportPolicy,
    RtcPeerConnection, RtcPeerConnectionAttempt, RtcPeerConnectionState, RtcSignalingState,
};
