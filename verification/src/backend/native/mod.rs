//! The stack of an ordinary program: `libdatachannel`.
pub mod channel;
pub mod config;
pub mod connector;
pub mod description;
pub mod handlers;
pub mod laws;

pub use channel::RtcDataChannel;
pub use config::{format_ice_url, DataChannelInit, RtcConfig};
pub use connector::{ChannelRequest, ConnectorAction, RtcPeerConnector};
pub use description::RemoteDescription;
pub use handlers::{
    Notification, Opened, RtcDataChannelEventHandlers, RtcPeerConnectionEventHandlers,
};
