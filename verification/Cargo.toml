[package]
name = "rtc"
version = "0.1.0"
edition = "2021"
publish = false

[dependencies]
datachannel = "=0.7.9"
dummy-waker = "=1.1.0"
futures = "=0.3.34"
js-sys = "=0.3.107"
log = "0.4"
serde = { version = "1", features = ["derive"] }
thiserror = "1"
tokio = "1"
wasm-bindgen = "0.2"
wasm-bindgen-futures = "=0.4.80"
web-sys = { version = "=0.3.107", features = ["Event", "EventTarget", "MessageEvent", "RtcConfiguration", "RtcDataChannel", "RtcDataChannelEvent", "RtcDataChannelInit", "RtcDataChannelState", "RtcDataChannelType", "RtcIceCandidate", "RtcIceCandidateInit", "RtcIceConnectionState", "RtcIceServer", "RtcIceTransportPolicy", "RtcOfferOptions", "RtcPeerConnection", "RtcPeerConnectionIceEvent", "RtcSdpType", "RtcSessionDescription", "RtcSessionDescriptionInit", "RtcSignalingState"] }
webrtc = "=0.6.0"
webrtc-sdp = "=0.3.17"
