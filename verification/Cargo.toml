[package]
name = "game_transport"
version = "0.1.0"
edition = "2021"
publish = false

[dependencies]
async-channel = "1"
turbulence = "0.3"
futures = "0.3"
futures-util = "0.3"
futures-timer = "3"
instant = "0.1"
serde = { version = "1", features = ["derive"] }
tracing = "0.1"
tracing-subscriber = "0.2"
tokio = { version = "1", features = ["full"] }
tokio-compat-02 = "0.2"
hyper = "0.13"
webrtc-unreliable = "0.5"
rand = "0.7"
ctrlc = "3"
wasm-bindgen = "0.2"
wasm-bindgen-futures = "0.4"
js-sys = "0.3"
serde-wasm-bindgen = "0.1"
web-sys = { version = "0.3", features = ["MessageEvent", "RtcDataChannel", "RtcDataChannelInit", "RtcDataChannelType", "RtcIceCandidateInit", "RtcPeerConnection", "RtcPeerConnectionIceEvent", "RtcIceCandidate", "RtcSdpType", "RtcSessionDescriptionInit", "RtcSessionDescription", "RtcSignalingState", "XmlHttpRequest", "XmlHttpRequestResponseType"] }
