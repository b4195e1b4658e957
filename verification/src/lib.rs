//! A WebRTC-aware TURN relay core: the STUN/TURN wire codec, the request
//! classifier and response builder, and the pair-matching relay engine.
pub mod bytes;
pub mod digest;
pub mod error;
pub mod addr;
pub mod attr;
pub mod stun;
pub mod flat;
pub mod username;
pub mod turn;
pub mod webrtc;
pub mod auth;
pub mod relay;
pub mod laws;
pub mod relay_laws;
pub mod typ;
