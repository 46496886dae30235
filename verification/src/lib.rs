//! Signalling and forwarding rules of a WHIP/WHEP broadcast relay.
//!
//! One publisher uploads a live stream over WebRTC; any number of viewers
//! receive a forwarded copy. This crate holds the rules that decide what the
//! relay does: how trickle-ICE fragments are read, which session a request
//! names, who receives a forwarded packet, and what each HTTP request is
//! answered with. Peer connections, sockets and the HTTP server live outside
//! it and hand it plain values.
//!
//! - [`routes`], [`signaling`] and [`reply`]: the HTTP surface, from the
//!   route of a request to its answer.
//! - [`negotiation`]: the steps that set up a publisher's or a viewer's
//!   session.
//! - [`registry`] and [`forward`]: who is subscribed to which stream key,
//!   and who is handed a packet.
//! - [`keyframe`]: the loop that asks a publisher for keyframes.
//! - [`sdp`] and [`text`]: reading SDP texts.
//! - [`session`] and [`uuid_text`]: session ids.
//! - [`config`]: the settings of the relay.
//! - [`error`]: what can go wrong.

pub mod config;
pub mod error;
pub mod forward;
pub mod keyframe;
pub mod negotiation;
pub mod registry;
pub mod reply;
pub mod routes;
pub mod sdp;
pub mod session;
pub mod signaling;
pub mod text;
pub mod uuid_text;
