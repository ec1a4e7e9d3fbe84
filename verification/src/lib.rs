//! A Brew server with a SIP side: it routes the voice and short messages of TETRA base stations,
//! registers SIP extensions and trunks, and bridges calls between the two.
//!
//! The library takes events (a message, a request, a packet, the time) and gives back the next state
//! and the actions to perform. It does no input or output of its own.
//!
//! - Brew: `brew` (state, messages, actions), `router`, `subscribers`, `sds`, `sweep`; laws in
//!   `brew_laws`, `router_laws`, `group_laws`, `subscriber_laws`, `sds_laws`, `sweep_laws`.
//! - SIP: `message`, `dialog`, `transport`, `auth`, `registrar`, `routing`, `invite`, `dispatch`,
//!   `calls`, `trunk_register`, `sip_state`, `snapshot`, `startup`; laws in `request_laws`,
//!   `call_laws`, `trunk_laws`, `sip_state_laws`, `snapshot_laws`.
//! - Media: `media`, `rtp`; laws in `sdp_laws`, `media_laws`, `rtp_laws`.
//! - Bridging: `bridge`, `bridging` (SIP to Brew), `outbound` (Brew to SIP); laws in `bridge_laws`,
//!   `peer_laws`.
//! - Shared: `config`, `watcher`, `addr`, `ids`, `table`, `text`; laws in `text_laws`.
pub mod addr;
pub mod auth;
pub mod brew;
pub mod brew_laws;
pub mod bridge;
pub mod bridge_laws;
pub mod bridging;
pub mod call_laws;
pub mod calls;
pub mod config;
pub mod dialog;
pub mod dispatch;
pub mod group_laws;
pub mod ids;
pub mod invite;
pub mod media;
pub mod media_laws;
pub mod message;
pub mod outbound;
pub mod peer_laws;
pub mod registrar;
pub mod request_laws;
pub mod router;
pub mod router_laws;
pub mod routing;
pub mod rtp;
pub mod rtp_laws;
pub mod sdp_laws;
pub mod sds;
pub mod sds_laws;
pub mod sip_state;
pub mod sip_state_laws;
pub mod snapshot;
pub mod snapshot_laws;
pub mod startup;
pub mod subscriber_laws;
pub mod subscribers;
pub mod sweep;
pub mod sweep_laws;
pub mod table;
pub mod text;
pub mod text_laws;
pub mod transport;
pub mod trunk_laws;
pub mod trunk_register;
pub mod watcher;
