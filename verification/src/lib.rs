//! Verified core of the Wavry streaming platform: the gateway's request
//! checks, sign-in and TOTP flows, signalling and built-in relay; the
//! master's relay registry and signalling; the relay's sessions, leases and
//! guards; and the media side's pools, packet reordering, H.264 parsing,
//! capture-backend choices, audio framing and recording.

pub mod audit;
pub mod reorder;
pub mod buffer_pool;
pub mod encoder_pool;
pub mod relay_session;
pub mod text;
pub mod lease;
pub mod rate_limit;
pub mod security;
pub mod auth;
pub mod admin;
pub mod web;
pub mod input_map;
pub mod pulse;
pub mod media;
pub mod portal;
pub mod relay_guard;
pub mod selection;
pub mod recording;
pub mod signal;
pub mod auth_flow;
pub mod account_flow;
pub mod totp;
pub mod nal;
pub mod registry;
pub mod text_map;
pub mod webtransport;
pub mod master_signal;
pub mod gateway_relay;
pub mod diagnostics;
pub mod pcm;
pub mod capture_pipeline;
pub mod heartbeat;
