//! Verified core of the internet-radio to Dante bridge: ICY metadata
//! stripping, stream reconnect policy, slot bookkeeping, configuration
//! rules, ALSA PCM block generation and the request decisions of the API.

pub mod text;
pub mod icy;
pub mod stream;
pub mod state;
pub mod alsa;
pub mod alsa_setup;
pub mod radiobrowser;
pub mod auth;
pub mod config;
pub mod api;
pub mod decode;
pub mod player;
