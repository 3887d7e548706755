//! The parts of a VR streaming application that decide things: what is sent and how it is put
//! together again, what becomes of stored settings, when the encoder gets new parameters, and how
//! client, server and dashboard find and lose each other.

use vstd::prelude::*;

pub mod average;
pub mod bitrate;
pub mod bitrate_laws;
pub mod buffer;
pub mod connection;
pub mod conversion_laws;
pub mod dashboard;
pub mod dashboard_laws;
pub mod extrapolation;
pub mod extrapolation_laws;
pub mod json;
pub mod json_text;
pub mod negotiation;
pub mod packets;
pub mod schema;
pub mod session;
pub mod settings;
pub mod settings_laws;
pub mod socket_buffers;
pub mod statistics;
pub mod statistics_laws;
pub mod stream_laws;
pub mod stream_socket;
pub mod streaming;
pub mod text;
pub mod time;
pub mod welcome;
pub mod worker;

verus! {

} // verus!
