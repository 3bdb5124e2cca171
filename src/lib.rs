//! Client side of the minimal delivery service protocol: identifier and
//! credential types, their binary wire codec, the request and response
//! envelopes, and the session state machine that decides what to send and
//! how to read what comes back.

pub mod client;
pub mod errors;
pub mod messages;
pub mod requests;
pub mod response;
pub mod types;
pub mod wire;
