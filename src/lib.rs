//! Relay of error-tracking webhook events to a chat: strict decoding of the
//! event payload, rendering it as chat text, and the decisions of the
//! webhook endpoint.

pub mod decode;
pub mod format;
pub mod json;
pub mod model;
pub mod relay;
pub mod text;
