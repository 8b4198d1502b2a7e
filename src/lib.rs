//! Client library for a Zcash node's JSON-RPC interface: request bodies,
//! typed decoding of responses, shielded memo decoding and the merge of
//! per-address results.
pub mod memo;
pub mod clientx;
pub mod json;
pub mod model;
pub mod client;
