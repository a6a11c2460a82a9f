//! Distributed inference of a language model: how tokens are generated on one machine, from the
//! drafts of a smaller model, or on two machines that share the layers, and how those two talk.
//!
//! Nothing here waits for a server or a connection. A loop is a state machine that says which
//! call is due and takes in what the call came back with; a request and a frame are plain data.
pub mod be;
pub mod client_laws;
pub mod coordinator;
pub mod generation;
pub mod generation_laws;
pub mod greedy;
pub mod json;
pub mod launch;
pub mod mlx_client;
pub mod payload;
pub mod protocol;
pub mod protocol_laws;
pub mod session_laws;
pub mod shape;
pub mod speculative;
pub mod speculative_laws;
pub mod text;
pub mod text_laws;
pub mod timing;
pub mod timing_laws;
pub mod worker;
