//! Types and rules shared by the server, the proxy and the in-container agent.
pub mod error;
pub mod headers;
pub mod host;
pub mod protocol;
pub mod status;
