//! The public proxy: it receives the traffic for a session's subdomain and
//! forwards it to the server that runs the session.
pub mod discovery;
pub mod error_page;
pub mod handler;
