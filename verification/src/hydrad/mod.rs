//! The agent that runs inside each container: it executes the server's
//! requests, runs terminals, and forwards HTTP and WebSocket traffic to the
//! user's program.
pub mod commands;
pub mod procedures;
pub mod proxy;
pub mod pty;
pub mod state;
