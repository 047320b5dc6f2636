//! Verified core of the hydra sandboxed code runner.
pub mod hydrad;
pub mod ids;
pub mod proxy;
pub mod server;
pub mod shared;
pub mod text;
