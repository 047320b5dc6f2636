//! The server: it owns the container pool, runs sessions and forwards
//! requests into containers.
pub mod config;
pub mod container;
pub mod execute;
pub mod pool;
pub mod proxy_interface;
pub mod proxy_websockets;
pub mod rpc;
pub mod session;
pub mod shutdown;
