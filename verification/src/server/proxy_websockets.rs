//! WebSocket connections between a client and the user's program, relayed
//! through the server.
use vstd::prelude::*;
use crate::shared::protocol::{HostSent, WebSocketMessage};

verus! {

/// Commands for the task that relays one WebSocket connection.
pub enum WebSocketConnectionCommands {
    Send(WebSocketMessage),
    Close,
}

/// A frame from the client, addressed to connection `ws_id` of the agent.
pub fn frame_for_container(ws_id: u32, message: WebSocketMessage) -> (r: HostSent)
    ensures
        r == (HostSent::WebSocketMessage { ws_id, message }),
{
    HostSent::WebSocketMessage { ws_id, message }
}

/// What the relay does with a command from the container side: a frame is
/// passed to the client, a close (or the end of the command stream) ends
/// the relay.
pub fn relay_command(command: Option<WebSocketConnectionCommands>) -> (r: Option<WebSocketMessage>)
    ensures
        match command {
            Some(WebSocketConnectionCommands::Send(m)) => r == Some(m),
            _ => r is None,
        },
{
    match command {
        Some(WebSocketConnectionCommands::Send(m)) => Some(m),
        _ => None,
    }
}

} // verus!
