//! The agent's connection to the server: which frames it reads.
use vstd::prelude::*;

verus! {

/// What arrived on the agent's socket to the server.
pub enum AgentFrame {
    Binary(Vec<u8>),
    Other,
    Error,
    Ended,
}

/// What the agent does with it.
pub enum AgentFrameAction {
    /// Decode the bytes as a message from the server (a message that does
    /// not decode is skipped).
    Decode(Vec<u8>),
    /// Stop serving.
    Stop,
}

/// The agent serves binary frames only: any other frame, an error or the
/// end of the stream ends its loop.
pub fn agent_frame_action(frame: AgentFrame) -> (r: AgentFrameAction)
    ensures
        match frame {
            AgentFrame::Binary(b) => r matches AgentFrameAction::Decode(d) && d@ == b@,
            _ => r is Stop,
        },
{
    match frame {
        AgentFrame::Binary(b) => AgentFrameAction::Decode(b),
        _ => AgentFrameAction::Stop,
    }
}

} // verus!
