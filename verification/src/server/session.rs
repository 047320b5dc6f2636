//! A session: one client's use of one container. These are the decisions
//! a session makes about what the client and the container send.
use vstd::prelude::*;
use crate::ids::{uuid_short, uuid_short_text, uuid_text, uuid_to_text};
use crate::shared::protocol::{ContainerRpcRequest, ContainerSent};
use crate::text::{byte_prefix, owned, push_str, take_bytes};
use vstd::string::StringSliceAdditionalSpecFns;

verus! {

/// Sent from the client to the server.
pub enum ClientMessage {
    PtyInput { id: u32, input: String },
    CreatePty { rows: u16, cols: u16 },
    Run,
    Crash,
}

/// Sent from the server to the client.
pub enum ServerMessage {
    PtyOutput { output: String },
    PtyExit { id: u32 },
}

/// The command a `Run` starts.
pub const RUN_COMMAND: &'static str = "python3";
/// The argument a `Run` passes.
pub const RUN_ARGUMENT: &'static str = "main.py";

/// The request a client message turns into: input goes to its pty, `Run`
/// starts `python3 main.py`, `Crash` crashes the agent, and `CreatePty` is
/// not acted on.
pub open spec fn rpc_for_spec(msg: ClientMessage, r: Option<ContainerRpcRequest>) -> bool {
    match msg {
        ClientMessage::PtyInput { id, input } => r matches Some(ContainerRpcRequest::PtyInput { pty_id, input: i })
            && pty_id == id && i@ == input@,
        ClientMessage::Run => r matches Some(ContainerRpcRequest::PtyCreate { command, arguments })
            && command@ == RUN_COMMAND@ && arguments@.len() == 1 && arguments@[0]@ == RUN_ARGUMENT@,
        ClientMessage::Crash => r matches Some(ContainerRpcRequest::Crash),
        ClientMessage::CreatePty { .. } => r is None,
    }
}

pub fn rpc_for_client_message(msg: ClientMessage) -> (r: Option<ContainerRpcRequest>)
    ensures
        rpc_for_spec(msg, r),
{
    match msg {
        ClientMessage::PtyInput { id, input } => Some(ContainerRpcRequest::PtyInput { pty_id: id, input }),
        ClientMessage::Run => {
            let mut arguments: Vec<String> = Vec::new();
            arguments.push(owned(RUN_ARGUMENT));
            Some(ContainerRpcRequest::PtyCreate { command: owned(RUN_COMMAND), arguments })
        },
        ClientMessage::Crash => Some(ContainerRpcRequest::Crash),
        ClientMessage::CreatePty { .. } => None,
    }
}

/// What the client is told of a message from the container: pty output and
/// pty exits are passed on, everything else is not.
pub open spec fn client_message_spec(msg: ContainerSent, r: Option<ServerMessage>) -> bool {
    match msg {
        ContainerSent::PtyOutput { output, .. } => r matches Some(ServerMessage::PtyOutput { output: o })
            && o@ == output@,
        ContainerSent::PtyExit { pty_id } => r matches Some(ServerMessage::PtyExit { id }) && id == pty_id,
        _ => r is None,
    }
}

pub fn handle_container_message(msg: ContainerSent) -> (r: Option<ServerMessage>)
    ensures
        client_message_spec(msg, r),
{
    match msg {
        ContainerSent::PtyOutput { output, .. } => Some(ServerMessage::PtyOutput { output }),
        ContainerSent::PtyExit { pty_id } => Some(ServerMessage::PtyExit { id: pty_id }),
        _ => None,
    }
}

/// The redis key under which a session's server address is stored.
pub open spec fn session_key_spec(ticket: u128) -> Seq<char> {
    "session:"@ + uuid_text(ticket)
}

pub fn session_key(ticket: u128) -> (r: String)
    ensures
        r@ == session_key_spec(ticket),
{
    let mut k = owned("session:");
    let t = uuid_to_text(ticket);
    push_str(&mut k, t.as_str());
    k
}

/// A session's name in logs: `tck-<first five of the ticket>, dok-<first
/// five bytes of the docker id>`.
pub open spec fn session_display_id_spec(ticket: u128, docker_id: Seq<char>) -> Seq<char> {
    "tck-"@ + uuid_short(ticket) + ", dok-"@ + byte_prefix(docker_id, 5)
}

/// Builds a session's log name. The docker id is sliced by bytes, so its
/// fifth byte must end a character.
pub fn session_display_id(ticket: u128, docker_id: &str) -> (r: String)
    requires
        vstd::utf8::is_char_boundary(docker_id.spec_bytes(), 5),
    ensures
        r@ == session_display_id_spec(ticket, docker_id@),
{
    let mut d = owned("tck-");
    let t = uuid_short_text(ticket);
    push_str(&mut d, t.as_str());
    push_str(&mut d, ", dok-");
    let k = take_bytes(docker_id, 5);
    push_str(&mut d, k.as_str());
    d
}

/// The address under which other machines reach this server: the
/// `FLY_PRIVATE_IP` variable, or "localhost".
pub fn machine_ip(fly_private_ip: Option<String>) -> (r: String)
    ensures
        r@ == match fly_private_ip { Some(ip) => ip@, None => "localhost"@ },
{
    match fly_private_ip {
        Some(ip) => ip,
        None => owned("localhost"),
    }
}

/// What arrived on the client's WebSocket.
pub enum ClientFrame {
    Text(String),
    Close,
    Other,
    Error,
    Ended,
}

/// What the session does with it.
pub enum ClientFrameAction {
    Handle(String),
    Skip,
    Stop,
}

/// Text frames are handled, other data frames skipped; a close, an error
/// or the end of the stream ends the session's loop.
pub fn client_frame_action(frame: ClientFrame) -> (r: ClientFrameAction)
    ensures
        match frame {
            ClientFrame::Text(t) => r matches ClientFrameAction::Handle(u) && u@ == t@,
            ClientFrame::Other => r is Skip,
            _ => r is Stop,
        },
{
    match frame {
        ClientFrame::Text(t) => ClientFrameAction::Handle(t),
        ClientFrame::Other => ClientFrameAction::Skip,
        _ => ClientFrameAction::Stop,
    }
}

/// How long a session lingers after its client left, in seconds.
pub const SELF_DESTRUCT_SECONDS: u64 = 2;

/// Whether deleting the session's redis key went as expected: exactly one
/// key removed.
pub fn session_key_removed(count: u32) -> (r: bool)
    ensures
        r == (count == 1),
{
    count == 1
}

} // verus!
