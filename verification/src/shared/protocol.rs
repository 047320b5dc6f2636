//! The messages exchanged between the server and the agent inside each
//! container, and the pieces they carry. UUIDs travel as their 128-bit value.
use vstd::prelude::*;

verus! {

/// A file to place in the container before a program runs.
pub struct File {
    pub path: String,
    pub content: String,
}

/// What a client asks to run.
pub struct ExecuteOptions {
    /// Whether to keep the container alive after the program is run, to be
    /// used for further runs.
    pub persistent: bool,
    pub files: Vec<File>,
}

/// Requests that the server sends to the agent inside a container.
pub enum ContainerRpcRequest {
    SetupFromOptions { options: ExecuteOptions },
    PtyCreate { command: String, arguments: Vec<String> },
    PtyInput { pty_id: u32, input: String },
    Crash,
}

pub struct ContainerRpcResponse {}

/// The procedures of the first protocol version, which carried their
/// parameters as free-form JSON.
pub enum ContainerRpcProcedure {
    SetupFromOptions,
    PtyCreate,
    PtyInput,
}

/// An HTTP request to forward to a program inside a container. Its headers
/// are a map written as entries; where the library builds one
/// (`build_proxy_request`), no name occurs twice.
pub struct ContainerProxyRequest {
    pub method: String,
    pub uri: String,
    pub port: u32,
    pub headers: Vec<(String, String)>,
    pub body: Vec<u8>,
}

/// The answer of a program inside a container to a forwarded request. Its
/// headers are a map written as entries; where the library builds one
/// (`response_headers`), no name occurs twice.
pub struct ContainerProxyResponse {
    pub status_code: u16,
    pub headers: Vec<(String, String)>,
    pub body: Vec<u8>,
}

/// Why forwarding a request into a container failed.
pub enum ProxyError {
    InternalError,
    RequestError(String),
    UserProgramError(String),
    BodyReadError(String),
    BodyTooLarge,
}

impl ProxyError {
    /// An error mapper for failures on the server's own side: whatever the
    /// error, the request fails with `InternalError` (the message only
    /// labels the log line).
    pub fn server_error<E>(message: &str) -> (f: impl Fn(E) -> ProxyError)
        ensures
            forall|e: E| #[trigger] f.requires((e,)),
            forall|e: E, r: ProxyError| #[trigger] f.ensures((e,), r) ==> r is InternalError,
    {
        |e: E| -> (r: ProxyError)
            ensures
                r is InternalError,
            { ProxyError::InternalError }
    }
}

/// A WebSocket frame in a form that can travel over the wire.
pub enum WebSocketMessage {
    Text(String),
    Binary(Vec<u8>),
    Ping(Vec<u8>),
    Pong(Vec<u8>),
    Close(Option<(u16, String)>),
}

/// Messages sent from the container to the server.
pub enum ContainerSent {
    Ping { timestamp: u64 },
    RpcResponse { req_id: u128, result: String },
    PtyOutput { pty_id: u32, output: String },
    PtyExit { pty_id: u32 },
    ProxyResponse { req_id: u128, response: Result<ContainerProxyResponse, ProxyError> },
    WebSocketConnectionResponse { req_id: u128, response: Result<u32, ProxyError> },
    WebSocketMessage { ws_id: u32, message: WebSocketMessage },
}

/// Messages sent from the server to the container.
pub enum HostSent {
    RpcRequest { req_id: u128, req: ContainerRpcRequest },
    ProxyHTTPRequest { req_id: u128, req: ContainerProxyRequest },
    CreateWebSocketConnection { req_id: u128, req: ContainerProxyRequest },
    WebSocketMessage { ws_id: u32, message: WebSocketMessage },
}

} // verus!
