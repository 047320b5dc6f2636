//! A container as the server sees it: how it is created, how the messages
//! it sends are routed, and when it is removed.
use vstd::prelude::*;
use std::collections::HashMap;
use crate::ids::{uuid_text, uuid_to_text};
use crate::server::config::{DockerConfig, Environment};
use crate::server::rpc::{answer_view, delivered, parse_rpc_answer, rpc_answer_of, RpcRecords};
use crate::shared::protocol::{ContainerProxyResponse, ContainerSent, HostSent, ProxyError, WebSocketMessage};
use crate::text::{byte_prefix, decimal, decimal_string, owned, push_str, take_bytes};
use vstd::string::StringSliceAdditionalSpecFns;

verus! {

broadcast use vstd::std_specs::hash::group_hash_axioms;

/// Commands for a container's event loop.
pub enum ContainerCommands {
    SendMessage(HostSent),
    RemoveWebSocketConnection(u32),
    Stop,
}

/// The image the containers run.
pub const CONTAINER_IMAGE: &'static str = "hydrad";
/// The agent's log level inside the container.
pub const CONTAINER_ENV: &'static str = "RUST_LOG=hydrad=info";

/// What the server asks Docker for when it creates a container.
pub struct ContainerPlan {
    /// The directory holding the socket the agent connects to.
    pub socket_dir: String,
    /// The socket itself.
    pub socket_path: String,
    pub name: String,
    /// The mount of the socket directory at `/run/hydra` in the container.
    pub bind: String,
    pub image: &'static str,
    pub env: &'static str,
    pub auto_remove: bool,
    pub cpu_quota: i64,
    pub cpuset_cpus: String,
    pub memory: i64,
}

pub open spec fn socket_dir_spec(environment: Environment, id: u128) -> Seq<char> {
    (if environment is Production { "/run/hydra"@ } else { "/tmp/hydra"@ }) + "/sockets/"@ + uuid_text(id)
}

/// The creation request for the container with id `id`: its socket under
/// the environment's run directory, its name `hydrad--tck-<id>`, and the
/// configured CPU and memory limits. The memory limit must fit Docker's
/// signed 64-bit field.
pub fn plan_container(environment: &Environment, id: u128, docker: &DockerConfig) -> (r: ContainerPlan)
    requires
        docker.memory <= i64::MAX,
    ensures
        r.socket_dir@ == socket_dir_spec(*environment, id),
        r.socket_path@ == socket_dir_spec(*environment, id) + "/conn.sock"@,
        r.name@ == "hydrad--tck-"@ + uuid_text(id),
        r.bind@ == socket_dir_spec(*environment, id) + ":/run/hydra"@,
        r.image@ == CONTAINER_IMAGE@,
        r.env@ == CONTAINER_ENV@,
        r.auto_remove,
        r.cpu_quota == docker.cpu_shares,
        r.cpuset_cpus@ == docker.cpu_set@,
        r.memory == docker.memory as i64,
{
    let id_text = uuid_to_text(id);
    let mut socket_dir = owned(environment.run_dir());
    push_str(&mut socket_dir, "/sockets/");
    push_str(&mut socket_dir, id_text.as_str());
    let mut socket_path = owned(socket_dir.as_str());
    push_str(&mut socket_path, "/conn.sock");
    let mut name = owned("hydrad--tck-");
    push_str(&mut name, id_text.as_str());
    let mut bind = owned(socket_dir.as_str());
    push_str(&mut bind, ":/run/hydra");
    ContainerPlan {
        socket_dir,
        socket_path,
        name,
        bind,
        image: CONTAINER_IMAGE,
        env: CONTAINER_ENV,
        auto_remove: true,
        cpu_quota: docker.cpu_shares,
        cpuset_cpus: owned(docker.cpu_set.as_str()),
        memory: docker.memory as i64,
    }
}

/// A container's name in logs: `dok-` and the first five bytes of its
/// Docker id (which is hexadecimal), which must end on a character boundary.
pub fn display_id(docker_id: &str) -> (r: String)
    requires
        vstd::utf8::is_char_boundary(docker_id.spec_bytes(), 5),
    ensures
        r@ == "dok-"@ + byte_prefix(docker_id@, 5),
{
    let mut d = owned("dok-");
    let k = take_bytes(docker_id, 5);
    push_str(&mut d, k.as_str());
    d
}

/// The state Docker reports of a container.
pub enum ContainerStatus {
    Empty,
    Created,
    Running,
    Paused,
    Restarting,
    Removing,
    Exited,
    Dead,
}

/// After its event loop ends, a container is removed unless Docker has no
/// state for it or is removing it already.
pub fn should_remove_container(status: Option<ContainerStatus>) -> (r: bool)
    ensures
        r == (status matches Some(s) && !(s is Removing)),
{
    match status {
        Some(ContainerStatus::Removing) => false,
        Some(_) => true,
        None => false,
    }
}

/// The refusal of a frame for a WebSocket connection that is not open.
pub open spec fn no_connection_message(ws_id: u32) -> Seq<char> {
    "no websocket connection with id "@ + decimal(ws_id as nat)
}

/// Where a message from the container goes.
pub enum Delivery<RW, PW, WW, T> {
    /// An RPC answer, with the waiter of its request (if anyone waits).
    /// The answer is parsed: `None` where it is not the JSON of an outcome.
    RpcAnswer { waiter: Option<RW>, result: Option<Result<Option<u64>, String>> },
    /// An HTTP answer of the user's program, with the waiter of its request.
    ProxyAnswer { waiter: Option<PW>, response: Result<ContainerProxyResponse, ProxyError> },
    /// The outcome of opening a WebSocket to the user's program (the
    /// client's side of the connection, which is now registered), with the
    /// waiter of its request.
    WebSocketOpened { waiter: Option<WW>, response: Result<T, ProxyError> },
    /// A frame for an open WebSocket connection.
    WebSocketFrame { ws_id: u32, message: WebSocketMessage },
    /// Anything else, for the session.
    ToSession(ContainerSent),
}

/// The routing state of a container: who waits for which answer, and the
/// open WebSocket connections (by the id the agent gave them).
pub struct ContainerRouter<RW, PW, WW, S> {
    rpc_records: RpcRecords<RW>,
    proxy_records: RpcRecords<PW>,
    websocket_requests: RpcRecords<WW>,
    websocket_connections: HashMap<u32, S>,
}

impl<RW, PW, WW, S> ContainerRouter<RW, PW, WW, S> {
    pub closed spec fn rpc_waiters(&self) -> Map<u128, RW> {
        self.rpc_records.view()
    }

    pub closed spec fn proxy_waiters(&self) -> Map<u128, PW> {
        self.proxy_records.view()
    }

    pub closed spec fn websocket_waiters(&self) -> Map<u128, WW> {
        self.websocket_requests.view()
    }

    pub closed spec fn connections(&self) -> Map<u32, S> {
        self.websocket_connections@
    }

    pub fn new() -> (r: Self)
        ensures
            r.rpc_waiters() == Map::<u128, RW>::empty(),
            r.proxy_waiters() == Map::<u128, PW>::empty(),
            r.websocket_waiters() == Map::<u128, WW>::empty(),
            r.connections() == Map::<u32, S>::empty(),
    {
        ContainerRouter {
            rpc_records: RpcRecords::new(),
            proxy_records: RpcRecords::new(),
            websocket_requests: RpcRecords::new(),
            websocket_connections: HashMap::new(),
        }
    }

    pub fn await_rpc(&mut self, id: u128, waiter: RW)
        ensures
            final(self).rpc_waiters() == old(self).rpc_waiters().insert(id, waiter),
            final(self).proxy_waiters() == old(self).proxy_waiters(),
            final(self).websocket_waiters() == old(self).websocket_waiters(),
            final(self).connections() == old(self).connections(),
    {
        self.rpc_records.await_response(id, waiter);
    }

    pub fn await_proxy(&mut self, id: u128, waiter: PW)
        ensures
            final(self).proxy_waiters() == old(self).proxy_waiters().insert(id, waiter),
            final(self).rpc_waiters() == old(self).rpc_waiters(),
            final(self).websocket_waiters() == old(self).websocket_waiters(),
            final(self).connections() == old(self).connections(),
    {
        self.proxy_records.await_response(id, waiter);
    }

    pub fn await_websocket(&mut self, id: u128, waiter: WW)
        ensures
            final(self).websocket_waiters() == old(self).websocket_waiters().insert(id, waiter),
            final(self).rpc_waiters() == old(self).rpc_waiters(),
            final(self).proxy_waiters() == old(self).proxy_waiters(),
            final(self).connections() == old(self).connections(),
    {
        self.websocket_requests.await_response(id, waiter);
    }

    /// Registers an open WebSocket connection.
    pub fn add_websocket(&mut self, ws_id: u32, connection: S)
        ensures
            final(self).connections() == old(self).connections().insert(ws_id, connection),
            final(self).rpc_waiters() == old(self).rpc_waiters(),
            final(self).proxy_waiters() == old(self).proxy_waiters(),
            final(self).websocket_waiters() == old(self).websocket_waiters(),
    {
        self.websocket_connections.insert(ws_id, connection);
    }

    /// Forgets a closed WebSocket connection.
    pub fn remove_websocket(&mut self, ws_id: u32)
        ensures
            final(self).connections() == old(self).connections().remove(ws_id),
            final(self).rpc_waiters() == old(self).rpc_waiters(),
            final(self).proxy_waiters() == old(self).proxy_waiters(),
            final(self).websocket_waiters() == old(self).websocket_waiters(),
    {
        self.websocket_connections.remove(&ws_id);
    }

    /// The connection that frames for `ws_id` go to, or the refusal
    /// "no websocket connection with id <id>" when there is none.
    pub fn websocket(&self, ws_id: u32) -> (r: Result<&S, String>)
        ensures
            match r {
                Ok(s) => self.connections().contains_key(ws_id) && *s == self.connections()[ws_id],
                Err(m) => !self.connections().contains_key(ws_id) && m@ == no_connection_message(ws_id),
            },
    {
        match self.websocket_connections.get(&ws_id) {
            Some(s) => Ok(s),
            None => {
                let mut m = owned("no websocket connection with id ");
                let digits = decimal_string(ws_id as u64);
                push_str(&mut m, digits.as_str());
                Err(m)
            },
        }
    }

    /// Routes a message from the container: answers go to the waiter of
    /// their request (taking it out of the records), WebSocket frames to
    /// their connection, and everything else to the session. When the agent
    /// has opened a WebSocket connection, `open` makes its two sides: the
    /// one that frames for it go to is registered under its id, the other
    /// goes to the waiter.
    pub fn handle_message<T, F: FnOnce(u32) -> (S, T)>(&mut self, msg: ContainerSent, open: F) -> (r: Delivery<RW, PW, WW, T>)
        requires
            forall|id: u32| #[trigger] open.requires((id,)),
        ensures
            !(msg is WebSocketConnectionResponse) ==> final(self).connections() == old(self).connections(),
            match msg {
                ContainerSent::RpcResponse { req_id, result } => {
                    &&& r matches Delivery::RpcAnswer { waiter, result: res }
                    &&& (waiter, final(self).rpc_waiters()) == delivered(old(self).rpc_waiters(), req_id)
                    &&& answer_view(res) == rpc_answer_of(result@)
                    &&& final(self).proxy_waiters() == old(self).proxy_waiters()
                    &&& final(self).websocket_waiters() == old(self).websocket_waiters()
                },
                ContainerSent::ProxyResponse { req_id, response } => {
                    &&& r matches Delivery::ProxyAnswer { waiter, response: res }
                    &&& (waiter, final(self).proxy_waiters()) == delivered(old(self).proxy_waiters(), req_id)
                    &&& res == response
                    &&& final(self).rpc_waiters() == old(self).rpc_waiters()
                    &&& final(self).websocket_waiters() == old(self).websocket_waiters()
                },
                ContainerSent::WebSocketConnectionResponse { req_id, response } => {
                    &&& r matches Delivery::WebSocketOpened { waiter, response: res }
                    &&& (waiter, final(self).websocket_waiters()) == delivered(old(self).websocket_waiters(), req_id)
                    &&& final(self).rpc_waiters() == old(self).rpc_waiters()
                    &&& final(self).proxy_waiters() == old(self).proxy_waiters()
                    &&& match response {
                        Ok(ws_id) => exists|s: S, t: T| {
                            &&& #[trigger] open.ensures((ws_id,), (s, t))
                            &&& res == Ok::<T, ProxyError>(t)
                            &&& final(self).connections() == old(self).connections().insert(ws_id, s)
                        },
                        Err(e) => {
                            &&& res == Err::<T, ProxyError>(e)
                            &&& final(self).connections() == old(self).connections()
                        },
                    }
                },
                ContainerSent::WebSocketMessage { ws_id, message } => {
                    &&& r matches Delivery::WebSocketFrame { ws_id: id, message: m }
                    &&& id == ws_id && m == message
                    &&& final(self).rpc_waiters() == old(self).rpc_waiters()
                    &&& final(self).proxy_waiters() == old(self).proxy_waiters()
                    &&& final(self).websocket_waiters() == old(self).websocket_waiters()
                },
                _ => {
                    &&& r matches Delivery::ToSession(m) && m == msg
                    &&& final(self).rpc_waiters() == old(self).rpc_waiters()
                    &&& final(self).proxy_waiters() == old(self).proxy_waiters()
                    &&& final(self).websocket_waiters() == old(self).websocket_waiters()
                },
            },
    {
        match msg {
            ContainerSent::RpcResponse { req_id, result } => {
                let waiter = self.rpc_records.handle_incoming(req_id);
                let answer = parse_rpc_answer(result.as_str());
                Delivery::RpcAnswer { waiter, result: answer }
            },
            ContainerSent::ProxyResponse { req_id, response } => {
                let waiter = self.proxy_records.handle_incoming(req_id);
                Delivery::ProxyAnswer { waiter, response }
            },
            ContainerSent::WebSocketConnectionResponse { req_id, response } => {
                let waiter = self.websocket_requests.handle_incoming(req_id);
                let opened = match response {
                    Ok(ws_id) => {
                        let (s, t) = open(ws_id);
                        let ghost sides = (s, t);
                        self.websocket_connections.insert(ws_id, s);
                        assert(open.ensures((ws_id,), sides));
                        Ok(t)
                    },
                    Err(e) => Err(e),
                };
                Delivery::WebSocketOpened { waiter, response: opened }
            },
            ContainerSent::WebSocketMessage { ws_id, message } => Delivery::WebSocketFrame { ws_id, message },
            other => Delivery::ToSession(other),
        }
    }
}

/// Frames for an opened connection reach it: once the connection is
/// registered under its id (as `handle_message` does), the lookup for that
/// id (`websocket`) finds it.
pub proof fn opened_connection_receives_frames<S>(connections: Map<u32, S>, ws_id: u32, connection: S)
    ensures
        connections.insert(ws_id, connection).contains_key(ws_id),
        connections.insert(ws_id, connection)[ws_id] == connection,
{
}

} // verus!
