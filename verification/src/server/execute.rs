//! The execution endpoints of the server: starting a session for a
//! client, and running a program headless, collecting what it prints.
use vstd::prelude::*;
use crate::server::session::{rpc_for_client_message, rpc_for_spec, ClientMessage};
use crate::shared::protocol::{ContainerRpcRequest, ContainerSent, ExecuteOptions};
use crate::text::{owned, push_str};

verus! {

/// The ticket a client connects its WebSocket with.
pub struct ExecuteResponse {
    pub ticket: String,
}

pub struct ExecuteQueryParams {
    pub api_key: String,
}

pub struct ExecuteHeadlessRequest {
    pub execute_options: ExecuteOptions,
    pub input: String,
}

pub struct ExecuteHeadlessReponse {
    pub output: String,
}

/// Requests must carry the server's API key; otherwise they are refused
/// with "Invalid API key".
pub fn check_api_key(given: &str, expected: &str) -> (r: Result<(), &'static str>)
    ensures
        given@ == expected@ ==> r is Ok,
        given@ != expected@ ==> (r matches Err(m) && m@ == "Invalid API key"@),
{
    if owned(given) != owned(expected) {
        Err("Invalid API key")
    } else {
        Ok(())
    }
}

/// The output of a headless run: what the run's pty prints, up to the exit
/// of that pty.
pub struct HeadlessOutput {
    pub pty_id: u32,
    pub output: String,
    pub finished: bool,
}

/// The output after one more message from the container: output of the
/// run's pty is appended, the exit of the run's pty finishes the run, and
/// anything else (other ptys included) is ignored.
pub open spec fn collected(pty_id: u32, output: Seq<char>, finished: bool, msg: ContainerSent) -> (Seq<char>, bool) {
    match msg {
        ContainerSent::PtyOutput { pty_id: id, output: o } => if id == pty_id {
            (output + o@, finished)
        } else {
            (output, finished)
        },
        ContainerSent::PtyExit { pty_id: id } => if id == pty_id { (output, true) } else { (output, finished) },
        _ => (output, finished),
    }
}

impl HeadlessOutput {
    pub fn new(pty_id: u32) -> (r: Self)
        ensures
            r.pty_id == pty_id,
            r.output@ == Seq::<char>::empty(),
            !r.finished,
    {
        HeadlessOutput { pty_id, output: String::new(), finished: false }
    }

    /// Takes one message from the container into account; the result tells
    /// whether the run is over.
    pub fn on_message(&mut self, msg: &ContainerSent) -> (r: bool)
        ensures
            final(self).pty_id == old(self).pty_id,
            (final(self).output@, final(self).finished) == collected(
                old(self).pty_id,
                old(self).output@,
                old(self).finished,
                *msg,
            ),
            r == final(self).finished,
    {
        match msg {
            ContainerSent::PtyOutput { pty_id, output } => {
                if *pty_id == self.pty_id {
                    push_str(&mut self.output, output.as_str());
                }
            },
            ContainerSent::PtyExit { pty_id } => {
                if *pty_id == self.pty_id {
                    self.finished = true;
                }
            },
            _ => {},
        }
        self.finished
    }
}

/// Where a headless run stands: setting the container up, starting the
/// program's pty, feeding it the input, or collecting its output.
pub enum HeadlessRun {
    SettingUp { input: String },
    Starting { input: String },
    Feeding { pty_id: u32 },
    Collecting { output: HeadlessOutput },
    Over,
}

/// What came back from the container.
pub enum HeadlessEvent {
    /// The setup request was answered, successfully or not.
    SetupAnswered { ok: bool },
    /// The pty request was answered: the pty's id, if it was created.
    PtyAnswered { id: Option<u64> },
    /// The input request was answered, successfully or not.
    InputAnswered { ok: bool },
    /// A message from the container.
    Message(ContainerSent),
}

/// What the run does next.
pub enum HeadlessAction {
    /// Send this request to the container.
    Send(ContainerRpcRequest),
    /// Give the program a moment to start, then send this request.
    PauseThenSend(ContainerRpcRequest),
    /// Wait for the next message from the container.
    Listen,
    /// The run is over: answer with this output.
    Respond(String),
    /// The run failed: answer with this error.
    Fail(&'static str),
}

impl HeadlessRun {
    /// The event that the answer to the run's last request makes, given the
    /// answer's outcome (`None` where no answer came or it could not be
    /// read): for the setup and the input, whether they succeeded; for the
    /// pty, its id where the answer is a successful unsigned integer.
    pub fn answer_event(&self, answer: Option<Result<Option<u64>, String>>) -> (r: HeadlessEvent)
        ensures
            match *self {
                HeadlessRun::SettingUp { .. } => r == (HeadlessEvent::SetupAnswered { ok: answer matches Some(Ok(_)) }),
                HeadlessRun::Starting { .. } => r == (HeadlessEvent::PtyAnswered {
                    id: match answer { Some(Ok(v)) => v, _ => None },
                }),
                _ => r == (HeadlessEvent::InputAnswered { ok: answer matches Some(Ok(_)) }),
            },
    {
        let ok = match &answer {
            Some(Ok(_)) => true,
            _ => false,
        };
        match self {
            HeadlessRun::SettingUp { .. } => HeadlessEvent::SetupAnswered { ok },
            HeadlessRun::Starting { .. } => HeadlessEvent::PtyAnswered {
                id: match answer {
                    Some(Ok(v)) => v,
                    _ => None,
                },
            },
            _ => HeadlessEvent::InputAnswered { ok },
        }
    }

    /// A run begins by setting the container up with the client's options.
    pub fn start(options: ExecuteOptions, input: String) -> (r: (HeadlessRun, HeadlessAction))
        ensures
            r.0 matches HeadlessRun::SettingUp { input: i } && i@ == input@,
            r.1 matches HeadlessAction::Send(ContainerRpcRequest::SetupFromOptions { options: o }) && o == options,
    {
        (HeadlessRun::SettingUp { input }, HeadlessAction::Send(ContainerRpcRequest::SetupFromOptions { options }))
    }

    /// The next stage and action after an event. A failed setup, pty
    /// creation or input ends the run with "Failed to setup container.",
    /// "Failed to create pty." or "Failed to input"; once the input is in,
    /// the run collects the pty's output until the pty exits. An event that
    /// does not belong to the stage is ignored.
    pub fn step(self, event: HeadlessEvent) -> (r: (HeadlessRun, HeadlessAction))
        ensures
            match (self, event) {
                (HeadlessRun::SettingUp { input }, HeadlessEvent::SetupAnswered { ok }) => if ok {
                    &&& r.0 matches HeadlessRun::Starting { input: i } && i@ == input@
                    &&& r.1 matches HeadlessAction::Send(req) && rpc_for_spec(ClientMessage::Run, Some(req))
                } else {
                    &&& r.0 is Over
                    &&& r.1 matches HeadlessAction::Fail(m) && m@ == "Failed to setup container."@
                },
                (HeadlessRun::Starting { input }, HeadlessEvent::PtyAnswered { id }) => match id {
                    Some(v) => {
                        &&& r.0 matches HeadlessRun::Feeding { pty_id } && pty_id == v as u32
                        &&& r.1 matches HeadlessAction::PauseThenSend(ContainerRpcRequest::PtyInput { pty_id, input: i })
                            && pty_id == v as u32 && i@ == input@
                    },
                    None => {
                        &&& r.0 is Over
                        &&& r.1 matches HeadlessAction::Fail(m) && m@ == "Failed to create pty."@
                    },
                },
                (HeadlessRun::Feeding { pty_id }, HeadlessEvent::InputAnswered { ok }) => if ok {
                    &&& r.0 matches HeadlessRun::Collecting { output }
                    &&& output.pty_id == pty_id && output.output@ == Seq::<char>::empty() && !output.finished
                    &&& r.1 is Listen
                } else {
                    &&& r.0 is Over
                    &&& r.1 matches HeadlessAction::Fail(m) && m@ == "Failed to input"@
                },
                (HeadlessRun::Collecting { output }, HeadlessEvent::Message(msg)) => {
                    let (text, finished) = collected(output.pty_id, output.output@, output.finished, msg);
                    if finished {
                        &&& r.0 is Over
                        &&& r.1 matches HeadlessAction::Respond(o) && o@ == text
                    } else {
                        &&& r.0 matches HeadlessRun::Collecting { output: n }
                        &&& n.pty_id == output.pty_id && n.output@ == text && !n.finished
                        &&& r.1 is Listen
                    }
                },
                (run, _) => r.0 == run && r.1 is Listen,
            },
    {
        match (self, event) {
            (HeadlessRun::SettingUp { input }, HeadlessEvent::SetupAnswered { ok }) => {
                if ok {
                    match rpc_for_client_message(ClientMessage::Run) {
                        Some(req) => (HeadlessRun::Starting { input }, HeadlessAction::Send(req)),
                        None => (HeadlessRun::Over, HeadlessAction::Fail("Failed to create pty.")),
                    }
                } else {
                    (HeadlessRun::Over, HeadlessAction::Fail("Failed to setup container."))
                }
            },
            (HeadlessRun::Starting { input }, HeadlessEvent::PtyAnswered { id }) => match id {
                Some(v) => {
                    let pty_id = v as u32;
                    (
                        HeadlessRun::Feeding { pty_id },
                        HeadlessAction::PauseThenSend(ContainerRpcRequest::PtyInput { pty_id, input }),
                    )
                },
                None => (HeadlessRun::Over, HeadlessAction::Fail("Failed to create pty.")),
            },
            (HeadlessRun::Feeding { pty_id }, HeadlessEvent::InputAnswered { ok }) => {
                if ok {
                    (HeadlessRun::Collecting { output: HeadlessOutput::new(pty_id) }, HeadlessAction::Listen)
                } else {
                    (HeadlessRun::Over, HeadlessAction::Fail("Failed to input"))
                }
            },
            (HeadlessRun::Collecting { output }, HeadlessEvent::Message(msg)) => {
                let mut output = output;
                if output.on_message(&msg) {
                    (HeadlessRun::Over, HeadlessAction::Respond(output.output))
                } else {
                    (HeadlessRun::Collecting { output }, HeadlessAction::Listen)
                }
            },
            (run, _) => (run, HeadlessAction::Listen),
        }
    }
}

/// The collected output and finish flag after a sequence of messages, in
/// the order they arrived.
pub open spec fn collected_all(pty_id: u32, msgs: Seq<ContainerSent>) -> (Seq<char>, bool)
    decreases msgs.len(),
{
    if msgs.len() == 0 {
        (Seq::empty(), false)
    } else {
        let (o, f) = collected_all(pty_id, msgs.drop_last());
        collected(pty_id, o, f, msgs.last())
    }
}

/// What pty `pty_id` printed in a sequence of messages: the texts of its
/// output messages, in order.
pub open spec fn printed(pty_id: u32, msgs: Seq<ContainerSent>) -> Seq<char>
    decreases msgs.len(),
{
    if msgs.len() == 0 {
        Seq::empty()
    } else {
        let before = printed(pty_id, msgs.drop_last());
        match msgs.last() {
            ContainerSent::PtyOutput { pty_id: id, output } => if id == pty_id { before + output@ } else { before },
            _ => before,
        }
    }
}

/// A headless run answers with exactly what its pty printed: until the
/// pty's exit arrives, the collected output is the concatenation of the
/// pty's own output messages, in order, and the run is not finished.
pub proof fn headless_output_is_what_the_pty_printed(pty_id: u32, msgs: Seq<ContainerSent>)
    requires
        forall|i: int| 0 <= i < msgs.len() ==> !(#[trigger] msgs[i] matches ContainerSent::PtyExit { pty_id: id } && id == pty_id),
    ensures
        collected_all(pty_id, msgs) == (printed(pty_id, msgs), false),
    decreases msgs.len(),
{
    if msgs.len() > 0 {
        let prefix = msgs.drop_last();
        assert forall|i: int| 0 <= i < prefix.len() implies !(#[trigger] prefix[i] matches ContainerSent::PtyExit { pty_id: id } && id == pty_id) by {
            assert(prefix[i] == msgs[i]);
        }
        headless_output_is_what_the_pty_printed(pty_id, prefix);
        assert(msgs[msgs.len() - 1] == msgs.last());
    }
}

/// Once the pty's exit arrives the run is finished, whatever comes after.
pub proof fn headless_run_ends_at_exit(pty_id: u32, msgs: Seq<ContainerSent>, k: int)
    requires
        0 <= k < msgs.len(),
        msgs[k] matches ContainerSent::PtyExit { pty_id: id } && id == pty_id,
    ensures
        collected_all(pty_id, msgs).1,
    decreases msgs.len(),
{
    if k < msgs.len() - 1 {
        let prefix = msgs.drop_last();
        assert(prefix[k] == msgs[k]);
        headless_run_ends_at_exit(pty_id, prefix, k);
    } else {
        assert(msgs.last() == msgs[k]);
    }
}

/// Only the run's own pty contributes output: output of any other pty
/// leaves the collected output as it was.
pub proof fn other_ptys_do_not_contribute(pty_id: u32, output: Seq<char>, finished: bool, other: u32, text: String)
    requires
        other != pty_id,
    ensures
        collected(pty_id, output, finished, ContainerSent::PtyOutput { pty_id: other, output: text })
            == (output, finished),
{
}

} // verus!
