use vstd::prelude::*;

use crate::ai::ProviderConfig;
use crate::message::{call_models, AgentMessage, CallModel, MessageModel};
use crate::tools::{canonical_tools, ToolKind, ToolRegistry};

verus! {

/// Upper bound on the number of model turns one session may take.
pub const MAX_STEPS: u64 = 10;

/// The closed set of states one session can be in. `Running` covers both
/// waiting for the model and executing tools; the other three are terminal.
#[derive(PartialEq, Eq, Structural, Clone, Copy, Debug)]
pub enum AgentStatus {
    Running,
    Finished,
    Stopped,
    Errored,
}

/// One lifecycle notification for the host to forward to its observer.
/// Delivery is the host's business; the library only appends them in causal
/// order.
#[derive(Debug)]
pub enum AgentEvent {
    Thought(String),
    Observation(String),
    Proposal { path: String, new_content: String },
    Response(String),
    Finished(String),
    Error(String),
}

/// Spec-level model of one lifecycle notification.
pub enum EventModel {
    Thought(Seq<char>),
    Observation(Seq<char>),
    Proposal { path: Seq<char>, new_content: Seq<char> },
    Response(Seq<char>),
    Finished(Seq<char>),
    Error(Seq<char>),
}

impl View for AgentEvent {
    type V = EventModel;

    open spec fn view(&self) -> EventModel {
        match self {
            AgentEvent::Thought(t) => EventModel::Thought(t@),
            AgentEvent::Observation(t) => EventModel::Observation(t@),
            AgentEvent::Proposal { path, new_content } => EventModel::Proposal {
                path: path@,
                new_content: new_content@,
            },
            AgentEvent::Response(t) => EventModel::Response(t@),
            AgentEvent::Finished(t) => EventModel::Finished(t@),
            AgentEvent::Error(t) => EventModel::Error(t@),
        }
    }
}

impl AgentEvent {
    /// The wire name of the channel this notification goes out on.
    pub fn channel(&self) -> (r: &'static str)
        ensures
            self@ is Thought ==> r@ == "agent-thought"@,
            self@ is Observation ==> r@ == "agent-observation"@,
            self@ is Proposal ==> r@ == "agent-proposal"@,
            self@ is Response ==> r@ == "agent-response"@,
            self@ is Finished ==> r@ == "agent-finished"@,
            self@ is Error ==> r@ == "agent-error"@,
    {
        match self {
            AgentEvent::Thought(_) => "agent-thought",
            AgentEvent::Observation(_) => "agent-observation",
            AgentEvent::Proposal { .. } => "agent-proposal",
            AgentEvent::Response(_) => "agent-response",
            AgentEvent::Finished(_) => "agent-finished",
            AgentEvent::Error(_) => "agent-error",
        }
    }
}

/// The models of an event list, in order.
pub open spec fn event_models(s: Seq<AgentEvent>) -> Seq<EventModel> {
    s.map(|i: int, e: AgentEvent| e@)
}

/// Spec-level model of one whole session: everything the transitions read
/// or write. The provider configuration is immutable and stands outside.
#[verifier::ext_equal]
pub struct SessionModel {
    pub messages: Seq<MessageModel>,
    pub tools: Seq<ToolKind>,
    pub running: bool,
    pub status: AgentStatus,
    pub steps: int,
    pub events: Seq<EventModel>,
}

/// The mutable record of one conversation: the transcript, the session's
/// capabilities, the provider configuration, the cooperative stop flag, the
/// machine state, the step budget spent, and the notifications not yet
/// drained by the host.
pub struct AgentState {
    pub messages: Vec<AgentMessage>,
    pub tools: ToolRegistry,
    pub config: ProviderConfig,
    pub is_running: bool,
    pub status: AgentStatus,
    pub steps_taken: u64,
    pub events: Vec<AgentEvent>,
}

impl AgentState {
    /// The session as the transitions see it.
    pub open spec fn model(&self) -> SessionModel {
        SessionModel {
            messages: crate::ai::message_models(self.messages@),
            tools: self.tools.tools@,
            running: self.is_running,
            status: self.status,
            steps: self.steps_taken as int,
            events: event_models(self.events@),
        }
    }

    /// A session's step budget is never overdrawn.
    pub open spec fn wf(&self) -> bool {
        self.steps_taken <= MAX_STEPS
    }
}

/// A fresh, not yet running session: empty transcript, the full capability
/// set, nothing spent, nothing emitted.
pub open spec fn spec_fresh(s: SessionModel) -> bool {
    &&& s.messages.len() == 0
    &&& s.tools == canonical_tools()
    &&& !s.running
    &&& s.status == AgentStatus::Running
    &&& s.steps == 0
    &&& s.events.len() == 0
}

/// A stop request only clears the running flag; nothing else moves, and
/// nothing is interrupted.
pub open spec fn spec_stop(s: SessionModel) -> SessionModel {
    SessionModel { running: false, ..s }
}

/// Why a session halts at the loop top.
pub open spec fn spec_halt_reason(s: SessionModel) -> Seq<char> {
    if !s.running {
        "stopped"@
    } else {
        "step limit reached"@
    }
}

/// The state a halting session lands in.
pub open spec fn spec_halt_status(s: SessionModel) -> AgentStatus {
    if !s.running {
        AgentStatus::Stopped
    } else {
        AgentStatus::Finished
    }
}

/// The loop-top check. `Finished`, `Stopped` and `Errored` are terminal:
/// a session already in one of them moves no further and emits nothing
/// more — its end was announced when it entered the state. A running
/// session that was asked to stop or has spent its step budget announces
/// why it finished and halts; any other running session spends one step
/// and announces that it is thinking.
pub open spec fn spec_begin_step(s: SessionModel) -> SessionModel {
    if s.status != AgentStatus::Running {
        s
    } else if !s.running || s.steps >= MAX_STEPS {
        SessionModel {
            status: spec_halt_status(s),
            running: false,
            events: s.events.push(EventModel::Finished(spec_halt_reason(s))),
            ..s
        }
    } else {
        SessionModel {
            steps: s.steps + 1,
            events: s.events.push(EventModel::Thought("Thinking..."@)),
            ..s
        }
    }
}

impl AgentState {
    /// A session shell around the given configuration: empty transcript,
    /// every tool registered, not yet running.
    pub fn new(config: ProviderConfig) -> (s: AgentState)
        ensures
            spec_fresh(s.model()),
            s.wf(),
            s.config == config,
    {
        let s = AgentState {
            messages: Vec::new(),
            tools: ToolRegistry::new(),
            config,
            is_running: false,
            status: AgentStatus::Running,
            steps_taken: 0,
            events: Vec::new(),
        };
        proof {
            assert(crate::ai::message_models(s.messages@) =~= Seq::<MessageModel>::empty());
            assert(event_models(s.events@) =~= Seq::<EventModel>::empty());
        }
        s
    }

    /// Appends one turn to the transcript; nothing else moves.
    pub fn add_message(&mut self, msg: AgentMessage)
        ensures
            final(self).model() == (SessionModel {
                messages: old(self).model().messages.push(msg@),
                ..old(self).model()
            }),
            final(self).wf() == old(self).wf(),
            final(self).config == old(self).config,
    {
        self.messages.push(msg);
        proof {
            assert(crate::ai::message_models(self.messages@) =~= crate::ai::message_models(
                old(self).messages@,
            ).push(self.messages@.last()@));
            assert(final(self).model() =~= (SessionModel {
                messages: old(self).model().messages.push(self.messages@.last()@),
                ..old(self).model()
            }));
        }
    }

    /// Requests a cooperative stop: only the running flag is cleared, and
    /// only the next loop-top check observes it. Idempotent.
    pub fn stop(&mut self)
        ensures
            final(self).model() == spec_stop(old(self).model()),
            final(self).wf() == old(self).wf(),
            final(self).config == old(self).config,
    {
        self.is_running = false;
        proof {
            assert(final(self).model() =~= spec_stop(old(self).model()));
        }
    }

    /// The loop-top check, exactly as `spec_begin_step` defines it: returns
    /// whether the loop may take another model turn. On a session whose run
    /// already ended it returns false and changes nothing, so a driver that
    /// loops on this gate terminates after any terminal transition.
    pub fn begin_step(&mut self) -> (proceed: bool)
        requires
            old(self).wf(),
        ensures
            final(self).model() == spec_begin_step(old(self).model()),
            final(self).wf(),
            final(self).config == old(self).config,
            proceed == (old(self).model().status == AgentStatus::Running
                && old(self).model().running && old(self).model().steps < MAX_STEPS),
            !proceed && old(self).model().status == AgentStatus::Running
                ==> final(self).model().status == spec_halt_status(old(self).model())
                && final(self).model().events.last() == EventModel::Finished(
                spec_halt_reason(old(self).model()),
            ),
            old(self).model().status != AgentStatus::Running
                ==> final(self).model() == old(self).model(),
    {
        let terminal = match self.status {
            AgentStatus::Running => false,
            _ => true,
        };
        if terminal {
            proof {
                assert(final(self).model() =~= spec_begin_step(old(self).model()));
            }
            return false;
        }
        if !self.is_running || self.steps_taken >= MAX_STEPS {
            let reason = if !self.is_running {
                "stopped"
            } else {
                "step limit reached"
            };
            self.status = if !self.is_running {
                AgentStatus::Stopped
            } else {
                AgentStatus::Finished
            };
            self.is_running = false;
            self.events.push(AgentEvent::Finished(reason.to_owned()));
            proof {
                assert(event_models(self.events@) =~= event_models(old(self).events@).push(
                    self.events@.last()@,
                ));
                assert(final(self).model() =~= spec_begin_step(old(self).model()));
            }
            false
        } else {
            self.steps_taken = self.steps_taken + 1;
            self.events.push(AgentEvent::Thought("Thinking...".to_owned()));
            proof {
                assert(event_models(self.events@) =~= event_models(old(self).events@).push(
                    self.events@.last()@,
                ));
                assert(final(self).model() =~= spec_begin_step(old(self).model()));
            }
            true
        }
    }
}

/// The fixed operating rules every session is seeded with.
pub open spec fn spec_system_prompt() -> Seq<char> {
    "You are a helpful AI assistant integrated into a LaTeX editor.\nYou are connected to a Database of User Resources (files).\nCRITICAL RULES:\n1. The local filesystem (via `ls` or `run_terminal`) is the APPLICATION SOURCE, NOT the user's data. DO NOT use `ls`, `dir` or `find` to look for user files.\n2. You MUST use `find_resource(name, optional_collection)` to locate user files. If the user specifies a base/collection, pass it as the second argument.\n3. You MUST use `search_files(query)` to find files containing specific text.\n4. When modifying EXISTING files, you MUST use `propose_edit`.\n5. Use `write_file` ONLY for creating NEW files (get path from `find_resource` or user input)."@
}

/// The system turn every session starts with.
pub open spec fn spec_system_message() -> MessageModel {
    MessageModel {
        role: "system"@,
        content: Some(spec_system_prompt()),
        tool_calls: None,
        tool_call_id: None,
    }
}

/// The fixed operating rules, as text.
pub fn system_prompt() -> (r: &'static str)
    ensures
        r@ == spec_system_prompt(),
{
    "You are a helpful AI assistant integrated into a LaTeX editor.\nYou are connected to a Database of User Resources (files).\nCRITICAL RULES:\n1. The local filesystem (via `ls` or `run_terminal`) is the APPLICATION SOURCE, NOT the user's data. DO NOT use `ls`, `dir` or `find` to look for user files.\n2. You MUST use `find_resource(name, optional_collection)` to locate user files. If the user specifies a base/collection, pass it as the second argument.\n3. You MUST use `search_files(query)` to find files containing specific text.\n4. When modifying EXISTING files, you MUST use `propose_edit`.\n5. Use `write_file` ONLY for creating NEW files (get path from `find_resource` or user input)."
}

/// Starts a session: a fresh state around the given configuration, seeded
/// with the fixed system prompt and then the caller's history, marked
/// running. Replaces whatever session the host held before.
pub fn start(history: Vec<AgentMessage>, config: ProviderConfig) -> (s: AgentState)
    ensures
        s.model().messages == seq![spec_system_message()] + crate::ai::message_models(history@),
        s.model().tools == canonical_tools(),
        s.model().running,
        s.model().status == AgentStatus::Running,
        s.model().steps == 0,
        s.model().events.len() == 0,
        s.wf(),
        s.config == config,
{
    let ghost hist = history@;
    let mut s = AgentState::new(config);
    s.is_running = true;
    let sys = AgentMessage::text_message("system".to_owned(), system_prompt().to_owned());
    s.messages.push(sys);
    proof {
        assert(crate::ai::message_models(s.messages@) =~= seq![spec_system_message()]);
    }
    let mut rest = history;
    proof {
        assert(rest@ =~= hist.skip(0));
        assert(hist.take(0) =~= Seq::<AgentMessage>::empty());
        assert(crate::ai::message_models(hist.take(0)) =~= Seq::<MessageModel>::empty());
        assert(crate::ai::message_models(s.messages@) =~= seq![spec_system_message()]
            + crate::ai::message_models(hist.take(0)));
    }
    while rest.len() > 0
        invariant
            s.model().tools == canonical_tools(),
            s.model().running,
            s.model().status == AgentStatus::Running,
            s.model().steps == 0,
            s.model().events.len() == 0,
            s.wf(),
            s.config == config,
            s.messages@.len() >= 1,
            s.messages@.len() + rest@.len() == 1 + hist.len(),
            rest@ == hist.skip(s.messages@.len() - 1),
            crate::ai::message_models(s.messages@) == seq![spec_system_message()]
                + crate::ai::message_models(hist.take(s.messages@.len() - 1)),
        decreases rest@.len(),
    {
        let ghost n = s.messages@.len() as int;
        proof {
            assert(rest@.len() >= 1);
            assert(rest@ == hist.skip(n - 1));
            assert(n - 1 < hist.len());
        }
        let m = rest.remove(0);
        proof {
            assert(hist.skip(n - 1)[0] == hist[n - 1]);
        }
        let ghost msgs_old = s.messages@;
        s.messages.push(m);
        proof {
            assert(rest@ =~= hist.skip(n));
            let msgs_new = s.messages@;
            let want = seq![spec_system_message()] + crate::ai::message_models(hist.take(n));
            assert(msgs_new =~= msgs_old.push(hist[n - 1]));
            assert forall|k: int|
                0 <= k < n + 1 implies crate::ai::message_models(msgs_new)[k] == want[k] by {
                assert(crate::ai::message_models(msgs_new)[k] == msgs_new[k]@);
                if k < n {
                    assert(msgs_new[k] == msgs_old[k]);
                    assert(crate::ai::message_models(msgs_old)[k] == msgs_old[k]@);
                    if k >= 1 {
                        assert(crate::ai::message_models(hist.take(n - 1))[k - 1] == hist.take(
                            n - 1,
                        )[k - 1]@);
                        assert(crate::ai::message_models(hist.take(n))[k - 1] == hist.take(
                            n,
                        )[k - 1]@);
                        assert(hist.take(n - 1)[k - 1] == hist[k - 1]);
                        assert(hist.take(n)[k - 1] == hist[k - 1]);
                    }
                } else {
                    assert(msgs_new[k] == hist[n - 1]);
                    assert(crate::ai::message_models(hist.take(n))[k - 1] == hist.take(n)[k
                        - 1]@);
                    assert(hist.take(n)[k - 1] == hist[n - 1]);
                }
            }
            assert(crate::ai::message_models(msgs_new) =~= want);
        }
    }
    proof {
        assert(hist.take(hist.len() as int) =~= hist);
    }
    s
}

/// The turn asks for tool work: a present, non-empty call list.
pub open spec fn spec_has_calls(m: MessageModel) -> bool {
    match m.tool_calls {
        Some(c) => c.len() > 0,
        None => false,
    }
}

/// How one requested call is announced: its name with its raw arguments.
pub open spec fn spec_call_desc(c: CallModel) -> Seq<char> {
    c.name + "("@ + c.arguments + ")"@
}

/// The announcements of all requested calls, in order.
pub open spec fn spec_call_descs(cs: Seq<CallModel>) -> Seq<Seq<char>> {
    cs.map(|i: int, c: CallModel| spec_call_desc(c))
}

/// The thought announcing a batch of tool calls.
pub open spec fn spec_calls_text(cs: Seq<CallModel>) -> Seq<char> {
    "Calling tools: "@ + crate::strutil::joined_with(spec_call_descs(cs), ", "@)
}

/// A failed model call ends the run: the session turns `Errored`, stops
/// running and reports the failure; nothing is retried.
pub open spec fn spec_handle_err(s: SessionModel, e: Seq<char>) -> SessionModel {
    SessionModel {
        status: AgentStatus::Errored,
        running: false,
        events: s.events.push(EventModel::Error(e)),
        ..s
    }
}

/// A returned assistant turn is appended to the transcript. One that asks
/// for tool work announces the calls and keeps the session running; one
/// that does not ends the run normally — the session stops running —
/// reporting its text if it has any and then that the session is done.
pub open spec fn spec_handle_ok(s: SessionModel, m: MessageModel) -> SessionModel {
    let s1 = SessionModel { messages: s.messages.push(m), ..s };
    if spec_has_calls(m) {
        SessionModel {
            events: s1.events.push(
                EventModel::Thought(
                    spec_calls_text(
                        match m.tool_calls {
                            Some(c) => c,
                            None => Seq::empty(),
                        },
                    ),
                ),
            ),
            ..s1
        }
    } else {
        let ev1 = match m.content {
            Some(c) => s1.events.push(EventModel::Response(c)),
            None => s1.events,
        };
        SessionModel {
            status: AgentStatus::Finished,
            running: false,
            events: ev1.push(EventModel::Finished("Done"@)),
            ..s1
        }
    }
}

/// Renders the announcement of a batch of tool calls.
fn calls_text(calls: &Vec<crate::message::ToolCall>) -> (r: String)
    ensures
        r@ == spec_calls_text(call_models(calls@)),
{
    let ghost descs = spec_call_descs(call_models(calls@));
    let mut s = "Calling tools: ".to_owned();
    let ghost header = s@;
    let mut i: usize = 0;
    proof {
        assert(descs.take(0) =~= Seq::<Seq<char>>::empty());
        assert(s@ =~= header + crate::strutil::joined_with(descs.take(0), ", "@));
    }
    while i < calls.len()
        invariant
            descs == spec_call_descs(call_models(calls@)),
            header == "Calling tools: "@,
            i <= calls@.len(),
            s@ == header + crate::strutil::joined_with(descs.take(i as int), ", "@),
        decreases calls@.len() - i,
    {
        if i > 0 {
            s.append(", ");
        }
        s.append(calls[i].function.name.as_str());
        s.append("(");
        s.append(calls[i].function.arguments.as_str());
        s.append(")");
        proof {
            crate::strutil::lemma_joined_with_snoc(descs, ", "@, i as int);
            assert(call_models(calls@)[i as int] == calls@[i as int]@);
            assert(descs[i as int] == spec_call_desc(calls@[i as int]@));
            if i > 0 {
                assert(s@ =~= header + (crate::strutil::joined_with(descs.take(i as int), ", "@)
                    + ", "@ + descs[i as int]));
            } else {
                assert(s@ =~= header + descs[0]);
            }
        }
        i = i + 1;
    }
    proof {
        assert(descs.take(calls@.len() as int) =~= descs);
    }
    s
}

impl AgentState {
    /// Takes the outcome of one model call, exactly as `spec_handle_err`
    /// and `spec_handle_ok` define it, and hands back the calls to execute:
    /// every requested call, in the model's order, or none when the run
    /// ended. A stop request does not change what this does: an in-flight
    /// reply is processed in full.
    pub fn handle_model_result(&mut self, outcome: Result<AgentMessage, String>) -> (calls: Vec<
        crate::message::ToolCall,
    >)
        ensures
            final(self).model() == (match outcome {
                Ok(m) => spec_handle_ok(old(self).model(), m@),
                Err(e) => spec_handle_err(old(self).model(), e@),
            }),
            final(self).wf() == old(self).wf(),
            final(self).config == old(self).config,
            match outcome {
                Ok(m) => if spec_has_calls(m@) {
                    call_models(calls@) == (match m@.tool_calls {
                        Some(c) => c,
                        None => Seq::empty(),
                    })
                } else {
                    calls@.len() == 0
                },
                Err(_) => calls@.len() == 0,
            },
    {
        match outcome {
            Err(e) => {
                self.status = AgentStatus::Errored;
                self.is_running = false;
                self.events.push(AgentEvent::Error(e));
                proof {
                    assert(event_models(self.events@) =~= event_models(old(self).events@).push(
                        self.events@.last()@,
                    ));
                    assert(final(self).model() =~= spec_handle_err(
                        old(self).model(),
                        self.events@.last()@->Error_0,
                    ));
                }
                Vec::new()
            },
            Ok(m) => {
                let has_calls = match &m.tool_calls {
                    Some(c) => c.len() > 0,
                    None => false,
                };
                if has_calls {
                    let (text, calls) = match &m.tool_calls {
                        Some(c) => (calls_text(c), crate::message::clone_calls(c)),
                        None => (String::new(), Vec::new()),
                    };
                    let ghost mg = m@;
                    self.messages.push(m);
                    self.events.push(AgentEvent::Thought(text));
                    proof {
                        assert(crate::ai::message_models(self.messages@)
                            =~= crate::ai::message_models(old(self).messages@).push(mg));
                        assert(event_models(self.events@) =~= event_models(
                            old(self).events@,
                        ).push(self.events@.last()@));
                        assert(final(self).model() =~= spec_handle_ok(old(self).model(), mg));
                    }
                    calls
                } else {
                    let content_copy = match &m.content {
                        Some(c) => Some(c.clone()),
                        None => None,
                    };
                    let ghost mg = m@;
                    self.messages.push(m);
                    match content_copy {
                        Some(c) => {
                            self.events.push(AgentEvent::Response(c));
                        },
                        None => (),
                    }
                    self.events.push(AgentEvent::Finished("Done".to_owned()));
                    self.status = AgentStatus::Finished;
                    self.is_running = false;
                    proof {
                        assert(crate::ai::message_models(self.messages@)
                            =~= crate::ai::message_models(old(self).messages@).push(mg));
                        match mg.content {
                            Some(c) => {
                                assert(event_models(self.events@) =~= event_models(
                                    old(self).events@,
                                ).push(EventModel::Response(c)).push(
                                    EventModel::Finished("Done"@),
                                ));
                            },
                            None => {
                                assert(event_models(self.events@) =~= event_models(
                                    old(self).events@,
                                ).push(EventModel::Finished("Done"@)));
                            },
                        }
                        assert(final(self).model() =~= spec_handle_ok(old(self).model(), mg));
                    }
                    Vec::new()
                }
            },
        }
    }
}

/// The tool turn that answers one call.
pub open spec fn spec_tool_message(id: Seq<char>, out: Seq<char>) -> MessageModel {
    MessageModel { role: "tool"@, content: Some(out), tool_calls: None, tool_call_id: Some(id) }
}

/// One completed tool call is appended as a tool turn answering exactly the
/// call's id, and its raw output is reported as an observation. A failed
/// tool never aborts the session: its error arrives here as the output
/// text, for the model to read and react to.
pub open spec fn spec_record_tool_output(
    s: SessionModel,
    id: Seq<char>,
    out: Seq<char>,
) -> SessionModel {
    SessionModel {
        messages: s.messages.push(spec_tool_message(id, out)),
        events: s.events.push(EventModel::Observation(out)),
        ..s
    }
}

/// An accepted edit proposal is published as an event carrying the path
/// and the proposed content; the disk is never touched here.
pub open spec fn spec_record_proposal(
    s: SessionModel,
    path: Seq<char>,
    new_content: Seq<char>,
) -> SessionModel {
    SessionModel {
        events: s.events.push(EventModel::Proposal { path, new_content }),
        ..s
    }
}

impl AgentState {
    /// Records one completed tool call, exactly as
    /// `spec_record_tool_output` defines it.
    pub fn record_tool_output(&mut self, call_id: &str, output: String)
        ensures
            final(self).model() == spec_record_tool_output(
                old(self).model(),
                call_id@,
                output@,
            ),
            final(self).wf() == old(self).wf(),
            final(self).config == old(self).config,
    {
        let msg = AgentMessage {
            role: "tool".to_owned(),
            content: Some(output.clone()),
            tool_calls: None,
            tool_call_id: Some(call_id.to_owned()),
        };
        self.messages.push(msg);
        self.events.push(AgentEvent::Observation(output));
        proof {
            assert(crate::ai::message_models(self.messages@) =~= crate::ai::message_models(
                old(self).messages@,
            ).push(spec_tool_message(call_id@, self.messages@.last().content->0@)));
            assert(event_models(self.events@) =~= event_models(old(self).events@).push(
                self.events@.last()@,
            ));
            assert(final(self).model() =~= spec_record_tool_output(
                old(self).model(),
                call_id@,
                self.messages@.last().content->0@,
            ));
        }
    }

    /// Publishes an edit proposal, exactly as `spec_record_proposal`
    /// defines it, and hands back the tool output acknowledging it.
    pub fn record_proposal(&mut self, path: &str, new_content: &str) -> (out: String)
        ensures
            final(self).model() == spec_record_proposal(
                old(self).model(),
                path@,
                new_content@,
            ),
            final(self).wf() == old(self).wf(),
            final(self).config == old(self).config,
            out@ == crate::tools::spec_propose_edit_output(path@),
    {
        self.events.push(
            AgentEvent::Proposal { path: path.to_owned(), new_content: new_content.to_owned() },
        );
        proof {
            assert(event_models(self.events@) =~= event_models(old(self).events@).push(
                self.events@.last()@,
            ));
            assert(final(self).model() =~= spec_record_proposal(
                old(self).model(),
                path@,
                new_content@,
            ));
        }
        crate::tools::propose_edit_output(path)
    }
}

/// `a` is an assistant turn carrying a call that `t` answers.
pub open spec fn answers(t: MessageModel, a: MessageModel) -> bool {
    &&& a.role == "assistant"@
    &&& (match (t.tool_call_id, a.tool_calls) {
        (Some(id), Some(cs)) => exists|k: int| 0 <= k < cs.len() && (#[trigger] cs[k]).id == id,
        _ => false,
    })
}

/// The transcript invariant: every tool turn answers a call requested by
/// an assistant turn standing before it.
pub open spec fn wf_transcript(msgs: Seq<MessageModel>) -> bool {
    forall|i: int|
        0 <= i < msgs.len() && (#[trigger] msgs[i]).role == "tool"@ ==> exists|j: int|
            0 <= j < i && answers(msgs[i], #[trigger] msgs[j])
}

/// Appending any turn that is not a tool turn preserves the transcript
/// invariant.
pub proof fn lemma_wf_push_nontool(msgs: Seq<MessageModel>, m: MessageModel)
    requires
        wf_transcript(msgs),
        m.role != "tool"@,
    ensures
        wf_transcript(msgs.push(m)),
{
    let p = msgs.push(m);
    assert forall|i: int| 0 <= i < p.len() && (#[trigger] p[i]).role == "tool"@ implies exists|
        j: int,
    | 0 <= j < i && answers(p[i], #[trigger] p[j]) by {
        assert(i < msgs.len());
        assert(p[i] == msgs[i]);
        let j = choose|j: int| 0 <= j < i && answers(msgs[i], #[trigger] msgs[j]);
        assert(p[j] == msgs[j]);
        assert(answers(p[i], p[j]));
    }
}

/// Handling a returned assistant turn preserves the transcript invariant.
pub proof fn lemma_wf_after_handle_ok(s: SessionModel, m: MessageModel)
    requires
        wf_transcript(s.messages),
        m.role == "assistant"@,
    ensures
        wf_transcript(spec_handle_ok(s, m).messages),
{
    assert(m.role != "tool"@) by {
        reveal_strlit("assistant");
        reveal_strlit("tool");
        assert("assistant"@.len() == 9);
        assert("tool"@.len() == 4);
        crate::strutil::seq_neq_len(m.role, "tool"@);
    }
    lemma_wf_push_nontool(s.messages, m);
}

/// Recording the output of a call that some assistant turn requested
/// preserves the transcript invariant.
pub proof fn lemma_wf_after_record(
    s: SessionModel,
    j: int,
    k: int,
    out: Seq<char>,
)
    requires
        wf_transcript(s.messages),
        0 <= j < s.messages.len(),
        s.messages[j].role == "assistant"@,
        s.messages[j].tool_calls is Some,
        0 <= k < (match s.messages[j].tool_calls {
            Some(cs) => cs.len() as int,
            None => 0,
        }),
    ensures
        wf_transcript(
            spec_record_tool_output(
                s,
                (match s.messages[j].tool_calls {
                    Some(cs) => cs,
                    None => Seq::empty(),
                })[k].id,
                out,
            ).messages,
        ),
{
    let cs = match s.messages[j].tool_calls {
        Some(cs) => cs,
        None => Seq::empty(),
    };
    let id = cs[k].id;
    let p = spec_record_tool_output(s, id, out).messages;
    assert(p == s.messages.push(spec_tool_message(id, out)));
    assert forall|i: int| 0 <= i < p.len() && (#[trigger] p[i]).role == "tool"@ implies exists|
        q: int,
    | 0 <= q < i && answers(p[i], #[trigger] p[q]) by {
        if i < s.messages.len() {
            assert(p[i] == s.messages[i]);
            let q = choose|q: int| 0 <= q < i && answers(s.messages[i], #[trigger] s.messages[q]);
            assert(p[q] == s.messages[q]);
            assert(answers(p[i], p[q]));
        } else {
            assert(p[i] == spec_tool_message(id, out));
            assert(p[j] == s.messages[j]);
            assert(answers(p[i], p[j]));
        }
    }
}

/// A tool call's answer links back to it, whatever its id says and however
/// it was made — native or synthesized: after the assistant turn carrying
/// the call is handled and the call's output recorded, the appended tool
/// turn carries exactly the call's id, and the assistant turn stands
/// immediately before it.
pub proof fn lemma_tool_response_links(s: SessionModel, m: MessageModel, out: Seq<char>, k: int)
    requires
        spec_has_calls(m),
        0 <= k < (match m.tool_calls {
            Some(c) => c.len() as int,
            None => 0,
        }),
    ensures
        ({
            let c = (match m.tool_calls {
                Some(cs) => cs,
                None => Seq::empty(),
            })[k];
            let s2 = spec_record_tool_output(spec_handle_ok(s, m), c.id, out);
            &&& s2.messages.last().role == "tool"@
            &&& s2.messages.last().tool_call_id == Some(c.id)
            &&& s2.messages[s2.messages.len() - 2] == m
        }),
{
}

/// Cooperative cancellation: a stop request does not interrupt an
/// in-flight model call. Handling the reply after the stop yields exactly
/// the state of handling it before the stop with the flag cleared — same
/// transcript, same events, same outcome — and the stop is observed only
/// at the next loop top, which halts the session with the stop reason.
pub proof fn lemma_stop_is_cooperative(s: SessionModel, m: MessageModel)
    requires
        s.status == AgentStatus::Running,
    ensures
        spec_handle_ok(spec_stop(s), m) =~= spec_stop(spec_handle_ok(s, m)),
        spec_begin_step(spec_stop(s)).status == AgentStatus::Stopped,
        spec_begin_step(spec_stop(s)).events == s.events.push(EventModel::Finished("stopped"@)),
{
}

/// A fatal model-call failure ends the run: the failure is reported, the
/// session turns `Errored` with the transcript untouched, and the next
/// loop-top check refuses to take another model turn and changes nothing —
/// no retry ever happens.
pub proof fn lemma_error_ends_run(s: SessionModel, e: Seq<char>)
    ensures
        ({
            let t = spec_handle_err(s, e);
            &&& t.status == AgentStatus::Errored
            &&& !t.running
            &&& t.messages == s.messages
            &&& t.events == s.events.push(EventModel::Error(e))
            &&& spec_begin_step(t) == t
        }),
{
}

/// One full loop iteration of a session that keeps being asked for tool
/// work: the loop-top check spends a step, the reply is appended and its
/// first call's output recorded.
pub open spec fn spec_tool_cycle(s: SessionModel, m: MessageModel, out: Seq<char>) -> SessionModel {
    let c = (match m.tool_calls {
        Some(cs) => cs,
        None => Seq::empty(),
    })[0];
    spec_record_tool_output(spec_handle_ok(spec_begin_step(s), m), c.id, out)
}

/// `n` such iterations in a row.
pub open spec fn spec_tool_turns(
    s: SessionModel,
    m: MessageModel,
    out: Seq<char>,
    n: nat,
) -> SessionModel
    decreases n,
{
    if n == 0 {
        s
    } else {
        spec_tool_turns(spec_tool_cycle(s, m, out), m, out, (n - 1) as nat)
    }
}

proof fn lemma_tool_turns_steps(s: SessionModel, m: MessageModel, out: Seq<char>, n: nat)
    requires
        s.running,
        s.status == AgentStatus::Running,
        spec_has_calls(m),
        s.steps >= 0,
        s.steps + n <= MAX_STEPS,
    ensures
        ({
            let t = spec_tool_turns(s, m, out, n);
            &&& t.running
            &&& t.status == AgentStatus::Running
            &&& t.steps == s.steps + n
        }),
    decreases n,
{
    if n > 0 {
        let s1 = spec_tool_cycle(s, m, out);
        assert(s1.running && s1.status == AgentStatus::Running && s1.steps == s.steps + 1);
        lemma_tool_turns_steps(s1, m, out, (n - 1) as nat);
    }
}

/// The step budget is a hard cap: a session whose model always requests
/// tool work takes exactly `MAX_STEPS` model turns, and the next loop-top
/// check finishes it with the step-limit reason — never an eleventh turn.
pub proof fn lemma_step_budget(s: SessionModel, m: MessageModel, out: Seq<char>)
    requires
        s.running,
        s.status == AgentStatus::Running,
        s.steps == 0,
        spec_has_calls(m),
    ensures
        ({
            let t = spec_tool_turns(s, m, out, MAX_STEPS as nat);
            &&& t.steps == MAX_STEPS
            &&& t.status == AgentStatus::Running
            &&& t.running
            &&& spec_begin_step(t).status == AgentStatus::Finished
            &&& spec_begin_step(t).events.last() == EventModel::Finished("step limit reached"@)
            &&& spec_begin_step(t).steps == MAX_STEPS
        }),
{
    lemma_tool_turns_steps(s, m, out, MAX_STEPS as nat);
}

/// A run that gets a tool-free final answer emits exactly the thought, the
/// answer and the finish notice, in that order, and ends `Finished` —
/// terminally: the next loop-top check refuses another model turn and
/// changes nothing.
pub proof fn lemma_plain_answer_run(s: SessionModel, m: MessageModel)
    requires
        s.events.len() == 0,
        s.running,
        s.status == AgentStatus::Running,
        s.steps < MAX_STEPS,
        m.content is Some,
        !spec_has_calls(m),
    ensures
        ({
            let t = spec_handle_ok(spec_begin_step(s), m);
            &&& t.status == AgentStatus::Finished
            &&& !t.running
            &&& t.events =~= seq![
                EventModel::Thought("Thinking..."@),
                EventModel::Response(m.content->0),
                EventModel::Finished("Done"@),
            ]
            &&& t.messages =~= s.messages.push(m)
            &&& spec_begin_step(t) == t
        }),
{
}

/// A run that first gets one tool request and then a tool-free answer
/// emits exactly: a thought, the call announcement, the observation, a
/// second thought, the answer, and the finish notice — in causal order —
/// and then terminates: the next loop-top check changes nothing.
pub proof fn lemma_tool_then_answer_run(
    s: SessionModel,
    m1: MessageModel,
    out: Seq<char>,
    m2: MessageModel,
)
    requires
        s.events.len() == 0,
        s.running,
        s.status == AgentStatus::Running,
        s.steps + 2 <= MAX_STEPS,
        spec_has_calls(m1),
        m2.content is Some,
        !spec_has_calls(m2),
    ensures
        ({
            let calls = match m1.tool_calls {
                Some(cs) => cs,
                None => Seq::empty(),
            };
            let t1 = spec_record_tool_output(
                spec_handle_ok(spec_begin_step(s), m1),
                calls[0].id,
                out,
            );
            let t2 = spec_handle_ok(spec_begin_step(t1), m2);
            &&& t2.status == AgentStatus::Finished
            &&& !t2.running
            &&& t2.events =~= seq![
                EventModel::Thought("Thinking..."@),
                EventModel::Thought(spec_calls_text(calls)),
                EventModel::Observation(out),
                EventModel::Thought("Thinking..."@),
                EventModel::Response(m2.content->0),
                EventModel::Finished("Done"@),
            ]
            &&& spec_begin_step(t2) == t2
        }),
{
}

/// An unknown tool name is recoverable: the call resolves to a ready tool
/// output of the exact form the loop reports, and recording that output
/// moves neither the machine state, nor the stop flag, nor the step count
/// — the loop goes on.
pub proof fn lemma_unknown_tool_recoverable(
    tools: Seq<ToolKind>,
    c: CallModel,
    args: crate::json::Json,
    s: SessionModel,
)
    requires
        crate::tools::lookup_tool(tools, c.name) is None,
    ensures
        crate::tools::spec_resolve(tools, c, Ok(args)) == crate::tools::StepModel::Ready(
            crate::tools::spec_unknown_tool_text(c.name),
        ),
        ({
            let s2 = spec_record_tool_output(s, c.id, crate::tools::spec_unknown_tool_text(c.name));
            &&& s2.status == s.status
            &&& s2.running == s.running
            &&& s2.steps == s.steps
        }),
{
}

} // verus!
