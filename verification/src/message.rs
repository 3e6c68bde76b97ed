use vstd::prelude::*;

verus! {

/// Spec-level model of one requested tool invocation: the call id together
/// with the requested function name and its raw JSON-text arguments.
pub struct CallModel {
    pub id: Seq<char>,
    pub name: Seq<char>,
    pub arguments: Seq<char>,
}

/// Spec-level model of one conversation turn.
pub struct MessageModel {
    pub role: Seq<char>,
    pub content: Option<Seq<char>>,
    pub tool_calls: Option<Seq<CallModel>>,
    pub tool_call_id: Option<Seq<char>>,
}

/// The function part of a tool call: which tool, and the arguments as raw
/// JSON text (providers that send native objects are normalized to text).
#[derive(Debug)]
pub struct ToolCallFunction {
    pub name: String,
    pub arguments: String,
}

/// One tool invocation requested by an assistant turn.
#[derive(Debug)]
pub struct ToolCall {
    pub id: String,
    pub function: ToolCallFunction,
}

/// One turn of the conversation transcript.
///
/// `tool_calls` is only ever present on `assistant` turns; `tool_call_id` is
/// only ever present on `tool` turns and names the call the turn answers.
#[derive(Debug)]
pub struct AgentMessage {
    pub role: String,
    pub content: Option<String>,
    pub tool_calls: Option<Vec<ToolCall>>,
    pub tool_call_id: Option<String>,
}

impl View for ToolCall {
    type V = CallModel;

    open spec fn view(&self) -> CallModel {
        CallModel {
            id: self.id@,
            name: self.function.name@,
            arguments: self.function.arguments@,
        }
    }
}

impl View for AgentMessage {
    type V = MessageModel;

    open spec fn view(&self) -> MessageModel {
        MessageModel {
            role: self.role@,
            content: match self.content {
                Some(c) => Some(c@),
                None => None,
            },
            tool_calls: match self.tool_calls {
                Some(calls) => Some(call_models(calls@)),
                None => None,
            },
            tool_call_id: match self.tool_call_id {
                Some(id) => Some(id@),
                None => None,
            },
        }
    }
}

impl Clone for ToolCallFunction {
    fn clone(&self) -> (r: Self)
        ensures
            r.name@ == self.name@,
            r.arguments@ == self.arguments@,
    {
        ToolCallFunction { name: self.name.clone(), arguments: self.arguments.clone() }
    }
}

impl Clone for ToolCall {
    fn clone(&self) -> (r: Self)
        ensures
            r@ == self@,
    {
        ToolCall { id: self.id.clone(), function: self.function.clone() }
    }
}

impl Clone for AgentMessage {
    fn clone(&self) -> (r: Self)
        ensures
            r@ == self@,
    {
        let content = match &self.content {
            Some(c) => Some(c.clone()),
            None => None,
        };
        let tool_calls = match &self.tool_calls {
            Some(calls) => Some(clone_calls(calls)),
            None => None,
        };
        let tool_call_id = match &self.tool_call_id {
            Some(id) => Some(id.clone()),
            None => None,
        };
        let r = AgentMessage { role: self.role.clone(), content, tool_calls, tool_call_id };
        proof {
            assert(r@ =~= self@);
        }
        r
    }
}

/// The models of a list of tool calls, in order.
pub open spec fn call_models(s: Seq<ToolCall>) -> Seq<CallModel> {
    s.map(|i: int, c: ToolCall| c@)
}

/// Copies a list of tool calls, preserving each call's model.
pub fn clone_calls(calls: &Vec<ToolCall>) -> (r: Vec<ToolCall>)
    ensures
        call_models(r@) == call_models(calls@),
{
    let mut out: Vec<ToolCall> = Vec::new();
    let mut i: usize = 0;
    while i < calls.len()
        invariant
            i <= calls.len(),
            out@.len() == i,
            forall|j: int| 0 <= j < i ==> out@[j]@ == calls@[j]@,
        decreases calls.len() - i,
    {
        out.push(calls[i].clone());
        i = i + 1;
    }
    proof {
        assert forall|j: int| 0 <= j < calls@.len() implies call_models(out@)[j] == call_models(
            calls@,
        )[j] by {
            assert(out@[j]@ == calls@[j]@);
        }
        assert(call_models(out@) =~= call_models(calls@));
    }
    out
}

/// The closed set of conversation roles.
pub open spec fn is_valid_role(r: Seq<char>) -> bool {
    r == "system"@ || r == "user"@ || r == "assistant"@ || r == "tool"@
}

/// A plain conversational turn: text only, no tool traffic in either
/// direction.
pub open spec fn is_plain_message(m: MessageModel) -> bool {
    &&& m.content is Some
    &&& m.tool_calls is None
    &&& m.tool_call_id is None
}

impl AgentMessage {
    /// Builds a plain text turn for the given role.
    pub fn text_message(role: String, content: String) -> (r: AgentMessage)
        ensures
            r@.role == role@,
            r@.content == Some(content@),
            r@.tool_calls is None,
            r@.tool_call_id is None,
    {
        AgentMessage { role, content: Some(content), tool_calls: None, tool_call_id: None }
    }
}

} // verus!
