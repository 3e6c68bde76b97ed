use vstd::prelude::*;

use crate::json::{jget, obj_lookup, Json};
use crate::message::{call_models, AgentMessage, CallModel, MessageModel, ToolCall, ToolCallFunction};
use crate::tools::{is_json_str, ToolDefinition};

verus! {

/// One turn as it goes out on the wire for the chat-completions shape.
#[derive(Debug)]
pub struct ChatMessage {
    pub role: String,
    pub content: Option<String>,
    pub tool_calls: Option<Vec<ToolCall>>,
    pub tool_call_id: Option<String>,
}

impl View for ChatMessage {
    type V = MessageModel;

    open spec fn view(&self) -> MessageModel {
        MessageModel {
            role: self.role@,
            content: match self.content {
                Some(c) => Some(c@),
                None => None,
            },
            tool_calls: match self.tool_calls {
                Some(calls) => Some(call_models(calls@)),
                None => None,
            },
            tool_call_id: match self.tool_call_id {
                Some(id) => Some(id@),
                None => None,
            },
        }
    }
}

impl ChatMessage {
    /// The wire copy of one transcript turn.
    pub fn from_agent(m: &AgentMessage) -> (r: ChatMessage)
        ensures
            r@ == m@,
    {
        let c = m.clone();
        let r = ChatMessage {
            role: c.role,
            content: c.content,
            tool_calls: c.tool_calls,
            tool_call_id: c.tool_call_id,
        };
        proof {
            assert(r@ =~= m@);
        }
        r
    }
}

/// Which remote model to talk to, and how. Immutable for the lifetime of a
/// session.
#[derive(Debug)]
pub struct ProviderConfig {
    pub provider: String,
    pub api_key: Option<String>,
    pub model: Option<String>,
    pub url: Option<String>,
}

impl Clone for ProviderConfig {
    fn clone(&self) -> (r: Self)
        ensures
            r.provider@ == self.provider@,
            match (r.api_key, self.api_key) {
                (Some(a), Some(b)) => a@ == b@,
                (None, None) => true,
                _ => false,
            },
            match (r.model, self.model) {
                (Some(a), Some(b)) => a@ == b@,
                (None, None) => true,
                _ => false,
            },
            match (r.url, self.url) {
                (Some(a), Some(b)) => a@ == b@,
                (None, None) => true,
                _ => false,
            },
    {
        ProviderConfig {
            provider: self.provider.clone(),
            api_key: match &self.api_key {
                Some(k) => Some(k.clone()),
                None => None,
            },
            model: match &self.model {
                Some(k) => Some(k.clone()),
                None => None,
            },
            url: match &self.url {
                Some(k) => Some(k.clone()),
                None => None,
            },
        }
    }
}

/// One ready-to-send network call: where to post, the bearer credential if
/// the provider wants one, and the JSON body. The host sends it; nothing
/// here has touched the network.
#[derive(Debug)]
pub struct ChatRequest {
    pub url: String,
    pub bearer: Option<String>,
    pub body: Json,
}

/// `j` encodes one requested tool call on the wire.
pub open spec fn encodes_tool_call(j: Json, c: CallModel) -> bool {
    &&& is_json_str(jget(j, "id"@), c.id)
    &&& is_json_str(jget(jget(j, "function"@), "name"@), c.name)
    &&& is_json_str(jget(jget(j, "function"@), "arguments"@), c.arguments)
}

/// `j` encodes one transcript turn in the chat-completions shape: the role
/// and text go out verbatim, absent members read as null.
pub open spec fn encodes_chat_message(j: Json, m: MessageModel) -> bool {
    &&& is_json_str(jget(j, "role"@), m.role)
    &&& (match m.content {
        Some(c) => is_json_str(jget(j, "content"@), c),
        None => jget(j, "content"@) == Json::Null,
    })
    &&& (match m.tool_calls {
        Some(calls) => {
            &&& jget(j, "tool_calls"@) matches Json::Arr(a)
            &&& (jget(j, "tool_calls"@) matches Json::Arr(a) ==> a@.len() == calls.len()
                && forall|i: int| 0 <= i < calls.len() ==> encodes_tool_call(#[trigger] a@[i], calls[i]))
        },
        None => jget(j, "tool_calls"@) == Json::Null,
    })
    &&& (match m.tool_call_id {
        Some(id) => is_json_str(jget(j, "tool_call_id"@), id),
        None => jget(j, "tool_call_id"@) == Json::Null,
    })
}

fn tool_call_json(c: &ToolCall) -> (j: Json)
    ensures
        encodes_tool_call(j, c@),
{
    let mut func: Vec<(String, Json)> = Vec::new();
    func.push(("name".to_owned(), Json::Str(c.function.name.clone())));
    func.push(("arguments".to_owned(), Json::Str(c.function.arguments.clone())));
    let mut fields: Vec<(String, Json)> = Vec::new();
    fields.push(("id".to_owned(), Json::Str(c.id.clone())));
    fields.push(("function".to_owned(), Json::Obj(func)));
    let j = Json::Obj(fields);
    proof {
        reveal_strlit("id");
        reveal_strlit("function");
        reveal_strlit("name");
        reveal_strlit("arguments");
        assert("id"@.len() == 2);
        assert("function"@.len() == 8);
        assert("name"@.len() == 4);
        assert("arguments"@.len() == 9);
        crate::strutil::seq_neq_len("id"@, "function"@);
        crate::strutil::seq_neq_len("name"@, "arguments"@);
        crate::json::lemma_obj_lookup_at(fields@, "id"@, 0);
        crate::json::lemma_obj_lookup_at(fields@, "function"@, 1);
        crate::json::lemma_obj_lookup_at(func@, "name"@, 0);
        crate::json::lemma_obj_lookup_at(func@, "arguments"@, 1);
    }
    j
}

fn chat_message_json(m: &ChatMessage) -> (j: Json)
    ensures
        encodes_chat_message(j, m@),
{
    let mut fields: Vec<(String, Json)> = Vec::new();
    fields.push(("role".to_owned(), Json::Str(m.role.clone())));
    let content = match &m.content {
        Some(c) => Json::Str(c.clone()),
        None => Json::Null,
    };
    fields.push(("content".to_owned(), content));
    let tool_calls = match &m.tool_calls {
        Some(calls) => {
            let mut arr: Vec<Json> = Vec::new();
            let mut i: usize = 0;
            while i < calls.len()
                invariant
                    i <= calls@.len(),
                    arr@.len() == i,
                    forall|k: int|
                        0 <= k < i ==> encodes_tool_call(#[trigger] arr@[k], calls@[k]@),
                decreases calls@.len() - i,
            {
                arr.push(tool_call_json(&calls[i]));
                i = i + 1;
            }
            proof {
                assert(forall|k: int|
                    0 <= k < calls@.len() ==> call_models(calls@)[k] == calls@[k]@);
            }
            Json::Arr(arr)
        },
        None => Json::Null,
    };
    fields.push(("tool_calls".to_owned(), tool_calls));
    let tool_call_id = match &m.tool_call_id {
        Some(id) => Json::Str(id.clone()),
        None => Json::Null,
    };
    fields.push(("tool_call_id".to_owned(), tool_call_id));
    let j = Json::Obj(fields);
    proof {
        reveal_strlit("role");
        reveal_strlit("content");
        reveal_strlit("tool_calls");
        reveal_strlit("tool_call_id");
        assert("role"@.len() == 4);
        assert("content"@.len() == 7);
        assert("tool_calls"@.len() == 10);
        assert("tool_call_id"@.len() == 12);
        crate::strutil::seq_neq_len("role"@, "content"@);
        crate::strutil::seq_neq_len("role"@, "tool_calls"@);
        crate::strutil::seq_neq_len("content"@, "tool_calls"@);
        crate::strutil::seq_neq_len("role"@, "tool_call_id"@);
        crate::strutil::seq_neq_len("content"@, "tool_call_id"@);
        crate::strutil::seq_neq_len("tool_calls"@, "tool_call_id"@);
        crate::json::lemma_obj_lookup_at(fields@, "role"@, 0);
        crate::json::lemma_obj_lookup_at(fields@, "content"@, 1);
        crate::json::lemma_obj_lookup_at(fields@, "tool_calls"@, 2);
        crate::json::lemma_obj_lookup_at(fields@, "tool_call_id"@, 3);
    }
    j
}

/// Encodes the whole transcript for the chat-completions shape: one wire
/// object per turn, in order, role and text preserved.
pub fn chat_messages_json(messages: &Vec<AgentMessage>) -> (j: Json)
    ensures
        j matches Json::Arr(a) && a@.len() == messages@.len() && forall|i: int|
            0 <= i < messages@.len() ==> encodes_chat_message(#[trigger] a@[i], messages@[i]@),
{
    let mut arr: Vec<Json> = Vec::new();
    let mut i: usize = 0;
    while i < messages.len()
        invariant
            i <= messages@.len(),
            arr@.len() == i,
            forall|k: int|
                0 <= k < i ==> encodes_chat_message(#[trigger] arr@[k], messages@[k]@),
        decreases messages@.len() - i,
    {
        let wire = ChatMessage::from_agent(&messages[i]);
        arr.push(chat_message_json(&wire));
        i = i + 1;
    }
    Json::Arr(arr)
}

/// `j` encodes one advertised tool in the chat-completions shape.
pub open spec fn encodes_tool_def(j: Json, d: ToolDefinition) -> bool {
    &&& is_json_str(jget(j, "type"@), "function"@)
    &&& is_json_str(jget(jget(j, "function"@), "name"@), d.name@)
    &&& is_json_str(jget(jget(j, "function"@), "description"@), d.description@)
    &&& jget(jget(j, "function"@), "parameters"@) == d.parameters
}

fn tool_def_json(d: ToolDefinition) -> (j: Json)
    ensures
        encodes_tool_def(j, d),
{
    let ghost dg = d;
    let mut func: Vec<(String, Json)> = Vec::new();
    func.push(("name".to_owned(), Json::Str(d.name)));
    func.push(("description".to_owned(), Json::Str(d.description)));
    func.push(("parameters".to_owned(), d.parameters));
    let mut fields: Vec<(String, Json)> = Vec::new();
    fields.push(("type".to_owned(), Json::Str("function".to_owned())));
    fields.push(("function".to_owned(), Json::Obj(func)));
    let j = Json::Obj(fields);
    proof {
        reveal_strlit("type");
        reveal_strlit("function");
        reveal_strlit("name");
        reveal_strlit("description");
        reveal_strlit("parameters");
        assert("type"@.len() == 4);
        assert("function"@.len() == 8);
        assert("name"@.len() == 4);
        assert("description"@.len() == 11);
        assert("parameters"@.len() == 10);
        crate::strutil::seq_neq_len("type"@, "function"@);
        crate::strutil::seq_neq_len("name"@, "description"@);
        crate::strutil::seq_neq_len("name"@, "parameters"@);
        crate::strutil::seq_neq_len("description"@, "parameters"@);
        crate::json::lemma_obj_lookup_at(fields@, "type"@, 0);
        crate::json::lemma_obj_lookup_at(fields@, "function"@, 1);
        crate::json::lemma_obj_lookup_at(func@, "name"@, 0);
        crate::json::lemma_obj_lookup_at(func@, "description"@, 1);
        crate::json::lemma_obj_lookup_at(func@, "parameters"@, 2);
    }
    j
}

/// Encodes the advertised tool list for the chat-completions shape.
pub fn tools_json(defs: Vec<ToolDefinition>) -> (j: Json)
    ensures
        j matches Json::Arr(a) && a@.len() == defs@.len() && forall|i: int|
            0 <= i < defs@.len() ==> encodes_tool_def(#[trigger] a@[i], defs@[i]),
{
    let ghost dg = defs@;
    let mut arr: Vec<Json> = Vec::new();
    let mut rest = defs;
    proof {
        assert(rest@ =~= dg.skip(0));
    }
    while rest.len() > 0
        invariant
            arr@.len() + rest@.len() == dg.len(),
            rest@ == dg.skip(arr@.len() as int),
            forall|k: int| 0 <= k < arr@.len() ==> encodes_tool_def(#[trigger] arr@[k], dg[k]),
        decreases rest@.len(),
    {
        let ghost n = arr@.len() as int;
        let d = rest.remove(0);
        proof {
            assert(dg.skip(n)[0] == dg[n]);
        }
        arr.push(tool_def_json(d));
        proof {
            assert(rest@ =~= dg.skip(n + 1));
        }
    }
    Json::Arr(arr)
}

/// Element access: the `i`-th element if `j` is an array holding one,
/// `Null` otherwise.
pub open spec fn jidx(j: Json, i: int) -> Json {
    match j {
        Json::Arr(a) => if 0 <= i < a@.len() {
            a@[i]
        } else {
            Json::Null
        },
        _ => Json::Null,
    }
}

/// The text of a JSON string, or empty for anything else: how the response
/// shapers read members that may be missing.
pub open spec fn str_or_empty(j: Json) -> Seq<char> {
    match j {
        Json::Str(s) => s@,
        _ => Seq::empty(),
    }
}

/// Relies on uuid::Uuid::new_v4 for the random tail of one synthesized
/// call id. Nothing is promised of a random value; uniqueness comes from
/// the position index the caller prepends.
#[verifier::external_body]
fn fresh_uuid_text() -> (r: String) {
    format!("{}", uuid::Uuid::new_v4())
}

fn jstr_or_empty(parent: &Json, key: &str) -> (r: String)
    ensures
        r@ == str_or_empty(jget(*parent, key@)),
{
    match parent.get(key) {
        Some(v) => match v.str_of() {
            Some(s) => s.clone(),
            None => String::new(),
        },
        None => String::new(),
    }
}

/// One tool call as the chat-completions response shape carries it: the
/// provider's own id and the function name and argument text, each read as
/// text or empty.
pub open spec fn spec_openai_call_of(tc: Json) -> CallModel {
    CallModel {
        id: str_or_empty(jget(tc, "id"@)),
        name: str_or_empty(jget(jget(tc, "function"@), "name"@)),
        arguments: str_or_empty(jget(jget(tc, "function"@), "arguments"@)),
    }
}

/// The assistant turn inside a chat-completions response: the first
/// choice's message, its text if it is a string, and its tool calls if it
/// carries an array of them.
pub open spec fn spec_openai_message_of(data: Json) -> MessageModel {
    let msg = jget(jidx(jget(data, "choices"@), 0), "message"@);
    MessageModel {
        role: "assistant"@,
        content: match jget(msg, "content"@) {
            Json::Str(s) => Some(s@),
            _ => None,
        },
        tool_calls: match jget(msg, "tool_calls"@) {
            Json::Arr(arr) => Some(arr@.map(|i: int, tc: Json| spec_openai_call_of(tc))),
            _ => None,
        },
        tool_call_id: None,
    }
}

fn openai_call(tc: &Json) -> (r: ToolCall)
    ensures
        r@ == spec_openai_call_of(*tc),
{
    let id = jstr_or_empty(tc, "id");
    let (name, arguments) = match tc.get("function") {
        Some(f) => (jstr_or_empty(f, "name"), jstr_or_empty(f, "arguments")),
        None => (String::new(), String::new()),
    };
    ToolCall { id, function: ToolCallFunction { name, arguments } }
}

/// Shapes a chat-completions response into the one canonical assistant
/// turn, exactly as `spec_openai_message_of` defines it.
pub fn parse_openai_chat(data: &Json) -> (m: AgentMessage)
    ensures
        m@ == spec_openai_message_of(*data),
{
    let msg_opt: Option<&Json> = match data.get("choices") {
        Some(c) => match c.arr_of() {
            Some(a) => if a.len() > 0 {
                a[0].get("message")
            } else {
                None
            },
            None => None,
        },
        None => None,
    };
    let m = match msg_opt {
        Some(msg) => {
            let content = match msg.get("content") {
                Some(v) => match v.str_of() {
                    Some(s) => Some(s.clone()),
                    None => None,
                },
                None => None,
            };
            let tool_calls = match msg.get("tool_calls") {
                Some(v) => match v.arr_of() {
                    Some(arr) => {
                        let mut calls: Vec<ToolCall> = Vec::new();
                        let mut i: usize = 0;
                        while i < arr.len()
                            invariant
                                i <= arr@.len(),
                                calls@.len() == i,
                                forall|k: int|
                                    0 <= k < i ==> #[trigger] calls@[k]@ == spec_openai_call_of(
                                        arr@[k],
                                    ),
                            decreases arr@.len() - i,
                        {
                            calls.push(openai_call(&arr[i]));
                            i = i + 1;
                        }
                        proof {
                            assert(call_models(calls@) =~= arr@.map(
                                |i: int, tc: Json| spec_openai_call_of(tc),
                            ));
                        }
                        Some(calls)
                    },
                    None => None,
                },
                None => None,
            };
            AgentMessage {
                role: "assistant".to_owned(),
                content,
                tool_calls,
                tool_call_id: None,
            }
        },
        None => AgentMessage {
            role: "assistant".to_owned(),
            content: None,
            tool_calls: None,
            tool_call_id: None,
        },
    };
    proof {
        assert(m@ =~= spec_openai_message_of(*data));
    }
    m
}

/// The function name inside one native-chat tool call.
pub open spec fn spec_ollama_name_of(tc: Json) -> Seq<char> {
    str_or_empty(jget(jget(tc, "function"@), "name"@))
}

/// The argument text inside one native-chat tool call: taken verbatim when
/// the provider sent a string, rendered back to JSON text when it sent a
/// native object.
pub open spec fn spec_ollama_args_of(tc: Json) -> Seq<char> {
    match jget(jget(tc, "function"@), "arguments"@) {
        Json::Str(s) => s@,
        other => crate::json::json_text_of(other),
    }
}

/// The assistant text inside a native-chat response.
pub open spec fn spec_ollama_content_of(data: Json) -> Option<Seq<char>> {
    match jget(jget(data, "message"@), "content"@) {
        Json::Str(s) => Some(s@),
        _ => None,
    }
}

/// The tool-call array inside a native-chat response, if one is present.
pub open spec fn spec_ollama_calls_of(data: Json) -> Option<Seq<Json>> {
    match jget(jget(data, "message"@), "tool_calls"@) {
        Json::Arr(a) => Some(a@),
        _ => None,
    }
}

/// The shape of the `k`-th synthesized native-chat call id: the position
/// index between a fixed prefix and the random tail.
pub open spec fn is_ollama_call_id(id: Seq<char>, k: int) -> bool {
    exists|u: Seq<char>|
        id == #[trigger] ("call_"@ + crate::strutil::dec_str(k as nat) + "_"@ + u)
}

/// Ids carrying different position indices differ, whatever their random
/// tails hold: the digits of the index run up to the first separator, and
/// no digit is a separator.
proof fn lemma_ollama_ids_distinct(a: int, b: int, u: Seq<char>, v: Seq<char>)
    requires
        0 <= a,
        0 <= b,
        a != b,
    ensures
        "call_"@ + crate::strutil::dec_str(a as nat) + "_"@ + u != "call_"@
            + crate::strutil::dec_str(b as nat) + "_"@ + v,
    decreases crate::strutil::dec_str(a as nat).len(),
{
    let da = crate::strutil::dec_str(a as nat);
    let db = crate::strutil::dec_str(b as nat);
    let x = "call_"@ + da + "_"@ + u;
    let y = "call_"@ + db + "_"@ + v;
    reveal_strlit("call_");
    reveal_strlit("_");
    assert("call_"@.len() == 5);
    assert("_"@.len() == 1);
    if da.len() > db.len() {
        lemma_ollama_ids_distinct(b, a, v, u);
    } else if da.len() == db.len() {
        if x == y {
            assert(da =~= x.subrange(5, 5 + da.len() as int));
            assert(db =~= y.subrange(5, 5 + db.len() as int));
            crate::json::lemma_dec_str_injective(a as nat, b as nat);
        }
    } else {
        // da is shorter: at its end x holds the separator while y still
        // holds a digit of db.
        let p = 5 + da.len() as int;
        if x == y {
            assert(x[p] == ("call_"@ + da + "_"@)[p]);
            assert(x[p] == "_"@[0]);
            assert(y[p] == ("call_"@ + db)[p]);
            assert(y[p] == db[da.len() as int]);
            crate::strutil::lemma_dec_str_digits(b as nat);
            assert('0' <= db[da.len() as int] <= '9');
            assert("_"@[0] == '_');
        }
    }
}

/// The canonical assistant turn a native-chat reply shapes into. The
/// provider sends no call ids; each call's id is synthesized from its
/// position plus a fresh random tail, so ids are unique per call within
/// the reply while the tail stays unspecified.
pub open spec fn ollama_shaped(m: MessageModel, data: Json) -> bool {
    &&& m.role == "assistant"@
    &&& m.tool_call_id is None
    &&& m.content == spec_ollama_content_of(data)
    &&& (match spec_ollama_calls_of(data) {
        Some(arr) => m.tool_calls matches Some(calls) && calls.len() == arr.len() && (forall|
            i: int,
        |
            0 <= i < arr.len() ==> (#[trigger] calls[i]).name == spec_ollama_name_of(arr[i])
                && calls[i].arguments == spec_ollama_args_of(arr[i]) && is_ollama_call_id(
                calls[i].id,
                i,
            )) && (forall|i: int, j: int|
            0 <= i < j < arr.len() ==> (#[trigger] calls[i]).id != (#[trigger] calls[j]).id),
        None => m.tool_calls is None,
    })
}

/// Shapes a native-chat response into the one canonical assistant turn,
/// exactly as `ollama_shaped` states it.
pub fn parse_ollama_chat(data: &Json) -> (m: AgentMessage)
    ensures
        ollama_shaped(m@, *data),
{
    let msg_opt: Option<&Json> = data.get("message");
    let m = match msg_opt {
        Some(msg) => {
            let content = match msg.get("content") {
                Some(v) => match v.str_of() {
                    Some(s) => Some(s.clone()),
                    None => None,
                },
                None => None,
            };
            let tool_calls = match msg.get("tool_calls") {
                Some(v) => match v.arr_of() {
                    Some(arr) => {
                        let mut calls: Vec<ToolCall> = Vec::new();
                        let mut i: usize = 0;
                        while i < arr.len()
                            invariant
                                i <= arr@.len(),
                                calls@.len() == i,
                                forall|k: int|
                                    0 <= k < i ==> (#[trigger] calls@[k])@.name
                                        == spec_ollama_name_of(arr@[k]) && calls@[k]@.arguments
                                        == spec_ollama_args_of(arr@[k]) && is_ollama_call_id(
                                        calls@[k]@.id,
                                        k,
                                    ),
                            decreases arr@.len() - i,
                        {
                            let tc = &arr[i];
                            let name = match tc.get("function") {
                                Some(f) => jstr_or_empty(f, "name"),
                                None => String::new(),
                            };
                            let arguments = match tc.get("function") {
                                Some(f) => match f.get("arguments") {
                                    Some(a) => match a.str_of() {
                                        Some(s) => s.clone(),
                                        None => crate::json::json_to_string(a),
                                    },
                                    None => {
                                        let null_j = Json::Null;
                                        crate::json::json_to_string(&null_j)
                                    },
                                },
                                None => {
                                    let null_j = Json::Null;
                                    crate::json::json_to_string(&null_j)
                                },
                            };
                            let mut id = "call_".to_owned();
                            id.append(crate::strutil::usize_to_string(i).as_str());
                            id.append("_");
                            id.append(fresh_uuid_text().as_str());
                            proof {
                                let kk = i as int;
                                let tail = id@.subrange(
                                    ("call_"@ + crate::strutil::dec_str(kk as nat) + "_"@).len()
                                        as int,
                                    id@.len() as int,
                                );
                                assert(id@ == "call_"@ + crate::strutil::dec_str(kk as nat)
                                    + "_"@ + tail) by {
                                    assert(id@ =~= "call_"@ + crate::strutil::dec_str(kk as nat)
                                        + "_"@ + tail);
                                }
                                assert(is_ollama_call_id(id@, kk));
                            }
                            calls.push(
                                ToolCall { id, function: ToolCallFunction { name, arguments } },
                            );
                            i = i + 1;
                        }
                        proof {
                            assert forall|x: int, y: int|
                                0 <= x < y < call_models(calls@).len() implies (
                            #[trigger] call_models(calls@)[x]).id != (#[trigger] call_models(
                                calls@,
                            )[y]).id by {
                                assert(is_ollama_call_id(calls@[x]@.id, x));
                                assert(is_ollama_call_id(calls@[y]@.id, y));
                                let u = choose|u: Seq<char>|
                                    calls@[x]@.id == #[trigger] ("call_"@
                                        + crate::strutil::dec_str(x as nat) + "_"@ + u);
                                let v = choose|v: Seq<char>|
                                    calls@[y]@.id == #[trigger] ("call_"@
                                        + crate::strutil::dec_str(y as nat) + "_"@ + v);
                                lemma_ollama_ids_distinct(x, y, u, v);
                            }
                        }
                        Some(calls)
                    },
                    None => None,
                },
                None => None,
            };
            AgentMessage {
                role: "assistant".to_owned(),
                content,
                tool_calls,
                tool_call_id: None,
            }
        },
        None => AgentMessage {
            role: "assistant".to_owned(),
            content: None,
            tool_calls: None,
            tool_call_id: None,
        },
    };
    m
}

/// The parts of the first candidate's content in a generate-content
/// response, or no parts at all.
pub open spec fn gemini_parts_of(data: Json) -> Seq<Json> {
    match jget(jget(jidx(jget(data, "candidates"@), 0), "content"@), "parts"@) {
        Json::Arr(a) => a@,
        _ => Seq::empty(),
    }
}

/// The concatenated text of all text parts.
pub open spec fn gemini_text_concat(parts: Seq<Json>) -> Seq<char>
    decreases parts.len(),
{
    if parts.len() == 0 {
        Seq::empty()
    } else {
        gemini_text_concat(parts.drop_last()) + (match jget(parts.last(), "text"@) {
            Json::Str(s) => s@,
            _ => Seq::empty(),
        })
    }
}

/// The function calls carried by the parts, in order: each one's name, and
/// its arguments rendered as JSON text.
pub open spec fn gemini_call_list(parts: Seq<Json>) -> Seq<(Seq<char>, Seq<char>)>
    decreases parts.len(),
{
    if parts.len() == 0 {
        Seq::empty()
    } else {
        gemini_call_list(parts.drop_last()) + (match jget(parts.last(), "functionCall"@) {
            Json::Obj(f) => seq![
                (
                    str_or_empty(obj_lookup(f@, "name"@)),
                    crate::json::json_text_of(obj_lookup(f@, "args"@)),
                ),
            ],
            _ => Seq::empty(),
        })
    }
}

/// The canonical call model for the `k`-th provider function call. The
/// provider sends no call ids, so the adapter synthesizes one from the
/// call's position: stable, and unique per call within the reply.
pub open spec fn gemini_call_model(k: int, c: (Seq<char>, Seq<char>)) -> CallModel {
    CallModel {
        id: "gemini_call_"@ + crate::strutil::dec_str(k as nat),
        name: c.0,
        arguments: c.1,
    }
}

/// The canonical call models of the whole call list, ids indexed in order.
pub open spec fn gemini_call_models(cl: Seq<(Seq<char>, Seq<char>)>) -> Seq<CallModel> {
    cl.map(|k: int, c: (Seq<char>, Seq<char>)| gemini_call_model(k, c))
}

/// Two ids synthesized from one prefix and different positions differ.
proof fn lemma_indexed_ids_distinct(prefix: Seq<char>, a: nat, b: nat)
    requires
        a != b,
    ensures
        prefix + crate::strutil::dec_str(a) != prefix + crate::strutil::dec_str(b),
{
    let x = prefix + crate::strutil::dec_str(a);
    let y = prefix + crate::strutil::dec_str(b);
    if x == y {
        assert(crate::strutil::dec_str(a) =~= x.subrange(prefix.len() as int, x.len() as int));
        assert(crate::strutil::dec_str(b) =~= y.subrange(prefix.len() as int, y.len() as int));
        crate::json::lemma_dec_str_injective(a, b);
    }
}

/// The whole assistant turn a generate-content reply shapes into: all text
/// parts run together, one indexed call per function call.
pub open spec fn spec_gemini_message_of(data: Json) -> MessageModel {
    let texts = gemini_text_concat(gemini_parts_of(data));
    let cl = gemini_call_list(gemini_parts_of(data));
    MessageModel {
        role: "assistant"@,
        content: if texts.len() == 0 {
            None
        } else {
            Some(texts)
        },
        tool_calls: if cl.len() == 0 {
            None
        } else {
            Some(gemini_call_models(cl))
        },
        tool_call_id: None,
    }
}

proof fn lemma_gemini_text_snoc(parts: Seq<Json>, i: int)
    requires
        0 <= i < parts.len(),
    ensures
        gemini_text_concat(parts.take(i + 1)) == gemini_text_concat(parts.take(i)) + (match jget(
            parts[i],
            "text"@,
        ) {
            Json::Str(s) => s@,
            _ => Seq::empty(),
        }),
{
    assert(parts.take(i + 1).drop_last() =~= parts.take(i));
    assert(parts.take(i + 1).last() == parts[i]);
}

proof fn lemma_gemini_calls_snoc(parts: Seq<Json>, i: int)
    requires
        0 <= i < parts.len(),
    ensures
        gemini_call_list(parts.take(i + 1)) == gemini_call_list(parts.take(i)) + (match jget(
            parts[i],
            "functionCall"@,
        ) {
            Json::Obj(f) => seq![
                (
                    str_or_empty(obj_lookup(f@, "name"@)),
                    crate::json::json_text_of(obj_lookup(f@, "args"@)),
                ),
            ],
            _ => Seq::<(Seq<char>, Seq<char>)>::empty(),
        }),
{
    assert(parts.take(i + 1).drop_last() =~= parts.take(i));
    assert(parts.take(i + 1).last() == parts[i]);
}

/// Shapes a generate-content response into the one canonical assistant
/// turn, exactly as `spec_gemini_message_of` defines it: all text parts
/// run together, function calls under synthesized position-indexed ids —
/// unique per call within the reply — and absent members read as absent.
pub fn parse_gemini_chat(data: &Json) -> (m: AgentMessage)
    ensures
        m@ == spec_gemini_message_of(*data),
        match m@.tool_calls {
            Some(calls) => forall|i: int, j: int|
                0 <= i < j < calls.len() ==> (#[trigger] calls[i]).id != (#[trigger] calls[j]).id,
            None => true,
        },
{
    let parts_opt: Option<&Vec<Json>> = match data.get("candidates") {
        Some(c) => match c.arr_of() {
            Some(a) => if a.len() > 0 {
                match a[0].get("content") {
                    Some(cc) => match cc.get("parts") {
                        Some(p) => p.arr_of(),
                        None => None,
                    },
                    None => None,
                }
            } else {
                None
            },
            None => None,
        },
        None => None,
    };
    let mut content_text = String::new();
    let mut calls: Vec<ToolCall> = Vec::new();
    let ghost gparts = gemini_parts_of(*data);
    match parts_opt {
        Some(parts) => {
            proof {
                assert(gparts == parts@);
            }
            let mut i: usize = 0;
            proof {
                assert(gparts.take(0) =~= Seq::<Json>::empty());
            }
            while i < parts.len()
                invariant
                    gparts == parts@,
                    i <= parts@.len(),
                    content_text@ == gemini_text_concat(gparts.take(i as int)),
                    call_models(calls@) == gemini_call_models(
                        gemini_call_list(gparts.take(i as int)),
                    ),
                decreases parts@.len() - i,
            {
                let ghost old_calls = calls@;
                let part = &parts[i];
                match part.get("text") {
                    Some(t) => match t.str_of() {
                        Some(s) => {
                            content_text.append(s.as_str());
                        },
                        None => {},
                    },
                    None => {},
                }
                proof {
                    lemma_gemini_text_snoc(gparts, i as int);
                    lemma_gemini_calls_snoc(gparts, i as int);
                }
                match part.get("functionCall") {
                    Some(fc) => match fc {
                        Json::Obj(_) => {
                            let name = jstr_or_empty(fc, "name");
                            let arguments = match fc.get("args") {
                                Some(a) => crate::json::json_to_string(a),
                                None => {
                                    let null_j = Json::Null;
                                    crate::json::json_to_string(&null_j)
                                },
                            };
                            let ghost gname = name@;
                            let ghost gargs = arguments@;
                            let mut id = "gemini_call_".to_owned();
                            id.append(crate::strutil::usize_to_string(calls.len()).as_str());
                            proof {
                                assert(id@ == "gemini_call_"@ + crate::strutil::dec_str(
                                    old_calls.len(),
                                ));
                            }
                            calls.push(
                                ToolCall { id, function: ToolCallFunction { name, arguments } },
                            );
                            proof {
                                let cl0 = gemini_call_list(gparts.take(i as int));
                                let cl1 = gemini_call_list(gparts.take(i + 1int));
                                assert(cl1 == cl0 + seq![(gname, gargs)]);
                                assert(call_models(old_calls).len() == old_calls.len());
                                assert(gemini_call_models(cl0).len() == cl0.len());
                                assert(cl0.len() == old_calls.len());
                                assert(cl1.len() == cl0.len() + 1);
                                assert(calls@.len() == old_calls.len() + 1);
                                assert forall|k: int| 0 <= k < calls@.len() implies call_models(
                                    calls@,
                                )[k] == gemini_call_models(cl1)[k] by {
                                    assert(call_models(calls@)[k] == calls@[k]@);
                                    assert(gemini_call_models(cl1)[k] == gemini_call_model(
                                        k,
                                        cl1[k],
                                    ));
                                    if k < old_calls.len() {
                                        assert(calls@[k] == old_calls[k]);
                                        assert(cl1[k] == cl0[k]);
                                        assert(call_models(old_calls)[k] == old_calls[k]@);
                                        assert(gemini_call_models(cl0)[k] == gemini_call_model(
                                            k,
                                            cl0[k],
                                        ));
                                    } else {
                                        assert(calls@[k]@.name == gname);
                                        assert(calls@[k]@.arguments == gargs);
                                        assert(calls@[k]@.id == "gemini_call_"@
                                            + crate::strutil::dec_str(k as nat));
                                        assert(cl1[k] == (gname, gargs));
                                    }
                                }
                                assert(call_models(calls@) =~= gemini_call_models(cl1));
                            }
                        },
                        _ => {
                            proof {
                                assert(call_models(calls@) =~= gemini_call_models(
                                    gemini_call_list(gparts.take(i + 1int)),
                                ));
                            }
                        },
                    },
                    None => {
                        proof {
                            assert(call_models(calls@) =~= gemini_call_models(
                                gemini_call_list(gparts.take(i + 1int)),
                            ));
                        }
                    },
                }
                i = i + 1;
            }
            proof {
                assert(gparts.take(parts@.len() as int) =~= gparts);
            }
        },
        None => {
            proof {
                assert(gparts =~= Seq::<Json>::empty());
                assert(gemini_call_list(gparts) =~= Seq::<(Seq<char>, Seq<char>)>::empty());
                assert(call_models(calls@) =~= gemini_call_models(gemini_call_list(gparts)));
                assert(content_text@ =~= gemini_text_concat(gparts));
            }
        },
    }
    let ghost gcalls = calls@;
    let ghost gtext = content_text@;
    let content = if content_text.unicode_len() == 0 {
        None
    } else {
        Some(content_text)
    };
    let tool_calls = if calls.len() == 0 {
        None
    } else {
        Some(calls)
    };
    let m = AgentMessage { role: "assistant".to_owned(), content, tool_calls, tool_call_id: None };
    proof {
        let cl = gemini_call_list(gparts);
        assert(call_models(gcalls) == gemini_call_models(cl));
        assert(gemini_call_models(cl).len() == cl.len());
        assert(m@ =~= spec_gemini_message_of(*data));
        assert forall|x: int, y: int|
            0 <= x < y < cl.len() implies gemini_call_models(cl)[x].id != gemini_call_models(
            cl,
        )[y].id by {
            assert(gemini_call_models(cl)[x] == gemini_call_model(x, cl[x]));
            assert(gemini_call_models(cl)[y] == gemini_call_model(y, cl[y]));
            lemma_indexed_ids_distinct("gemini_call_"@, x as nat, y as nat);
        }
    }
    m
}

/// The models of a transcript, in order.
pub open spec fn message_models(s: Seq<AgentMessage>) -> Seq<MessageModel> {
    s.map(|i: int, m: AgentMessage| m@)
}

/// A turn that goes out in the generate-content body at all.
pub open spec fn gemini_sendable(m: MessageModel) -> bool {
    m.role == "user"@ || m.role == "assistant"@ || m.role == "tool"@
}

/// The provider-side role of a turn.
pub open spec fn gemini_mapped_role(m: MessageModel) -> Seq<char> {
    if m.role == "assistant"@ {
        "model"@
    } else {
        "user"@
    }
}

/// A turn's text, or empty when it has none.
pub open spec fn content_or_empty(m: MessageModel) -> Seq<char> {
    match m.content {
        Some(c) => c,
        None => Seq::empty(),
    }
}

/// The text the provider sees for a non-assistant turn. A tool turn cannot
/// be mapped to a native function response here, because the transcript
/// keeps only the call id, not the called function's name; as a deliberate
/// compatibility fallback the tool output is flattened into labelled
/// conversational text.
pub open spec fn gemini_part_text(m: MessageModel) -> Seq<char> {
    if m.role == "tool"@ {
        "Tool Output: "@ + content_or_empty(m)
    } else {
        content_or_empty(m)
    }
}

/// `j` encodes one sendable turn in the generate-content shape.
pub open spec fn encodes_gemini_content(j: Json, m: MessageModel) -> bool {
    &&& is_json_str(jget(j, "role"@), gemini_mapped_role(m))
    &&& jget(j, "parts"@) matches Json::Arr(_)
    &&& (m.role != "assistant"@ ==> (jget(j, "parts"@) matches Json::Arr(p) ==> p@.len() == 1
        && is_json_str(jget(p@[0], "text"@), gemini_part_text(m))))
    &&& (m.role == "assistant"@ ==> (jget(j, "parts"@) matches Json::Arr(p) ==> {
        let nt: int = if m.content is Some {
            1
        } else {
            0
        };
        let nc: int = match m.tool_calls {
            Some(calls) => calls.len() as int,
            None => 0,
        };
        &&& p@.len() == nt + nc
        &&& (m.content matches Some(c) ==> is_json_str(jget(p@[0], "text"@), c))
        &&& (m.tool_calls matches Some(calls) ==> forall|k: int|
            0 <= k < calls.len() ==> is_json_str(
                jget(jget(#[trigger] p@[nt + k], "functionCall"@), "name"@),
                calls[k].name,
            ))
    }))
}

/// The text of the last system turn, which becomes the dedicated system
/// instruction; later system turns supersede earlier ones.
pub open spec fn last_system_text(msgs: Seq<MessageModel>) -> Option<Seq<char>>
    decreases msgs.len(),
{
    if msgs.len() == 0 {
        None
    } else if msgs.last().role == "system"@ {
        Some(content_or_empty(msgs.last()))
    } else {
        last_system_text(msgs.drop_last())
    }
}

/// The sendable turns, in order.
pub open spec fn gemini_filtered(msgs: Seq<MessageModel>) -> Seq<MessageModel>
    decreases msgs.len(),
{
    if msgs.len() == 0 {
        Seq::empty()
    } else {
        let rest = gemini_filtered(msgs.drop_last());
        if gemini_sendable(msgs.last()) {
            rest.push(msgs.last())
        } else {
            rest
        }
    }
}

proof fn lemma_gemini_filtered_snoc(msgs: Seq<MessageModel>, i: int)
    requires
        0 <= i < msgs.len(),
    ensures
        gemini_filtered(msgs.take(i + 1)) == if gemini_sendable(msgs[i]) {
            gemini_filtered(msgs.take(i)).push(msgs[i])
        } else {
            gemini_filtered(msgs.take(i))
        },
{
    assert(msgs.take(i + 1).drop_last() =~= msgs.take(i));
    assert(msgs.take(i + 1).last() == msgs[i]);
}

fn text_part(text: String) -> (j: Json)
    ensures
        is_json_str(jget(j, "text"@), text@),
{
    let mut fields: Vec<(String, Json)> = Vec::new();
    fields.push(("text".to_owned(), Json::Str(text)));
    let j = Json::Obj(fields);
    proof {
        crate::json::lemma_obj_lookup_at(fields@, "text"@, 0);
    }
    j
}

fn parts_obj(role: &str, parts: Vec<Json>) -> (j: Json)
    ensures
        is_json_str(jget(j, "role"@), role@),
        jget(j, "parts"@) matches Json::Arr(a) && a@ == parts@,
{
    let mut fields: Vec<(String, Json)> = Vec::new();
    fields.push(("role".to_owned(), Json::Str(role.to_owned())));
    fields.push(("parts".to_owned(), Json::Arr(parts)));
    let j = Json::Obj(fields);
    proof {
        reveal_strlit("role");
        reveal_strlit("parts");
        assert("role"@.len() == 4);
        assert("parts"@.len() == 5);
        crate::strutil::seq_neq_at("role"@, "parts"@, 0);
        crate::json::lemma_obj_lookup_at(fields@, "role"@, 0);
        crate::json::lemma_obj_lookup_at(fields@, "parts"@, 1);
    }
    j
}

fn gemini_message_text(m: &AgentMessage, is_tool: bool) -> (r: String)
    ensures
        is_tool ==> r@ == "Tool Output: "@ + content_or_empty(m@),
        !is_tool ==> r@ == content_or_empty(m@),
{
    let mut s = if is_tool {
        "Tool Output: ".to_owned()
    } else {
        String::new()
    };
    match &m.content {
        Some(c) => s.append(c.as_str()),
        None => (),
    }
    proof {
        if is_tool {
            assert(s@ =~= "Tool Output: "@ + content_or_empty(m@));
        } else {
            assert(s@ =~= content_or_empty(m@));
        }
    }
    s
}

fn gemini_assistant_content(m: &AgentMessage) -> (j: Json)
    requires
        m@.role == "assistant"@,
    ensures
        encodes_gemini_content(j, m@),
{
    let mut parts: Vec<Json> = Vec::new();
    match &m.content {
        Some(c) => {
            parts.push(text_part(c.clone()));
        },
        None => (),
    }
    let ghost nt: int = parts@.len() as int;
    match &m.tool_calls {
        Some(calls) => {
            let mut k: usize = 0;
            while k < calls.len()
                invariant
                    nt == if m@.content is Some {
                        1int
                    } else {
                        0int
                    },
                    parts@.len() == nt + k,
                    k <= calls@.len(),
                    m@.content matches Some(c) ==> is_json_str(jget(parts@[0], "text"@), c),
                    forall|q: int|
                        0 <= q < k ==> is_json_str(
                            jget(jget(#[trigger] parts@[nt + q], "functionCall"@), "name"@),
                            calls@[q]@.name,
                        ),
                decreases calls@.len() - k,
            {
                let args_json = match crate::json::parse_json(calls[k].function.arguments.as_str())
                {
                    Ok(v) => v,
                    Err(_) => Json::Obj(Vec::new()),
                };
                let mut fc: Vec<(String, Json)> = Vec::new();
                fc.push(("name".to_owned(), Json::Str(calls[k].function.name.clone())));
                fc.push(("args".to_owned(), args_json));
                let mut part_fields: Vec<(String, Json)> = Vec::new();
                part_fields.push(("functionCall".to_owned(), Json::Obj(fc)));
                proof {
                    crate::json::lemma_obj_lookup_at(fc@, "name"@, 0);
                    crate::json::lemma_obj_lookup_at(part_fields@, "functionCall"@, 0);
                }
                parts.push(Json::Obj(part_fields));
                proof {
                    assert(call_models(calls@)[k as int] == calls@[k as int]@);
                }
                k = k + 1;
            }
        },
        None => (),
    }
    let j = parts_obj("model", parts);
    proof {
        assert(m@.role != "user"@ && m@.role != "tool"@) by {
            reveal_strlit("assistant");
            reveal_strlit("user");
            reveal_strlit("tool");
            assert("assistant"@.len() == 9);
            assert("user"@.len() == 4);
            assert("tool"@.len() == 4);
            crate::strutil::seq_neq_len(m@.role, "user"@);
            crate::strutil::seq_neq_len(m@.role, "tool"@);
        }
    }
    j
}

/// Encodes the transcript for the generate-content shape: system turns are
/// pulled out into the dedicated system instruction, every other known role
/// is mapped in order, and unknown roles are passed over.
pub fn gemini_contents(messages: &Vec<AgentMessage>) -> (r: (Vec<Json>, Option<Json>))
    ensures
        ({
            let filtered = gemini_filtered(message_models(messages@));
            r.0@.len() == filtered.len() && forall|k: int|
                0 <= k < filtered.len() ==> encodes_gemini_content(#[trigger] r.0@[k], filtered[k])
        }),
        match last_system_text(message_models(messages@)) {
            Some(t) => r.1 matches Some(si) && is_json_str(
                jget(jidx(jget(si, "parts"@), 0), "text"@),
                t,
            ),
            None => r.1 is None,
        },
{
    let ghost models = message_models(messages@);
    let mut contents: Vec<Json> = Vec::new();
    let mut sys: Option<Json> = None;
    let mut i: usize = 0;
    proof {
        assert(models.take(0) =~= Seq::<MessageModel>::empty());
        assert(gemini_filtered(models.take(0)) =~= Seq::<MessageModel>::empty());
    }
    while i < messages.len()
        invariant
            models == message_models(messages@),
            i <= messages@.len(),
            contents@.len() == gemini_filtered(models.take(i as int)).len(),
            forall|k: int|
                0 <= k < contents@.len() ==> encodes_gemini_content(
                    #[trigger] contents@[k],
                    gemini_filtered(models.take(i as int))[k],
                ),
            match last_system_text(models.take(i as int)) {
                Some(t) => sys matches Some(si) && is_json_str(
                    jget(jidx(jget(si, "parts"@), 0), "text"@),
                    t,
                ),
                None => sys is None,
            },
        decreases messages@.len() - i,
    {
        let m = &messages[i];
        proof {
            assert(models[i as int] == m@);
            assert(models.take(i + 1int).drop_last() =~= models.take(i as int));
            assert(models.take(i + 1int).last() == models[i as int]);
            lemma_gemini_filtered_snoc(models, i as int);
        }
        if crate::strutil::str_eq(m.role.as_str(), "system") {
            let text = gemini_message_text(m, false);
            let part = text_part(text);
            let parts = vec![part];
            let si = parts_obj("user", parts);
            proof {
                assert(jidx(jget(si, "parts"@), 0) == part);
                assert(!gemini_sendable(m@)) by {
                    reveal_strlit("system");
                    reveal_strlit("user");
                    reveal_strlit("assistant");
                    reveal_strlit("tool");
                    assert("system"@.len() == 6);
                    assert("user"@.len() == 4);
                    assert("assistant"@.len() == 9);
                    crate::strutil::seq_neq_len(m@.role, "user"@);
                    crate::strutil::seq_neq_len(m@.role, "assistant"@);
                    crate::strutil::seq_neq_at("system"@, "tool"@, 0);
                }
            }
            sys = Some(si);
        } else if crate::strutil::str_eq(m.role.as_str(), "user") {
            let text = gemini_message_text(m, false);
            let parts = vec![text_part(text)];
            let c = parts_obj("user", parts);
            proof {
                assert(gemini_sendable(m@));
                assert(m@.role != "assistant"@ && m@.role != "system"@ && m@.role != "tool"@) by {
                    reveal_strlit("system");
                    reveal_strlit("user");
                    reveal_strlit("assistant");
                    reveal_strlit("tool");
                    assert("system"@.len() == 6);
                    assert("user"@.len() == 4);
                    assert("assistant"@.len() == 9);
                    assert("tool"@.len() == 4);
                    crate::strutil::seq_neq_len(m@.role, "assistant"@);
                    crate::strutil::seq_neq_len(m@.role, "system"@);
                    crate::strutil::seq_neq_at("user"@, "tool"@, 0);
                }
                assert(encodes_gemini_content(c, m@));
            }
            contents.push(c);
        } else if crate::strutil::str_eq(m.role.as_str(), "assistant") {
            let c = gemini_assistant_content(m);
            proof {
                assert(gemini_sendable(m@));
                assert(m@.role != "system"@) by {
                    reveal_strlit("system");
                    reveal_strlit("assistant");
                    assert("system"@.len() == 6);
                    assert("assistant"@.len() == 9);
                    crate::strutil::seq_neq_len(m@.role, "system"@);
                }
            }
            contents.push(c);
        } else if crate::strutil::str_eq(m.role.as_str(), "tool") {
            let text = gemini_message_text(m, true);
            let parts = vec![text_part(text)];
            let c = parts_obj("user", parts);
            proof {
                assert(gemini_sendable(m@));
                assert(m@.role != "assistant"@ && m@.role != "system"@) by {
                    reveal_strlit("system");
                    reveal_strlit("tool");
                    reveal_strlit("assistant");
                    assert("system"@.len() == 6);
                    assert("tool"@.len() == 4);
                    assert("assistant"@.len() == 9);
                    crate::strutil::seq_neq_len(m@.role, "assistant"@);
                    crate::strutil::seq_neq_len(m@.role, "system"@);
                }
            }
            contents.push(c);
        } else {
            proof {
                assert(!gemini_sendable(m@));
                assert(m@.role != "system"@);
            }
        }
        i = i + 1;
    }
    proof {
        assert(models.take(messages@.len() as int) =~= models);
    }
    (contents, sys)
}

/// The configured model, or the provider's default.
pub open spec fn model_or(c: &ProviderConfig, d: Seq<char>) -> Seq<char> {
    match c.model {
        Some(m) => m@,
        None => d,
    }
}

/// The configured endpoint, or the local default.
pub open spec fn url_or_default(c: &ProviderConfig) -> Seq<char> {
    match c.url {
        Some(u) => u@,
        None => "http://localhost:11434"@,
    }
}

/// `j` is the encoded transcript array.
pub open spec fn encodes_messages_arr(j: Json, msgs: Seq<AgentMessage>) -> bool {
    &&& j matches Json::Arr(_)
    &&& (j matches Json::Arr(a) ==> a@.len() == msgs.len() && forall|i: int|
        0 <= i < msgs.len() ==> encodes_chat_message(#[trigger] a@[i], msgs[i]@))
}

/// `j` is the encoded tool list.
pub open spec fn encodes_tools_arr(j: Json, defs: Seq<ToolDefinition>) -> bool {
    &&& j matches Json::Arr(_)
    &&& (j matches Json::Arr(a) ==> a@.len() == defs.len() && forall|i: int|
        0 <= i < defs.len() ==> encodes_tool_def(#[trigger] a@[i], defs[i]))
}

/// The chat-completions body: the model to use, the transcript, and the
/// tool list only when tools are advertised.
pub open spec fn chat_body_common(
    body: Json,
    msgs: Seq<AgentMessage>,
    defs: Seq<ToolDefinition>,
    model_name: Seq<char>,
) -> bool {
    &&& is_json_str(jget(body, "model"@), model_name)
    &&& encodes_messages_arr(jget(body, "messages"@), msgs)
    &&& (defs.len() > 0 ==> encodes_tools_arr(jget(body, "tools"@), defs))
    &&& (defs.len() == 0 ==> jget(body, "tools"@) == Json::Null)
}

fn completions_body(
    messages: &Vec<AgentMessage>,
    defs: Vec<ToolDefinition>,
    model: String,
    with_stream: bool,
) -> (b: Json)
    ensures
        chat_body_common(b, messages@, defs@, model@),
        with_stream ==> jget(b, "stream"@) == Json::Bool(false),
{
    let has_tools = defs.len() > 0;
    let ghost dg = defs@;
    let mut fields: Vec<(String, Json)> = Vec::new();
    fields.push(("model".to_owned(), Json::Str(model)));
    fields.push(("messages".to_owned(), chat_messages_json(messages)));
    if with_stream {
        fields.push(("stream".to_owned(), Json::Bool(false)));
    }
    if has_tools {
        fields.push(("tools".to_owned(), tools_json(defs)));
    }
    let b = Json::Obj(fields);
    proof {
        reveal_strlit("model");
        reveal_strlit("messages");
        reveal_strlit("stream");
        reveal_strlit("tools");
        assert("model"@.len() == 5);
        assert("messages"@.len() == 8);
        assert("stream"@.len() == 6);
        assert("tools"@.len() == 5);
        crate::strutil::seq_neq_len("model"@, "messages"@);
        crate::strutil::seq_neq_len("model"@, "stream"@);
        crate::strutil::seq_neq_len("messages"@, "stream"@);
        crate::strutil::seq_neq_len("messages"@, "tools"@);
        crate::strutil::seq_neq_len("stream"@, "tools"@);
        crate::strutil::seq_neq_at("model"@, "tools"@, 0);
        crate::json::lemma_obj_lookup_at(fields@, "model"@, 0);
        crate::json::lemma_obj_lookup_at(fields@, "messages"@, 1);
        if with_stream {
            crate::json::lemma_obj_lookup_at(fields@, "stream"@, 2);
            if has_tools {
                crate::json::lemma_obj_lookup_at(fields@, "tools"@, 3);
            } else {
                crate::json::lemma_obj_lookup_none(fields@, "tools"@);
            }
        } else {
            if has_tools {
                crate::json::lemma_obj_lookup_at(fields@, "tools"@, 2);
            } else {
                crate::json::lemma_obj_lookup_none(fields@, "tools"@);
            }
        }
    }
    b
}

/// `j` is one function declaration in the generate-content tool list.
pub open spec fn encodes_gemini_decl(j: Json, d: ToolDefinition) -> bool {
    &&& is_json_str(jget(j, "name"@), d.name@)
    &&& is_json_str(jget(j, "description"@), d.description@)
    &&& jget(j, "parameters"@) == d.parameters
}

fn gemini_decls(defs: Vec<ToolDefinition>) -> (r: Vec<Json>)
    ensures
        r@.len() == defs@.len(),
        forall|i: int| 0 <= i < defs@.len() ==> encodes_gemini_decl(#[trigger] r@[i], defs@[i]),
{
    let ghost dg = defs@;
    let mut arr: Vec<Json> = Vec::new();
    let mut rest = defs;
    proof {
        assert(rest@ =~= dg.skip(0));
    }
    while rest.len() > 0
        invariant
            arr@.len() + rest@.len() == dg.len(),
            rest@ == dg.skip(arr@.len() as int),
            forall|k: int| 0 <= k < arr@.len() ==> encodes_gemini_decl(#[trigger] arr@[k], dg[k]),
        decreases rest@.len(),
    {
        let ghost n = arr@.len() as int;
        let d = rest.remove(0);
        proof {
            assert(dg.skip(n)[0] == dg[n]);
        }
        let mut fields: Vec<(String, Json)> = Vec::new();
        fields.push(("name".to_owned(), Json::Str(d.name)));
        fields.push(("description".to_owned(), Json::Str(d.description)));
        fields.push(("parameters".to_owned(), d.parameters));
        let j = Json::Obj(fields);
        proof {
            reveal_strlit("name");
            reveal_strlit("description");
            reveal_strlit("parameters");
            assert("name"@.len() == 4);
            assert("description"@.len() == 11);
            assert("parameters"@.len() == 10);
            crate::strutil::seq_neq_len("name"@, "description"@);
            crate::strutil::seq_neq_len("name"@, "parameters"@);
            crate::strutil::seq_neq_len("description"@, "parameters"@);
            crate::json::lemma_obj_lookup_at(fields@, "name"@, 0);
            crate::json::lemma_obj_lookup_at(fields@, "description"@, 1);
            crate::json::lemma_obj_lookup_at(fields@, "parameters"@, 2);
        }
        arr.push(j);
        proof {
            assert(rest@ =~= dg.skip(n + 1));
        }
    }
    arr
}

/// The generate-content body: the mapped transcript, function declarations
/// only when tools are advertised, and the system instruction only when a
/// system turn exists.
pub open spec fn gemini_body_ok(
    body: Json,
    msgs: Seq<AgentMessage>,
    defs: Seq<ToolDefinition>,
) -> bool {
    &&& (jget(body, "contents"@) matches Json::Arr(a) && a@.len() == gemini_filtered(
        message_models(msgs),
    ).len() && forall|k: int|
        0 <= k < a@.len() ==> encodes_gemini_content(
            #[trigger] a@[k],
            gemini_filtered(message_models(msgs))[k],
        ))
    &&& (defs.len() > 0 ==> (jget(body, "tools"@) matches Json::Arr(t) && t@.len() == 1 && (jget(
        t@[0],
        "function_declarations"@,
    ) matches Json::Arr(ds) && ds@.len() == defs.len() && forall|k: int|
        0 <= k < defs.len() ==> encodes_gemini_decl(#[trigger] ds@[k], defs[k]))))
    &&& (defs.len() == 0 ==> jget(body, "tools"@) == Json::Null)
    &&& (match last_system_text(message_models(msgs)) {
        Some(t) => is_json_str(
            jget(jidx(jget(jget(body, "system_instruction"@), "parts"@), 0), "text"@),
            t,
        ),
        None => jget(body, "system_instruction"@) == Json::Null,
    })
}

/// The fixed chat-completions endpoint.
pub open spec fn spec_openai_chat_url() -> Seq<char> {
    "https://api.openai.com/v1/chat/completions"@
}

/// The native-chat endpoint under the configured base, trailing slashes
/// trimmed.
pub open spec fn spec_ollama_chat_url(c: &ProviderConfig) -> Seq<char> {
    crate::strutil::without_trailing(url_or_default(c), '/') + "/api/chat"@
}

/// The generate-content endpoint for the configured model, carrying the
/// credential as a query parameter as the provider's protocol asks.
pub open spec fn spec_gemini_chat_url(c: &ProviderConfig, key: Seq<char>) -> Seq<char> {
    "https://generativelanguage.googleapis.com/v1beta/models/"@ + model_or(
        c,
        "gemini-1.5-flash"@,
    ) + ":generateContent?key="@ + key
}

/// The provider-specific refusal for an unsupported provider value.
pub open spec fn spec_unsupported_provider(p: Seq<char>) -> Seq<char> {
    "Provider '"@ + p + "' not supported for agents yet"@
}

/// Shapes one canonical chat call into the selected provider's request:
/// url, credential placement, and JSON body. A missing credential is
/// refused before any network work; an unknown provider is refused.
pub fn build_chat_request(
    messages: &Vec<AgentMessage>,
    defs: Vec<ToolDefinition>,
    config: &ProviderConfig,
) -> (r: Result<ChatRequest, String>)
    ensures
        config.provider@ == "openai"@ ==> (match (r, &config.api_key) {
            (Ok(req), Some(key)) => req.url@ == spec_openai_chat_url() && (req.bearer
                matches Some(b) && b@ == key@) && chat_body_common(
                req.body,
                messages@,
                defs@,
                model_or(config, "gpt-4o"@),
            ),
            (Err(e), None) => e@ == "OpenAI API Key missing"@,
            _ => false,
        }),
        config.provider@ == "ollama"@ ==> (match r {
            Ok(req) => req.url@ == spec_ollama_chat_url(config) && req.bearer is None
                && chat_body_common(req.body, messages@, defs@, model_or(config, "llama3"@))
                && jget(req.body, "stream"@) == Json::Bool(false),
            _ => false,
        }),
        config.provider@ == "gemini"@ ==> (match (r, &config.api_key) {
            (Ok(req), Some(key)) => req.url@ == spec_gemini_chat_url(config, key@) && req.bearer
                is None && gemini_body_ok(req.body, messages@, defs@),
            (Err(e), None) => e@ == "Gemini API Key missing"@,
            _ => false,
        }),
        config.provider@ != "openai"@ && config.provider@ != "ollama"@ && config.provider@
            != "gemini"@ ==> (r matches Err(e) && e@ == spec_unsupported_provider(
            config.provider@,
        )),
{
    proof {
        reveal_strlit("openai");
        reveal_strlit("ollama");
        reveal_strlit("gemini");
        assert("openai"@.len() == 6);
        assert("ollama"@.len() == 6);
        assert("gemini"@.len() == 6);
        crate::strutil::seq_neq_at("openai"@, "ollama"@, 1);
        crate::strutil::seq_neq_at("openai"@, "gemini"@, 0);
        crate::strutil::seq_neq_at("ollama"@, "gemini"@, 0);
    }
    if crate::strutil::str_eq(config.provider.as_str(), "openai") {
        let key = match &config.api_key {
            Some(k) => k.clone(),
            None => {
                return Err("OpenAI API Key missing".to_owned());
            },
        };
        let model = match &config.model {
            Some(m) => m.clone(),
            None => "gpt-4o".to_owned(),
        };
        let body = completions_body(messages, defs, model, false);
        Ok(
            ChatRequest {
                url: "https://api.openai.com/v1/chat/completions".to_owned(),
                bearer: Some(key),
                body,
            },
        )
    } else if crate::strutil::str_eq(config.provider.as_str(), "ollama") {
        let base: String = match &config.url {
            Some(u) => u.clone(),
            None => "http://localhost:11434".to_owned(),
        };
        let mut url = crate::strutil::trim_trailing(base.as_str(), '/').to_owned();
        url.append("/api/chat");
        let model = match &config.model {
            Some(m) => m.clone(),
            None => "llama3".to_owned(),
        };
        let body = completions_body(messages, defs, model, true);
        Ok(ChatRequest { url, bearer: None, body })
    } else if crate::strutil::str_eq(config.provider.as_str(), "gemini") {
        let key = match &config.api_key {
            Some(k) => k.clone(),
            None => {
                return Err("Gemini API Key missing".to_owned());
            },
        };
        let mut url = "https://generativelanguage.googleapis.com/v1beta/models/".to_owned();
        match &config.model {
            Some(m) => url.append(m.as_str()),
            None => url.append("gemini-1.5-flash"),
        }
        url.append(":generateContent?key=");
        url.append(key.as_str());
        let (contents, sys) = gemini_contents(messages);
        let has_tools = defs.len() > 0;
        let has_sys = match &sys {
            Some(_) => true,
            None => false,
        };
        let mut fields: Vec<(String, Json)> = Vec::new();
        fields.push(("contents".to_owned(), Json::Arr(contents)));
        if has_tools {
            let mut wrapper: Vec<(String, Json)> = Vec::new();
            wrapper.push(("function_declarations".to_owned(), Json::Arr(gemini_decls(defs))));
            proof {
                crate::json::lemma_obj_lookup_at(wrapper@, "function_declarations"@, 0);
            }
            let tools_arr = vec![Json::Obj(wrapper)];
            fields.push(("tools".to_owned(), Json::Arr(tools_arr)));
        }
        match sys {
            Some(si) => {
                fields.push(("system_instruction".to_owned(), si));
            },
            None => (),
        }
        let body = Json::Obj(fields);
        proof {
            reveal_strlit("contents");
            reveal_strlit("tools");
            reveal_strlit("system_instruction");
            assert("contents"@.len() == 8);
            assert("tools"@.len() == 5);
            assert("system_instruction"@.len() == 18);
            crate::strutil::seq_neq_len("contents"@, "tools"@);
            crate::strutil::seq_neq_len("contents"@, "system_instruction"@);
            crate::strutil::seq_neq_len("tools"@, "system_instruction"@);
            crate::json::lemma_obj_lookup_at(fields@, "contents"@, 0);
            if has_tools {
                crate::json::lemma_obj_lookup_at(fields@, "tools"@, 1);
                if has_sys {
                    crate::json::lemma_obj_lookup_at(fields@, "system_instruction"@, 2);
                } else {
                    crate::json::lemma_obj_lookup_none(fields@, "system_instruction"@);
                }
            } else {
                crate::json::lemma_obj_lookup_none(fields@, "tools"@);
                if has_sys {
                    crate::json::lemma_obj_lookup_at(fields@, "system_instruction"@, 1);
                } else {
                    crate::json::lemma_obj_lookup_none(fields@, "system_instruction"@);
                }
            }
            assert(url@ == spec_gemini_chat_url(config, key@)) by {
                assert(url@ =~= spec_gemini_chat_url(config, key@));
            }
        }
        Ok(ChatRequest { url, bearer: None, body })
    } else {
        let mut e = "Provider '".to_owned();
        e.append(config.provider.as_str());
        e.append("' not supported for agents yet");
        proof {
            assert(e@ =~= spec_unsupported_provider(config.provider@));
        }
        Err(e)
    }
}

/// Plain round trip, chat-completions response shape: a reply whose
/// message carries text and no tool-call array is read back as exactly the
/// assistant turn with that text. Together with `encodes_chat_message` —
/// which pins each encoded turn's role and text in order — shaping a plain
/// exchange onto the wire and back loses nothing.
pub proof fn lemma_openai_plain_round_trip(data: Json, text: String)
    requires
        jget(jget(jidx(jget(data, "choices"@), 0), "message"@), "content"@) == Json::Str(text),
        !(jget(jget(jidx(jget(data, "choices"@), 0), "message"@), "tool_calls"@) is Arr),
    ensures
        spec_openai_message_of(data) == (MessageModel {
            role: "assistant"@,
            content: Some(text@),
            tool_calls: None,
            tool_call_id: None,
        }),
{
}

/// Plain round trip, native-chat response shape: a reply whose message
/// carries text and no tool-call array reads back as that text and no
/// calls.
pub proof fn lemma_ollama_plain_round_trip(data: Json, text: String)
    requires
        jget(jget(data, "message"@), "content"@) == Json::Str(text),
        !(jget(jget(data, "message"@), "tool_calls"@) is Arr),
    ensures
        spec_ollama_content_of(data) == Some(text@),
        spec_ollama_calls_of(data) is None,
{
}

/// Plain round trip, generate-content response shape: a single text part
/// with no function call reads back as exactly that text and no calls.
pub proof fn lemma_gemini_plain_round_trip(p: Json, text: String)
    requires
        jget(p, "text"@) == Json::Str(text),
        !(jget(p, "functionCall"@) is Obj),
    ensures
        gemini_text_concat(seq![p]) == text@,
        gemini_call_list(seq![p]).len() == 0,
{
    assert(seq![p].drop_last() =~= Seq::<Json>::empty());
    assert(seq![p].last() == p);
    assert(gemini_text_concat(Seq::<Json>::empty()) =~= Seq::<char>::empty());
    assert(gemini_call_list(Seq::<Json>::empty()) =~= Seq::<(Seq<char>, Seq<char>)>::empty());
    assert(gemini_text_concat(seq![p]) =~= Seq::<char>::empty() + text@);
    assert(Seq::<char>::empty() + text@ =~= text@);
}

/// Request shape, generate-content side: a transcript of sendable turns
/// goes out whole and in order — nothing is dropped or reordered, and
/// `encodes_gemini_content` pins each turn's mapped role and text.
pub proof fn lemma_gemini_plain_transcript(msgs: Seq<MessageModel>)
    requires
        forall|i: int| 0 <= i < msgs.len() ==> gemini_sendable(#[trigger] msgs[i]),
    ensures
        gemini_filtered(msgs) == msgs,
    decreases msgs.len(),
{
    if msgs.len() > 0 {
        lemma_gemini_plain_transcript(msgs.drop_last());
        assert(gemini_filtered(msgs) =~= msgs);
    }
}

/// The fixed embeddings endpoint of the chat-completions provider.
pub open spec fn spec_openai_embed_url() -> Seq<char> {
    "https://api.openai.com/v1/embeddings"@
}

/// The embeddings endpoint under the configured base, trailing slashes
/// trimmed.
pub open spec fn spec_ollama_embed_url(c: &ProviderConfig) -> Seq<char> {
    crate::strutil::without_trailing(url_or_default(c), '/') + "/api/embeddings"@
}

/// The embed-content endpoint, carrying the credential as a query
/// parameter.
pub open spec fn spec_gemini_embed_url(key: Seq<char>) -> Seq<char> {
    "https://generativelanguage.googleapis.com/v1beta/models/text-embedding-004:embedContent?key="@
        + key
}

/// Shapes one embedding call into the selected provider's request. A
/// missing credential and an unknown provider are refused before any
/// network work.
pub fn build_embed_request(text: &str, config: &ProviderConfig) -> (r: Result<
    ChatRequest,
    String,
>)
    ensures
        config.provider@ == "openai"@ ==> (match (r, &config.api_key) {
            (Ok(req), Some(key)) => req.url@ == spec_openai_embed_url() && (req.bearer
                matches Some(b) && b@ == key@) && is_json_str(jget(req.body, "input"@), text@)
                && is_json_str(jget(req.body, "model"@), "text-embedding-3-small"@),
            (Err(e), None) => e@ == "OpenAI API Key missing"@,
            _ => false,
        }),
        config.provider@ == "gemini"@ ==> (match (r, &config.api_key) {
            (Ok(req), Some(key)) => req.url@ == spec_gemini_embed_url(key@) && req.bearer is None
                && is_json_str(
                jget(jidx(jget(jget(req.body, "content"@), "parts"@), 0), "text"@),
                text@,
            ),
            (Err(e), None) => e@ == "Gemini API Key missing"@,
            _ => false,
        }),
        config.provider@ == "ollama"@ ==> (match r {
            Ok(req) => req.url@ == spec_ollama_embed_url(config) && req.bearer is None
                && is_json_str(
                jget(req.body, "model"@),
                model_or(config, "nomic-embed-text"@),
            ) && is_json_str(jget(req.body, "prompt"@), text@),
            _ => false,
        }),
        config.provider@ != "openai"@ && config.provider@ != "ollama"@ && config.provider@
            != "gemini"@ ==> (r matches Err(e) && e@ == "Unknown provider"@),
{
    proof {
        reveal_strlit("openai");
        reveal_strlit("ollama");
        reveal_strlit("gemini");
        assert("openai"@.len() == 6);
        assert("ollama"@.len() == 6);
        assert("gemini"@.len() == 6);
        crate::strutil::seq_neq_at("openai"@, "ollama"@, 1);
        crate::strutil::seq_neq_at("openai"@, "gemini"@, 0);
        crate::strutil::seq_neq_at("ollama"@, "gemini"@, 0);
    }
    if crate::strutil::str_eq(config.provider.as_str(), "openai") {
        let key = match &config.api_key {
            Some(k) => k.clone(),
            None => {
                return Err("OpenAI API Key missing".to_owned());
            },
        };
        let mut fields: Vec<(String, Json)> = Vec::new();
        fields.push(("input".to_owned(), Json::Str(text.to_owned())));
        fields.push(("model".to_owned(), Json::Str("text-embedding-3-small".to_owned())));
        let body = Json::Obj(fields);
        proof {
            reveal_strlit("input");
            reveal_strlit("model");
            assert("input"@.len() == 5);
            assert("model"@.len() == 5);
            crate::strutil::seq_neq_at("input"@, "model"@, 0);
            crate::json::lemma_obj_lookup_at(fields@, "input"@, 0);
            crate::json::lemma_obj_lookup_at(fields@, "model"@, 1);
        }
        Ok(
            ChatRequest {
                url: "https://api.openai.com/v1/embeddings".to_owned(),
                bearer: Some(key),
                body,
            },
        )
    } else if crate::strutil::str_eq(config.provider.as_str(), "gemini") {
        let key = match &config.api_key {
            Some(k) => k.clone(),
            None => {
                return Err("Gemini API Key missing".to_owned());
            },
        };
        let mut url =
            "https://generativelanguage.googleapis.com/v1beta/models/text-embedding-004:embedContent?key="
            .to_owned();
        url.append(key.as_str());
        let part = text_part(text.to_owned());
        let parts = vec![part];
        let mut content: Vec<(String, Json)> = Vec::new();
        content.push(("parts".to_owned(), Json::Arr(parts)));
        let mut fields: Vec<(String, Json)> = Vec::new();
        fields.push(("content".to_owned(), Json::Obj(content)));
        let body = Json::Obj(fields);
        proof {
            crate::json::lemma_obj_lookup_at(content@, "parts"@, 0);
            crate::json::lemma_obj_lookup_at(fields@, "content"@, 0);
        }
        Ok(ChatRequest { url, bearer: None, body })
    } else if crate::strutil::str_eq(config.provider.as_str(), "ollama") {
        let base: String = match &config.url {
            Some(u) => u.clone(),
            None => "http://localhost:11434".to_owned(),
        };
        let mut url = crate::strutil::trim_trailing(base.as_str(), '/').to_owned();
        url.append("/api/embeddings");
        let model = match &config.model {
            Some(m) => m.clone(),
            None => "nomic-embed-text".to_owned(),
        };
        let mut fields: Vec<(String, Json)> = Vec::new();
        fields.push(("model".to_owned(), Json::Str(model)));
        fields.push(("prompt".to_owned(), Json::Str(text.to_owned())));
        let body = Json::Obj(fields);
        proof {
            reveal_strlit("model");
            reveal_strlit("prompt");
            assert("model"@.len() == 5);
            assert("prompt"@.len() == 6);
            crate::strutil::seq_neq_len("model"@, "prompt"@);
            crate::json::lemma_obj_lookup_at(fields@, "model"@, 0);
            crate::json::lemma_obj_lookup_at(fields@, "prompt"@, 1);
        }
        Ok(ChatRequest { url, bearer: None, body })
    } else {
        Err("Unknown provider".to_owned())
    }
}

/// The number tokens of an embedding array, in order, or nothing when any
/// element is not a number.
pub open spec fn num_lexemes_of(a: Seq<Json>) -> Option<Seq<Seq<char>>>
    decreases a.len(),
{
    if a.len() == 0 {
        Some(Seq::empty())
    } else {
        match num_lexemes_of(a.drop_last()) {
            Some(rest) => match a.last() {
                Json::Num(s) => Some(rest.push(s@)),
                _ => None,
            },
            None => None,
        }
    }
}

proof fn lemma_num_lexemes_none(a: Seq<Json>, i: int)
    requires
        0 <= i < a.len(),
        !(a[i] is Num),
    ensures
        num_lexemes_of(a) is None,
    decreases a.len(),
{
    if i == a.len() - 1 {
    } else {
        lemma_num_lexemes_none(a.drop_last(), i);
    }
}

proof fn lemma_num_lexemes_snoc(a: Seq<Json>, i: int)
    requires
        0 <= i < a.len(),
    ensures
        num_lexemes_of(a.take(i + 1)) == (match num_lexemes_of(a.take(i)) {
            Some(rest) => match a[i] {
                Json::Num(s) => Some(rest.push(s@)),
                _ => None,
            },
            None => None,
        }),
{
    assert(a.take(i + 1).drop_last() =~= a.take(i));
    assert(a.take(i + 1).last() == a[i]);
}

/// Where each provider's embedding response keeps the vector.
pub open spec fn embed_array_of(data: Json, provider: Seq<char>) -> Json {
    if provider == "openai"@ {
        jget(jidx(jget(data, "data"@), 0), "embedding"@)
    } else if provider == "gemini"@ {
        jget(jget(data, "embedding"@), "values"@)
    } else {
        jget(data, "embedding"@)
    }
}

/// Reads the embedding vector out of a provider response, each component
/// as its number token; floating point never enters the library. Anything
/// but an array of numbers at the provider's documented position is
/// refused.
pub fn parse_embedding(data: &Json, config: &ProviderConfig) -> (r: Result<Vec<String>, String>)
    ensures
        match embed_array_of(*data, config.provider@) {
            Json::Arr(a) => match num_lexemes_of(a@) {
                Some(lex) => r matches Ok(v) && v@.map(|i: int, s: String| s@) == lex,
                None => r matches Err(e) && e@ == "Failed to parse embedding"@,
            },
            _ => r matches Err(e) && e@ == "Failed to parse embedding"@,
        },
{
    proof {
        reveal_strlit("openai");
        reveal_strlit("ollama");
        reveal_strlit("gemini");
        assert("openai"@.len() == 6);
        assert("ollama"@.len() == 6);
        assert("gemini"@.len() == 6);
        crate::strutil::seq_neq_at("openai"@, "gemini"@, 0);
    }
    let arr_opt: Option<&Vec<Json>> = if crate::strutil::str_eq(
        config.provider.as_str(),
        "openai",
    ) {
        match data.get("data") {
            Some(d) => match d.arr_of() {
                Some(a) => if a.len() > 0 {
                    match a[0].get("embedding") {
                        Some(e) => e.arr_of(),
                        None => None,
                    }
                } else {
                    None
                },
                None => None,
            },
            None => None,
        }
    } else if crate::strutil::str_eq(config.provider.as_str(), "gemini") {
        match data.get("embedding") {
            Some(e) => match e.get("values") {
                Some(v) => v.arr_of(),
                None => None,
            },
            None => None,
        }
    } else {
        match data.get("embedding") {
            Some(e) => e.arr_of(),
            None => None,
        }
    };
    match arr_opt {
        Some(arr) => {
            let mut out: Vec<String> = Vec::new();
            let mut i: usize = 0;
            proof {
                assert(num_lexemes_of(arr@.take(0)) =~= Some(Seq::<Seq<char>>::empty()));
                assert(out@.map(|k: int, s: String| s@) =~= Seq::<Seq<char>>::empty());
            }
            while i < arr.len()
                invariant
                    embed_array_of(*data, config.provider@) == Json::Arr(*arr),
                    i <= arr@.len(),
                    out@.len() == i,
                    num_lexemes_of(arr@.take(i as int)) == Some(
                        out@.map(|k: int, s: String| s@),
                    ),
                decreases arr@.len() - i,
            {
                let ghost prev = out@;
                match &arr[i] {
                    Json::Num(s) => {
                        out.push(s.clone());
                    },
                    _ => {
                        proof {
                            lemma_num_lexemes_none(arr@, i as int);
                        }
                        return Err("Failed to parse embedding".to_owned());
                    },
                }
                proof {
                    lemma_num_lexemes_snoc(arr@, i as int);
                    assert(out@.map(|k: int, s: String| s@) =~= prev.map(
                        |k: int, s: String| s@,
                    ).push(arr@[i as int]->Num_0@));
                }
                i = i + 1;
            }
            proof {
                assert(arr@.take(arr@.len() as int) =~= arr@);
            }
            Ok(out)
        },
        None => Err("Failed to parse embedding".to_owned()),
    }
}

/// The provider-specific lead of a failed embedding call's report.
pub open spec fn spec_embed_error_prefix(p: Seq<char>) -> Seq<char> {
    if p == "openai"@ {
        "OpenAI Error: "@
    } else if p == "gemini"@ {
        "Gemini Error: "@
    } else {
        "Ollama Error: "@
    }
}

/// The report of an embedding call the provider refused: the provider's
/// lead, then the response body.
pub fn embed_error_text(config: &ProviderConfig, body: &str) -> (r: String)
    ensures
        r@ == spec_embed_error_prefix(config.provider@) + body@,
{
    proof {
        reveal_strlit("openai");
        reveal_strlit("gemini");
        assert("openai"@.len() == 6);
        assert("gemini"@.len() == 6);
        crate::strutil::seq_neq_at("openai"@, "gemini"@, 0);
    }
    let mut e = if crate::strutil::str_eq(config.provider.as_str(), "openai") {
        "OpenAI Error: ".to_owned()
    } else if crate::strutil::str_eq(config.provider.as_str(), "gemini") {
        "Gemini Error: ".to_owned()
    } else {
        "Ollama Error: ".to_owned()
    };
    e.append(body);
    e
}

/// The provider-specific lead of a failed chat call's report.
pub open spec fn spec_chat_error_prefix(p: Seq<char>) -> Seq<char> {
    if p == "openai"@ {
        "OpenAI Chat Error: "@
    } else if p == "ollama"@ {
        "Ollama Chat Error: "@
    } else {
        "Gemini Chat Error: "@
    }
}

/// Turns the raw outcome of the posted chat call into the one canonical
/// assistant turn: a non-success status is reported with the response body
/// and aborts the step; a body that does not parse is reported with the
/// parser's message; a parsed body is shaped by exactly the selected
/// provider's reader, and an unsupported provider is refused.
pub fn chat_response_from(config: &ProviderConfig, status_ok: bool, body: &str) -> (r: Result<
    AgentMessage,
    String,
>)
    ensures
        !status_ok ==> (r matches Err(e) && e@ == spec_chat_error_prefix(config.provider@)
            + body@),
        status_ok ==> (match crate::json::parsed_json_of(body@) {
            Err(pe) => r matches Err(e) && e@ == pe,
            Ok(data) => {
                &&& (config.provider@ == "openai"@ ==> (match r {
                    Ok(m) => m@ == spec_openai_message_of(data),
                    Err(_) => false,
                }))
                &&& (config.provider@ == "ollama"@ ==> (match r {
                    Ok(m) => ollama_shaped(m@, data),
                    Err(_) => false,
                }))
                &&& (config.provider@ == "gemini"@ ==> (match r {
                    Ok(m) => m@ == spec_gemini_message_of(data),
                    Err(_) => false,
                }))
                &&& (config.provider@ != "openai"@ && config.provider@ != "ollama"@
                    && config.provider@ != "gemini"@ ==> (match r {
                    Err(e) => e@ == spec_unsupported_provider(config.provider@),
                    Ok(_) => false,
                }))
            },
        }),
{
    proof {
        reveal_strlit("openai");
        reveal_strlit("ollama");
        reveal_strlit("gemini");
        assert("openai"@.len() == 6);
        assert("ollama"@.len() == 6);
        assert("gemini"@.len() == 6);
        crate::strutil::seq_neq_at("openai"@, "ollama"@, 1);
        crate::strutil::seq_neq_at("openai"@, "gemini"@, 0);
        crate::strutil::seq_neq_at("ollama"@, "gemini"@, 0);
    }
    if !status_ok {
        let mut e = if crate::strutil::str_eq(config.provider.as_str(), "openai") {
            "OpenAI Chat Error: ".to_owned()
        } else if crate::strutil::str_eq(config.provider.as_str(), "ollama") {
            "Ollama Chat Error: ".to_owned()
        } else {
            "Gemini Chat Error: ".to_owned()
        };
        e.append(body);
        return Err(e);
    }
    match crate::json::parse_json(body) {
        Ok(data) => {
            if crate::strutil::str_eq(config.provider.as_str(), "openai") {
                Ok(parse_openai_chat(&data))
            } else if crate::strutil::str_eq(config.provider.as_str(), "ollama") {
                Ok(parse_ollama_chat(&data))
            } else if crate::strutil::str_eq(config.provider.as_str(), "gemini") {
                Ok(parse_gemini_chat(&data))
            } else {
                let mut e = "Provider '".to_owned();
                e.append(config.provider.as_str());
                e.append("' not supported for agents yet");
                Err(e)
            }
        },
        Err(e) => Err(e),
    }
}

} // verus!
