use texagent::agent::{start, AgentEvent, AgentStatus};
use texagent::ai::ProviderConfig;
use texagent::message::{AgentMessage, ToolCall, ToolCallFunction};
use texagent::tools::{ToolEffect, ToolStep};

fn ollama_config() -> ProviderConfig {
    ProviderConfig {
        provider: "ollama".to_owned(),
        api_key: None,
        model: None,
        url: None,
    }
}

fn answer(text: &str) -> AgentMessage {
    AgentMessage {
        role: "assistant".to_owned(),
        content: Some(text.to_owned()),
        tool_calls: None,
        tool_call_id: None,
    }
}

fn tool_request(id: &str, name: &str, arguments: &str) -> AgentMessage {
    AgentMessage {
        role: "assistant".to_owned(),
        content: None,
        tool_calls: Some(vec![ToolCall {
            id: id.to_owned(),
            function: ToolCallFunction {
                name: name.to_owned(),
                arguments: arguments.to_owned(),
            },
        }]),
        tool_call_id: None,
    }
}

#[test]
fn plain_answer_event_sequence() {
    let mut s = start(vec![], ollama_config());
    assert_eq!(s.messages.len(), 1);
    assert_eq!(s.messages[0].role, "system");

    assert!(s.begin_step());
    let calls = s.handle_model_result(Ok(answer("<answer text>")));
    assert!(calls.is_empty());
    assert!(matches!(s.status, AgentStatus::Finished));

    assert_eq!(s.events.len(), 3);
    match &s.events[0] {
        AgentEvent::Thought(t) => assert_eq!(t, "Thinking..."),
        _ => panic!("expected a thought"),
    }
    match &s.events[1] {
        AgentEvent::Response(t) => assert_eq!(t, "<answer text>"),
        _ => panic!("expected the final answer"),
    }
    match &s.events[2] {
        AgentEvent::Finished(t) => assert_eq!(t, "Done"),
        _ => panic!("expected the finish notice"),
    }

    // Finished is terminal: the loop gate refuses another model turn and
    // emits nothing more.
    assert!(!s.is_running);
    assert!(!s.begin_step());
    assert_eq!(s.events.len(), 3);
    assert!(matches!(s.status, AgentStatus::Finished));
}

#[test]
fn find_resource_then_answer_event_sequence() {
    let mut s = start(vec![], ollama_config());

    assert!(s.begin_step());
    let m = tool_request("call_7", "find_resource", "{\"name\":\"thesis.tex\"}");
    let calls = s.handle_model_result(Ok(m));
    assert_eq!(calls.len(), 1);

    let step = s.tools.resolve_tool_call(&calls[0]);
    let output = match step {
        ToolStep::Effect(ToolEffect::FindResource {
            pattern,
            display_pattern,
            collection,
        }) => {
            assert_eq!(pattern, "%thesis.tex%");
            assert_eq!(display_pattern, "thesis.tex");
            assert!(collection.is_none());
            let rows = vec![("/docs/thesis.tex".to_owned(), "papers".to_owned())];
            texagent::tools::find_resource_output(&display_pattern, &rows)
        }
        _ => panic!("expected a lookup effect"),
    };
    s.record_tool_output(&calls[0].id, output);

    assert!(s.begin_step());
    let calls2 = s.handle_model_result(Ok(answer("found it")));
    assert!(calls2.is_empty());
    assert!(matches!(s.status, AgentStatus::Finished));

    assert_eq!(s.events.len(), 6);
    assert!(matches!(&s.events[0], AgentEvent::Thought(t) if t == "Thinking..."));
    assert!(matches!(
        &s.events[1],
        AgentEvent::Thought(t) if t == "Calling tools: find_resource({\"name\":\"thesis.tex\"})"
    ));
    assert!(matches!(
        &s.events[2],
        AgentEvent::Observation(t)
            if t == "Found 1 matches:\n- [papers] /docs/thesis.tex\n"
    ));
    assert!(matches!(&s.events[3], AgentEvent::Thought(t) if t == "Thinking..."));
    assert!(matches!(&s.events[4], AgentEvent::Response(t) if t == "found it"));
    assert!(matches!(&s.events[5], AgentEvent::Finished(t) if t == "Done"));

    // The tool turn answers exactly the call that produced it.
    assert_eq!(s.messages[2].role, "tool");
    assert_eq!(s.messages[2].tool_call_id.as_deref(), Some("call_7"));

    // The run has terminated: the loop gate refuses another model turn.
    assert!(!s.begin_step());
    assert_eq!(s.events.len(), 6);
}

#[test]
fn unknown_tool_is_recoverable() {
    let mut s = start(vec![], ollama_config());
    assert!(s.begin_step());
    let m = tool_request("call_1", "nonexistent", "{}");
    let calls = s.handle_model_result(Ok(m));
    assert_eq!(calls.len(), 1);

    let step = s.tools.resolve_tool_call(&calls[0]);
    let output = match step {
        ToolStep::Ready(t) => t,
        _ => panic!("expected a ready error output"),
    };
    assert_eq!(output, "Error: Tool 'nonexistent' not found");
    s.record_tool_output(&calls[0].id, output);

    // The loop goes on: the session is still running and may take the
    // next step.
    assert!(matches!(s.status, AgentStatus::Running));
    assert!(s.begin_step());
}

#[test]
fn step_budget_is_exactly_ten() {
    let mut s = start(vec![], ollama_config());
    let mut model_turns = 0;
    while s.begin_step() {
        model_turns += 1;
        assert!(model_turns <= 10);
        let m = tool_request("call_x", "list_files", "{\"path\":\"/tmp\"}");
        let calls = s.handle_model_result(Ok(m));
        assert_eq!(calls.len(), 1);
        s.record_tool_output(&calls[0].id, "ok".to_owned());
    }
    assert_eq!(model_turns, 10);
    assert!(matches!(s.status, AgentStatus::Finished));
    match s.events.last().unwrap() {
        AgentEvent::Finished(t) => assert_eq!(t, "step limit reached"),
        _ => panic!("expected the finish notice"),
    }
}

#[test]
fn stop_lets_inflight_call_complete() {
    let mut s = start(vec![], ollama_config());
    assert!(s.begin_step());

    // The stop arrives while the provider call is in flight.
    s.stop();

    // The in-flight reply is still processed in full.
    let calls = s.handle_model_result(Ok(answer("late answer")));
    assert!(calls.is_empty());
    assert_eq!(s.messages.last().unwrap().content.as_deref(), Some("late answer"));
    assert!(matches!(&s.events[1], AgentEvent::Response(t) if t == "late answer"));
}

#[test]
fn stop_is_observed_at_loop_top() {
    let mut s = start(vec![], ollama_config());
    s.stop();
    assert!(!s.begin_step());
    assert!(matches!(s.status, AgentStatus::Stopped));
    match s.events.last().unwrap() {
        AgentEvent::Finished(t) => assert_eq!(t, "stopped"),
        _ => panic!("expected the finish notice"),
    }
}

#[test]
fn stop_is_idempotent_and_noop_on_fresh_state() {
    let mut s = texagent::agent::AgentState::new(ollama_config());
    s.stop();
    s.stop();
    assert!(!s.is_running);
    assert!(s.events.is_empty());
    assert!(s.messages.is_empty());
}

#[test]
fn provider_error_ends_run() {
    let mut s = start(vec![], ollama_config());
    assert!(s.begin_step());
    let calls = s.handle_model_result(Err("Ollama Chat Error: boom".to_owned()));
    assert!(calls.is_empty());
    assert!(matches!(s.status, AgentStatus::Errored));
    match s.events.last().unwrap() {
        AgentEvent::Error(t) => assert_eq!(t, "Ollama Chat Error: boom"),
        _ => panic!("expected the error notice"),
    }

    // Errored is terminal: no retry — the loop gate refuses another model
    // turn and emits nothing more.
    let events_before = s.events.len();
    assert!(!s.begin_step());
    assert_eq!(s.events.len(), events_before);
    assert!(matches!(s.status, AgentStatus::Errored));
}

#[test]
fn malformed_arguments_are_recoverable() {
    let s = start(vec![], ollama_config());
    let call = ToolCall {
        id: "call_9".to_owned(),
        function: ToolCallFunction {
            name: "read_file".to_owned(),
            arguments: "{not json".to_owned(),
        },
    };
    match s.tools.resolve_tool_call(&call) {
        ToolStep::Ready(t) => {
            assert!(t.starts_with("Error parsing arguments for tool 'read_file': "));
        }
        _ => panic!("expected a ready error output"),
    }
}

#[test]
fn proposal_event_carries_path_and_content() {
    let mut s = start(vec![], ollama_config());
    let out = s.record_proposal("/docs/a.tex", "new text");
    assert_eq!(out, "Proposed edit for /docs/a.tex. User is reviewing changes...");
    match s.events.last().unwrap() {
        AgentEvent::Proposal { path, new_content } => {
            assert_eq!(path, "/docs/a.tex");
            assert_eq!(new_content, "new text");
        }
        _ => panic!("expected the proposal"),
    }
}

#[test]
fn event_channels() {
    assert_eq!(AgentEvent::Thought(String::new()).channel(), "agent-thought");
    assert_eq!(AgentEvent::Observation(String::new()).channel(), "agent-observation");
    assert_eq!(
        AgentEvent::Proposal { path: String::new(), new_content: String::new() }.channel(),
        "agent-proposal"
    );
    assert_eq!(AgentEvent::Response(String::new()).channel(), "agent-response");
    assert_eq!(AgentEvent::Finished(String::new()).channel(), "agent-finished");
    assert_eq!(AgentEvent::Error(String::new()).channel(), "agent-error");
}
