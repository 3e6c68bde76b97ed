use texagent::ai::{
    build_chat_request, build_embed_request, chat_response_from, parse_embedding,
    parse_gemini_chat, parse_ollama_chat, parse_openai_chat, ProviderConfig,
};
use texagent::json::{parse_json, Json};
use texagent::message::AgentMessage;

fn config(provider: &str, key: Option<&str>) -> ProviderConfig {
    ProviderConfig {
        provider: provider.to_owned(),
        api_key: key.map(|k| k.to_owned()),
        model: None,
        url: None,
    }
}

fn plain(role: &str, text: &str) -> AgentMessage {
    AgentMessage {
        role: role.to_owned(),
        content: Some(text.to_owned()),
        tool_calls: None,
        tool_call_id: None,
    }
}

fn get<'a>(j: &'a Json, key: &str) -> &'a Json {
    j.get(key).expect("member missing")
}

fn text_of(j: &Json) -> &str {
    match j {
        Json::Str(s) => s.as_str(),
        _ => panic!("expected a string"),
    }
}

#[test]
fn openai_request_preserves_roles_and_text_in_order() {
    let messages = vec![plain("system", "rules"), plain("user", "hi"), plain("assistant", "hello")];
    let req = build_chat_request(&messages, Vec::new(), &config("openai", Some("k"))).unwrap();
    assert_eq!(req.url, "https://api.openai.com/v1/chat/completions");
    assert_eq!(req.bearer.as_deref(), Some("k"));
    let arr = match get(&req.body, "messages") {
        Json::Arr(a) => a,
        _ => panic!("expected the transcript array"),
    };
    assert_eq!(arr.len(), 3);
    let roles = ["system", "user", "assistant"];
    let texts = ["rules", "hi", "hello"];
    for i in 0..3 {
        assert_eq!(text_of(get(&arr[i], "role")), roles[i]);
        assert_eq!(text_of(get(&arr[i], "content")), texts[i]);
    }
    // No tools advertised: no tools member goes out.
    assert!(req.body.get("tools").is_none());
}

#[test]
fn openai_plain_round_trip_recovers_text() {
    let data =
        parse_json("{\"choices\":[{\"message\":{\"role\":\"assistant\",\"content\":\"hi there\"}}]}")
            .unwrap();
    let m = parse_openai_chat(&data);
    assert_eq!(m.role, "assistant");
    assert_eq!(m.content.as_deref(), Some("hi there"));
    assert!(m.tool_calls.is_none());
    assert!(m.tool_call_id.is_none());
}

#[test]
fn openai_tool_calls_are_read() {
    let data = parse_json(
        "{\"choices\":[{\"message\":{\"tool_calls\":[{\"id\":\"call_a\",\"function\":{\"name\":\"read_file\",\"arguments\":\"{\\\"path\\\":\\\"/x\\\"}\"}}]}}]}",
    )
    .unwrap();
    let m = parse_openai_chat(&data);
    assert!(m.content.is_none());
    let calls = m.tool_calls.unwrap();
    assert_eq!(calls.len(), 1);
    assert_eq!(calls[0].id, "call_a");
    assert_eq!(calls[0].function.name, "read_file");
    assert_eq!(calls[0].function.arguments, "{\"path\":\"/x\"}");
}

#[test]
fn ollama_synthesizes_ids_and_normalizes_object_arguments() {
    let data = parse_json(
        "{\"message\":{\"tool_calls\":[{\"function\":{\"name\":\"list_files\",\"arguments\":{\"path\":\"/tmp\"}}},{\"function\":{\"name\":\"read_file\",\"arguments\":\"{}\"}}]}}",
    )
    .unwrap();
    let m = parse_ollama_chat(&data);
    let calls = m.tool_calls.unwrap();
    assert_eq!(calls.len(), 2);
    // Ids are synthesized: the call's position, then a fresh random tail.
    assert!(calls[0].id.starts_with("call_0_"));
    assert!(calls[1].id.starts_with("call_1_"));
    assert_ne!(calls[0].id, calls[1].id);
    // A native object is rendered back to JSON text; a string stays as is.
    assert_eq!(calls[0].function.arguments, "{\"path\":\"/tmp\"}");
    assert_eq!(calls[1].function.arguments, "{}");
}

#[test]
fn ollama_request_has_stream_false_and_local_default_url() {
    let messages = vec![plain("user", "hi")];
    let req = build_chat_request(&messages, Vec::new(), &config("ollama", None)).unwrap();
    assert_eq!(req.url, "http://localhost:11434/api/chat");
    assert!(req.bearer.is_none());
    assert!(matches!(get(&req.body, "stream"), Json::Bool(false)));
    assert_eq!(text_of(get(&req.body, "model")), "llama3");
}

#[test]
fn ollama_url_trailing_slash_is_trimmed() {
    let mut cfg = config("ollama", None);
    cfg.url = Some("http://box:1234///".to_owned());
    let req = build_chat_request(&vec![], Vec::new(), &cfg).unwrap();
    assert_eq!(req.url, "http://box:1234/api/chat");
}

#[test]
fn gemini_request_extracts_system_instruction_and_flattens_tool_turns() {
    let mut messages = vec![plain("system", "rules"), plain("user", "hi")];
    messages.push(AgentMessage {
        role: "tool".to_owned(),
        content: Some("42".to_owned()),
        tool_calls: None,
        tool_call_id: Some("call_1".to_owned()),
    });
    let req = build_chat_request(&messages, Vec::new(), &config("gemini", Some("k"))).unwrap();
    assert_eq!(
        req.url,
        "https://generativelanguage.googleapis.com/v1beta/models/gemini-1.5-flash:generateContent?key=k"
    );
    let contents = match get(&req.body, "contents") {
        Json::Arr(a) => a,
        _ => panic!("expected contents"),
    };
    // The system turn went to the dedicated instruction, not the contents.
    assert_eq!(contents.len(), 2);
    assert_eq!(text_of(get(&contents[0], "role")), "user");
    let sys = get(&req.body, "system_instruction");
    let sys_parts = match get(sys, "parts") {
        Json::Arr(a) => a,
        _ => panic!("expected parts"),
    };
    assert_eq!(text_of(get(&sys_parts[0], "text")), "rules");
    // The tool turn is flattened into labelled user text.
    let tool_parts = match get(&contents[1], "parts") {
        Json::Arr(a) => a,
        _ => panic!("expected parts"),
    };
    assert_eq!(text_of(get(&tool_parts[0], "text")), "Tool Output: 42");
}

#[test]
fn gemini_later_system_turn_supersedes_earlier() {
    let messages = vec![plain("system", "first rules"), plain("user", "hi"), plain("system", "second rules")];
    let req = build_chat_request(&messages, Vec::new(), &config("gemini", Some("k"))).unwrap();
    let sys = get(&req.body, "system_instruction");
    let parts = match get(sys, "parts") {
        Json::Arr(a) => a,
        _ => panic!("expected parts"),
    };
    assert_eq!(text_of(get(&parts[0], "text")), "second rules");
}

#[test]
fn gemini_without_system_turn_sends_no_instruction() {
    let messages = vec![plain("user", "hi")];
    let req = build_chat_request(&messages, Vec::new(), &config("gemini", Some("k"))).unwrap();
    assert!(req.body.get("system_instruction").is_none());
}

#[test]
fn gemini_plain_round_trip_recovers_text() {
    let data = parse_json(
        "{\"candidates\":[{\"content\":{\"parts\":[{\"text\":\"one \"},{\"text\":\"two\"}]}}]}",
    )
    .unwrap();
    let m = parse_gemini_chat(&data);
    assert_eq!(m.content.as_deref(), Some("one two"));
    assert!(m.tool_calls.is_none());
}

#[test]
fn gemini_function_calls_get_indexed_unique_ids() {
    let data = parse_json(
        "{\"candidates\":[{\"content\":{\"parts\":[{\"functionCall\":{\"name\":\"find_resource\",\"args\":{\"name\":\"a.tex\"}}},{\"functionCall\":{\"name\":\"read_file\",\"args\":{\"path\":\"/x\"}}}]}}]}",
    )
    .unwrap();
    let m = parse_gemini_chat(&data);
    assert!(m.content.is_none());
    let calls = m.tool_calls.unwrap();
    assert_eq!(calls.len(), 2);
    assert_eq!(calls[0].id, "gemini_call_0");
    assert_eq!(calls[1].id, "gemini_call_1");
    assert_ne!(calls[0].id, calls[1].id);
    assert_eq!(calls[0].function.name, "find_resource");
    assert_eq!(calls[0].function.arguments, "{\"name\":\"a.tex\"}");
    assert_eq!(calls[1].function.name, "read_file");
}

#[test]
fn missing_credentials_are_refused_before_any_network_work() {
    let e = build_chat_request(&vec![], Vec::new(), &config("openai", None)).unwrap_err();
    assert_eq!(e, "OpenAI API Key missing");
    let e = build_chat_request(&vec![], Vec::new(), &config("gemini", None)).unwrap_err();
    assert_eq!(e, "Gemini API Key missing");
}

#[test]
fn unsupported_provider_is_refused() {
    let e = build_chat_request(&vec![], Vec::new(), &config("anthropic", None)).unwrap_err();
    assert_eq!(e, "Provider 'anthropic' not supported for agents yet");
    let e = build_embed_request("q", &config("other", None)).unwrap_err();
    assert_eq!(e, "Unknown provider");
}

#[test]
fn http_failure_is_reported_with_the_body() {
    let r = chat_response_from(&config("openai", Some("k")), false, "quota exceeded");
    assert_eq!(r.unwrap_err(), "OpenAI Chat Error: quota exceeded");
    let r = chat_response_from(&config("gemini", Some("k")), false, "bad key");
    assert_eq!(r.unwrap_err(), "Gemini Chat Error: bad key");
}

#[test]
fn successful_body_is_shaped() {
    let r = chat_response_from(
        &config("ollama", None),
        true,
        "{\"message\":{\"content\":\"ok\"}}",
    );
    let m = r.unwrap();
    assert_eq!(m.role, "assistant");
    assert_eq!(m.content.as_deref(), Some("ok"));
}

#[test]
fn embedding_requests_per_provider() {
    let req = build_embed_request("query text", &config("openai", Some("k"))).unwrap();
    assert_eq!(req.url, "https://api.openai.com/v1/embeddings");
    assert_eq!(text_of(get(&req.body, "input")), "query text");
    assert_eq!(text_of(get(&req.body, "model")), "text-embedding-3-small");

    let req = build_embed_request("query text", &config("ollama", None)).unwrap();
    assert_eq!(req.url, "http://localhost:11434/api/embeddings");
    assert_eq!(text_of(get(&req.body, "prompt")), "query text");
    assert_eq!(text_of(get(&req.body, "model")), "nomic-embed-text");

    let req = build_embed_request("query text", &config("gemini", Some("k"))).unwrap();
    assert!(req.url.ends_with("text-embedding-004:embedContent?key=k"));
}

#[test]
fn embedding_failure_is_reported_with_the_body() {
    assert_eq!(
        texagent::ai::embed_error_text(&config("openai", Some("k")), "quota"),
        "OpenAI Error: quota"
    );
    assert_eq!(
        texagent::ai::embed_error_text(&config("gemini", Some("k")), "bad key"),
        "Gemini Error: bad key"
    );
    assert_eq!(
        texagent::ai::embed_error_text(&config("ollama", None), "down"),
        "Ollama Error: down"
    );
}

#[test]
fn embedding_vectors_come_back_as_number_tokens() {
    let data = parse_json("{\"data\":[{\"embedding\":[0.25,1,-2.5]}]}").unwrap();
    let v = parse_embedding(&data, &config("openai", Some("k"))).unwrap();
    assert_eq!(v, vec!["0.25".to_owned(), "1".to_owned(), "-2.5".to_owned()]);

    let data = parse_json("{\"embedding\":{\"values\":[0.5]}}").unwrap();
    let v = parse_embedding(&data, &config("gemini", Some("k"))).unwrap();
    assert_eq!(v, vec!["0.5".to_owned()]);

    let data = parse_json("{\"embedding\":[3]}").unwrap();
    let v = parse_embedding(&data, &config("ollama", None)).unwrap();
    assert_eq!(v, vec!["3".to_owned()]);

    let data = parse_json("{\"embedding\":[\"not a number\"]}").unwrap();
    let e = parse_embedding(&data, &config("ollama", None)).unwrap_err();
    assert_eq!(e, "Failed to parse embedding");

    let data = parse_json("{}").unwrap();
    let e = parse_embedding(&data, &config("openai", Some("k"))).unwrap_err();
    assert_eq!(e, "Failed to parse embedding");
}
