use texagent::json::{parse_json, Json};
use texagent::message::{ToolCall, ToolCallFunction};
use texagent::tools::{
    find_resource_output, list_files_output, prepare_tool, propose_edit_missing,
    propose_edit_output, read_file_output, run_terminal_output, search_files_output,
    semantic_search_output, write_file_output, DirEntry, SearchHit, ToolEffect, ToolKind,
    ToolRegistry, ToolStep,
};

fn args(text: &str) -> Json {
    parse_json(text).unwrap()
}

#[test]
fn registry_holds_every_tool_in_stable_order() {
    let registry = ToolRegistry::new();
    let defs = registry.get_definitions();
    let names: Vec<&str> = defs.iter().map(|d| d.name.as_str()).collect();
    assert_eq!(
        names,
        vec![
            "list_files",
            "read_file",
            "write_file",
            "propose_edit",
            "run_terminal",
            "find_resource",
            "search_files",
            "semantic_search",
        ]
    );
}

#[test]
fn registry_lookup() {
    let registry = ToolRegistry::new();
    assert!(matches!(registry.get("read_file"), Some(ToolKind::ReadFile)));
    assert!(matches!(registry.get("semantic_search"), Some(ToolKind::SemanticSearch)));
    assert!(registry.get("nonexistent").is_none());
    assert!(registry.get("").is_none());
}

#[test]
fn read_file_rejects_traversal_paths() {
    let r = prepare_tool(ToolKind::ReadFile, &args("{\"path\":\"../etc/passwd\"}"));
    assert_eq!(r.unwrap_err(), "Access denied: Traversal paths not allowed");
    let r = prepare_tool(ToolKind::ReadFile, &args("{\"path\":\"/safe/file.tex\"}"));
    assert!(matches!(r, Ok(ToolEffect::ReadFile { path }) if path == "/safe/file.tex"));
}

#[test]
fn read_file_traversal_never_reaches_the_host_through_the_registry() {
    let registry = ToolRegistry::new();
    let call = ToolCall {
        id: "c1".to_owned(),
        function: ToolCallFunction {
            name: "read_file".to_owned(),
            arguments: "{\"path\":\"a/../b\"}".to_owned(),
        },
    };
    match registry.resolve_tool_call(&call) {
        ToolStep::Ready(t) => {
            assert_eq!(t, "Error: Access denied: Traversal paths not allowed")
        }
        ToolStep::Effect(_) => panic!("a traversal path must never become an effect"),
    }
}

#[test]
fn write_file_requires_both_arguments() {
    let r = prepare_tool(ToolKind::WriteFile, &args("{}"));
    assert_eq!(r.unwrap_err(), "Missing path argument");
    let r = prepare_tool(ToolKind::WriteFile, &args("{\"path\":\"/a\"}"));
    assert_eq!(r.unwrap_err(), "Missing content argument");
    let r = prepare_tool(ToolKind::WriteFile, &args("{\"path\":\"/a\",\"content\":\"x\"}"));
    assert!(matches!(r, Ok(ToolEffect::WriteFile { path, content }) if path == "/a" && content == "x"));
}

#[test]
fn non_string_argument_counts_as_missing() {
    let r = prepare_tool(ToolKind::ListFiles, &args("{\"path\":7}"));
    assert_eq!(r.unwrap_err(), "Missing path argument");
}

#[test]
fn run_terminal_defaults_working_directory() {
    let r = prepare_tool(ToolKind::RunTerminal, &args("{\"command\":\"ls\"}"));
    assert!(matches!(r, Ok(ToolEffect::RunCommand { command, cwd }) if command == "ls" && cwd == "."));
    let r = prepare_tool(ToolKind::RunTerminal, &args("{}"));
    assert_eq!(r.unwrap_err(), "Missing command argument");
}

#[test]
fn find_resource_builds_like_pattern() {
    let r = prepare_tool(ToolKind::FindResource, &args("{\"name\":\"ch*.tex\"}"));
    match r.unwrap() {
        ToolEffect::FindResource { pattern, display_pattern, collection } => {
            assert_eq!(pattern, "%ch%.tex%");
            assert_eq!(display_pattern, "ch%.tex");
            assert!(collection.is_none());
        }
        _ => panic!("expected a lookup effect"),
    }
    let r = prepare_tool(
        ToolKind::FindResource,
        &args("{\"name\":\"a\",\"collection\":\"thesis\"}"),
    );
    match r.unwrap() {
        ToolEffect::FindResource { collection, .. } => {
            assert_eq!(collection.as_deref(), Some("thesis"))
        }
        _ => panic!("expected a lookup effect"),
    }
}

#[test]
fn search_files_reads_flags_and_extensions() {
    let r = prepare_tool(
        ToolKind::SearchFiles,
        &args("{\"query\":\"emph\",\"regex\":true,\"extensions\":[\"tex\",7,\"bib\"]}"),
    );
    match r.unwrap() {
        ToolEffect::SearchFiles { query, use_regex, extensions } => {
            assert_eq!(query, "emph");
            assert!(use_regex);
            assert_eq!(extensions, vec!["tex".to_owned(), "bib".to_owned()]);
        }
        _ => panic!("expected a search effect"),
    }
    let r = prepare_tool(ToolKind::SearchFiles, &args("{}"));
    assert_eq!(r.unwrap_err(), "Missing query");
}

#[test]
fn semantic_search_defaults_k() {
    let r = prepare_tool(ToolKind::SemanticSearch, &args("{\"query\":\"limits\"}"));
    assert!(matches!(r, Ok(ToolEffect::SemanticSearch { k: 5, .. })));
    let r = prepare_tool(ToolKind::SemanticSearch, &args("{\"query\":\"limits\",\"k\":3}"));
    assert!(matches!(r, Ok(ToolEffect::SemanticSearch { k: 3, .. })));
    let r = prepare_tool(ToolKind::SemanticSearch, &args("{\"query\":\"limits\",\"k\":-1}"));
    assert!(matches!(r, Ok(ToolEffect::SemanticSearch { k: 5, .. })));
}

#[test]
fn read_file_output_truncates_long_content() {
    let short = "hello".to_owned();
    assert_eq!(read_file_output(&short), "hello");
    let at_cap: String = std::iter::repeat('x').take(10000).collect();
    assert_eq!(read_file_output(&at_cap), at_cap);
    let long: String = std::iter::repeat('x').take(10001).collect();
    let out = read_file_output(&long);
    assert_eq!(out.len(), 10000 + "... [TRUNCATED caused by length]".len());
    assert!(out.ends_with("... [TRUNCATED caused by length]"));
}

#[test]
fn semantic_k_that_overflows_falls_back_to_default() {
    let r = prepare_tool(
        ToolKind::SemanticSearch,
        &args("{\"query\":\"q\",\"k\":99999999999999999999999999}"),
    );
    assert!(matches!(r, Ok(ToolEffect::SemanticSearch { k: 5, .. })));
}

#[test]
fn empty_listing_and_empty_search() {
    assert_eq!(list_files_output(&Vec::new()), "");
    assert_eq!(
        search_files_output(&Vec::new(), 0),
        "Found 0 matches in 0 files:\n"
    );
    assert_eq!(semantic_search_output(&Vec::new()), "Found 0 semantic matches:\n");
}

#[test]
fn list_files_output_formats_and_caps() {
    let entries = vec![
        DirEntry { is_dir: true, name: "src".to_owned() },
        DirEntry { is_dir: false, name: "main.tex".to_owned() },
    ];
    assert_eq!(list_files_output(&entries), "[DIR] src\n[FILE] main.tex");

    let many: Vec<DirEntry> =
        (0..101).map(|i| DirEntry { is_dir: false, name: format!("f{}", i) }).collect();
    let out = list_files_output(&many);
    assert_eq!(out.lines().count(), 101);
    assert!(out.ends_with("... (truncated)"));
}

#[test]
fn find_resource_output_formats_rows_and_misses() {
    assert_eq!(
        find_resource_output("nope", &vec![]),
        "No files found matching 'nope'."
    );
    let rows = vec![
        ("/a/x.tex".to_owned(), "alpha".to_owned()),
        ("/b/y.tex".to_owned(), "beta".to_owned()),
    ];
    assert_eq!(
        find_resource_output("x", &rows),
        "Found 2 matches:\n- [alpha] /a/x.tex\n- [beta] /b/y.tex\n"
    );
}

#[test]
fn search_files_output_trims_line_content() {
    let hits = vec![SearchHit {
        file_name: "a.tex".to_owned(),
        line_number: 12,
        line_content: "  \\emph{x}  \n".to_owned(),
    }];
    assert_eq!(
        search_files_output(&hits, 3),
        "Found 1 matches in 3 files:\na.tex:12 - \\emph{x}\n"
    );
}

#[test]
fn semantic_search_output_lists_scored_ids() {
    let results = vec![("doc1".to_owned(), "0.9123".to_owned())];
    assert_eq!(
        semantic_search_output(&results),
        "Found 1 semantic matches:\n- doc1 (Score: 0.9123)\n"
    );
}

#[test]
fn tool_failures_are_wrapped_as_recoverable_output() {
    assert_eq!(
        texagent::tools::tool_error_output("Failed to read file: not found"),
        "Error: Failed to read file: not found"
    );
}

#[test]
fn remaining_outputs() {
    assert_eq!(write_file_output("/a/b"), "Successfully wrote to /a/b");
    assert_eq!(
        propose_edit_output("/a/b"),
        "Proposed edit for /a/b. User is reviewing changes..."
    );
    assert_eq!(
        propose_edit_missing("/a/b"),
        "File does not exist: /a/b. Use write_file to create new files."
    );
    assert_eq!(
        run_terminal_output("out\n", "err\n"),
        "STDOUT:\nout\n\nSTDERR:\nerr\n"
    );
}

#[test]
fn definitions_advertise_schemas() {
    let registry = ToolRegistry::new();
    for def in registry.get_definitions() {
        match def.parameters.get("type") {
            Some(Json::Str(t)) => assert_eq!(t, "object"),
            _ => panic!("schema root must be an object schema"),
        }
        assert!(!def.description.is_empty());
    }
}
