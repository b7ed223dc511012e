use o_sovereign::mcp_server::{
    create_acsa_mcp_server,
    tool_call_result, AcsaBehaviorAnalysisHandler, AcsaMcpServer, AcsaProtocolSwitchHandler,
    AcsaTaskTrackerHandler, ClientInfo, McpOutcome, McpPrompt, McpPromptArgument, McpRequest,
    McpResource, McpResponse, McpTool, ToolContent, MCP_VERSION,
};

fn server() -> AcsaMcpServer {
    let mut server = AcsaMcpServer::new("ACSA".to_string(), "0.1.0".to_string());
    server.register_tool(McpTool {
        name: "acsa_switch_protocol".to_string(),
        description: "Switch protocol".to_string(),
        input_schema: serde_json::from_str("{\"type\":\"object\"}").unwrap(),
    });
    server.register_resource(McpResource {
        uri: "acsa://protocols".to_string(),
        name: "ACSA Protocols".to_string(),
        description: "List of protocols".to_string(),
        mime_type: "application/json".to_string(),
    });
    server.register_prompt(McpPrompt {
        name: "acsa_code_review".to_string(),
        description: "Generate code review".to_string(),
        arguments: vec![McpPromptArgument {
            name: "code".to_string(),
            description: "Code to review".to_string(),
            required: true,
        }],
    });
    server
}

#[test]
fn initialize_announces_version_and_server() {
    let server = server();
    let request = McpRequest::Initialize {
        protocol_version: MCP_VERSION.to_string(),
        capabilities: serde_json::Value::Null,
        client_info: ClientInfo { name: "TestClient".to_string(), version: "1.0".to_string() },
    };
    match server.handle_request(request) {
        Ok(McpOutcome::Respond(McpResponse::Initialize { protocol_version, capabilities, server_info })) => {
            assert_eq!(protocol_version, "2025-11-25");
            assert_eq!(server_info.name, "ACSA");
            assert_eq!(server_info.version, "0.1.0");
            assert_eq!(capabilities.resources.unwrap().subscribe, Some(false));
        }
        _ => panic!("Expected Initialize response"),
    }
}

#[test]
fn tools_list_and_call() {
    let server = server();
    match server.handle_request(McpRequest::ToolsList) {
        Ok(McpOutcome::Respond(McpResponse::ToolsList { tools })) => {
            assert!(!tools.is_empty());
            assert!(tools.iter().any(|t| t.name == "acsa_switch_protocol"));
        }
        _ => panic!("Expected ToolsList response"),
    }
    let call = McpRequest::ToolsCall { name: "acsa_switch_protocol".to_string(), arguments: None };
    match server.handle_request(call) {
        Ok(McpOutcome::RunTool { name, arguments }) => {
            assert_eq!(name, "acsa_switch_protocol");
            assert!(arguments.is_none());
        }
        _ => panic!("Expected a tool to run"),
    }
    let missing = McpRequest::ToolsCall { name: "nope".to_string(), arguments: None };
    assert_eq!(server.handle_request(missing).err().unwrap(), "Tool not found: nope");
}

#[test]
fn resources_and_prompts() {
    let server = server();
    match server.handle_request(McpRequest::ResourcesRead { uri: "acsa://protocols".to_string() }) {
        Ok(McpOutcome::Respond(McpResponse::ResourcesRead { contents })) => {
            assert_eq!(contents.len(), 1);
            assert_eq!(contents[0].mime_type, "application/json");
            assert_eq!(contents[0].text.as_deref(), Some("Content of acsa://protocols"));
            assert!(contents[0].blob.is_none());
        }
        _ => panic!("Expected ResourcesRead response"),
    }
    let missing = McpRequest::ResourcesRead { uri: "acsa://none".to_string() };
    assert_eq!(server.handle_request(missing).err().unwrap(), "Resource not found: acsa://none");
    match server.handle_request(McpRequest::PromptsGet { name: "acsa_code_review".to_string(), arguments: None }) {
        Ok(McpOutcome::Respond(McpResponse::PromptsGet { description, messages })) => {
            assert_eq!(description, "Generate code review");
            assert_eq!(messages[0].role, "user");
            assert_eq!(messages[0].content.text, "Prompt: acsa_code_review with args: None");
        }
        _ => panic!("Expected PromptsGet response"),
    }
    let missing = McpRequest::PromptsGet { name: "x".to_string(), arguments: None };
    assert_eq!(server.handle_request(missing).err().unwrap(), "Prompt not found: x");
}

#[test]
fn registering_again_replaces() {
    let mut server = server();
    server.register_resource(McpResource {
        uri: "acsa://protocols".to_string(),
        name: "n".to_string(),
        description: "d".to_string(),
        mime_type: "text/plain".to_string(),
    });
    match server.handle_request(McpRequest::ResourcesList) {
        Ok(McpOutcome::Respond(McpResponse::ResourcesList { resources })) => {
            assert_eq!(resources.len(), 1);
            assert_eq!(resources[0].mime_type, "text/plain");
        }
        _ => panic!("Expected ResourcesList response"),
    }
}

#[test]
fn tool_results_become_replies() {
    match tool_call_result(Err("boom".to_string())) {
        McpResponse::ToolsCallResult { content, is_error } => {
            assert_eq!(is_error, Some(true));
            assert_eq!(content[0].text, "Error: boom");
            assert_eq!(content[0].content_type, "text");
        }
        _ => panic!("Expected a tool result"),
    }
    let ok = vec![ToolContent { content_type: "text".to_string(), text: "hi".to_string() }];
    match tool_call_result(Ok(ok)) {
        McpResponse::ToolsCallResult { content, is_error } => {
            assert_eq!(is_error, Some(false));
            assert_eq!(content[0].text, "hi");
        }
        _ => panic!("Expected a tool result"),
    }
}

#[test]
fn built_in_tools_reply() {
    let args = vec![("mode".to_string(), "x".to_string()), ("protocol".to_string(), "AEGIS".to_string())];
    let r = AcsaProtocolSwitchHandler.handle(Some(args)).unwrap();
    assert_eq!(r[0].text, "✅ Switched to protocol: AEGIS");
    assert_eq!(AcsaProtocolSwitchHandler.handle(None).err().unwrap(), "Missing protocol argument");
    assert_eq!(
        AcsaProtocolSwitchHandler.handle(Some(vec![("other".to_string(), "AEGIS".to_string())])).err().unwrap(),
        "Missing protocol argument"
    );
    let args = vec![("action".to_string(), "add".to_string())];
    assert_eq!(AcsaTaskTrackerHandler.handle(Some(args)).unwrap()[0].text, "✅ Task added to tracker");
    assert_eq!(AcsaTaskTrackerHandler.handle(Some(vec![])).err().unwrap(), "Missing action argument");
    assert_eq!(AcsaTaskTrackerHandler.reply(Some("zap".to_string())).unwrap()[0].text, "❌ Unknown action");
    assert_eq!(AcsaTaskTrackerHandler.handle(None).err().unwrap(), "Missing action argument");
    assert!(AcsaBehaviorAnalysisHandler.handle(None).unwrap()[0].text.starts_with("📊 Behavior Analysis"));
}

#[test]
fn prompt_arguments_print_as_a_map() {
    let server = server();
    let args = Some(vec![("code".to_string(), "fn \"x\"".to_string())]);
    match server.handle_request(McpRequest::PromptsGet { name: "acsa_code_review".to_string(), arguments: args }) {
        Ok(McpOutcome::Respond(McpResponse::PromptsGet { messages, .. })) => {
            let mut expected = std::collections::HashMap::new();
            expected.insert("code".to_string(), "fn \"x\"".to_string());
            assert_eq!(
                messages[0].content.text,
                format!("Prompt: acsa_code_review with args: {:?}", Some(expected))
            );
            assert_eq!(messages[0].content.text, "Prompt: acsa_code_review with args: Some({\"code\": \"fn \\\"x\\\"\"})");
        }
        _ => panic!("Expected PromptsGet response"),
    }
    let two = Some(vec![("a".to_string(), "1".to_string()), ("b".to_string(), "2".to_string())]);
    match server.handle_request(McpRequest::PromptsGet { name: "acsa_code_review".to_string(), arguments: two }) {
        Ok(McpOutcome::Respond(McpResponse::PromptsGet { messages, .. })) => {
            assert_eq!(messages[0].content.text, "Prompt: acsa_code_review with args: Some({\"a\": \"1\", \"b\": \"2\"})");
        }
        _ => panic!("Expected PromptsGet response"),
    }
}

#[test]
fn default_server_offers_the_built_in_registry() {
    let empty = || serde_json::from_str("{}").unwrap();
    let server = create_acsa_mcp_server(empty(), empty(), empty());
    match server.handle_request(McpRequest::ToolsList) {
        Ok(McpOutcome::Respond(McpResponse::ToolsList { tools })) => {
            let names: Vec<&str> = tools.iter().map(|t| t.name.as_str()).collect();
            assert_eq!(names, vec!["acsa_switch_protocol", "acsa_task_tracker", "acsa_behavior_analysis"]);
            assert_eq!(tools[1].description, "Manage ACSA task tracker (list/add/complete tasks)");
        }
        _ => panic!("Expected ToolsList response"),
    }
    match server.handle_request(McpRequest::ResourcesList) {
        Ok(McpOutcome::Respond(McpResponse::ResourcesList { resources })) => {
            assert_eq!(resources.len(), 2);
            assert_eq!(resources[1].uri, "acsa://behavior-patterns");
            assert_eq!(resources[0].mime_type, "application/json");
        }
        _ => panic!("Expected ResourcesList response"),
    }
    match server.handle_request(McpRequest::PromptsList) {
        Ok(McpOutcome::Respond(McpResponse::PromptsList { prompts })) => {
            assert_eq!(prompts.len(), 1);
            assert_eq!(prompts[0].name, "acsa_code_review");
            assert_eq!(prompts[0].arguments.len(), 2);
            assert!(prompts[0].arguments[0].required);
            assert!(!prompts[0].arguments[1].required);
        }
        _ => panic!("Expected PromptsList response"),
    }
}

#[test]
fn default_tools_carry_their_own_schemas() {
    let a: serde_json::Value = serde_json::from_str("{\"type\":\"object\",\"required\":[\"protocol\"]}").unwrap();
    let b: serde_json::Value = serde_json::from_str("{\"type\":\"object\",\"required\":[\"action\"]}").unwrap();
    let c: serde_json::Value = serde_json::from_str("{\"type\":\"object\",\"properties\":{}}").unwrap();
    let server = create_acsa_mcp_server(a.clone(), b.clone(), c.clone());
    match server.handle_request(McpRequest::ToolsList) {
        Ok(McpOutcome::Respond(McpResponse::ToolsList { tools })) => {
            assert_eq!(tools[0].input_schema, a);
            assert_eq!(tools[1].input_schema, b);
            assert_eq!(tools[2].input_schema, c);
        }
        _ => panic!("Expected ToolsList response"),
    }
}
