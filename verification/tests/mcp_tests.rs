use montrs::mcp::{
    handle_request, handle_tool_call, initialize_result, list_tools, method_not_found, parse_error_response,
    success_response, tool_output, AgentSubcommand, ArgValue, CallToolParams, JsonRpcRequest, RequestAction,
    ToolCallAction, ToolContent, METHOD_NOT_FOUND, PARSE_ERROR,
};
use serde_json::Value;

fn req(method: &str) -> JsonRpcRequest {
    JsonRpcRequest {
        jsonrpc: "2.0".to_string(),
        id: Value::from(7),
        method: method.to_string(),
        params: Value::Null,
    }
}

fn call(name: &str, args: Vec<(&str, ArgValue)>) -> CallToolParams {
    CallToolParams {
        name: name.to_string(),
        arguments: args.into_iter().map(|(k, v)| (k.to_string(), v)).collect(),
    }
}

#[test]
fn requests_are_routed_by_method() {
    match handle_request(req("initialize"), "1.2.3") {
        RequestAction::Initialize(r) => {
            assert_eq!(r.protocol_version, "2024-11-05");
            assert_eq!(r.server_info.name, "montrs-mcp");
            assert_eq!(r.server_info.version, "1.2.3");
            assert_eq!(r.capabilities.tools.unwrap().list_changed, Some(false));
        }
        _ => panic!("initialize"),
    }
    assert!(matches!(handle_request(req("notifications/initialized"), "v"), RequestAction::Acknowledge));
    assert!(matches!(handle_request(req("tools/call"), "v"), RequestAction::CallTool));
    match handle_request(req("tools/list"), "v") {
        RequestAction::ListTools(ts) => assert_eq!(ts.len(), 6),
        _ => panic!("list"),
    }
    match handle_request(req("resources/list"), "v") {
        RequestAction::Respond(r) => {
            assert_eq!(r.id, Value::from(7));
            assert!(r.result.is_none());
            let e = r.error.unwrap();
            assert_eq!(e.code, -32601);
            assert_eq!(e.message, "Method not found: resources/list");
        }
        _ => panic!("unknown method"),
    }
}

#[test]
fn responses_carry_codes() {
    let p = parse_error_response(Value::Null, "bad json");
    assert_eq!(p.jsonrpc, "2.0");
    assert_eq!(p.id, Value::Null);
    let e = p.error.unwrap();
    assert_eq!(e.code, PARSE_ERROR);
    assert_eq!(e.message, "Parse error: bad json");
    let m = method_not_found(Value::from("x"), "foo");
    assert_eq!(m.error.unwrap().code, METHOD_NOT_FOUND);
    let s = success_response(Value::from(1), Some(Value::from(true)));
    assert_eq!(s.result, Some(Value::from(true)));
    assert!(s.error.is_none());
    let i = initialize_result("0.1.0");
    assert_eq!(i.server_info.version, "0.1.0");
}

#[test]
fn tool_list_has_the_six_agent_tools() {
    let names: Vec<String> = list_tools().into_iter().map(|t| t.name).collect();
    assert_eq!(
        names,
        vec![
            "agent_check",
            "agent_doctor",
            "agent_diff",
            "get_project_snapshot",
            "list_router_structure",
            "agent_list_errors"
        ]
    );
    let tools = list_tools();
    assert_eq!(tools[2].input_schema.required, vec!["path".to_string()]);
    assert!(tools[4].input_schema.properties.is_empty());
    assert_eq!(tools[5].input_schema.properties[0].name, "status");
}

#[test]
fn tool_calls_pick_their_command() {
    match handle_tool_call(&call("agent_check", vec![])) {
        ToolCallAction::RunAgent(AgentSubcommand::Check { path }) => assert_eq!(path, "."),
        _ => panic!(),
    }
    match handle_tool_call(&call("agent_check", vec![("path", ArgValue::Str("src".to_string()))])) {
        ToolCallAction::RunAgent(AgentSubcommand::Check { path }) => assert_eq!(path, "src"),
        _ => panic!(),
    }
    match handle_tool_call(&call("agent_doctor", vec![("package", ArgValue::Bool(true))])) {
        ToolCallAction::RunAgent(AgentSubcommand::Doctor { package }) => assert_eq!(package, None),
        _ => panic!(),
    }
    match handle_tool_call(&call("agent_diff", vec![])) {
        ToolCallAction::Fail(m) => assert_eq!(m, "Missing path argument"),
        _ => panic!(),
    }
    match handle_tool_call(&call("agent_diff", vec![("path", ArgValue::Str("e.json".to_string()))])) {
        ToolCallAction::RunAgent(AgentSubcommand::Diff { path }) => assert_eq!(path, "e.json"),
        _ => panic!(),
    }
    match handle_tool_call(&call("get_project_snapshot", vec![("include_docs", ArgValue::Bool(true))])) {
        ToolCallAction::Snapshot { include_docs } => assert!(include_docs),
        _ => panic!(),
    }
    match handle_tool_call(&call("list_router_structure", vec![("include_docs", ArgValue::Bool(true))])) {
        ToolCallAction::Snapshot { include_docs } => assert!(!include_docs),
        _ => panic!(),
    }
    match handle_tool_call(&call(
        "agent_list_errors",
        vec![("status", ArgValue::Str("Fixed".to_string())), ("status", ArgValue::Str("later".to_string()))],
    )) {
        ToolCallAction::RunAgent(AgentSubcommand::ListErrors { status }) => assert_eq!(status, Some("Fixed".to_string())),
        _ => panic!(),
    }
    match handle_tool_call(&call("nope", vec![])) {
        ToolCallAction::Answer(r) => {
            assert!(r.is_error);
            match &r.content[0] {
                ToolContent::Text { text } => assert_eq!(text, "Unknown tool: nope"),
            }
        }
        _ => panic!(),
    }
    let out = tool_output("done".to_string());
    assert!(!out.is_error);
}
