//! The decisions of the Model Context Protocol server: which method a
//! request calls, the tools it lists, what a tool call runs, and the
//! responses it answers with.
use vstd::prelude::*;
use crate::text::{push_str, str_eq};
use crate::tools::{kind_view, params_view, texts_view, KindView, ParamKind, ToolParam};

verus! {

/// A JSON value, carried through unread.
#[verifier::external_type_specification]
#[verifier::external_body]
pub struct ExJsonValue(serde_json::Value);

/// A JSON-RPC request.
#[derive(Debug)]
pub struct JsonRpcRequest {
    pub jsonrpc: String,
    pub id: serde_json::Value,
    pub method: String,
    pub params: serde_json::Value,
}

/// A JSON-RPC error object.
#[derive(Debug)]
pub struct JsonRpcError {
    pub code: i64,
    pub message: String,
    pub data: Option<serde_json::Value>,
}

/// A JSON-RPC response.
#[derive(Debug)]
pub struct JsonRpcResponse {
    pub jsonrpc: String,
    pub id: serde_json::Value,
    pub result: Option<serde_json::Value>,
    pub error: Option<JsonRpcError>,
}

/// The error code for a request that is not valid JSON.
pub const PARSE_ERROR: i64 = -32700;

/// The error code for a method the server does not know.
pub const METHOD_NOT_FOUND: i64 = -32601;

/// The answer to request `id` carrying `result`.
pub fn success_response(id: serde_json::Value, result: Option<serde_json::Value>) -> (r: JsonRpcResponse)
    ensures
        r.jsonrpc@ == "2.0"@,
        r.id == id,
        r.result == result,
        r.error is None,
{
    JsonRpcResponse { jsonrpc: "2.0".to_owned(), id, result, error: None }
}

/// The answer to request `id` whose method `method` is unknown.
pub fn method_not_found(id: serde_json::Value, method: &str) -> (r: JsonRpcResponse)
    ensures
        r.jsonrpc@ == "2.0"@,
        r.id == id,
        r.result is None,
        (r.error matches Some(e) && e.code == METHOD_NOT_FOUND && e.message@ == "Method not found: "@ + method@
            && e.data is None),
{
    let mut message = "Method not found: ".to_owned();
    push_str(&mut message, method);
    JsonRpcResponse {
        jsonrpc: "2.0".to_owned(),
        id,
        result: None,
        error: Some(JsonRpcError { code: METHOD_NOT_FOUND, message, data: None }),
    }
}

/// The answer to a line that is no valid request, under the id `id` (the
/// JSON `null`), with the parser's complaint `detail`.
pub fn parse_error_response(id: serde_json::Value, detail: &str) -> (r: JsonRpcResponse)
    ensures
        r.jsonrpc@ == "2.0"@,
        r.id == id,
        r.result is None,
        (r.error matches Some(e) && e.code == PARSE_ERROR && e.message@ == "Parse error: "@ + detail@
            && e.data is None),
{
    let mut message = "Parse error: ".to_owned();
    push_str(&mut message, detail);
    JsonRpcResponse {
        jsonrpc: "2.0".to_owned(),
        id,
        result: None,
        error: Some(JsonRpcError { code: PARSE_ERROR, message, data: None }),
    }
}

/// What the server tells about its tool support.
#[derive(Debug, Clone, Copy, PartialEq, Eq, Structural)]
pub struct ToolCapabilities {
    pub list_changed: Option<bool>,
}

/// The capabilities of the server.
#[derive(Debug, Clone, Copy, PartialEq, Eq, Structural)]
pub struct ServerCapabilities {
    pub tools: Option<ToolCapabilities>,
}

/// The name and version of the server.
#[derive(Debug, Clone)]
pub struct ServerInfo {
    pub name: String,
    pub version: String,
}

/// The answer to `initialize`.
#[derive(Debug, Clone)]
pub struct InitializeResult {
    pub protocol_version: String,
    pub capabilities: ServerCapabilities,
    pub server_info: ServerInfo,
}

/// The protocol revision the server speaks.
pub const PROTOCOL_VERSION: &'static str = "2024-11-05";

/// The answer to `initialize` for a server at version `version`: protocol
/// 2024-11-05, tools whose list does not change, named `montrs-mcp`.
pub fn initialize_result(version: &str) -> (r: InitializeResult)
    ensures
        r.protocol_version@ == PROTOCOL_VERSION@,
        r.capabilities == (ServerCapabilities { tools: Some(ToolCapabilities { list_changed: Some(false) }) }),
        r.server_info.name@ == "montrs-mcp"@,
        r.server_info.version@ == version@,
{
    InitializeResult {
        protocol_version: PROTOCOL_VERSION.to_owned(),
        capabilities: ServerCapabilities { tools: Some(ToolCapabilities { list_changed: Some(false) }) },
        server_info: ServerInfo { name: "montrs-mcp".to_owned(), version: version.to_owned() },
    }
}

/// The input of a tool: an object with these properties.
#[derive(Debug, Clone)]
pub struct ToolInputSchema {
    pub properties: Vec<ToolParam>,
    pub required: Vec<String>,
}

/// A tool the server offers.
#[derive(Debug, Clone)]
pub struct McpTool {
    pub name: String,
    pub description: String,
    pub input_schema: ToolInputSchema,
}

/// Names and descriptions of the tools the server lists.
pub open spec fn mcp_tools_view() -> Seq<(Seq<char>, Seq<char>)> {
    seq![
        ("agent_check"@, "Validate structural correctness and project invariants."@),
        ("agent_doctor"@, "Assess project health and agent-readability."@),
        ("agent_diff"@, "Analyze error file and generate fix suggestions."@),
        ("get_project_snapshot"@, "Get a comprehensive snapshot of the project structure and metadata."@),
        ("list_router_structure"@, "List all routes and their associated plates/actions/loaders."@),
        ("agent_list_errors"@, "List all active and resolved errors tracked by the agent."@),
    ]
}

fn text_param(name: &str, kind: ParamKind, description: &str) -> (p: ToolParam)
    ensures
        p.name@ == name@,
        p.kind == kind,
        p.description matches Some(d) && d@ == description@,
        crate::tools::param_view(p) == (name@, kind_view(kind), Some(description@)),
{
    ToolParam { name: name.to_owned(), kind, description: Some(description.to_owned()) }
}

fn mcp_tool(name: &str, description: &str, properties: Vec<ToolParam>, required: Vec<String>) -> (t: McpTool)
    ensures
        t.name@ == name@,
        t.description@ == description@,
        t.input_schema.properties == properties,
        t.input_schema.required == required,
{
    McpTool {
        name: name.to_owned(),
        description: description.to_owned(),
        input_schema: ToolInputSchema { properties, required },
    }
}

/// The inputs of the listed tools, in the order of `mcp_tools_view`: the
/// parameters and the names of those required.
pub open spec fn mcp_tool_inputs() -> Seq<(Seq<(Seq<char>, KindView, Option<Seq<char>>)>, Seq<Seq<char>>)> {
    seq![
        (seq![("path"@, KindView::Text, Some("Path to check"@))], seq![]),
        (seq![("package"@, KindView::Text, Some("Optional package to focus on"@))], seq![]),
        (seq![("path"@, KindView::Text, Some("Path to error file"@))], seq!["path"@]),
        (
            seq![("include_docs"@, KindView::Boolean, Some("Whether to include documentation in the snapshot"@))],
            seq![],
        ),
        (seq![], seq![]),
        (seq![("status"@, KindView::Choice(seq!["Pending"@, "Fixed"@]), Some("Filter by status"@))], seq![]),
    ]
}

/// The inputs of a listed tool.
pub open spec fn mcp_inputs_view(t: McpTool) -> (Seq<(Seq<char>, KindView, Option<Seq<char>>)>, Seq<Seq<char>>) {
    (params_view(t.input_schema.properties@), texts_view(t.input_schema.required@))
}

/// The tools the server lists, in order, with their inputs.
pub fn list_tools() -> (tools: Vec<McpTool>)
    ensures
        tools@.map_values(|t: McpTool| (t.name@, t.description@)) == mcp_tools_view(),
        tools@.map_values(|t: McpTool| mcp_inputs_view(t)) == mcp_tool_inputs(),
{
    let mut statuses: Vec<String> = Vec::new();
    statuses.push("Pending".to_owned());
    statuses.push("Fixed".to_owned());
    assert(texts_view(statuses@) =~= seq!["Pending"@, "Fixed"@]);
    let tools = vec![
        mcp_tool(
            "agent_check",
            "Validate structural correctness and project invariants.",
            vec![text_param("path", ParamKind::Text, "Path to check")],
            Vec::new(),
        ),
        mcp_tool(
            "agent_doctor",
            "Assess project health and agent-readability.",
            vec![text_param("package", ParamKind::Text, "Optional package to focus on")],
            Vec::new(),
        ),
        mcp_tool(
            "agent_diff",
            "Analyze error file and generate fix suggestions.",
            vec![text_param("path", ParamKind::Text, "Path to error file")],
            vec!["path".to_owned()],
        ),
        mcp_tool(
            "get_project_snapshot",
            "Get a comprehensive snapshot of the project structure and metadata.",
            vec![text_param("include_docs", ParamKind::Boolean, "Whether to include documentation in the snapshot")],
            Vec::new(),
        ),
        mcp_tool(
            "list_router_structure",
            "List all routes and their associated plates/actions/loaders.",
            Vec::new(),
            Vec::new(),
        ),
        mcp_tool(
            "agent_list_errors",
            "List all active and resolved errors tracked by the agent.",
            vec![text_param("status", ParamKind::Choice(statuses), "Filter by status")],
            Vec::new(),
        ),
    ];
    assert(tools@.map_values(|t: McpTool| (t.name@, t.description@)) =~= mcp_tools_view());
    assert(mcp_inputs_view(tools@[0]) =~~= mcp_tool_inputs()[0]);
    assert(mcp_inputs_view(tools@[1]) =~~= mcp_tool_inputs()[1]);
    assert(mcp_inputs_view(tools@[2]) =~~= mcp_tool_inputs()[2]);
    assert(mcp_inputs_view(tools@[3]) =~~= mcp_tool_inputs()[3]);
    assert(mcp_inputs_view(tools@[4]) =~~= mcp_tool_inputs()[4]);
    assert(mcp_inputs_view(tools@[5]) =~~= mcp_tool_inputs()[5]);
    assert(tools@.map_values(|t: McpTool| mcp_inputs_view(t)) =~= mcp_tool_inputs());
    tools
}

/// What a request asks the server to do.
#[derive(Debug)]
pub enum RequestAction {
    /// Answer with the initialization result.
    Initialize(InitializeResult),
    /// A notification that needs an empty answer.
    Acknowledge,
    /// Answer with the tool list.
    ListTools(Vec<McpTool>),
    /// Read the call parameters from the request and run the tool call.
    CallTool,
    /// Answer with this response as it stands.
    Respond(JsonRpcResponse),
}

/// Whether `a` is what the request `req` asks of a server at version
/// `version`: the four known methods are served, any other is answered
/// "method not found".
pub open spec fn request_action(req: JsonRpcRequest, version: Seq<char>, a: RequestAction) -> bool {
    let m = req.method@;
    if m == "initialize"@ {
        match a {
            RequestAction::Initialize(r) => r.protocol_version@ == PROTOCOL_VERSION@
                && r.server_info.version@ == version && r.server_info.name@ == "montrs-mcp"@
                && r.capabilities == (ServerCapabilities {
                    tools: Some(ToolCapabilities { list_changed: Some(false) }),
                }),
            _ => false,
        }
    } else if m == "notifications/initialized"@ {
        a is Acknowledge
    } else if m == "tools/list"@ {
        match a {
            RequestAction::ListTools(ts) => ts@.map_values(|t: McpTool| (t.name@, t.description@)) == mcp_tools_view()
                && ts@.map_values(|t: McpTool| mcp_inputs_view(t)) == mcp_tool_inputs(),
            _ => false,
        }
    } else if m == "tools/call"@ {
        a is CallTool
    } else {
        match a {
            RequestAction::Respond(r) => r.jsonrpc@ == "2.0"@ && r.id == req.id && r.result is None
                && match r.error {
                    Some(e) => e.code == METHOD_NOT_FOUND && e.message@ == "Method not found: "@ + m
                        && e.data is None,
                    None => false,
                },
            _ => false,
        }
    }
}

/// What the request `req` asks of a server at version `version`.
pub fn handle_request(req: JsonRpcRequest, version: &str) -> (a: RequestAction)
    ensures
        request_action(req, version@, a),
{
    let JsonRpcRequest { jsonrpc, id, method, params } = req;
    let m = method.as_str();
    if str_eq(m, "initialize") {
        RequestAction::Initialize(initialize_result(version))
    } else if str_eq(m, "notifications/initialized") {
        RequestAction::Acknowledge
    } else if str_eq(m, "tools/list") {
        RequestAction::ListTools(list_tools())
    } else if str_eq(m, "tools/call") {
        RequestAction::CallTool
    } else {
        RequestAction::Respond(method_not_found(id, m))
    }
}

/// An argument value of a tool call, as far as the server reads it.
#[derive(Debug, Clone)]
pub enum ArgValue {
    Str(String),
    Bool(bool),
    /// Any other JSON value.
    Other,
}

/// The parameters of a tool call.
#[derive(Debug, Clone)]
pub struct CallToolParams {
    pub name: String,
    pub arguments: Vec<(String, ArgValue)>,
}

/// One piece of a tool's answer.
#[derive(Debug, Clone)]
pub enum ToolContent {
    Text { text: String },
}

/// The answer of a tool.
#[derive(Debug, Clone)]
pub struct CallToolResult {
    pub content: Vec<ToolContent>,
    pub is_error: bool,
}

/// The agent commands the tools run.
#[derive(Debug, Clone)]
pub enum AgentSubcommand {
    Check { path: String },
    Doctor { package: Option<String> },
    Diff { path: String },
    ListErrors { status: Option<String> },
}

/// The value of the first argument called `key`.
pub open spec fn arg_value(args: Seq<(String, ArgValue)>, key: Seq<char>) -> Option<ArgValue>
    decreases args.len(),
{
    if args.len() == 0 {
        None
    } else if args[0].0@ == key {
        Some(args[0].1)
    } else {
        arg_value(args.drop_first(), key)
    }
}

/// The argument `key` as text, if it is a string.
pub open spec fn arg_str(args: Seq<(String, ArgValue)>, key: Seq<char>) -> Option<Seq<char>> {
    match arg_value(args, key) {
        Some(ArgValue::Str(s)) => Some(s@),
        _ => None,
    }
}

/// The argument `key` as a flag, if it is a boolean.
pub open spec fn arg_bool(args: Seq<(String, ArgValue)>, key: Seq<char>) -> Option<bool> {
    match arg_value(args, key) {
        Some(ArgValue::Bool(b)) => Some(b),
        _ => None,
    }
}

fn find_arg(args: &Vec<(String, ArgValue)>, key: &str) -> (r: Option<usize>)
    ensures
        match r {
            Some(i) => i < args@.len() && arg_value(args@, key@) == Some(args@[i as int].1),
            None => arg_value(args@, key@) is None,
        },
{
    let mut i: usize = 0;
    assert(args@.subrange(0, args@.len() as int) =~= args@);
    while i < args.len()
        invariant
            i <= args@.len(),
            arg_value(args@, key@) == arg_value(args@.subrange(i as int, args@.len() as int), key@),
        decreases args.len() - i,
    {
        let ghost rest = args@.subrange(i as int, args@.len() as int);
        assert(rest[0] == args@[i as int]);
        assert(rest.drop_first() =~= args@.subrange(i + 1, args@.len() as int));
        if str_eq(args[i].0.as_str(), key) {
            return Some(i);
        }
        i = i + 1;
    }
    None
}

/// The argument `key` as text.
pub fn get_str_arg(args: &Vec<(String, ArgValue)>, key: &str) -> (r: Option<String>)
    ensures
        match r {
            Some(s) => arg_str(args@, key@) == Some(s@),
            None => arg_str(args@, key@) is None,
        },
{
    assert(args@.subrange(0, args@.len() as int) =~= args@);
    match find_arg(args, key) {
        Some(i) => match &args[i].1 {
            ArgValue::Str(s) => Some(s.clone()),
            _ => None,
        },
        None => None,
    }
}

/// The argument `key` as a flag.
pub fn get_bool_arg(args: &Vec<(String, ArgValue)>, key: &str) -> (r: Option<bool>)
    ensures
        r == arg_bool(args@, key@),
{
    assert(args@.subrange(0, args@.len() as int) =~= args@);
    match find_arg(args, key) {
        Some(i) => match &args[i].1 {
            ArgValue::Bool(b) => Some(*b),
            _ => None,
        },
        None => None,
    }
}

/// What a tool call runs.
#[derive(Debug, Clone)]
pub enum ToolCallAction {
    /// Run an agent command; its output is the answer.
    RunAgent(AgentSubcommand),
    /// Take a JSON snapshot of the project; it is the answer.
    Snapshot { include_docs: bool },
    /// The call fails with this message.
    Fail(String),
    /// Answer with this result as it stands.
    Answer(CallToolResult),
}

/// The answer of a tool that produced `text`.
pub fn tool_output(text: String) -> (r: CallToolResult)
    ensures
        r.content@.len() == 1,
        (r.content@[0] matches ToolContent::Text { text: t } && t == text),
        !r.is_error,
{
    CallToolResult { content: vec![ToolContent::Text { text }], is_error: false }
}

/// Whether `a` is what the call `params` runs: the agent tools run the
/// agent command with their arguments (`agent_check` on "." by default),
/// the snapshot tools take a snapshot, `agent_diff` fails without a path,
/// and an unknown tool is answered as an error.
pub open spec fn tool_call_action(params: CallToolParams, a: ToolCallAction) -> bool {
    let args = params.arguments@;
    let n = params.name@;
    if n == "agent_check"@ {
        match a {
            ToolCallAction::RunAgent(AgentSubcommand::Check { path }) =>
                path@ == (match arg_str(args, "path"@) { Some(p) => p, None => "."@ }),
            _ => false,
        }
    } else if n == "agent_doctor"@ {
        match a {
            ToolCallAction::RunAgent(AgentSubcommand::Doctor { package }) => match package {
                Some(p) => arg_str(args, "package"@) == Some(p@),
                None => arg_str(args, "package"@) is None,
            },
            _ => false,
        }
    } else if n == "agent_diff"@ {
        match (arg_str(args, "path"@), a) {
            (Some(p), ToolCallAction::RunAgent(AgentSubcommand::Diff { path })) => path@ == p,
            (None, ToolCallAction::Fail(m)) => m@ == "Missing path argument"@,
            _ => false,
        }
    } else if n == "get_project_snapshot"@ {
        match a {
            ToolCallAction::Snapshot { include_docs } =>
                include_docs == (match arg_bool(args, "include_docs"@) { Some(b) => b, None => false }),
            _ => false,
        }
    } else if n == "list_router_structure"@ {
        match a {
            ToolCallAction::Snapshot { include_docs } => !include_docs,
            _ => false,
        }
    } else if n == "agent_list_errors"@ {
        match a {
            ToolCallAction::RunAgent(AgentSubcommand::ListErrors { status }) => match status {
                Some(s) => arg_str(args, "status"@) == Some(s@),
                None => arg_str(args, "status"@) is None,
            },
            _ => false,
        }
    } else {
        match a {
            ToolCallAction::Answer(r) => r.is_error && r.content@.len() == 1 && match r.content@[0] {
                ToolContent::Text { text } => text@ == "Unknown tool: "@ + n,
            },
            _ => false,
        }
    }
}

/// What the call `params` runs.
pub fn handle_tool_call(params: &CallToolParams) -> (a: ToolCallAction)
    ensures
        tool_call_action(*params, a),
{
    let name = params.name.as_str();
    let args = &params.arguments;
    if str_eq(name, "agent_check") {
        let path = match get_str_arg(args, "path") {
            Some(p) => p,
            None => ".".to_owned(),
        };
        ToolCallAction::RunAgent(AgentSubcommand::Check { path })
    } else if str_eq(name, "agent_doctor") {
        ToolCallAction::RunAgent(AgentSubcommand::Doctor { package: get_str_arg(args, "package") })
    } else if str_eq(name, "agent_diff") {
        match get_str_arg(args, "path") {
            Some(path) => ToolCallAction::RunAgent(AgentSubcommand::Diff { path }),
            None => ToolCallAction::Fail("Missing path argument".to_owned()),
        }
    } else if str_eq(name, "get_project_snapshot") {
        let include_docs = match get_bool_arg(args, "include_docs") {
            Some(b) => b,
            None => false,
        };
        ToolCallAction::Snapshot { include_docs }
    } else if str_eq(name, "list_router_structure") {
        ToolCallAction::Snapshot { include_docs: false }
    } else if str_eq(name, "agent_list_errors") {
        ToolCallAction::RunAgent(AgentSubcommand::ListErrors { status: get_str_arg(args, "status") })
    } else {
        let mut text = "Unknown tool: ".to_owned();
        push_str(&mut text, name);
        ToolCallAction::Answer(CallToolResult { content: vec![ToolContent::Text { text }], is_error: true })
    }
}

} // verus!
