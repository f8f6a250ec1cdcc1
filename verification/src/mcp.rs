//! The MCP server: which request of an MCP client comes to what, and how it is
//! answered.

use vstd::prelude::*;

use crate::client::api::ClientError;
use crate::json::{
    items_view, json_text, last_member, lemma_member_at, members_view, with_member, write_json,
    Json, JsonNumber, JsonView, NumberView,
};
use crate::protocol::model::{
    descriptors_view, DescriptorView, ExecutionRequest, ExecutionResult, RequestView,
    ToolDescriptor,
};
use crate::text::{decimal, decimal_text, same_text};
use crate::tools::file_read::{read_result, rendering};

verus! {

/// The version of MCP that is spoken.
pub const MCP_PROTOCOL_VERSION: &'static str = "2025-06-18";

/// The version of this server.
pub const SERVER_VERSION: &'static str = "0.1.0";

/// A message of an MCP client. A message without an id is a notification.
#[derive(Debug, PartialEq, Eq)]
pub struct RpcMessage {
    pub id: Option<Json>,
    pub method: String,
    pub params: Json,
}

/// An answer to an MCP client: a result or an error.
#[derive(Debug, PartialEq, Eq)]
pub struct RpcResponse {
    pub id: Json,
    pub result: Option<Json>,
    pub error: Option<Json>,
}

/// What an [`RpcResponse`] says.
pub struct ResponseView {
    pub id: JsonView,
    pub result: Option<JsonView>,
    pub error: Option<JsonView>,
}

/// The value behind an optional value.
pub open spec fn optional_view(json: Option<Json>) -> Option<JsonView> {
    match json {
        Some(json) => Some(json@),
        None => None,
    }
}

impl View for RpcResponse {
    type V = ResponseView;

    open spec fn view(&self) -> ResponseView {
        ResponseView {
            id: self.id@,
            result: optional_view(self.result),
            error: optional_view(self.error),
        }
    }
}

/// An answer with a result.
pub open spec fn ok_view(id: JsonView, result: JsonView) -> ResponseView {
    ResponseView { id, result: Some(result), error: None }
}

/// The object of an error.
pub open spec fn error_object(code: i64, message: Seq<char>) -> JsonView {
    JsonView::Object(
        seq![
            (
                "code"@,
                if code >= 0 {
                    JsonView::Number(NumberView::Unsigned(code as u64))
                } else {
                    JsonView::Number(NumberView::Negative(code))
                },
            ),
            ("message"@, JsonView::Text(message)),
        ],
    )
}

/// An answer with an error.
pub open spec fn err_view(id: JsonView, code: i64, message: Seq<char>) -> ResponseView {
    ResponseView { id, result: None, error: Some(error_object(code, message)) }
}

/// An answer with a result.
pub fn ok(id: Json, result: Json) -> (response: RpcResponse)
    ensures
        response@ == ok_view(id@, result@),
{
    RpcResponse { id, result: Some(result), error: None }
}

/// An answer with an error.
pub fn err(id: Json, code: i64, message: &str) -> (response: RpcResponse)
    ensures
        response@ == err_view(id@, code, message@),
{
    let number = if code >= 0 {
        Json::Number(JsonNumber::Unsigned(code as u64))
    } else {
        Json::Number(JsonNumber::Negative(code))
    };
    let members = with_member(Vec::new(), "code", number);
    let members = with_member(members, "message", Json::text(message));
    assert(members_view(Seq::empty()) =~= Seq::empty());
    assert(members_view(members@) =~= error_object(code, message@)->Object_0);
    RpcResponse { id, result: None, error: Some(Json::object(members)) }
}

/// The code of every error.
pub const INTERNAL_ERROR: i64 = -32603;

/// How a tool is described to an MCP client.
pub open spec fn mcp_tool(tool: DescriptorView) -> JsonView {
    JsonView::Object(
        seq![
            ("name"@, JsonView::Text(tool.name)),
            ("description"@, JsonView::Text(tool.description)),
            ("inputSchema"@, tool.input_schema),
        ],
    )
}

/// How a tool is described to an MCP client.
pub fn to_mcp_tool(tool: &ToolDescriptor) -> (json: Json)
    ensures
        json@ == mcp_tool(tool@),
{
    let members = with_member(Vec::new(), "name", Json::text(tool.name.as_str()));
    let members = with_member(members, "description", Json::text(tool.description.as_str()));
    let members = with_member(members, "inputSchema", tool.input_schema.clone());
    assert(members_view(Seq::empty()) =~= Seq::empty());
    assert(members_view(members@) =~= mcp_tool(tool@)->Object_0);
    Json::object(members)
}

/// The result of a listing.
pub open spec fn listing(tools: Seq<DescriptorView>) -> JsonView {
    JsonView::Object(
        seq![
            ("tools"@, JsonView::Array(Seq::new(tools.len(), |i: int| mcp_tool(tools[i])))),
        ],
    )
}

fn listing_json(tools: &Vec<ToolDescriptor>) -> (json: Json)
    ensures
        json@ == listing(descriptors_view(tools@)),
{
    let mut items: Vec<Json> = Vec::new();
    let mut i: usize = 0;
    while i < tools.len()
        invariant
            i <= tools@.len(),
            items@.len() == i,
            forall|j: int| 0 <= j < i ==> #[trigger] items@[j]@ == mcp_tool(tools@[j]@),
        decreases tools.len() - i,
    {
        items.push(to_mcp_tool(&tools[i]));
        i += 1;
    }
    let ghost all = descriptors_view(tools@);
    assert(items_view(items@) =~= Seq::new(all.len(), |i: int| mcp_tool(all[i])));
    let members = with_member(Vec::new(), "tools", Json::array(items));
    assert(members_view(Seq::empty()) =~= Seq::empty());
    assert(members_view(members@) =~= listing(all)->Object_0);
    Json::object(members)
}

/// The text of a tool's output: a string as it is, what `Read` shows of a file,
/// and any other value as JSON.
pub open spec fn output_text(tool: Seq<char>, content: JsonView) -> Seq<char> {
    match (content, content.text_member("content"@)) {
        (JsonView::Text(text), _) => text,
        (_, Some(body)) if tool == "Read"@ => body,
        _ => json_text(content),
    }
}

/// The result of a call, given the text of its output.
pub open spec fn call_content(text: Seq<char>, is_error: bool) -> JsonView {
    JsonView::Object(
        seq![
            (
                "content"@,
                JsonView::Array(
                    seq![
                        JsonView::Object(
                            seq![("type"@, JsonView::Text("text"@)), ("text"@, JsonView::Text(text))],
                        ),
                    ],
                ),
            ),
            ("isError"@, JsonView::Bool(is_error)),
        ],
    )
}

/// The result of a call, given the text of its output.
pub fn call_json(text: &str, is_error: bool) -> (json: Json)
    ensures
        json@ == call_content(text@, is_error),
{
    assert(members_view(Seq::empty()) =~= Seq::empty());
    let part = with_member(Vec::new(), "type", Json::text("text"));
    let part = with_member(part, "text", Json::text(text));
    assert(members_view(part@) =~= seq![
        ("type"@, JsonView::Text("text"@)),
        ("text"@, JsonView::Text(text@)),
    ]);
    let mut parts: Vec<Json> = Vec::new();
    parts.push(Json::object(part));
    assert(items_view(parts@) =~= call_content(text@, is_error)->Object_0[0].1->Array_0);
    let members = with_member(Vec::new(), "content", Json::array(parts));
    let members = with_member(members, "isError", Json::Bool(is_error));
    assert(members_view(members@) =~= call_content(text@, is_error)->Object_0);
    Json::object(members)
}

fn text_of_output(tool: &str, content: &Json) -> (text: String)
    ensures
        text@ == output_text(tool@, content@),
{
    if let Json::Text(text) = content {
        return text.clone();
    }
    if same_text(tool, "Read") {
        if let Some(body) = content.get_str("content") {
            return body.to_owned();
        }
    }
    write_json(content)
}

/// What `initialize` is answered.
pub open spec fn capabilities() -> JsonView {
    JsonView::Object(
        seq![
            ("protocolVersion"@, JsonView::Text(MCP_PROTOCOL_VERSION@)),
            (
                "capabilities"@,
                JsonView::Object(
                    seq![
                        ("tools"@, JsonView::Object(seq![("listChanged"@, JsonView::Bool(false))])),
                    ],
                ),
            ),
            (
                "serverInfo"@,
                JsonView::Object(
                    seq![
                        ("name"@, JsonView::Text("ate-mcp"@)),
                        ("version"@, JsonView::Text(SERVER_VERSION@)),
                    ],
                ),
            ),
        ],
    )
}

fn capabilities_json() -> (json: Json)
    ensures
        json@ == capabilities(),
{
    assert(members_view(Seq::empty()) =~= Seq::empty());
    let ghost all = capabilities()->Object_0;
    let changed = with_member(Vec::new(), "listChanged", Json::Bool(false));
    assert(members_view(changed@) =~= all[1].1->Object_0[0].1->Object_0);
    let tools = with_member(Vec::new(), "tools", Json::object(changed));
    assert(members_view(tools@) =~= all[1].1->Object_0);
    let info = with_member(Vec::new(), "name", Json::text("ate-mcp"));
    let info = with_member(info, "version", Json::text(SERVER_VERSION));
    assert(members_view(info@) =~= all[2].1->Object_0);
    let members = with_member(
        Vec::new(),
        "protocolVersion",
        Json::text(MCP_PROTOCOL_VERSION),
    );
    let members = with_member(members, "capabilities", Json::object(tools));
    let members = with_member(members, "serverInfo", Json::object(info));
    assert(members_view(members@) =~= all);
    Json::object(members)
}

/// What a message comes to.
#[derive(Debug, PartialEq, Eq)]
pub enum McpStep {
    /// Nothing is answered.
    Silent,
    /// This is answered.
    Respond(RpcResponse),
    /// The tools are to be listed.
    List { id: Json },
    /// A tool is to be called.
    Call { id: Json, request: ExecutionRequest },
}

/// What an [`McpStep`] says.
pub enum StepView {
    Silent,
    Respond(ResponseView),
    List { id: JsonView },
    Call { id: JsonView, request: RequestView },
}

impl View for McpStep {
    type V = StepView;

    open spec fn view(&self) -> StepView {
        match self {
            McpStep::Silent => StepView::Silent,
            McpStep::Respond(response) => StepView::Respond(response@),
            McpStep::List { id } => StepView::List { id: id@ },
            McpStep::Call { id, request } => StepView::Call { id: id@, request: request@ },
        }
    }
}

/// Whether a method is a notification, which is not answered even with an id.
pub open spec fn notification(method: Seq<char>) -> bool {
    method == "notifications/initialized"@ || method == "notifications/cancelled"@
}

/// What a message comes to, given the number of the next call.
pub open spec fn step_of(
    next_id: u64,
    id: Option<JsonView>,
    method: Seq<char>,
    params: JsonView,
) -> StepView {
    match id {
        None => StepView::Silent,
        Some(id) => if method == "initialize"@ {
            StepView::Respond(ok_view(id, capabilities()))
        } else if notification(method) {
            StepView::Silent
        } else if method == "ping"@ {
            StepView::Respond(ok_view(id, JsonView::Object(seq![])))
        } else if method == "tools/list"@ {
            StepView::List { id }
        } else if method == "tools/call"@ {
            match params.text_member("name"@) {
                Some(name) => StepView::Call {
                    id,
                    request: RequestView {
                        id: "mcp-"@ + decimal(next_id as nat),
                        tool: name,
                        arguments: match params.member("arguments"@) {
                            Some(arguments) => arguments,
                            None => JsonView::Object(seq![]),
                        },
                    },
                },
                None => StepView::Respond(
                    err_view(id, INTERNAL_ERROR, "tools/call requires a `name`"@),
                ),
            }
        } else {
            StepView::Respond(err_view(id, INTERNAL_ERROR, "method not found: "@ + method))
        },
    }
}

/// A session of an MCP client.
pub struct McpSession {
    next_id: u64,
}

impl View for McpSession {
    type V = u64;

    closed spec fn view(&self) -> u64 {
        self.next_id
    }
}

fn empty_object() -> (json: Json)
    ensures
        json@ == JsonView::Object(seq![]),
{
    let members: Vec<(String, Json)> = Vec::new();
    assert(members_view(members@) =~= Seq::empty());
    Json::object(members)
}

impl McpSession {
    pub fn new() -> (session: Self)
        ensures
            session@ == 1,
    {
        McpSession { next_id: 1 }
    }

    /// Takes in a message. Every call gets a number of its own.
    pub fn handle(&mut self, message: RpcMessage) -> (step: McpStep)
        ensures
            step@ == step_of(
                old(self)@,
                optional_view(message.id),
                message.method@,
                message.params@,
            ),
            message.method@ == "tools/call"@ ==> (message.id matches Some(asked) ==> (
            message.params@.text_member("name"@) matches Some(name) ==> (step matches McpStep::Call {
                id,
                request,
            } && id == asked && request.tool@ == name && request.arguments@ == (
            match message.params@.member("arguments"@) {
                Some(arguments) => arguments,
                None => JsonView::Object(seq![]),
            })))),
            final(self)@ == if step@ is Call {
                if old(self)@ == u64::MAX {
                    0
                } else {
                    (old(self)@ + 1) as u64
                }
            } else {
                old(self)@
            },
    {
        let id = match message.id {
            Some(id) => id,
            None => {
                return McpStep::Silent;
            },
        };
        let method = message.method.as_str();
        proof {
            lemma_methods_differ();
        }
        if same_text(method, "initialize") {
            return McpStep::Respond(ok(id, capabilities_json()));
        }
        if same_text(method, "notifications/initialized") || same_text(
            method,
            "notifications/cancelled",
        ) {
            return McpStep::Silent;
        }
        if same_text(method, "ping") {
            return McpStep::Respond(ok(id, empty_object()));
        }
        if same_text(method, "tools/list") {
            return McpStep::List { id };
        }
        if same_text(method, "tools/call") {
            let tool = match message.params.get_str("name") {
                Some(name) => name.to_owned(),
                None => {
                    return McpStep::Respond(
                        err(id, INTERNAL_ERROR, "tools/call requires a `name`"),
                    );
                },
            };
            let arguments = match message.params.get("arguments") {
                Some(arguments) => arguments.clone(),
                None => empty_object(),
            };
            let n: u64 = self.next_id;
            self.next_id = if n == u64::MAX {
                0
            } else {
                n + 1
            };
            let number = decimal_text(n as u128);
            let request = ExecutionRequest {
                id: "mcp-".to_owned().concat(number.as_str()),
                tool,
                arguments,
            };
            return McpStep::Call { id, request };
        }
        McpStep::Respond(
            err(id, INTERNAL_ERROR, "method not found: ".to_owned().concat(method).as_str()),
        )
    }
}

/// Answers a listing.
pub fn tools_list(id: Json, tools: Result<Vec<ToolDescriptor>, ClientError>) -> (response:
    RpcResponse)
    ensures
        response@ == match tools {
            Ok(tools) => ok_view(id@, listing(descriptors_view(tools@))),
            Err(error) => err_view(id@, INTERNAL_ERROR, error@.sentence()),
        },
{
    match tools {
        Ok(tools) => ok(id, listing_json(&tools)),
        Err(error) => err(id, INTERNAL_ERROR, error.describe().as_str()),
    }
}

/// Answers a call.
pub fn tools_call(id: Json, result: Result<ExecutionResult, ClientError>) -> (response: RpcResponse)
    ensures
        response@ == match result {
            Ok(result) => ok_view(
                id@,
                call_content(output_text(result@.tool, result@.content), result@.is_error),
            ),
            Err(error) => err_view(id@, INTERNAL_ERROR, error@.sentence()),
        },
{
    match result {
        Ok(result) => {
            let text = text_of_output(result.tool.as_str(), &result.content);
            ok(id, call_json(text.as_str(), result.is_error))
        },
        Err(error) => err(id, INTERNAL_ERROR, error.describe().as_str()),
    }
}

/// A request is answered under its own id, at once or through the call that it
/// makes; a notification is not answered.
pub proof fn law_answers_carry_the_id(
    next_id: u64,
    id: Option<JsonView>,
    method: Seq<char>,
    params: JsonView,
)
    ensures
        match step_of(next_id, id, method, params) {
            StepView::Silent => id is None || notification(method),
            StepView::Respond(response) => id == Some(response.id) && (response.result is Some
                <==> response.error is None),
            StepView::List { id: asked } => id == Some(asked),
            StepView::Call { id: asked, .. } => id == Some(asked),
        },
{
}

/// The text that a tool returns reaches the client as it is.
pub proof fn law_text_output_is_surfaced_directly(tool: Seq<char>, text: Seq<char>)
    ensures
        output_text(tool, JsonView::Text(text)) == text,
{
}

/// The lines that `Read` shows of a file reach the client as they are.
pub proof fn law_file_bodies_are_surfaced_directly(
    input_path: Seq<char>,
    path: Seq<char>,
    content: Seq<char>,
    start_line: usize,
    max_lines: Option<usize>,
)
    ensures
        output_text("Read"@, read_result(input_path, path, content, start_line, max_lines))
            == rendering(content, start_line, max_lines),
{
    reveal_with_fuel(last_member, 4);
    reveal_strlit("content");
    reveal_strlit("start_line");
    reveal_strlit("total_lines");
    assert("content"@.len() != "start_line"@.len());
    assert("content"@.len() != "total_lines"@.len());
    let members = read_result(input_path, path, content, start_line, max_lines)->Object_0;
    assert(members.drop_last().last() == members[3]);
    assert(members.drop_last().drop_last().last() == members[2]);
}

proof fn lemma_methods_differ()
    ensures
        "tools/call"@ != "initialize"@,
        "tools/call"@ != "notifications/initialized"@,
        "tools/call"@ != "notifications/cancelled"@,
        "tools/call"@ != "ping"@,
        "tools/call"@ != "tools/list"@,
        "tools/list"@ != "initialize"@,
        "tools/list"@ != "notifications/initialized"@,
        "tools/list"@ != "notifications/cancelled"@,
        "tools/list"@ != "ping"@,
        "ping"@ != "initialize"@,
        "ping"@ != "notifications/initialized"@,
        "ping"@ != "notifications/cancelled"@,
        "initialize"@ != "notifications/initialized"@,
        "initialize"@ != "notifications/cancelled"@,
{
    reveal_strlit("tools/call");
    reveal_strlit("tools/list");
    reveal_strlit("ping");
    reveal_strlit("initialize");
    reveal_strlit("notifications/initialized");
    reveal_strlit("notifications/cancelled");
    assert("tools/call"@.len() == 10 && "tools/list"@.len() == 10 && "initialize"@.len() == 10);
    assert("tools/call"@[0] == 't' && "tools/list"@[0] == 't' && "initialize"@[0] == 'i');
    assert("tools/call"@[6] == 'c' && "tools/list"@[6] == 'l');
    assert("ping"@.len() == 4);
    assert("notifications/initialized"@.len() > 10 && "notifications/cancelled"@.len() > 10);
}

/// A call is made as it was asked for: of the tool that `name` names, with
/// exactly the value under `arguments`, and with the empty object only where
/// there is none; its answer goes to the id that asked.
pub proof fn law_calls_are_made_as_asked(
    next_id: u64,
    asked: JsonView,
    params: JsonView,
    name: Seq<char>,
)
    requires
        params.text_member("name"@) == Some(name),
    ensures
        step_of(next_id, Some(asked), "tools/call"@, params) matches StepView::Call { id, request }
            && id == asked && request.tool == name && match params.member("arguments"@) {
            Some(arguments) => request.arguments == arguments,
            None => request.arguments == JsonView::Object(Seq::empty()),
        },
{
    lemma_methods_differ();
}

/// Calls with different arguments, or of different tools, are different calls.
pub proof fn law_calls_are_told_apart(
    next_id: u64,
    id: JsonView,
    a: JsonView,
    b: JsonView,
    first: Seq<char>,
    second: Seq<char>,
)
    requires
        a.text_member("name"@) == Some(first),
        b.text_member("name"@) == Some(second),
        a.member("arguments"@) is Some,
        b.member("arguments"@) is Some,
        first != second || a.member("arguments"@) != b.member("arguments"@),
    ensures
        step_of(next_id, Some(id), "tools/call"@, a) != step_of(
            next_id,
            Some(id),
            "tools/call"@,
            b,
        ),
{
    law_calls_are_made_as_asked(next_id, id, a, first);
    law_calls_are_made_as_asked(next_id, id, b, second);
}

/// Two calls of a session run under two ids.
pub proof fn law_calls_have_ids_of_their_own(
    m: u64,
    n: u64,
    id: JsonView,
    params: JsonView,
    name: Seq<char>,
)
    requires
        m != n,
        params.text_member("name"@) == Some(name),
    ensures
        step_of(m, Some(id), "tools/call"@, params)->Call_request.id != step_of(
            n,
            Some(id),
            "tools/call"@,
            params,
        )->Call_request.id,
{
    lemma_methods_differ();
    crate::text::lemma_decimal_injective(m as nat, n as nat);
    let prefix = "mcp-"@;
    let first = prefix + decimal(m as nat);
    let second = prefix + decimal(n as nat);
    assert(first.skip(prefix.len() as int) =~= decimal(m as nat));
    assert(second.skip(prefix.len() as int) =~= decimal(n as nat));
}

/// The object of an error holds its code and its message, each under its key.
pub proof fn law_errors_are_found_by_key(code: i64, message: Seq<char>)
    ensures
        error_object(code, message).text_member("message"@) == Some(message),
        error_object(code, message).member("code"@) matches Some(JsonView::Number(number))
            && match number {
            NumberView::Unsigned(n) => n == code,
            NumberView::Negative(n) => n == code,
            NumberView::Other(_) => false,
        },
{
    reveal_strlit("code");
    reveal_strlit("message");
    assert("code"@.len() != "message"@.len());
    let members = error_object(code, message)->Object_0;
    assert(members[1].0 != "code"@);
    lemma_member_at(members, "code"@, 0);
    lemma_member_at(members, "message"@, 1);
}

/// Each method is answered in its own way: a greeting with what the server can
/// do, a ping with nothing, a listing with the tools; a call without the name
/// of a tool and any other method are refused, and the refusal names the
/// method.
pub proof fn law_methods_are_answered(
    next_id: u64,
    asked: JsonView,
    method: Seq<char>,
    params: JsonView,
)
    ensures
        ({
            let step = step_of(next_id, Some(asked), method, params);
            &&& method == "initialize"@ ==> (step matches StepView::Respond(response)
                && response.id == asked && response.error is None && response.result == Some(
                capabilities(),
            ))
            &&& method == "ping"@ ==> (step matches StepView::Respond(response) && response.id
                == asked && response.error is None && response.result == Some(
                JsonView::Object(Seq::empty()),
            ))
            &&& method == "tools/list"@ ==> (step matches StepView::List { id } && id == asked)
            &&& method == "tools/call"@ && params.text_member("name"@) is None ==> (
            step matches StepView::Respond(response) && response.id == asked && response.result
                is None && (response.error matches Some(error) && error.text_member("message"@)
                == Some("tools/call requires a `name`"@)))
            &&& method != "initialize"@ && !notification(method) && method != "ping"@ && method
                != "tools/list"@ && method != "tools/call"@ ==> (step matches StepView::Respond(
                response,
            ) && response.id == asked && response.result is None && (response.error matches Some(
                error,
            ) && error.text_member("message"@) == Some("method not found: "@ + method)))
            &&& step_of(next_id, None, method, params) is Silent
        }),
{
    lemma_methods_differ();
    law_errors_are_found_by_key(INTERNAL_ERROR, "tools/call requires a `name`"@);
    law_errors_are_found_by_key(INTERNAL_ERROR, "method not found: "@ + method);
}

/// A greeting is answered with the version of the protocol and the name of the
/// server, each under its key.
pub proof fn law_greeting_names_the_server()
    ensures
        capabilities().text_member("protocolVersion"@) == Some(MCP_PROTOCOL_VERSION@),
        capabilities().member("capabilities"@) matches Some(offered) && (offered.member("tools"@)
            matches Some(tools) && tools.member("listChanged"@) == Some(JsonView::Bool(false))),
        capabilities().member("serverInfo"@) matches Some(info) && info.text_member("name"@) == Some(
            "ate-mcp"@,
        ) && info.text_member("version"@) == Some(SERVER_VERSION@),
{
    reveal_strlit("protocolVersion");
    reveal_strlit("capabilities");
    reveal_strlit("serverInfo");
    reveal_strlit("name");
    reveal_strlit("version");
    assert("protocolVersion"@.len() == 15 && "capabilities"@.len() == 12 && "serverInfo"@.len()
        == 10);
    assert("name"@.len() == 4 && "version"@.len() == 7);
    let members = capabilities()->Object_0;
    lemma_member_at(members, "protocolVersion"@, 0);
    lemma_member_at(members, "capabilities"@, 1);
    lemma_member_at(members, "serverInfo"@, 2);
    let offered = members[1].1->Object_0;
    lemma_member_at(offered, "tools"@, 0);
    lemma_member_at(offered[0].1->Object_0, "listChanged"@, 0);
    let info = members[2].1->Object_0;
    lemma_member_at(info, "name"@, 0);
    lemma_member_at(info, "version"@, 1);
}

/// Every tool is listed, in order, with its name, its description and its
/// schema under their keys.
pub proof fn law_every_tool_is_listed(tools: Seq<DescriptorView>, i: int)
    requires
        0 <= i < tools.len(),
    ensures
        listing(tools).member("tools"@) matches Some(JsonView::Array(items)) && items.len()
            == tools.len() && items[i].text_member("name"@) == Some(tools[i].name)
            && items[i].text_member("description"@) == Some(tools[i].description)
            && items[i].member("inputSchema"@) == Some(tools[i].input_schema),
{
    reveal_strlit("name");
    reveal_strlit("description");
    reveal_strlit("inputSchema");
    assert("name"@.len() == 4 && "description"@.len() == 11 && "inputSchema"@.len() == 11);
    assert("description"@[0] == 'd' && "inputSchema"@[0] == 'i');
    let members = listing(tools)->Object_0;
    lemma_member_at(members, "tools"@, 0);
    let described = mcp_tool(tools[i])->Object_0;
    assert(members[0].1->Array_0[i] == mcp_tool(tools[i]));
    lemma_member_at(described, "name"@, 0);
    lemma_member_at(described, "description"@, 1);
    lemma_member_at(described, "inputSchema"@, 2);
}

/// The result of a call is one part of text that holds the text of the output,
/// and tells whether the call failed.
pub proof fn law_call_results_are_found_by_key(text: Seq<char>, is_error: bool)
    ensures
        call_content(text, is_error).member("isError"@) == Some(JsonView::Bool(is_error)),
        call_content(text, is_error).member("content"@) matches Some(JsonView::Array(parts))
            && parts.len() == 1 && parts[0].text_member("type"@) == Some("text"@)
            && parts[0].text_member("text"@) == Some(text),
{
    reveal_strlit("content");
    reveal_strlit("isError");
    reveal_strlit("type");
    reveal_strlit("text");
    assert("content"@[0] == 'c' && "isError"@[0] == 'i');
    assert("type"@[1] == 'y' && "text"@[1] == 'e');
    let members = call_content(text, is_error)->Object_0;
    lemma_member_at(members, "content"@, 0);
    lemma_member_at(members, "isError"@, 1);
    let part = members[0].1->Array_0[0]->Object_0;
    lemma_member_at(part, "type"@, 0);
    lemma_member_at(part, "text"@, 1);
}

/// Structured output is written out as JSON, except for what `Read` shows.
pub proof fn law_structured_output_is_written_out(tool: Seq<char>, content: JsonView)
    requires
        !(content is Text),
        tool != "Read"@ || content.text_member("content"@) is None,
    ensures
        output_text(tool, content) == json_text(content),
{
}

/// What an answer says is all that it holds: its id, its result and its error.
pub proof fn law_responses_are_seen_whole(response: RpcResponse)
    ensures
        response@.id == response.id@,
        match (response@.result, response.result) {
            (Some(seen), Some(held)) => seen == held@,
            (None, None) => true,
            _ => false,
        },
        match (response@.error, response.error) {
            (Some(seen), Some(held)) => seen == held@,
            (None, None) => true,
            _ => false,
        },
{
}

/// What a step says is all that it holds.
pub proof fn law_steps_are_seen_whole(step: McpStep)
    ensures
        match step {
            McpStep::Silent => step@ is Silent,
            McpStep::Respond(response) => step@ matches StepView::Respond(r) && r == response@,
            McpStep::List { id } => step@ matches StepView::List { id: i } && i == id@,
            McpStep::Call { id, request } => step@ matches StepView::Call { id: i, request: r } && i
                == id@ && r == request@,
        },
{
}

} // verus!
