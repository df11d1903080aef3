//! MCP messages: which request is answered how.
use vstd::prelude::*;
use vstd::string::*;

use crate::docs;
use crate::golden;
use crate::guide;
use crate::json;
use crate::json::{Fields, Items, Json, JsonValue};
use crate::protocol::methods;
use crate::replay::{Report, ReportValue};
use crate::replay::{OutcomeValue, ReplayOptions, StepOutcome, ViewportOutcome, ViewportOutcomeValue};
use crate::screenshots;
use crate::screenshots::{ImageValue, InlineImage};
use crate::script;
use crate::script::{Viewport, ViewportValue};
use crate::text;
use crate::tools;

verus! {

/// A request of the MCP client.
#[derive(Debug)]
pub struct McpRequest {
    pub jsonrpc: String,
    pub id: Option<Json>,
    pub method: String,
    pub params: Option<Json>,
}

/// An answer to the MCP client.
#[derive(Debug)]
pub struct McpResponse {
    pub jsonrpc: String,
    pub id: Json,
    pub result: Option<Json>,
    pub error: Option<McpError>,
}

#[derive(Debug)]
pub struct McpError {
    pub code: i32,
    pub message: String,
}

/// What an [`McpResponse`] holds.
pub struct ResponseValue {
    pub jsonrpc: Seq<char>,
    pub id: JsonValue,
    pub result: Option<JsonValue>,
    pub error: Option<(i32, Seq<char>)>,
}

/// What an optional value holds.
pub open spec fn maybe(value: Option<Json>) -> Option<JsonValue> {
    match value {
        Some(value) => Some(value@),
        None => None,
    }
}

impl View for McpResponse {
    type V = ResponseValue;

    open spec fn view(&self) -> ResponseValue {
        ResponseValue {
            jsonrpc: self.jsonrpc@,
            id: self.id@,
            result: maybe(self.result),
            error: match self.error {
                Some(error) => Some((error.code, error.message@)),
                None => None,
            },
        }
    }
}

/// A successful JSON-RPC result.
pub open spec fn success(id: JsonValue, result: JsonValue) -> ResponseValue {
    ResponseValue { jsonrpc: "2.0"@, id, result: Some(result), error: None }
}

/// A JSON-RPC error.
pub open spec fn failure(id: JsonValue, code: i32, message: Seq<char>) -> ResponseValue {
    ResponseValue { jsonrpc: "2.0"@, id, result: None, error: Some((code, message)) }
}

/// A successful JSON-RPC result.
pub fn ok_response(id: Json, result: Json) -> (r: McpResponse)
    ensures
        r@ == success(id@, result@),
{
    McpResponse { jsonrpc: "2.0".to_owned(), id, result: Some(result), error: None }
}

/// The code of an `Invalid params` error.
pub const INVALID_PARAMS: i32 = -32602;

/// The code of a `Method not found` error.
pub const METHOD_NOT_FOUND: i32 = -32601;

/// A JSON-RPC `Invalid params` error — a resource or prompt that does not
/// exist, with a message naming what does.
pub fn invalid_params(id: Json, message: String) -> (r: McpResponse)
    ensures
        r@ == failure(id@, INVALID_PARAMS, message@),
{
    McpResponse {
        jsonrpc: "2.0".to_owned(),
        id,
        result: None,
        error: Some(McpError { code: INVALID_PARAMS, message }),
    }
}

fn method_not_found(id: Json, method: &str) -> (r: McpResponse)
    ensures
        r@ == failure(id@, METHOD_NOT_FOUND, "Method not found: "@ + method@),
{
    McpResponse {
        jsonrpc: "2.0".to_owned(),
        id,
        result: None,
        error: Some(
            McpError {
                code: METHOD_NOT_FOUND,
                message: "Method not found: ".to_owned().concat(method),
            },
        ),
    }
}

pub const SERVER_NAME: &'static str = "gpui-mcp-inspector";

pub const SERVER_VERSION: &'static str = "0.1.0";

/// What the handshake answers.
pub open spec fn initialize_value() -> JsonValue {
    JsonValue::Object(
        json::no_fields().push(("protocolVersion"@, JsonValue::Text("2024-11-05"@))).push(
            (
                "capabilities"@,
                JsonValue::Object(
                    json::no_fields().push(("tools"@, JsonValue::Object(json::no_fields()))).push(
                        ("resources"@, JsonValue::Object(json::no_fields())),
                    ).push(("prompts"@, JsonValue::Object(json::no_fields()))),
                ),
            ),
        ).push(
            (
                "serverInfo"@,
                JsonValue::Object(
                    json::no_fields().push(("name"@, JsonValue::Text(SERVER_NAME@))).push(
                        ("version"@, JsonValue::Text(SERVER_VERSION@)),
                    ),
                ),
            ),
        ).push(("instructions"@, JsonValue::Text(docs::INSTRUCTIONS@))),
    )
}

/// Answer the handshake. The short orientation rides along, and so is always
/// in the agent's context.
pub fn initialize_result() -> (r: Json)
    ensures
        r@ == initialize_value(),
{
    let capabilities: Json = Fields::new().with("tools", Json::empty_object()).with(
        "resources",
        Json::empty_object(),
    ).with("prompts", Json::empty_object()).object();
    let info: Json = Fields::new().with("name", Json::text(SERVER_NAME)).with(
        "version",
        Json::text(SERVER_VERSION),
    ).object();
    Fields::new().with("protocolVersion", Json::text("2024-11-05")).with(
        "capabilities",
        capabilities,
    ).with("serverInfo", info).with("instructions", Json::text(docs::INSTRUCTIONS)).object()
}

/// What is to be done with a request.
#[derive(Debug)]
pub enum Route {
    /// Send this answer.
    Respond(McpResponse),
    /// Send nothing; this is for stderr.
    Silent(String),
    /// Replay a script, and answer with the report.
    Replay { id: Json, arguments: Json },
    /// Compare the window with a golden, and answer with the comparison.
    Golden { id: Json, arguments: Json },
    /// Forward a tool call to the app, and answer with what it says.
    Forward { id: Json, tool: String, arguments: Json },
}

/// What a [`Route`] holds.
pub enum RouteValue {
    Respond(ResponseValue),
    Silent(Seq<char>),
    Replay { id: JsonValue, arguments: JsonValue },
    Golden { id: JsonValue, arguments: JsonValue },
    Forward { id: JsonValue, tool: Seq<char>, arguments: JsonValue },
}

impl View for Route {
    type V = RouteValue;

    open spec fn view(&self) -> RouteValue {
        match *self {
            Route::Respond(response) => RouteValue::Respond(response@),
            Route::Silent(line) => RouteValue::Silent(line@),
            Route::Replay { id, arguments } => RouteValue::Replay {
                id: id@,
                arguments: arguments@,
            },
            Route::Golden { id, arguments } => RouteValue::Golden {
                id: id@,
                arguments: arguments@,
            },
            Route::Forward { id, tool, arguments } => RouteValue::Forward {
                id: id@,
                tool: tool@,
                arguments: arguments@,
            },
        }
    }
}

/// An empty object, where there is no value.
pub open spec fn or_empty(value: Option<JsonValue>) -> JsonValue {
    match value {
        Some(value) => value,
        None => JsonValue::Object(json::no_fields()),
    }
}

/// The text of a field, empty where there is none.
pub open spec fn text_or_empty(value: JsonValue, key: Seq<char>) -> Seq<char> {
    match json::field_text(value, key) {
        Some(s) => s,
        None => ""@,
    }
}

/// An answer to a request that can be invalid.
pub open spec fn success_or_invalid(
    id: JsonValue,
    result: Result<JsonValue, Seq<char>>,
) -> ResponseValue {
    match result {
        Ok(value) => success(id, value),
        Err(message) => failure(id, INVALID_PARAMS, message),
    }
}

/// What is done with a tool call. The guide is the server's own, and so are
/// the replay and the golden; every other tool goes to the app.
pub open spec fn tool_route(id: JsonValue, params: JsonValue) -> RouteValue {
    let tool = text_or_empty(params, "name"@);
    let arguments = or_empty(json::field(params, "arguments"@));
    if tool == docs::TOOL_NAME@ {
        RouteValue::Respond(success(id, guide::guide_value(arguments)))
    } else if tool == script::REPLAY_TOOL@ {
        RouteValue::Replay { id, arguments }
    } else if tool == golden::TOOL_NAME@ {
        RouteValue::Golden { id, arguments }
    } else {
        RouteValue::Forward { id, tool, arguments }
    }
}

/// What is done with a request.
pub open spec fn routed(
    method: Seq<char>,
    id: Option<JsonValue>,
    params: Option<JsonValue>,
) -> RouteValue {
    let id = match id {
        Some(id) => id,
        None => JsonValue::Null,
    };
    let params = or_empty(params);
    if method == "initialize"@ {
        RouteValue::Respond(success(id, initialize_value()))
    } else if method == "notifications/initialized"@ {
        RouteValue::Silent("[MCP] Client initialized"@)
    } else if method == "ping"@ {
        RouteValue::Respond(success(id, JsonValue::Object(json::no_fields())))
    } else if method == "tools/list"@ {
        RouteValue::Respond(
            success(
                id,
                JsonValue::Object(
                    json::no_fields().push(("tools"@, JsonValue::Array(tools::tools()))),
                ),
            ),
        )
    } else if method == "tools/call"@ {
        tool_route(id, params)
    } else if method == "resources/list"@ {
        RouteValue::Respond(
            success(
                id,
                JsonValue::Object(
                    json::no_fields().push(
                        (
                            "resources"@,
                            JsonValue::Array(
                                guide::resources(
                                    docs::all_topics(),
                                    docs::all_topics().len() as int,
                                ),
                            ),
                        ),
                    ),
                ),
            ),
        )
    } else if method == "resources/templates/list"@ {
        RouteValue::Respond(
            success(
                id,
                JsonValue::Object(
                    json::no_fields().push(
                        ("resourceTemplates"@, JsonValue::Array(json::no_items())),
                    ),
                ),
            ),
        )
    } else if method == "resources/read"@ {
        RouteValue::Respond(
            success_or_invalid(id, guide::resource_read(text_or_empty(params, "uri"@))),
        )
    } else if method == "prompts/list"@ {
        RouteValue::Respond(success(id, guide::prompts_value()))
    } else if method == "prompts/get"@ {
        RouteValue::Respond(
            success_or_invalid(
                id,
                guide::prompt_got(
                    text_or_empty(params, "name"@),
                    or_empty(json::field(params, "arguments"@)),
                ),
            ),
        )
    } else if text::has_prefix(method, "notifications/"@) {
        RouteValue::Silent("[MCP] Ignoring unknown notification: "@ + method)
    } else {
        RouteValue::Respond(failure(id, METHOD_NOT_FOUND, "Method not found: "@ + method))
    }
}

fn get_text_or_empty(value: &Json, key: &str) -> (r: String)
    ensures
        r@ == text_or_empty(value@, key@),
{
    match value.get_text(key) {
        Some(s) => s.to_owned(),
        None => "".to_owned(),
    }
}

fn get_or_empty(value: &Json, key: &str) -> (r: Json)
    ensures
        r@ == or_empty(json::field(value@, key@)),
{
    match value.get(key) {
        Some(found) => found.clone(),
        None => Json::empty_object(),
    }
}

fn respond_or_invalid(id: Json, result: Result<Json, String>) -> (r: McpResponse)
    ensures
        r@ == success_or_invalid(id@, guide::result_of(result)),
{
    match result {
        Ok(value) => ok_response(id, value),
        Err(message) => invalid_params(id, message),
    }
}

fn route_tool(id: Json, params: &Json) -> (r: Route)
    ensures
        r@ == tool_route(id@, params@),
{
    let tool: String = get_text_or_empty(params, "name");
    let arguments: Json = get_or_empty(params, "arguments");
    if text::same_text(tool.as_str(), docs::TOOL_NAME) {
        // Forwarding the guide would fail whenever no app is running, which is
        // precisely when an agent is most likely to be reading it.
        Route::Respond(ok_response(id, guide::guide_result(&arguments)))
    } else if text::same_text(tool.as_str(), script::REPLAY_TOOL) {
        Route::Replay { id, arguments }
    } else if golden::is_golden(tool.as_str()) {
        Route::Golden { id, arguments }
    } else {
        Route::Forward { id, tool, arguments }
    }
}

/// Decide what is done with a request.
pub fn route(request: McpRequest) -> (r: Route)
    ensures
        r@ == routed(request.method@, maybe(request.id), maybe(request.params)),
{
    let id: Json = match request.id {
        Some(id) => id,
        None => Json::Null,
    };
    let params: Json = match request.params {
        Some(params) => params,
        None => Json::empty_object(),
    };
    let method: &str = request.method.as_str();
    if text::same_text(method, "initialize") {
        Route::Respond(ok_response(id, initialize_result()))
    } else if text::same_text(method, "notifications/initialized") {
        Route::Silent("[MCP] Client initialized".to_owned())
    } else if text::same_text(method, "ping") {
        Route::Respond(ok_response(id, Json::empty_object()))
    } else if text::same_text(method, "tools/list") {
        Route::Respond(ok_response(id, tools::tools_list()))
    } else if text::same_text(method, "tools/call") {
        route_tool(id, &params)
    } else if text::same_text(method, "resources/list") {
        Route::Respond(ok_response(id, guide::resources_list()))
    } else if text::same_text(method, "resources/templates/list") {
        // Nothing here is templated, but answering keeps a client that probes
        // for templates from logging a "method not found".
        let none: Json = Fields::new().with("resourceTemplates", Items::new().array()).object();
        Route::Respond(ok_response(id, none))
    } else if text::same_text(method, "resources/read") {
        let uri: String = get_text_or_empty(&params, "uri");
        Route::Respond(respond_or_invalid(id, guide::read_resource(uri.as_str())))
    } else if text::same_text(method, "prompts/list") {
        Route::Respond(ok_response(id, guide::prompts_list()))
    } else if text::same_text(method, "prompts/get") {
        let name: String = get_text_or_empty(&params, "name");
        let arguments: Json = get_or_empty(&params, "arguments");
        Route::Respond(respond_or_invalid(id, guide::get_prompt(name.as_str(), &arguments)))
    } else if text::starts_with(method, "notifications/") {
        // Notifications don't need responses
        Route::Silent("[MCP] Ignoring unknown notification: ".to_owned().concat(method))
    } else {
        Route::Respond(method_not_found(id, method))
    }
}

/// A notification is never answered; every answer that is given carries the id
/// of its request, and either a result or an error.
pub proof fn lemma_answers_match_their_requests(
    method: Seq<char>,
    id: Option<JsonValue>,
    params: Option<JsonValue>,
)
    ensures
        text::has_prefix(method, "notifications/"@) ==> routed(method, id, params) is Silent,
        routed(method, id, params) matches RouteValue::Respond(response) ==> {
            &&& response.jsonrpc == "2.0"@
            &&& response.id == (match id {
                Some(id) => id,
                None => JsonValue::Null,
            })
            &&& response.result is Some <==> response.error is None
        },
{
    reveal_strlit("notifications/");
    reveal_strlit("initialize");
    reveal_strlit("ping");
    reveal_strlit("tools/list");
    reveal_strlit("tools/call");
    reveal_strlit("resources/list");
    reveal_strlit("resources/templates/list");
    reveal_strlit("resources/read");
    reveal_strlit("prompts/list");
    reveal_strlit("prompts/get");
    if text::has_prefix(method, "notifications/"@) {
        assert(method.subrange(0, 14)[0] == 'n');
        assert(method[0] == 'n');
        assert("initialize"@[0] == 'i');
        assert("ping"@[0] == 'p');
        assert("tools/list"@[0] == 't');
        assert("tools/call"@[0] == 't');
        assert("resources/list"@[0] == 'r');
        assert("resources/templates/list"@[0] == 'r');
        assert("resources/read"@[0] == 'r');
        assert("prompts/list"@[0] == 'p');
        assert("prompts/get"@[0] == 'p');
    }
}

/// The guide, the replay and the golden never reach the app: they are not
/// among its methods, and no request forwards them.
pub proof fn lemma_server_tools_are_not_forwarded(
    method: Seq<char>,
    id: Option<JsonValue>,
    params: Option<JsonValue>,
)
    ensures
        !methods::all_names().contains(docs::TOOL_NAME@),
        !methods::all_names().contains(script::REPLAY_TOOL@),
        !methods::all_names().contains(golden::TOOL_NAME@),
        routed(method, id, params) matches RouteValue::Forward { tool, .. } ==> tool
            != docs::TOOL_NAME@ && tool != script::REPLAY_TOOL@ && tool != golden::TOOL_NAME@,
{
    methods::lemma_server_tools_are_no_methods();
}

/// Render a `ui_snapshot` answer as the text it already is.
pub open spec fn snapshot_value(tool: Seq<char>, content: JsonValue) -> Option<Seq<char>> {
    if tool != methods::UI_SNAPSHOT@ {
        None
    } else {
        match json::field_text(content, "snapshot"@) {
            None => None,
            Some(snapshot) => Some(
                "ui_snapshot "@ + json::compact_text(json::field_or_null(content, "snapshot_id"@))
                    + " — "@ + (match json::field_text(content, "window_id"@) {
                    Some(window) => window,
                    None => "?"@,
                }) + ", "@ + json::compact_text(json::field_or_null(content, "elements"@))
                    + " of "@ + json::compact_text(
                    json::field_or_null(content, "painted_elements"@),
                ) + " painted elements"@ + (if json::field(content, "truncated"@) == Some(
                    JsonValue::Bool(true),
                ) {
                    STOPPED_EARLY@
                } else {
                    ""@
                }) + "\n"@ + snapshot,
            ),
        }
    }
}

pub const STOPPED_EARLY: &'static str = " (stopped early — raise max_elements, or narrow with filter / root_element_id)";

/// Render a `ui_snapshot` answer as the text it already is.
///
/// Everything else is handed to the agent as pretty-printed JSON, which for a
/// snapshot would be the worst of both worlds: every newline escaped, and the
/// size roughly doubled for nothing. Returns `None` for any other tool.
pub fn snapshot_text(tool_name: &str, content: &Json) -> (r: Option<String>)
    ensures
        text::maybe_owned(r) == snapshot_value(tool_name@, content@),
{
    if !text::same_text(tool_name, methods::UI_SNAPSHOT) {
        return None;
    }
    let snapshot: &str = match content.get_text("snapshot") {
        Some(snapshot) => snapshot,
        None => {
            return None;
        },
    };
    let mut out: String = "ui_snapshot ".to_owned();
    out.append(content.get_or_null("snapshot_id").compact().as_str());
    out.append(" — ");
    match content.get_text("window_id") {
        Some(window) => {
            out.append(window);
        },
        None => {
            out.append("?");
        },
    }
    out.append(", ");
    out.append(content.get_or_null("elements").compact().as_str());
    out.append(" of ");
    out.append(content.get_or_null("painted_elements").compact().as_str());
    out.append(" painted elements");
    let truncated: bool = match content.get("truncated") {
        Some(Json::Bool(b)) => *b,
        _ => false,
    };
    if truncated {
        out.append(STOPPED_EARLY);
    } else {
        out.append("");
    }
    out.append("\n");
    out.append(snapshot);
    Some(out)
}

/// The text of an answer: a snapshot as it is, everything else as `pretty`.
pub fn answer_text(tool_name: &str, content: &Json, pretty: String) -> (r: String)
    ensures
        r@ == (match snapshot_value(tool_name@, content@) {
            Some(snapshot) => snapshot,
            None => pretty@,
        }),
{
    match snapshot_text(tool_name, content) {
        Some(snapshot) => snapshot,
        None => pretty,
    }
}

/// An image block in an answer.
pub open spec fn image_block(image: ImageValue) -> JsonValue {
    JsonValue::Object(
        json::no_fields().push(("type"@, JsonValue::Text("image"@))).push(
            ("data"@, JsonValue::Text(image.data)),
        ).push(("mimeType"@, JsonValue::Text(image.mime_type))),
    )
}

/// The blocks of an answer: its text, and the first `n` images.
pub open spec fn blocks(s: Seq<char>, images: Seq<ImageValue>, n: int) -> Seq<JsonValue>
    decreases n,
{
    if n <= 0 {
        json::no_items().push(guide::text_block(s))
    } else {
        blocks(s, images, n - 1).push(image_block(images[n - 1]))
    }
}

/// What a tool call that succeeded is answered: its text and its images.
pub open spec fn tool_answer(said: Seq<char>, images: Seq<ImageValue>) -> JsonValue {
    JsonValue::Object(
        json::no_fields().push(
            ("content"@, JsonValue::Array(blocks(said, images, images.len() as int))),
        ),
    )
}

/// The answer to a tool call that succeeded: its text, then one image for a
/// screenshot, possibly several from a batch that took more than one.
pub fn tool_response(id: Json, said: &str, images: &Vec<InlineImage>) -> (r: McpResponse)
    ensures
        r@ == success(
            id@,
            JsonValue::Object(
                json::no_fields().push(
                    (
                        "content"@,
                        JsonValue::Array(
                            blocks(
                                said@,
                                screenshots::images_of(images@),
                                images@.len() as int,
                            ),
                        ),
                    ),
                ),
            ),
        ),
        r@ == success(id@, tool_answer(said@, screenshots::images_of(images@))),
{
    let mut list: Items = Items::new().with(guide::text_content(said));
    let mut i: usize = 0;
    while i < images.len()
        invariant
            i <= images@.len(),
            list@ == blocks(said@, screenshots::images_of(images@), i as int),
        decreases images@.len() - i,
    {
        let block: Json = Fields::new().with("type", Json::text("image")).with(
            "data",
            Json::Text(images[i].data.clone()),
        ).with("mimeType", Json::Text(images[i].mime_type.clone())).object();
        list = list.with(block);
        i += 1;
    }
    ok_response(id, Fields::new().with("content", list.array()).object())
}

/// The answer to a tool call that failed. It is a result, not a JSON-RPC
/// error: the agent is meant to read it.
pub fn tool_error(id: Json, error: &str) -> (r: McpResponse)
    ensures
        r@ == success(id@, guide::error_answer("Error: "@ + error@)),
{
    ok_response(id, guide::say_error("Error: ".to_owned().concat(error).as_str()))
}

/// What the arguments of a replay ask for, or what is missing.
pub open spec fn replay_asked(arguments: JsonValue) -> Result<
    (Seq<char>, ReplayOptions),
    Seq<char>,
> {
    match json::field_text(arguments, "path"@) {
        None => Err("replay_script needs a `path` to a recorded script"@),
        Some(path) => Ok(
            (
                path,
                ReplayOptions {
                    seek: json::field_bool(arguments, "seek"@) == Some(true),
                    stop_on_error: json::field_bool(arguments, "stop_on_error"@) != Some(false),
                },
            ),
        ),
    }
}

/// Read the arguments of a replay: the script, whether to seek (not unless
/// asked to), whether to stop at a failure (yes unless told not to).
pub fn replay_arguments(arguments: &Json) -> (r: Result<(String, ReplayOptions), String>)
    ensures
        (match r {
            Ok((path, options)) => Ok::<_, Seq<char>>((path@, options)),
            Err(message) => Err(message@),
        }) == replay_asked(arguments@),
{
    match arguments.get_text("path") {
        Some(path) => {
            let seek: bool = match arguments.get_bool("seek") {
                Some(seek) => seek,
                None => false,
            };
            let stop_on_error: bool = match arguments.get_bool("stop_on_error") {
                Some(stop) => stop,
                None => true,
            };
            Ok((path.to_owned(), ReplayOptions { seek, stop_on_error }))
        },
        None => Err("replay_script needs a `path` to a recorded script".to_owned()),
    }
}

/// `fields` with a text, where there is one.
pub open spec fn with_text(
    fields: Seq<(Seq<char>, JsonValue)>,
    key: Seq<char>,
    s: Option<Seq<char>>,
) -> Seq<(Seq<char>, JsonValue)> {
    match s {
        Some(s) => fields.push((key, JsonValue::Text(s))),
        None => fields,
    }
}

fn add_text(fields: Fields, key: &str, s: &Option<String>) -> (r: Fields)
    ensures
        r@ == with_text(fields@, key@, text::maybe_owned(*s)),
{
    match s {
        Some(s) => fields.with(key, Json::text(s.as_str())),
        None => fields,
    }
}

/// A viewport as JSON.
pub open spec fn viewport_value(viewport: ViewportValue) -> JsonValue {
    JsonValue::Object(
        json::no_fields().push(("width"@, JsonValue::Number(viewport.width))).push(
            ("height"@, JsonValue::Number(viewport.height)),
        ),
    )
}

fn viewport_json(viewport: &Viewport) -> (r: Json)
    ensures
        r@ == viewport_value(viewport@),
{
    Fields::new().with("width", Json::Number(viewport.width.clone())).with(
        "height",
        Json::Number(viewport.height.clone()),
    ).object()
}

/// What applying a viewport did, as JSON.
pub open spec fn header_value(outcome: ViewportOutcomeValue) -> JsonValue {
    let head = json::no_fields().push(("status"@, JsonValue::Text(outcome.status))).push(
        ("requested"@, viewport_value(outcome.requested)),
    );
    JsonValue::Object(
        with_text(
            match outcome.reached {
                Some(reached) => head.push(("reached"@, viewport_value(reached))),
                None => head,
            },
            "detail"@,
            outcome.detail,
        ),
    )
}

fn header_json(outcome: &ViewportOutcome) -> (r: Json)
    ensures
        r@ == header_value(outcome@),
{
    let mut fields: Fields = Fields::new().with("status", Json::text(outcome.status)).with(
        "requested",
        viewport_json(&outcome.requested),
    );
    if let Some(reached) = &outcome.reached {
        fields = fields.with("reached", viewport_json(reached));
    }
    add_text(fields, "detail", &outcome.detail).object()
}

/// What a step did, as JSON.
pub open spec fn outcome_value(outcome: OutcomeValue) -> JsonValue {
    JsonValue::Object(
        with_text(
            json::no_fields().push(
                ("index"@, JsonValue::Number(json::whole_number(outcome.index))),
            ).push(("method"@, JsonValue::Text(outcome.method))).push(
                ("status"@, JsonValue::Text(outcome.status)),
            ),
            "detail"@,
            outcome.detail,
        ),
    )
}

fn outcome_json(outcome: &StepOutcome) -> (r: Json)
    ensures
        r@ == outcome_value(outcome@),
{
    let fields: Fields = Fields::new().with("index", Json::whole(outcome.index as u64)).with(
        "method",
        Json::text(outcome.method.as_str()),
    ).with("status", Json::text(outcome.status));
    add_text(fields, "detail", &outcome.detail).object()
}

/// What the first `n` steps did, as JSON.
pub open spec fn outcome_values(steps: Seq<OutcomeValue>, n: int) -> Seq<JsonValue>
    decreases n,
{
    if n <= 0 {
        json::no_items()
    } else {
        outcome_values(steps, n - 1).push(outcome_value(steps[n - 1]))
    }
}

/// A count as JSON.
pub open spec fn count_value(n: nat) -> JsonValue {
    JsonValue::Number(json::whole_number(n))
}

/// The report of a replay as JSON, with the script's name and path.
pub open spec fn report_value(
    report: ReportValue,
    name: Seq<char>,
    path: Seq<char>,
) -> JsonValue {
    let head = json::no_fields().push(("ok"@, JsonValue::Bool(report.ok))).push(
        ("passed"@, count_value(report.passed)),
    ).push(("failed"@, count_value(report.failed))).push(
        ("skipped"@, count_value(report.skipped)),
    ).push(("of"@, count_value(report.of)));
    JsonValue::Object(
        (match report.viewport {
            Some(outcome) => head.push(("viewport"@, header_value(outcome))),
            None => head,
        }).push(
            ("steps"@, JsonValue::Array(outcome_values(report.steps, report.steps.len() as int))),
        ).push(("script"@, JsonValue::Text(name))).push(("path"@, JsonValue::Text(path))),
    )
}

/// The report of a replay as JSON, with the script's name and path.
pub fn report_json(report: &Report, name: &str, path: &str) -> (r: Json)
    ensures
        r@ == report_value(report@, name@, path@),
{
    let mut list: Items = Items::new();
    let mut i: usize = 0;
    while i < report.steps.len()
        invariant
            i <= report.steps@.len(),
            list@ == outcome_values(report@.steps, i as int),
        decreases report.steps@.len() - i,
    {
        proof {
            assert(report@.steps[i as int] == report.steps@[i as int]@);
        }
        list = list.with(outcome_json(&report.steps[i]));
        i += 1;
    }
    let mut fields: Fields = Fields::new().with("ok", Json::Bool(report.ok)).with(
        "passed",
        Json::whole(report.passed as u64),
    ).with("failed", Json::whole(report.failed as u64)).with(
        "skipped",
        Json::whole(report.skipped as u64),
    ).with("of", Json::whole(report.of as u64));
    if let Some(outcome) = &report.viewport {
        fields = fields.with("viewport", header_json(outcome));
    }
    fields.with("steps", list.array()).with("script", Json::text(name)).with(
        "path",
        Json::text(path),
    ).object()
}

proof fn lemma_the_methods_differ()
    ensures
        "initialize"@.len() == 10 && "initialize"@[0] == 'i',
        "notifications/initialized"@.len() == 25,
        "ping"@.len() == 4,
        "tools/list"@.len() == 10 && "tools/list"@[0] == 't' && "tools/list"@[6] == 'l',
        "tools/call"@.len() == 10 && "tools/call"@[0] == 't' && "tools/call"@[6] == 'c',
        "resources/list"@.len() == 14 && "resources/list"@[10] == 'l',
        "resources/templates/list"@.len() == 24,
        "resources/read"@.len() == 14 && "resources/read"@[10] == 'r',
        "prompts/list"@.len() == 12,
        "prompts/get"@.len() == 11,
{
    reveal_strlit("initialize");
    reveal_strlit("notifications/initialized");
    reveal_strlit("ping");
    reveal_strlit("tools/list");
    reveal_strlit("tools/call");
    reveal_strlit("resources/list");
    reveal_strlit("resources/templates/list");
    reveal_strlit("resources/read");
    reveal_strlit("prompts/list");
    reveal_strlit("prompts/get");
}

proof fn lemma_the_tools_of_the_server_differ()
    ensures
        "gpui_guide"@.len() == 10,
        "replay_script"@.len() == 13,
        "expect_screenshot"@.len() == 17,
        ""@.len() == 0,
{
    reveal_strlit("gpui_guide");
    reveal_strlit("replay_script");
    reveal_strlit("expect_screenshot");
    reveal_strlit("");
}

/// Whoever carries out a tool call, the app or the server, gets the id and the
/// arguments of the request as they came: the id, `null` where there is none,
/// and the `arguments`, an empty object where there are none. The replay and
/// the golden are the server's, the guide is answered at once, and every other
/// tool is forwarded under its name.
pub proof fn lemma_a_tool_call_keeps_its_id_and_arguments(
    id: Option<JsonValue>,
    params: Option<JsonValue>,
)
    ensures
        ({
            let route = routed("tools/call"@, id, params);
            let given = match id {
                Some(id) => id,
                None => JsonValue::Null,
            };
            let named = match params {
                Some(params) => json::field_text(params, "name"@),
                None => None,
            };
            let handed = match params {
                Some(params) => match json::field(params, "arguments"@) {
                    Some(arguments) => arguments,
                    None => JsonValue::Object(Seq::empty()),
                },
                None => JsonValue::Object(Seq::empty()),
            };
            match route {
                RouteValue::Replay { id, arguments } => id == given && arguments == handed && named
                    == Some("replay_script"@),
                RouteValue::Golden { id, arguments } => id == given && arguments == handed && named
                    == Some("expect_screenshot"@),
                RouteValue::Forward { id, tool, arguments } => {
                    &&& id == given
                    &&& arguments == handed
                    &&& named is Some ==> named == Some(tool)
                    &&& named is None ==> tool.len() == 0
                    &&& tool != "gpui_guide"@
                    &&& tool != "replay_script"@
                    &&& tool != "expect_screenshot"@
                },
                RouteValue::Respond(response) => {
                    &&& response.id == given
                    &&& response.result == Some(guide::guide_value(handed))
                    &&& response.error is None
                    &&& named == Some("gpui_guide"@)
                },
                RouteValue::Silent(_) => false,
            }
        }),
{
    lemma_the_methods_differ();
    lemma_the_tools_of_the_server_differ();
    json::lemma_no_such_field(json::no_fields(), "arguments"@);
    json::lemma_no_such_field(json::no_fields(), "name"@);
    let asked = or_empty(params);
    assert(params is None ==> json::field(asked, "arguments"@) is None);
    assert(params is None ==> json::field_text(asked, "name"@) is None);
    assert(routed("tools/call"@, id, params) == tool_route(
        match id {
            Some(id) => id,
            None => JsonValue::Null,
        },
        asked,
    ));
}

/// What the handshake tells: the version of the protocol, what the server
/// offers, who it is, and the orientation.
pub proof fn lemma_what_the_handshake_tells(id: Option<JsonValue>, params: Option<JsonValue>)
    ensures
        routed("initialize"@, id, params) matches RouteValue::Respond(response) && {
            &&& response.result matches Some(told)
            &&& json::field_text(told, "protocolVersion"@) == Some("2024-11-05"@)
            &&& json::field_text(told, "instructions"@) == Some(docs::INSTRUCTIONS@)
            &&& json::field(told, "capabilities"@) matches Some(offers)
            &&& json::field(offers, "tools"@) is Some
            &&& json::field(offers, "resources"@) is Some
            &&& json::field(offers, "prompts"@) is Some
            &&& json::field(told, "serverInfo"@) matches Some(info)
            &&& json::field_text(info, "name"@) == Some("gpui-mcp-inspector"@)
            &&& json::field_text(info, "version"@) == Some("0.1.0"@)
        },
{
    lemma_the_methods_differ();
    reveal_strlit("protocolVersion");
    reveal_strlit("capabilities");
    reveal_strlit("serverInfo");
    reveal_strlit("instructions");
    reveal_strlit("tools");
    reveal_strlit("resources");
    reveal_strlit("prompts");
    reveal_strlit("name");
    reveal_strlit("version");
    assert("protocolVersion"@.len() == 15 && "capabilities"@.len() == 12 && "serverInfo"@.len()
        == 10 && "instructions"@.len() == 12 && "capabilities"@[0] == 'c' && "instructions"@[0]
        == 'i');
    assert("tools"@.len() == 5 && "resources"@.len() == 9 && "prompts"@.len() == 7);
    assert("name"@.len() == 4 && "version"@.len() == 7);
    let told = initialize_value()->Object_0;
    json::lemma_field_at(told, 0);
    json::lemma_field_at(told, 1);
    json::lemma_field_at(told, 2);
    json::lemma_field_at(told, 3);
    let offers = told[1].1->Object_0;
    json::lemma_field_at(offers, 0);
    json::lemma_field_at(offers, 1);
    json::lemma_field_at(offers, 2);
    let info = told[2].1->Object_0;
    json::lemma_field_at(info, 0);
    json::lemma_field_at(info, 1);
}

/// What each list that is asked for holds: all the tools, all the topics, no
/// templates, and the prompts; and a ping is answered with nothing.
pub proof fn lemma_what_is_listed(id: Option<JsonValue>, params: Option<JsonValue>)
    ensures
        routed("ping"@, id, params) matches RouteValue::Respond(response) && response.result
            == Some(JsonValue::Object(Seq::empty())),
        routed("tools/list"@, id, params) matches RouteValue::Respond(response) && {
            &&& response.result matches Some(list)
            &&& json::field(list, "tools"@) == Some(JsonValue::Array(tools::tools()))
        },
        routed("resources/list"@, id, params) matches RouteValue::Respond(response) && {
            &&& response.result matches Some(list)
            &&& json::field(list, "resources"@) == Some(
                JsonValue::Array(
                    guide::resources(docs::all_topics(), docs::all_topics().len() as int),
                ),
            )
        },
        routed("resources/templates/list"@, id, params) matches RouteValue::Respond(response) && {
            &&& response.result matches Some(list)
            &&& json::field(list, "resourceTemplates"@) == Some(JsonValue::Array(Seq::empty()))
        },
        routed("prompts/list"@, id, params) matches RouteValue::Respond(response)
            && response.result == Some(guide::prompts_value()),
{
    lemma_the_methods_differ();
    json::lemma_field_at(
        json::no_fields().push(("tools"@, JsonValue::Array(tools::tools()))),
        0,
    );
    json::lemma_field_at(
        json::no_fields().push(
            (
                "resources"@,
                JsonValue::Array(
                    guide::resources(docs::all_topics(), docs::all_topics().len() as int),
                ),
            ),
        ),
        0,
    );
    json::lemma_field_at(
        json::no_fields().push(("resourceTemplates"@, JsonValue::Array(json::no_items()))),
        0,
    );
}

/// A resource is read by its `uri`, and a prompt is got by its `name` with its
/// `arguments`; where that fails, the error says why and is one of the
/// parameters.
pub proof fn lemma_what_is_read_and_got(id: Option<JsonValue>, params: JsonValue)
    ensures
        ({
            let uri = match json::field_text(params, "uri"@) {
                Some(uri) => uri,
                None => Seq::empty(),
            };
            routed("resources/read"@, id, Some(params)) matches RouteValue::Respond(response) && {
                &&& guide::resource_read(uri) matches Ok(value) ==> response.result == Some(value)
                &&& guide::resource_read(uri) matches Err(why) ==> response.error == Some(
                    (-32602i32, why),
                )
            }
        }),
        ({
            let name = match json::field_text(params, "name"@) {
                Some(name) => name,
                None => Seq::empty(),
            };
            let arguments = match json::field(params, "arguments"@) {
                Some(arguments) => arguments,
                None => JsonValue::Object(Seq::empty()),
            };
            routed("prompts/get"@, id, Some(params)) matches RouteValue::Respond(response) && {
                &&& guide::prompt_got(name, arguments) matches Ok(value) ==> response.result
                    == Some(value)
                &&& guide::prompt_got(name, arguments) matches Err(why) ==> response.error == Some(
                    (-32602i32, why),
                )
            }
        }),
{
    lemma_the_methods_differ();
    reveal_strlit("");
    assert(""@ =~= Seq::empty());
}

/// A method that is none of these is refused by name, unless it is a
/// notification.
pub proof fn lemma_what_is_not_known_is_refused(
    method: Seq<char>,
    id: Option<JsonValue>,
    params: Option<JsonValue>,
)
    requires
        method != "initialize"@,
        method != "ping"@,
        method != "tools/list"@,
        method != "tools/call"@,
        method != "resources/list"@,
        method != "resources/templates/list"@,
        method != "resources/read"@,
        method != "prompts/list"@,
        method != "prompts/get"@,
        !text::has_prefix(method, "notifications/"@),
    ensures
        routed(method, id, params) matches RouteValue::Respond(response) && {
            &&& response.result is None
            &&& response.error matches Some((code, message))
            &&& code == -32601
            &&& text::has_suffix(message, ": "@ + method)
        },
{
    reveal_strlit("notifications/");
    reveal_strlit("notifications/initialized");
    reveal_strlit("Method not found: ");
    reveal_strlit(": ");
    assert("notifications/initialized"@.subrange(0, 14) =~= "notifications/"@);
    let head = "Method not found: "@;
    assert(head =~= head.take(16) + ": "@);
    assert(head + method =~= head.take(16) + (": "@ + method));
    text::lemma_ends_with(head.take(16), ": "@ + method);
}

proof fn lemma_pieces(
    a: Seq<char>,
    b: Seq<char>,
    c: Seq<char>,
    d: Seq<char>,
    e: Seq<char>,
    whole: Seq<char>,
)
    requires
        whole == a + b + c + d + e,
    ensures
        text::has_prefix(whole, a),
        text::has_prefix(whole, a + b),
        text::mentions(whole, c),
        text::has_suffix(whole, e),
        text::has_suffix(whole, d + e),
{
    assert(whole =~= a + (b + c + d + e));
    text::lemma_begins_with(a, b + c + d + e);
    assert(whole =~= (a + b) + (c + d + e));
    text::lemma_begins_with(a + b, c + d + e);
    assert(whole =~= (a + b) + c + (d + e));
    text::lemma_mentions(a + b, c, d + e);
    text::lemma_ends_with(a + b + c + d, e);
    assert(whole =~= (a + b + c) + (d + e));
    text::lemma_ends_with(a + b + c, d + e);
}

/// A snapshot is told as it is, behind one line that says which it is, of
/// which window, and how many of the elements that were painted it holds; and
/// whether it stopped early. Nothing else is told so.
pub proof fn lemma_how_a_snapshot_is_told(tool: Seq<char>, content: JsonValue)
    ensures
        snapshot_value(tool, content) is Some <==> tool == "ui_snapshot"@ && json::field_text(
            content,
            "snapshot"@,
        ) is Some,
        snapshot_value(tool, content) matches Some(told) ==> {
            let which = json::compact_text(json::field_or_null(content, "snapshot_id"@));
            let elements = json::compact_text(json::field_or_null(content, "elements"@));
            let painted = json::compact_text(json::field_or_null(content, "painted_elements"@));
            let snapshot = json::field_text(content, "snapshot"@)->0;
            let stopped = json::field(content, "truncated"@) == Some(JsonValue::Bool(true));
            &&& text::has_prefix(told, "ui_snapshot "@ + which)
            &&& json::field_text(content, "window_id"@) matches Some(window) ==> text::has_prefix(
                told,
                "ui_snapshot "@ + which + (" — "@ + window),
            )
            &&& text::mentions(told, ", "@ + elements + " of "@ + painted + " painted elements"@)
            &&& text::has_suffix(told, "\n"@ + snapshot)
            &&& stopped ==> text::has_suffix(told, STOPPED_EARLY@ + ("\n"@ + snapshot))
            &&& !stopped ==> text::has_suffix(told, " painted elements"@ + ("\n"@ + snapshot))
        },
{
    if let Some(told) = snapshot_value(tool, content) {
        let snapshot = json::field_text(content, "snapshot"@)->0;
        let which = json::compact_text(json::field_or_null(content, "snapshot_id"@));
        let elements = json::compact_text(json::field_or_null(content, "elements"@));
        let painted = json::compact_text(json::field_or_null(content, "painted_elements"@));
        let window = match json::field_text(content, "window_id"@) {
            Some(window) => window,
            None => "?"@,
        };
        let stopped = json::field(content, "truncated"@) == Some(JsonValue::Bool(true));
        let early = if stopped {
            STOPPED_EARLY@
        } else {
            ""@
        };
        lemma_snapshot_pieces(which, window, elements, painted, early, snapshot);
        if !stopped {
            reveal_strlit("");
        }
    }
}

proof fn lemma_snapshot_pieces(
    which: Seq<char>,
    window: Seq<char>,
    elements: Seq<char>,
    painted: Seq<char>,
    early: Seq<char>,
    snapshot: Seq<char>,
)
    ensures
        ({
            let told = "ui_snapshot "@ + which + " — "@ + window + ", "@ + elements + " of "@
                + painted + " painted elements"@ + early + "\n"@ + snapshot;
            &&& text::has_prefix(told, "ui_snapshot "@ + which)
            &&& text::has_prefix(told, "ui_snapshot "@ + which + (" — "@ + window))
            &&& text::mentions(told, ", "@ + elements + " of "@ + painted + " painted elements"@)
            &&& text::has_suffix(told, "\n"@ + snapshot)
            &&& text::has_suffix(told, early + ("\n"@ + snapshot))
            &&& early.len() == 0 ==> text::has_suffix(
                told,
                " painted elements"@ + ("\n"@ + snapshot),
            )
        }),
{
    let told = "ui_snapshot "@ + which + " — "@ + window + ", "@ + elements + " of "@ + painted
        + " painted elements"@ + early + "\n"@ + snapshot;
    let a = "ui_snapshot "@ + which;
    let b = " — "@ + window;
    let c = ", "@ + elements + " of "@ + painted + " painted elements"@;
    let end = "\n"@ + snapshot;
    assert(told =~= a + b + c + early + end);
    lemma_pieces(a, b, c, early, end, told);
    if early.len() == 0 {
        let front = ", "@ + elements + " of "@ + painted;
        assert(told =~= a + b + front + " painted elements"@ + end);
        lemma_pieces(a, b, front, " painted elements"@, end, told);
    }
}

proof fn lemma_each_block(s: Seq<char>, images: Seq<ImageValue>, n: int)
    requires
        0 <= n <= images.len(),
    ensures
        blocks(s, images, n).len() == n + 1,
        blocks(s, images, n)[0] == guide::text_block(s),
        forall|i: int|
            1 <= i <= n ==> #[trigger] blocks(s, images, n)[i] == image_block(images[i - 1]),
    decreases n,
{
    if n > 0 {
        lemma_each_block(s, images, n - 1);
    }
}

/// The first block of an answer is its text; then comes every image, in order,
/// as it is.
pub proof fn lemma_what_the_blocks_hold(s: Seq<char>, images: Seq<ImageValue>, i: int)
    requires
        0 <= i < images.len(),
    ensures
        ({
            let all = blocks(s, images, images.len() as int);
            &&& all.len() == images.len() + 1
            &&& json::field_text(all[0], "type"@) == Some("text"@)
            &&& json::field_text(all[0], "text"@) == Some(s)
            &&& json::field_text(all[i + 1], "type"@) == Some("image"@)
            &&& json::field_text(all[i + 1], "data"@) == Some(images[i].data)
            &&& json::field_text(all[i + 1], "mimeType"@) == Some(images[i].mime_type)
        }),
{
    lemma_each_block(s, images, images.len() as int);
    reveal_strlit("type");
    reveal_strlit("text");
    reveal_strlit("data");
    reveal_strlit("mimeType");
    assert("type"@[1] == 'y' && "text"@[1] == 'e' && "data"@[1] == 'a' && "mimeType"@.len() == 8);
    assert("type"@.len() == 4 && "data"@.len() == 4);
    let first = guide::text_block(s)->Object_0;
    json::lemma_field_at(first, 0);
    json::lemma_field_at(first, 1);
    let block = image_block(images[i])->Object_0;
    json::lemma_field_at(block, 0);
    json::lemma_field_at(block, 1);
    json::lemma_field_at(block, 2);
    let all = blocks(s, images, images.len() as int);
    assert(all[i + 1] == image_block(images[i]));
}

/// A replay needs the path of a script. It seeks only where that was asked
/// for, and stops at a failure unless that was turned off.
pub proof fn lemma_what_a_replay_needs(arguments: JsonValue)
    ensures
        replay_asked(arguments) is Ok <==> json::field_text(arguments, "path"@) is Some,
        replay_asked(arguments) matches Ok((path, options)) ==> {
            &&& json::field(arguments, "path"@) == Some(JsonValue::Text(path))
            &&& options.seek <==> json::field(arguments, "seek"@) == Some(JsonValue::Bool(true))
            &&& !options.stop_on_error <==> json::field(arguments, "stop_on_error"@) == Some(
                JsonValue::Bool(false),
            )
        },
{
}

/// A viewport as JSON has its width for a width and its height for a height.
pub proof fn lemma_how_a_viewport_is_told(viewport: ViewportValue)
    ensures
        json::field(viewport_value(viewport), "width"@) == Some(JsonValue::Number(viewport.width)),
        json::field(viewport_value(viewport), "height"@) == Some(
            JsonValue::Number(viewport.height),
        ),
{
    reveal_strlit("width");
    reveal_strlit("height");
    assert("width"@.len() == 5 && "height"@.len() == 6);
    let fields = viewport_value(viewport)->Object_0;
    json::lemma_field_at(fields, 0);
    json::lemma_field_at(fields, 1);
}

/// What applying a viewport did is told field by field, and what is not known
/// is left out.
pub proof fn lemma_how_a_header_is_told(outcome: ViewportOutcomeValue)
    ensures
        json::field_text(header_value(outcome), "status"@) == Some(outcome.status),
        json::field(header_value(outcome), "requested"@) == Some(viewport_value(outcome.requested)),
        outcome.reached matches Some(reached) ==> json::field(header_value(outcome), "reached"@)
            == Some(viewport_value(reached)),
        outcome.reached is None ==> json::field(header_value(outcome), "reached"@) is None,
        json::field_text(header_value(outcome), "detail"@) == outcome.detail,
        outcome.detail is None ==> json::field(header_value(outcome), "detail"@) is None,
{
    reveal_strlit("status");
    reveal_strlit("requested");
    reveal_strlit("reached");
    reveal_strlit("detail");
    assert("status"@.len() == 6 && "requested"@.len() == 9 && "reached"@.len() == 7
        && "detail"@.len() == 6 && "status"@[0] == 's' && "detail"@[0] == 'd');
    let fields = header_value(outcome)->Object_0;
    json::lemma_field_at(fields, 0);
    json::lemma_field_at(fields, 1);
    if outcome.reached is Some {
        json::lemma_field_at(fields, 2);
    } else {
        json::lemma_no_such_field(fields, "reached"@);
    }
    if outcome.detail is Some {
        json::lemma_field_at(fields, fields.len() - 1);
    } else {
        json::lemma_no_such_field(fields, "detail"@);
    }
}

/// What a step did is told field by field.
pub proof fn lemma_how_a_step_is_told(outcome: OutcomeValue)
    ensures
        json::field(outcome_value(outcome), "index"@) == Some(
            JsonValue::Number(json::whole_number(outcome.index)),
        ),
        json::field_text(outcome_value(outcome), "method"@) == Some(outcome.method),
        json::field_text(outcome_value(outcome), "status"@) == Some(outcome.status),
        json::field_text(outcome_value(outcome), "detail"@) == outcome.detail,
        outcome.detail is None ==> json::field(outcome_value(outcome), "detail"@) is None,
{
    reveal_strlit("index");
    reveal_strlit("method");
    reveal_strlit("status");
    reveal_strlit("detail");
    assert("index"@[0] == 'i' && "method"@[0] == 'm' && "status"@[0] == 's' && "detail"@[0]
        == 'd');
    let fields = outcome_value(outcome)->Object_0;
    json::lemma_field_at(fields, 0);
    json::lemma_field_at(fields, 1);
    json::lemma_field_at(fields, 2);
    if outcome.detail is Some {
        json::lemma_field_at(fields, 3);
    } else {
        json::lemma_no_such_field(fields, "detail"@);
    }
}

proof fn lemma_each_outcome(steps: Seq<OutcomeValue>, n: int)
    requires
        0 <= n <= steps.len(),
    ensures
        outcome_values(steps, n).len() == n,
        forall|i: int|
            0 <= i < n ==> #[trigger] outcome_values(steps, n)[i] == outcome_value(steps[i]),
    decreases n,
{
    if n > 0 {
        lemma_each_outcome(steps, n - 1);
    }
}

/// A report is told field by field: whether it is ok, every count, what
/// applying the viewport did where there was one, every step in order, and
/// which script it is of.
pub proof fn lemma_how_a_report_is_told(report: ReportValue, name: Seq<char>, path: Seq<char>)
    ensures
        ({
            let told = report_value(report, name, path);
            let number = |n: nat| Some(JsonValue::Number(json::whole_number(n)));
            &&& json::field_bool(told, "ok"@) == Some(report.ok)
            &&& json::field(told, "passed"@) == number(report.passed)
            &&& json::field(told, "failed"@) == number(report.failed)
            &&& json::field(told, "skipped"@) == number(report.skipped)
            &&& json::field(told, "of"@) == number(report.of)
            &&& report.viewport matches Some(outcome) ==> json::field(told, "viewport"@) == Some(
                header_value(outcome),
            )
            &&& report.viewport is None ==> json::field(told, "viewport"@) is None
            &&& json::field_text(told, "script"@) == Some(name)
            &&& json::field_text(told, "path"@) == Some(path)
            &&& json::field(told, "steps"@) matches Some(JsonValue::Array(steps))
            &&& steps.len() == report.steps.len()
            &&& forall|i: int|
                0 <= i < steps.len() ==> #[trigger] steps[i] == outcome_value(report.steps[i])
        }),
{
    reveal_strlit("ok");
    reveal_strlit("passed");
    reveal_strlit("failed");
    reveal_strlit("skipped");
    reveal_strlit("of");
    reveal_strlit("viewport");
    reveal_strlit("steps");
    reveal_strlit("script");
    reveal_strlit("path");
    assert("ok"@.len() == 2 && "of"@.len() == 2 && "ok"@[1] == 'k' && "of"@[1] == 'f');
    assert("passed"@.len() == 6 && "failed"@.len() == 6 && "script"@.len() == 6 && "passed"@[0]
        == 'p' && "failed"@[0] == 'f' && "script"@[0] == 's');
    assert("skipped"@.len() == 7 && "viewport"@.len() == 8 && "steps"@.len() == 5 && "path"@.len()
        == 4);
    let fields = report_value(report, name, path)->Object_0;
    let n = fields.len() as int;
    json::lemma_field_at(fields, 0);
    json::lemma_field_at(fields, 1);
    json::lemma_field_at(fields, 2);
    json::lemma_field_at(fields, 3);
    json::lemma_field_at(fields, 4);
    if report.viewport is Some {
        json::lemma_field_at(fields, 5);
    } else {
        json::lemma_no_such_field(fields, "viewport"@);
    }
    json::lemma_field_at(fields, n - 3);
    json::lemma_field_at(fields, n - 2);
    json::lemma_field_at(fields, n - 1);
    lemma_each_outcome(report.steps, report.steps.len() as int);
}

/// What a tool call that succeeded is answered holds a text block and then one
/// block for each image, and is not marked as an error; what one that failed is
/// answered says what went wrong, and is.
pub proof fn lemma_what_a_tool_call_is_answered(
    id: JsonValue,
    said: Seq<char>,
    images: Seq<ImageValue>,
    error: Seq<char>,
)
    ensures
        json::field(tool_answer(said, images), "content"@) == Some(
            JsonValue::Array(blocks(said, images, images.len() as int)),
        ),
        blocks(said, images, images.len() as int).len() == images.len() + 1,
        guide::is_text(blocks(said, images, images.len() as int)[0], said),
        !guide::is_error(tool_answer(said, images)),
        success(id, tool_answer(said, images)).result == Some(tool_answer(said, images)),
        success(id, tool_answer(said, images)).id == id,
        guide::tells(guide::error_answer("Error: "@ + error), "Error: "@ + error),
        guide::is_error(guide::error_answer("Error: "@ + error)),
{
    lemma_each_block(said, images, images.len() as int);
    guide::lemma_answers_tell(said);
    guide::lemma_answers_tell("Error: "@ + error);
    let fields = tool_answer(said, images)->Object_0;
    json::lemma_field_at(fields, 0);
    reveal_strlit("content");
    reveal_strlit("isError");
    assert("content"@[0] == 'c' && "isError"@[0] == 'i');
    json::lemma_no_such_field(fields, "isError"@);
}

} // verus!
