use gpui_mcp::docs;
use gpui_mcp::guide::{get_prompt, guide_result, prompts_list, read_resource, resources_list};
use gpui_mcp::json::{Json, Number};
use gpui_mcp::mcp::{
    answer_text, replay_arguments, report_json, route, snapshot_text, tool_error, tool_response,
    McpRequest, Route,
};
use gpui_mcp::protocol::methods;
use gpui_mcp::replay::{replay, ReplayOptions};
use gpui_mcp::screenshots::InlineImage;
use gpui_mcp::script::{is_not_recorded, Script, Step, REPLAY_TOOL};
use gpui_mcp::tools::tools_list;

fn convert(value: &serde_json::Value) -> Json {
    match value {
        serde_json::Value::Null => Json::Null,
        serde_json::Value::Bool(b) => Json::Bool(*b),
        serde_json::Value::Number(n) => Json::Number(Number {
            literal: n.to_string(),
            plain: n.as_f64().map(|n| n.to_string()).unwrap_or_default(),
            single: serde_json::from_value::<f32>(n.clone().into())
                .ok()
                .map(|n| serde_json::Value::from(n).to_string()),
        }),
        serde_json::Value::String(s) => Json::Text(s.clone()),
        serde_json::Value::Array(items) => Json::Array(items.iter().map(convert).collect()),
        serde_json::Value::Object(fields) => {
            Json::Object(fields.iter().map(|(k, v)| (k.clone(), convert(v))).collect())
        }
    }
}

/// The value that a JSON text writes.
fn json(text: &str) -> Json {
    convert(&serde_json::from_str(text).expect("a JSON text"))
}


fn at<'a>(value: &'a Json, path: &[&str]) -> &'a Json {
    let mut value = value;
    for key in path {
        value = match value {
            Json::Array(items) => &items[key.parse::<usize>().unwrap()],
            other => other.get(key).unwrap_or(&Json::Null),
        };
    }
    value
}

fn items<'a>(value: &'a Json, key: &str) -> &'a Vec<Json> {
    match value.get(key) {
        Some(Json::Array(items)) => items,
        other => panic!("{key} is no array: {other:?}"),
    }
}

/// The guide only helps if it is the first thing an agent sees.
#[test]
fn the_guide_is_advertised_first() {
    let tools = tools_list();
    let tools = items(&tools, "tools");
    assert_eq!(tools[0].get_text("name"), Some(docs::TOOL_NAME));
    assert_eq!(
        tools.len(),
        methods::all().len() + 2,
        "every IPC method plus the two the server answers itself"
    );
    assert!(
        tools.iter().any(|tool| tool.get_text("name") == Some(REPLAY_TOOL)),
        "replay is not advertised"
    );
    for method in methods::all() {
        assert!(
            tools.iter().any(|tool| tool.get_text("name") == Some(method)),
            "tool '{method}' is not advertised"
        );
    }
}

/// A `topic` outside the schema's enum would be refused by strict clients
/// before it ever reaches `guide_result`.
#[test]
fn the_guide_schema_offers_every_topic() {
    let tools = tools_list();
    let values = match at(
        &tools,
        &["tools", "0", "inputSchema", "properties", "topic", "enum"],
    ) {
        Json::Array(values) => values,
        other => panic!("topic enum: {other:?}"),
    };
    assert_eq!(values.len(), docs::topics().len());
    for topic in docs::topics() {
        assert!(
            values.iter().any(|value| value.as_str() == Some(topic.name)),
            "{} missing from the schema enum",
            topic.name
        );
    }
}

#[test]
fn every_tool_has_a_description_and_a_schema() {
    for tool in items(&tools_list(), "tools") {
        let name = tool.get_text("name").unwrap();
        assert!(tool.get_text("description").unwrap().contains("Example: {"), "{name}");
        assert_eq!(at(tool, &["inputSchema", "type"]).as_str(), Some("object"), "{name}");
        for required in items(tool.get("inputSchema").unwrap(), "required") {
            let key = required.as_str().unwrap();
            assert!(
                at(tool, &["inputSchema", "properties"]).get(key).is_some(),
                "{name} requires {key}, which it does not describe"
            );
        }
    }
}

#[test]
fn a_batch_cannot_contain_a_batch() {
    let tools = tools_list();
    let batch = items(&tools, "tools")
        .iter()
        .find(|tool| tool.get_text("name") == Some("batch"))
        .unwrap();
    let path = ["inputSchema", "properties", "steps", "items", "properties", "method", "enum"];
    match at(batch, &path) {
        Json::Array(values) => {
            assert_eq!(values.len(), methods::all().len() - 1);
            assert!(values.iter().all(|value| value.as_str() != Some("batch")));
        }
        other => panic!("{other:?}"),
    }
}

#[test]
fn the_guide_defaults_to_the_overview() {
    let overview = docs::topic(docs::DEFAULT_TOPIC).unwrap().body;
    for arguments in [json("{}"), json(r#"{ "topic": "" }"#), json(r#"{ "topic": "  " }"#)] {
        let result = guide_result(&arguments);
        assert_eq!(
            at(&result, &["content", "0", "text"]).as_str(),
            Some(overview),
            "{arguments:?}"
        );
        assert!(result.get("isError").is_none());
    }
}

#[test]
fn the_guide_serves_the_topic_asked_for() {
    let result = guide_result(&json(r#"{ "topic": "recipes" }"#));
    assert_eq!(
        at(&result, &["content", "0", "text"]).as_str(),
        Some(docs::topic("recipes").unwrap().body)
    );
}

#[test]
fn a_bad_topic_gets_the_menu_not_a_shrug() {
    let result = guide_result(&json(r#"{ "topic": "nonsense" }"#));
    assert_eq!(result.get("isError"), Some(&Json::Bool(true)));
    let text = at(&result, &["content", "0", "text"]).as_str().unwrap();
    assert!(text.contains("nonsense"));
    for topic in docs::topics() {
        assert!(text.contains(topic.name), "{} not offered", topic.name);
    }
}

#[test]
fn every_topic_is_readable_as_a_resource() {
    let listed = resources_list();
    let listed = items(&listed, "resources");
    assert_eq!(listed.len(), docs::topics().len());

    for resource in listed {
        let uri = resource.get_text("uri").unwrap();
        let contents = read_resource(uri).expect("listed resource must be readable");
        let name = uri.strip_prefix(docs::RESOURCE_PREFIX).unwrap();
        assert_eq!(at(&contents, &["contents", "0", "uri"]).as_str(), Some(uri));
        assert_eq!(
            at(&contents, &["contents", "0", "text"]).as_str(),
            Some(docs::topic(name).unwrap().body)
        );
    }
}

#[test]
fn a_resource_outside_the_guide_is_refused() {
    for uri in [
        "gpui://guide/nonsense",
        "file:///etc/passwd",
        "gpui://something-else",
        "",
    ] {
        assert!(read_resource(uri).is_err(), "{uri} should not resolve");
    }
    assert_eq!(
        read_resource("x").unwrap_err(),
        "Unknown resource 'x'. Guide resources start with gpui://guide/"
    );
}

#[test]
fn the_prompt_without_a_topic_carries_the_starting_three() {
    let prompt = get_prompt(docs::PROMPT_NAME, &json("{}")).expect("prompt");
    let text = at(&prompt, &["messages", "0", "content", "text"]).as_str().unwrap();
    for name in ["overview", "tools", "recipes"] {
        assert!(
            text.contains(docs::topic(name).unwrap().body),
            "{name} missing from the onboarding prompt"
        );
    }
    assert_eq!(at(&prompt, &["messages", "0", "role"]).as_str(), Some("user"));
}

#[test]
fn the_prompt_can_be_narrowed_to_one_topic() {
    let prompt = get_prompt(docs::PROMPT_NAME, &json(r#"{ "topic": "focus" }"#)).expect("prompt");
    assert_eq!(
        at(&prompt, &["messages", "0", "content", "text"]).as_str(),
        Some(docs::topic("focus").unwrap().body)
    );
}

#[test]
fn an_unknown_prompt_names_the_one_that_exists() {
    let error = get_prompt("nope", &json("{}")).expect_err("unknown prompt");
    assert!(error.contains(docs::PROMPT_NAME), "{error}");
    let error = get_prompt(docs::PROMPT_NAME, &json(r#"{ "topic": "nope" }"#))
        .expect_err("unknown topic");
    assert!(error.contains("nope"), "{error}");
}

#[test]
fn the_prompt_is_listed_with_its_topics() {
    let listed = prompts_list();
    assert_eq!(at(&listed, &["prompts", "0", "name"]).as_str(), Some("onboard"));
    let text = at(&listed, &["prompts", "0", "arguments", "0", "description"]).as_str().unwrap();
    assert!(text.starts_with("One topic (overview, tools, "), "{text}");
}

/// Forwarding goes over the socket; the guide must never get that far, or it
/// would fail exactly when it is needed most. Replay is server-local for a
/// different reason: it drives the app *through* the other tools rather than
/// being one of them.
#[test]
fn the_server_local_tools_are_not_ipc_methods() {
    assert!(!methods::all().contains(&docs::TOOL_NAME));
    assert!(!methods::all().contains(&REPLAY_TOOL));
}

/// A replay that recorded itself would grow without end.
#[test]
fn the_server_local_tools_are_never_recorded() {
    assert!(is_not_recorded(docs::TOOL_NAME));
    assert!(is_not_recorded(REPLAY_TOOL));
    assert!(!is_not_recorded("send_key"));
}

#[test]
fn replay_needs_a_path() {
    let error = replay_arguments(&json("{}")).expect_err("no path");
    assert!(error.to_string().contains("path"), "{error}");
}

#[test]
fn a_replay_is_a_test_unless_told_otherwise() {
    let (path, options) = replay_arguments(&json(r#"{"path": "a.json"}"#)).unwrap();
    assert_eq!(path, "a.json");
    assert!(!options.seek && options.stop_on_error);
    let (_, options) = replay_arguments(&json(
        r#"{"path": "a.json", "seek": true, "stop_on_error": false}"#,
    ))
    .unwrap();
    assert!(options.seek && !options.stop_on_error);
    let (_, options) =
        replay_arguments(&json(r#"{"path": "a.json", "seek": 1, "stop_on_error": "no"}"#)).unwrap();
    assert!(!options.seek && options.stop_on_error);
}

fn request(method: &str, params: Option<Json>) -> McpRequest {
    McpRequest {
        jsonrpc: "2.0".into(),
        id: Some(json("3")),
        method: method.into(),
        params,
    }
}

fn answered(method: &str, params: Option<Json>) -> Json {
    match route(request(method, params)) {
        Route::Respond(response) => {
            assert_eq!(response.jsonrpc, "2.0");
            assert_eq!(response.id, json("3"));
            assert!(response.error.is_none());
            response.result.expect("a result")
        }
        other => panic!("{other:?}"),
    }
}

#[test]
fn the_handshake_carries_the_orientation() {
    let result = answered("initialize", None);
    assert_eq!(result.get_text("instructions"), Some(docs::INSTRUCTIONS));
    assert_eq!(result.get_text("protocolVersion"), Some("2024-11-05"));
    assert_eq!(
        at(&result, &["serverInfo", "name"]).as_str(),
        Some("gpui-mcp-inspector")
    );
}

#[test]
fn the_lists_are_answered() {
    assert_eq!(answered("ping", None), Json::empty_object());
    assert_eq!(answered("tools/list", None), tools_list());
    assert_eq!(answered("resources/list", None), resources_list());
    assert_eq!(answered("prompts/list", None), prompts_list());
    assert_eq!(
        answered("resources/templates/list", None).compact(),
        "{\"resourceTemplates\":[]}"
    );
    assert_eq!(
        answered("resources/read", Some(json(r#"{"uri": "gpui://guide/ids"}"#))),
        read_resource("gpui://guide/ids").unwrap()
    );
    assert_eq!(
        answered("prompts/get", Some(json(r#"{"name": "onboard"}"#))),
        get_prompt("onboard", &Json::empty_object()).unwrap()
    );
}

#[test]
fn what_does_not_exist_is_an_error() {
    for (method, params, code) in [
        ("resources/read", None, -32602),
        ("prompts/get", None, -32602),
        ("dance", None, -32601),
    ] {
        match route(request(method, params)) {
            Route::Respond(response) => {
                assert!(response.result.is_none());
                let error = response.error.unwrap();
                assert_eq!(error.code, code);
                if code == -32601 {
                    assert_eq!(error.message, "Method not found: dance");
                }
            }
            other => panic!("{other:?}"),
        }
    }
}

#[test]
fn notifications_are_not_answered() {
    assert!(matches!(
        route(request("notifications/initialized", None)),
        Route::Silent(line) if line == "[MCP] Client initialized"
    ));
    assert!(matches!(
        route(request("notifications/cancelled", None)),
        Route::Silent(line)
            if line == "[MCP] Ignoring unknown notification: notifications/cancelled"
    ));
}

#[test]
fn tools_go_where_they_belong() {
    let guide = answered("tools/call", Some(json(r#"{"name": "gpui_guide"}"#)));
    assert_eq!(guide, guide_result(&Json::empty_object()));
    assert!(matches!(
        route(request("tools/call", Some(json(r#"{"name": "replay_script"}"#)))),
        Route::Replay { arguments, .. } if arguments == Json::empty_object()
    ));
    assert!(matches!(
        route(request(
            "tools/call",
            Some(json(r#"{"name": "expect_screenshot", "arguments": {"path": "g.png"}}"#))
        )),
        Route::Golden { arguments, .. } if arguments == json(r#"{"path": "g.png"}"#)
    ));
    assert!(matches!(
        route(request(
            "tools/call",
            Some(json(r#"{"name": "send_key", "arguments": {"key": "a"}}"#))
        )),
        Route::Forward { id, tool, arguments }
            if id == json("3") && tool == "send_key" && arguments == json(r#"{"key": "a"}"#)
    ));
    assert!(matches!(
        route(request("tools/call", None)),
        Route::Forward { tool, .. } if tool.is_empty()
    ));
}

#[test]
fn a_request_without_an_id_is_answered_with_null() {
    let route = route(McpRequest {
        jsonrpc: "2.0".into(),
        id: None,
        method: "ping".into(),
        params: None,
    });
    assert!(matches!(route, Route::Respond(response) if response.id == Json::Null));
}

#[test]
fn a_snapshot_is_handed_on_as_the_text_it_is() {
    let content = json(
        r##"{"snapshot_id": 4, "window_id": "WindowId(1)", "elements": 47,
            "painted_elements": 318, "snapshot": "- banner #title-bar @e1\n"}"##,
    );
    assert_eq!(
        snapshot_text("ui_snapshot", &content).unwrap(),
        "ui_snapshot 4 — WindowId(1), 47 of 318 painted elements\n- banner #title-bar @e1\n"
    );
    assert!(snapshot_text("get_logs", &content).is_none());
    assert!(snapshot_text("ui_snapshot", &json("{}")).is_none());
    assert_eq!(answer_text("get_logs", &content, "pretty".into()), "pretty");

    let content = json(r#"{"snapshot": "x", "truncated": true}"#);
    assert_eq!(
        snapshot_text("ui_snapshot", &content).unwrap(),
        "ui_snapshot null — ?, null of null painted elements (stopped early — raise \
         max_elements, or narrow with filter / root_element_id)\nx"
    );
}

#[test]
fn images_follow_the_text() {
    let images = vec![InlineImage { data: "AAA=".into(), mime_type: "image/png".into() }];
    let response = tool_response(json("1"), "hello", &images);
    assert_eq!(
        response.result.unwrap().compact(),
        "{\"content\":[{\"type\":\"text\",\"text\":\"hello\"},\
         {\"type\":\"image\",\"data\":\"AAA=\",\"mimeType\":\"image/png\"}]}"
    );
    let response = tool_error(json("1"), "no app");
    assert_eq!(
        response.result.unwrap().compact(),
        "{\"content\":[{\"type\":\"text\",\"text\":\"Error: no app\"}],\"isError\":true}"
    );
}

#[test]
fn a_report_says_which_script_it_is_of() {
    let script = Script {
        source: None,
        name: "t".into(),
        app: None,
        recorded_with: None,
        viewport: None,
        steps: vec![Step { method: "send_key".into(), params: Json::Null, note: None }],
    };
    let report = replay(&script, &ReplayOptions::default(), |_, _| Err("gone".to_string()));
    assert_eq!(
        report_json(&report, "t", "a.json").compact(),
        "{\"ok\":false,\"passed\":0,\"failed\":1,\"skipped\":0,\"of\":1,\"steps\":[{\"index\":0,\
         \"method\":\"send_key\",\"status\":\"failed\",\"detail\":\"gone\"}],\"script\":\"t\",\
         \"path\":\"a.json\"}"
    );
}
