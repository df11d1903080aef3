use gpui_mcp::dispatch::{answer_for, app_call, handle_request, respond, AppCall, Reply};
use gpui_mcp::ipc::{check_line, request_for, settle_response, REBUILD_APP};
use gpui_mcp::json::{Fields, Json};
use gpui_mcp::protocol::{
    default_true, id_looks_generated, is_zero, methods, version_complaint, IpcRequest, IpcResponse,
    Modifiers, MouseButton, TakeScreenshotParams, WaitForParams, PROTOCOL_VERSION, VERSION_UNKNOWN,
};

#[test]
fn a_peer_that_agrees_is_silent() {
    assert_eq!(
        version_complaint(PROTOCOL_VERSION, "server", "(cd .. && cargo build)"),
        None
    );
}

#[test]
fn a_peer_predating_the_handshake_is_named_as_such() {
    let complaint = version_complaint(VERSION_UNKNOWN, "MCP server", "rebuild-me")
        .expect("an unversioned peer must be reported");
    assert!(
        complaint.contains("predates the version handshake"),
        "{complaint}"
    );
    assert!(complaint.contains("MCP server"), "{complaint}");
    assert!(complaint.contains("rebuild-me"), "{complaint}");
}

#[test]
fn a_peer_on_another_version_is_named_with_its_number() {
    let complaint = version_complaint(PROTOCOL_VERSION + 7, "app", "cargo xtask run")
        .expect("a divergent peer must be reported");
    assert!(
        complaint.contains(&format!("v{}", PROTOCOL_VERSION + 7)),
        "{complaint}"
    );
    assert!(complaint.contains("cargo xtask run"), "{complaint}");
}

#[test]
fn a_complaint_reads_as_a_whole() {
    assert_eq!(
        version_complaint(1, "app", "make").unwrap(),
        "gpui-mcp protocol mismatch: the app speaks protocol v1, this side speaks v2. They are \
         built from one crate but by different mechanisms, so they can drift apart. Rebuild the \
         app: make"
    );
}

#[test]
fn constructors_stamp_the_current_version() {
    let request = IpcRequest::new(
        "1".into(),
        methods::GET_WINDOWS.into(),
        Json::empty_object(),
    );
    assert_eq!(request.protocol_version, PROTOCOL_VERSION);
    let response = IpcResponse::new("1".into(), Ok(Json::empty_object()));
    assert_eq!(response.protocol_version, PROTOCOL_VERSION);
}

#[test]
fn every_method_is_listed_once() {
    let mut all = methods::all();
    let before = all.len();
    all.sort_unstable();
    all.dedup();
    assert_eq!(before, all.len(), "a method appears twice in ALL");
    for method in [methods::WAIT_FOR, methods::BATCH] {
        assert!(methods::all().contains(&method), "{method} missing from ALL");
    }
    assert!(methods::is_method("reset_app"));
    assert!(!methods::is_method("reset"));
}

/// The whole point: `input-4294967299` is lowercase and dashed, exactly
/// like an id somebody chose, and only the digit run tells them apart.
#[test]
fn a_generated_id_is_told_apart_from_a_written_one() {
    assert!(id_looks_generated("input-4294967299"));
    assert!(id_looks_generated("view4294967734"));

    assert!(!id_looks_generated("save-button"));
    assert!(!id_looks_generated("item-3"));
    assert!(!id_looks_generated("row-42"));
    assert!(!id_looks_generated("since-2024"), "a year is not a handle");
    assert!(!id_looks_generated(""));
}

#[test]
fn six_digits_are_where_the_line_is() {
    assert!(!id_looks_generated("a12345"));
    assert!(id_looks_generated("a123456"));
    assert!(!id_looks_generated("123456a"));
    assert!(id_looks_generated("123456"));
}

#[test]
fn defaults_are_the_quiet_ones() {
    assert_eq!(MouseButton::default(), MouseButton::Left);
    assert_eq!(
        Modifiers::default(),
        Modifiers { ctrl: false, alt: false, shift: false, meta: false }
    );
    assert!(WaitForParams::default().element_id.is_none());
    assert!(!WaitForParams::default().absent);
    assert!(TakeScreenshotParams::default().max_width.is_none());
    assert!(default_true());
    assert!(is_zero(&0));
    assert!(!is_zero(&7));
}

#[test]
fn every_request_has_an_id_of_its_own() {
    let a = request_for("get_windows", Json::Null);
    let b = request_for("get_windows", Json::Null);
    assert_ne!(a.id, b.id);
    assert_eq!(a.id.len(), 36);
    assert_eq!(a.id.as_bytes()[14], b'4');
    assert!("89ab".contains(&a.id[19..20]), "{}", a.id);
    assert_eq!(a.id.matches('-').count(), 4);
    assert_eq!(a.method, "get_windows");
    assert_eq!(a.params, Json::Null);
    assert_eq!(a.protocol_version, PROTOCOL_VERSION);
}

#[test]
fn an_empty_line_is_no_answer() {
    assert_eq!(
        check_line(" \n").unwrap_err(),
        "GPUI app closed the connection without a response"
    );
    assert_eq!(check_line(""), check_line("\t"));
    assert!(check_line("{}\n").is_ok());
}

#[test]
fn an_answer_of_another_version_is_an_error() {
    let stale = IpcResponse { id: "1".into(), result: Ok(Json::Null), protocol_version: 0 };
    assert_eq!(
        settle_response(stale).unwrap_err(),
        version_complaint(0, "GPUI app", REBUILD_APP).unwrap()
    );
    assert_eq!(
        settle_response(IpcResponse::new("1".into(), Ok(Json::Bool(true)))),
        Ok(Json::Bool(true))
    );
    assert_eq!(
        settle_response(IpcResponse::new("1".into(), Err("boom".into()))).unwrap_err(),
        "GPUI app error: boom"
    );
}

#[test]
fn a_request_reaches_the_function_it_asks_for() {
    assert_eq!(app_call("inspect_ui_tree"), Some(AppCall::GetUiTree));
    assert_eq!(app_call("get_element"), Some(AppCall::GetElement));
    assert_eq!(app_call("get_windows"), Some(AppCall::GetWindows));
    assert_eq!(app_call("take_screenshot"), Some(AppCall::TakeScreenshot));
    assert_eq!(app_call("click_element"), Some(AppCall::ClickElement));
    assert_eq!(app_call("send_key"), Some(AppCall::SendKey));
    assert_eq!(app_call("execute_action"), Some(AppCall::ExecuteAction));
    assert_eq!(app_call("get_app_state"), Some(AppCall::GetAppState));
    assert_eq!(app_call("get_logs"), Some(AppCall::GetLogs));
    assert_eq!(app_call("wait_for"), None);
}

#[test]
fn a_reply_becomes_an_answer() {
    let asked = Fields::new().with("element_id", Json::text("x")).object();
    assert_eq!(answer_for(&asked, Reply::Value(Json::Bool(true))), Ok(Json::Bool(true)));
    assert_eq!(
        answer_for(&asked, Reply::Element(Some(Json::Bool(true)))),
        Ok(Json::Bool(true))
    );
    assert_eq!(
        answer_for(&asked, Reply::Element(None)).unwrap_err(),
        "Element not found: x"
    );
    let listed = Json::Array(vec![Json::text("y")]);
    assert_eq!(
        answer_for(&listed, Reply::Element(None)).unwrap_err(),
        "Element not found: y"
    );
    let request = IpcRequest::new("9".into(), "get_element".into(), asked.clone());
    let result = handle_request(&request, |call, params| {
        assert_eq!(call, AppCall::GetElement);
        assert_eq!(params.get_text("element_id"), Some("x"));
        Ok(Reply::Element(None))
    });
    assert_eq!(result.unwrap_err(), "Element not found: x");
    assert_eq!(
        answer_for(&asked, Reply::Done(true)).unwrap().compact(),
        "{\"success\":true}"
    );
    assert_eq!(
        answer_for(&asked, Reply::Lines(vec!["a".into(), "b".into()])).unwrap().compact(),
        "{\"logs\":[\"a\",\"b\"]}"
    );
}

#[test]
fn an_unknown_method_does_not_reach_the_app() {
    let request = IpcRequest::new("7".into(), "dance".into(), Json::Null);
    let result = handle_request(&request, |_, _| panic!("the app was asked"));
    assert_eq!(result.as_ref().unwrap_err(), "Unknown method: dance");
    let response = respond(request, result);
    assert_eq!(response.id, "7");
    assert_eq!(response.protocol_version, PROTOCOL_VERSION);

    let request = IpcRequest::new("8".into(), "send_key".into(), Json::text("k"));
    let result = handle_request(&request, |call, params| {
        assert_eq!(call, AppCall::SendKey);
        assert_eq!(params, &Json::text("k"));
        Ok(Reply::Done(false))
    });
    assert_eq!(result.unwrap().compact(), "{\"success\":false}");
    let result = handle_request(&request, |_, _| Err("locked".to_string()));
    assert_eq!(result.unwrap_err(), "locked");
}
