use gpui_mcp::sockets::{
    choose_instance, newest_first, parse_socket_name, plan_socket, socket_candidate, Instance,
    SocketPlan, PID_WITHOUT_APP,
};

#[test]
fn parse_basic_name() {
    assert_eq!(
        parse_socket_name("gpui-mcp-elane-12345.sock"),
        Some(("elane".to_string(), 12345))
    );
}

#[test]
fn parse_app_name_with_dashes() {
    assert_eq!(
        parse_socket_name("gpui-mcp-my-editor-42.sock"),
        Some(("my-editor".to_string(), 42))
    );
    assert_eq!(
        parse_socket_name("gpui-mcp-a-b-c-7.sock"),
        Some(("a-b-c".to_string(), 7))
    );
}

#[test]
fn parse_rejects_wrong_prefix() {
    assert_eq!(parse_socket_name("other-thing-1.sock"), None);
    assert_eq!(parse_socket_name("gpui-foo-1.sock"), None);
}

#[test]
fn parse_rejects_wrong_suffix() {
    assert_eq!(parse_socket_name("gpui-mcp-elane-1.txt"), None);
    assert_eq!(parse_socket_name("gpui-mcp-elane-1"), None);
}

#[test]
fn parse_rejects_non_numeric_pid() {
    assert_eq!(parse_socket_name("gpui-mcp-elane-abc.sock"), None);
}

#[test]
fn parse_rejects_empty_app_name() {
    // "gpui-mcp--123.sock" → middle = "-123" → last_dash at 0 → app = "" → reject
    assert_eq!(parse_socket_name("gpui-mcp--123.sock"), None);
}

#[test]
fn parse_rejects_missing_pid_separator() {
    // No dash at all between app and pid: "gpui-mcp-elane.sock" → middle = "elane" → no '-'
    assert_eq!(parse_socket_name("gpui-mcp-elane.sock"), None);
}

#[test]
fn parse_accepts_numeric_app_name() {
    assert_eq!(
        parse_socket_name("gpui-mcp-123-456.sock"),
        Some(("123".to_string(), 456))
    );
}

#[test]
fn a_pid_is_a_32_bit_number() {
    assert_eq!(
        parse_socket_name("gpui-mcp-a-4294967295.sock"),
        Some(("a".to_string(), u32::MAX))
    );
    assert_eq!(parse_socket_name("gpui-mcp-a-4294967296.sock"), None);
    assert_eq!(parse_socket_name("gpui-mcp-a-.sock"), None);
    assert_eq!(parse_socket_name("gpui-mcp-a-+7.sock"), Some(("a".to_string(), 7)));
}

#[test]
fn a_planned_socket_name_parses_back() {
    match plan_socket(Some("my-editor"), Some("42")) {
        SocketPlan::Exact(name) => {
            assert_eq!(name, "gpui-mcp-my-editor-42.sock");
            assert_eq!(parse_socket_name(&name), Some(("my-editor".to_string(), 42)));
        }
        other => panic!("{other:?}"),
    }
}

#[test]
fn a_pid_alone_is_refused() {
    assert!(matches!(
        plan_socket(None, Some("42")),
        SocketPlan::Refused(reason) if reason == PID_WITHOUT_APP
    ));
    assert!(matches!(plan_socket(Some("a"), None), SocketPlan::Discover));
    assert!(matches!(plan_socket(None, None), SocketPlan::Discover));
}

#[test]
fn only_sockets_of_the_app_asked_for_are_probed() {
    assert_eq!(
        socket_candidate("gpui-mcp-elane-1.sock", Some("elane")),
        Some(("elane".to_string(), 1))
    );
    assert_eq!(socket_candidate("gpui-mcp-elane-1.sock", Some("story")), None);
    assert_eq!(
        socket_candidate("gpui-mcp-elane-1.sock", None),
        Some(("elane".to_string(), 1))
    );
    assert_eq!(socket_candidate("notes.txt", None), None);
}

fn instance(app: &str, pid: u32, mtime: i128) -> Instance {
    Instance {
        app_name: app.to_string(),
        pid,
        path: format!("/tmp/gpui-mcp-{app}-{pid}.sock"),
        mtime,
    }
}

#[test]
fn the_newest_instance_comes_first_and_ties_keep_their_order() {
    let sorted = newest_first(vec![
        instance("a", 1, 10),
        instance("b", 2, 30),
        instance("c", 3, 10),
        instance("d", 4, -5),
        instance("e", 5, 30),
    ]);
    let pids: Vec<u32> = sorted.iter().map(|i| i.pid).collect();
    assert_eq!(pids, [2, 5, 1, 3, 4]);
    assert!(newest_first(Vec::new()).is_empty());
}

#[test]
fn no_instance_says_where_was_looked() {
    assert_eq!(
        choose_instance(&Vec::new(), None, "/tmp").unwrap_err(),
        "No running GPUI app found. Scanned: /tmp"
    );
    assert_eq!(
        choose_instance(&Vec::new(), Some("story"), "/tmp").unwrap_err(),
        "No running GPUI app found for app 'story'. Scanned: /tmp"
    );
}

#[test]
fn one_instance_is_chosen_in_silence() {
    let choice = choose_instance(&vec![instance("a", 1, 0)], None, "/tmp").unwrap();
    assert_eq!(choice.path, "/tmp/gpui-mcp-a-1.sock");
    assert!(choice.warnings.is_empty());
}

#[test]
fn several_instances_are_named() {
    let list = vec![instance("a", 1, 9), instance("a", 2, 8)];
    let choice = choose_instance(&list, Some("a"), "/tmp").unwrap();
    assert_eq!(choice.path, "/tmp/gpui-mcp-a-1.sock");
    assert_eq!(
        choice.warnings,
        [
            "[MCP] Found 2 instances of 'a'. Connecting to newest: app='a', pid=1.",
            "[MCP] Other instances:",
            "[MCP]   - app='a', pid=2, path=/tmp/gpui-mcp-a-2.sock",
            "[MCP] Set GPUI_MCP_APP (and optionally GPUI_MCP_PID) to target a specific one.",
        ]
    );
}
