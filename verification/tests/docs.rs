use gpui_mcp::docs::{
    topic, topic_names, topics, unknown_topic_message, DEFAULT_TOPIC, INSTRUCTIONS, TOOL_NAME,
};
use gpui_mcp::protocol::methods;

#[test]
fn every_topic_is_reachable_by_name() {
    for t in topics() {
        assert!(topic(t.name).is_some(), "topic {} not resolvable", t.name);
    }
    assert!(topic(DEFAULT_TOPIC).is_some());
}

#[test]
fn a_topic_is_the_one_that_was_asked_for() {
    for t in topics() {
        let found = topic(t.name).unwrap();
        assert_eq!((found.name, found.summary, found.body), (t.name, t.summary, t.body));
    }
    assert!(topic("Overview").is_none(), "names are exact");
    assert!(topic("").is_none());
}

#[test]
fn no_topic_is_empty() {
    for t in topics() {
        assert!(!t.summary.trim().is_empty(), "{} has no summary", t.name);
        assert!(
            t.body.trim().len() > 200,
            "{} looks like a stub ({} bytes)",
            t.name,
            t.body.trim().len()
        );
    }
}

#[test]
fn topic_names_are_unique() {
    let all = topics();
    let mut names: Vec<&str> = all.iter().map(|t| t.name).collect();
    names.sort_unstable();
    let before = names.len();
    names.dedup();
    assert_eq!(before, names.len(), "duplicate topic name");
}

/// The guide is only useful while it still describes the tools that exist.
/// A new method that nobody documented fails here rather than silently
/// leaving the agent to discover it.
#[test]
fn the_tools_topic_documents_every_method() {
    let body = topic("tools").expect("tools topic").body;
    for method in methods::all() {
        assert!(
            body.contains(method),
            "method '{method}' is not documented in the 'tools' topic"
        );
    }
    assert!(
        body.contains(TOOL_NAME),
        "the guide tool itself is not documented"
    );
}

/// `INSTRUCTIONS` is in context for the whole session, so it has a budget.
#[test]
fn instructions_stay_short() {
    assert!(
        INSTRUCTIONS.len() < 1600,
        "instructions grew to {} bytes — move detail into a topic",
        INSTRUCTIONS.len()
    );
    assert!(INSTRUCTIONS.contains(TOOL_NAME), "no pointer to the guide");
    for name in ["overview", "recipes", "troubleshooting"] {
        assert!(INSTRUCTIONS.contains(name), "{name} not offered");
    }
}

#[test]
fn unknown_topic_lists_the_alternatives() {
    let msg = unknown_topic_message("nope");
    assert!(msg.contains("nope"));
    for t in topics() {
        assert!(msg.contains(t.name), "{} missing from the menu", t.name);
    }
}

#[test]
fn the_menu_is_a_table() {
    let msg = unknown_topic_message("x");
    let lines: Vec<&str> = msg.lines().collect();
    assert_eq!(lines[0], "Unknown guide topic 'x'. Available topics:");
    assert_eq!(
        lines[2],
        "  tools            Every tool with a minimal call and what it returns"
    );
    assert_eq!(lines.len(), 1 + topics().len());
    assert!(msg.ends_with('\n'));
}

#[test]
fn topic_names_render_as_a_list() {
    let names = topic_names();
    assert!(names.contains(DEFAULT_TOPIC));
    assert!(names.contains(", "));
    assert_eq!(
        names,
        "overview, tools, recipes, ids, focus, screenshots, recording, troubleshooting"
    );
}
