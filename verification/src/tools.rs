//! The tools the server advertises.
//!
//! Each entry is what an agent reads before it calls the tool: the name, what
//! it is for with an example, and a JSON schema of the arguments.
use vstd::prelude::*;
use vstd::string::*;

use crate::docs;
use crate::json;
use crate::json::{Fields, Items, Json, JsonValue};
use crate::protocol::methods;
use crate::script;
use crate::text;

verus! {

/// The schema of an argument of one type.
pub open spec fn typed(kind: Seq<char>, description: Seq<char>) -> JsonValue {
    JsonValue::Object(
        json::no_fields().push(("type"@, JsonValue::Text(kind))).push(
            ("description"@, JsonValue::Text(description)),
        ),
    )
}

fn typed_property(kind: &str, description: &str) -> (r: Json)
    ensures
        r@ == typed(kind@, description@),
{
    Fields::new().with("type", Json::text(kind)).with(
        "description",
        Json::text(description),
    ).object()
}

/// The schema of an argument of any type.
pub open spec fn untyped(description: Seq<char>) -> JsonValue {
    JsonValue::Object(json::no_fields().push(("description"@, JsonValue::Text(description))))
}

fn untyped_property(description: &str) -> (r: Json)
    ensures
        r@ == untyped(description@),
{
    Fields::new().with("description", Json::text(description)).object()
}

/// The schema of a string argument that is one of several.
pub open spec fn choice(names: Seq<JsonValue>, description: Seq<char>) -> JsonValue {
    JsonValue::Object(
        json::no_fields().push(("type"@, JsonValue::Text("string"@))).push(
            ("enum"@, JsonValue::Array(names)),
        ).push(("description"@, JsonValue::Text(description))),
    )
}

fn choice_property(names: Items, description: &str) -> (r: Json)
    ensures
        r@ == choice(names@, description@),
{
    Fields::new().with("type", Json::text("string")).with("enum", names.array()).with(
        "description",
        Json::text(description),
    ).object()
}

/// The schema of an argument that is an object of its own.
pub open spec fn nested(properties: Seq<(Seq<char>, JsonValue)>) -> JsonValue {
    JsonValue::Object(
        json::no_fields().push(("type"@, JsonValue::Text("object"@))).push(
            ("properties"@, JsonValue::Object(properties)),
        ),
    )
}

fn nested_property(properties: Fields) -> (r: Json)
    ensures
        r@ == nested(properties@),
{
    Fields::new().with("type", Json::text("object")).with(
        "properties",
        properties.object(),
    ).object()
}

/// The schema of an object some of whose fields are required.
pub open spec fn schema(
    properties: Seq<(Seq<char>, JsonValue)>,
    required: Seq<JsonValue>,
) -> JsonValue {
    JsonValue::Object(
        json::no_fields().push(("type"@, JsonValue::Text("object"@))).push(
            ("properties"@, JsonValue::Object(properties)),
        ).push(("required"@, JsonValue::Array(required))),
    )
}

fn schema_of(properties: Fields, required: Items) -> (r: Json)
    ensures
        r@ == schema(properties@, required@),
{
    Fields::new().with("type", Json::text("object")).with("properties", properties.object()).with(
        "required",
        required.array(),
    ).object()
}

/// How a tool is advertised.
pub open spec fn tool(
    name: Seq<char>,
    description: Seq<char>,
    properties: Seq<(Seq<char>, JsonValue)>,
    required: Seq<JsonValue>,
) -> JsonValue {
    JsonValue::Object(
        json::no_fields().push(("name"@, JsonValue::Text(name))).push(
            ("description"@, JsonValue::Text(description)),
        ).push(("inputSchema"@, schema(properties, required))),
    )
}

fn advertise(name: &str, description: &str, properties: Fields, required: Items) -> (r: Json)
    ensures
        r@ == tool(name@, description@, properties@, required@),
{
    Fields::new().with("name", Json::text(name)).with(
        "description",
        Json::text(description),
    ).with("inputSchema", schema_of(properties, required)).object()
}

/// The names of the first `n` topics, as strings.
pub open spec fn topic_items_of(topics: Seq<docs::TopicValue>, n: int) -> Seq<JsonValue>
    decreases n,
{
    if n <= 0 {
        json::no_items()
    } else {
        topic_items_of(topics, n - 1).push(JsonValue::Text(topics[n - 1].name))
    }
}

/// The topics a reader can choose from.
pub open spec fn topic_choices() -> Seq<JsonValue> {
    topic_items_of(docs::all_topics(), docs::all_topics().len() as int)
}

fn topic_items() -> (r: Items)
    ensures
        r@ == topic_choices(),
{
    let all: Vec<docs::Topic> = docs::topics();
    let mut out: Items = Items::new();
    let mut i: usize = 0;
    proof {
        assert(all@.len() == docs::all_topics().len());
    }
    while i < all.len()
        invariant
            i <= all@.len(),
            all@.len() == docs::all_topics().len(),
            docs::topics_of(all@) == docs::all_topics(),
            out@ == topic_items_of(docs::all_topics(), i as int),
        decreases all@.len() - i,
    {
        proof {
            assert(docs::all_topics()[i as int] == all@[i as int]@);
        }
        out = out.with(Json::text(all[i].name));
        i += 1;
    }
    out
}

/// The first `n` methods, without the batch, as strings.
pub open spec fn step_items_of(names: Seq<Seq<char>>, n: int) -> Seq<JsonValue>
    decreases n,
{
    if n <= 0 {
        json::no_items()
    } else if names[n - 1] == methods::BATCH@ {
        step_items_of(names, n - 1)
    } else {
        step_items_of(names, n - 1).push(JsonValue::Text(names[n - 1]))
    }
}

fn step_items() -> (r: Items)
    ensures
        r@ == step_items_of(methods::all_names(), methods::all_names().len() as int),
{
    let all: Vec<&'static str> = methods::all();
    let mut out: Items = Items::new();
    let mut i: usize = 0;
    proof {
        assert(all@.len() == methods::all_names().len());
    }
    while i < all.len()
        invariant
            i <= all@.len(),
            all@.len() == methods::all_names().len(),
            text::texts(all@) == methods::all_names(),
            out@ == step_items_of(methods::all_names(), i as int),
        decreases all@.len() - i,
    {
        proof {
            assert(methods::all_names()[i as int] == all@[i as int]@);
        }
        if !text::same_text(all[i], methods::BATCH) {
            out = out.with(Json::text(all[i]));
        }
        i += 1;
    }
    out
}

/// The schema of the steps of a batch: any method but the batch itself, with
/// its arguments.
pub open spec fn steps_schema() -> JsonValue {
    JsonValue::Object(
        json::no_fields().push(("type"@, JsonValue::Text("array"@))).push(
            ("description"@, JsonValue::Text(BATCH_STEPS@)),
        ).push(
            (
                "items"@,
                schema(
                    json::no_fields().push(
                        (
                            "method"@,
                            choice(
                                step_items_of(
                                    methods::all_names(),
                                    methods::all_names().len() as int,
                                ),
                                BATCH_STEP_METHOD@,
                            ),
                        ),
                    ).push(("params"@, typed("object"@, BATCH_STEP_PARAMS@))),
                    json::no_items().push(JsonValue::Text("method"@)),
                ),
            ),
        ),
    )
}

fn steps_property() -> (r: Json)
    ensures
        r@ == steps_schema(),
{
    let properties: Fields = Fields::new().with(
        "method",
        choice_property(step_items(), BATCH_STEP_METHOD),
    ).with("params", typed_property("object", BATCH_STEP_PARAMS));
    Fields::new().with("type", Json::text("array")).with("description", Json::text(BATCH_STEPS)).with(
        "items",
        schema_of(properties, Items::new().with(Json::text("method"))),
    ).object()
}

/// What the guide is for.
pub open spec fn guide_description() -> Seq<char> {
    GUIDE_BEFORE_TOPICS@ + text::joined(docs::names_of(docs::all_topics()), ", "@)
        + GUIDE_AFTER_TOPICS@
}

fn guide_text() -> (r: String)
    ensures
        r@ == guide_description(),
{
    let mut out: String = GUIDE_BEFORE_TOPICS.to_owned();
    out.append(docs::topic_names().as_str());
    out.append(GUIDE_AFTER_TOPICS);
    out
}

/// How `gpui_guide` is advertised.
pub open spec fn gpui_guide_value() -> JsonValue {
    tool(
        docs::TOOL_NAME@,
        guide_description(),
        json::no_fields()
            .push(("topic"@, choice(topic_choices(), GPUI_GUIDE_TOPIC@))),
        json::no_items(),
    )
}

fn gpui_guide_tool() -> (r: Json)
    ensures
        r@ == gpui_guide_value(),
{
    advertise(
        docs::TOOL_NAME,
        guide_text().as_str(),
        Fields::new()
            .with("topic", choice_property(topic_items(), GPUI_GUIDE_TOPIC)),
        Items::new(),
    )
}

/// How `replay_script` is advertised.
pub open spec fn replay_script_value() -> JsonValue {
    tool(
        script::REPLAY_TOOL@,
        REPLAY_SCRIPT_TOOL@,
        json::no_fields()
            .push(("path"@, typed("string"@, REPLAY_SCRIPT_PATH@)))
            .push(("seek"@, typed("boolean"@, REPLAY_SCRIPT_SEEK@)))
            .push(("stop_on_error"@, typed("boolean"@, REPLAY_SCRIPT_STOP_ON_ERROR@))),
        json::no_items()
            .push(JsonValue::Text("path"@)),
    )
}

fn replay_script_tool() -> (r: Json)
    ensures
        r@ == replay_script_value(),
{
    advertise(
        script::REPLAY_TOOL,
        REPLAY_SCRIPT_TOOL,
        Fields::new()
            .with("path", typed_property("string", REPLAY_SCRIPT_PATH))
            .with("seek", typed_property("boolean", REPLAY_SCRIPT_SEEK))
            .with("stop_on_error", typed_property("boolean", REPLAY_SCRIPT_STOP_ON_ERROR)),
        Items::new()
            .with(Json::text("path")),
    )
}

/// How `get_windows` is advertised.
pub open spec fn get_windows_value() -> JsonValue {
    tool(
        methods::GET_WINDOWS@,
        GET_WINDOWS_TOOL@,
        json::no_fields(),
        json::no_items(),
    )
}

fn get_windows_tool() -> (r: Json)
    ensures
        r@ == get_windows_value(),
{
    advertise(
        methods::GET_WINDOWS,
        GET_WINDOWS_TOOL,
        Fields::new(),
        Items::new(),
    )
}

/// How `ui_snapshot` is advertised.
pub open spec fn ui_snapshot_value() -> JsonValue {
    tool(
        methods::UI_SNAPSHOT@,
        UI_SNAPSHOT_TOOL@,
        json::no_fields()
            .push(("window_id"@, typed("string"@, UI_SNAPSHOT_WINDOW_ID@)))
            .push(("root_element_id"@, typed("string"@, UI_SNAPSHOT_ROOT_ELEMENT_ID@)))
            .push(("filter"@, typed("string"@, UI_SNAPSHOT_FILTER@)))
            .push(("interactive_only"@, typed("boolean"@, UI_SNAPSHOT_INTERACTIVE_ONLY@)))
            .push(("max_elements"@, typed("integer"@, UI_SNAPSHOT_MAX_ELEMENTS@)))
            .push(("include_bounds"@, typed("boolean"@, UI_SNAPSHOT_INCLUDE_BOUNDS@))),
        json::no_items(),
    )
}

fn ui_snapshot_tool() -> (r: Json)
    ensures
        r@ == ui_snapshot_value(),
{
    advertise(
        methods::UI_SNAPSHOT,
        UI_SNAPSHOT_TOOL,
        Fields::new()
            .with("window_id", typed_property("string", UI_SNAPSHOT_WINDOW_ID))
            .with("root_element_id", typed_property("string", UI_SNAPSHOT_ROOT_ELEMENT_ID))
            .with("filter", typed_property("string", UI_SNAPSHOT_FILTER))
            .with("interactive_only", typed_property("boolean", UI_SNAPSHOT_INTERACTIVE_ONLY))
            .with("max_elements", typed_property("integer", UI_SNAPSHOT_MAX_ELEMENTS))
            .with("include_bounds", typed_property("boolean", UI_SNAPSHOT_INCLUDE_BOUNDS)),
        Items::new(),
    )
}

/// How `a11y_audit` is advertised.
pub open spec fn a11y_audit_value() -> JsonValue {
    tool(
        methods::A11Y_AUDIT@,
        A11Y_AUDIT_TOOL@,
        json::no_fields()
            .push(("window_id"@, typed("string"@, A11Y_AUDIT_WINDOW_ID@)))
            .push(("root_element_id"@, typed("string"@, A11Y_AUDIT_ROOT_ELEMENT_ID@)))
            .push(("fail_on"@, choice(json::no_items().push(JsonValue::Text("serious"@)).push(JsonValue::Text("warning"@)).push(JsonValue::Text("none"@)), A11Y_AUDIT_FAIL_ON@)))
            .push(("min_target_size"@, typed("number"@, A11Y_AUDIT_MIN_TARGET_SIZE@)))
            .push(("max_findings"@, typed("integer"@, A11Y_AUDIT_MAX_FINDINGS@))),
        json::no_items(),
    )
}

fn a11y_audit_tool() -> (r: Json)
    ensures
        r@ == a11y_audit_value(),
{
    advertise(
        methods::A11Y_AUDIT,
        A11Y_AUDIT_TOOL,
        Fields::new()
            .with("window_id", typed_property("string", A11Y_AUDIT_WINDOW_ID))
            .with("root_element_id", typed_property("string", A11Y_AUDIT_ROOT_ELEMENT_ID))
            .with("fail_on", choice_property(Items::new().with(Json::text("serious")).with(Json::text("warning")).with(Json::text("none")), A11Y_AUDIT_FAIL_ON))
            .with("min_target_size", typed_property("number", A11Y_AUDIT_MIN_TARGET_SIZE))
            .with("max_findings", typed_property("integer", A11Y_AUDIT_MAX_FINDINGS)),
        Items::new(),
    )
}

/// How `a11y_tree` is advertised.
pub open spec fn a11y_tree_value() -> JsonValue {
    tool(
        methods::A11Y_TREE@,
        A11Y_TREE_TOOL@,
        json::no_fields()
            .push(("window_id"@, typed("string"@, A11Y_TREE_WINDOW_ID@))),
        json::no_items(),
    )
}

fn a11y_tree_tool() -> (r: Json)
    ensures
        r@ == a11y_tree_value(),
{
    advertise(
        methods::A11Y_TREE,
        A11Y_TREE_TOOL,
        Fields::new()
            .with("window_id", typed_property("string", A11Y_TREE_WINDOW_ID)),
        Items::new(),
    )
}

/// How `inspect_ui_tree` is advertised.
pub open spec fn inspect_ui_tree_value() -> JsonValue {
    tool(
        methods::INSPECT_UI_TREE@,
        INSPECT_UI_TREE_TOOL@,
        json::no_fields()
            .push(("max_depth"@, typed("integer"@, INSPECT_UI_TREE_MAX_DEPTH@)))
            .push(("window_id"@, typed("string"@, INSPECT_UI_TREE_WINDOW_ID@)))
            .push(("element_type_filter"@, typed("string"@, INSPECT_UI_TREE_ELEMENT_TYPE_FILTER@)))
            .push(("root_element_id"@, typed("string"@, INSPECT_UI_TREE_ROOT_ELEMENT_ID@)))
            .push(("format"@, choice(json::no_items().push(JsonValue::Text("full"@)).push(JsonValue::Text("compact"@)), INSPECT_UI_TREE_FORMAT@)))
            .push(("text_filter"@, typed("string"@, INSPECT_UI_TREE_TEXT_FILTER@))),
        json::no_items(),
    )
}

fn inspect_ui_tree_tool() -> (r: Json)
    ensures
        r@ == inspect_ui_tree_value(),
{
    advertise(
        methods::INSPECT_UI_TREE,
        INSPECT_UI_TREE_TOOL,
        Fields::new()
            .with("max_depth", typed_property("integer", INSPECT_UI_TREE_MAX_DEPTH))
            .with("window_id", typed_property("string", INSPECT_UI_TREE_WINDOW_ID))
            .with("element_type_filter", typed_property("string", INSPECT_UI_TREE_ELEMENT_TYPE_FILTER))
            .with("root_element_id", typed_property("string", INSPECT_UI_TREE_ROOT_ELEMENT_ID))
            .with("format", choice_property(Items::new().with(Json::text("full")).with(Json::text("compact")), INSPECT_UI_TREE_FORMAT))
            .with("text_filter", typed_property("string", INSPECT_UI_TREE_TEXT_FILTER)),
        Items::new(),
    )
}

/// How `get_element` is advertised.
pub open spec fn get_element_value() -> JsonValue {
    tool(
        methods::GET_ELEMENT@,
        GET_ELEMENT_TOOL@,
        json::no_fields()
            .push(("element_id"@, typed("string"@, GET_ELEMENT_ELEMENT_ID@))),
        json::no_items()
            .push(JsonValue::Text("element_id"@)),
    )
}

fn get_element_tool() -> (r: Json)
    ensures
        r@ == get_element_value(),
{
    advertise(
        methods::GET_ELEMENT,
        GET_ELEMENT_TOOL,
        Fields::new()
            .with("element_id", typed_property("string", GET_ELEMENT_ELEMENT_ID)),
        Items::new()
            .with(Json::text("element_id")),
    )
}

/// How `get_focus_info` is advertised.
pub open spec fn get_focus_info_value() -> JsonValue {
    tool(
        methods::GET_FOCUS_INFO@,
        GET_FOCUS_INFO_TOOL@,
        json::no_fields()
            .push(("window_id"@, typed("string"@, GET_FOCUS_INFO_WINDOW_ID@))),
        json::no_items(),
    )
}

fn get_focus_info_tool() -> (r: Json)
    ensures
        r@ == get_focus_info_value(),
{
    advertise(
        methods::GET_FOCUS_INFO,
        GET_FOCUS_INFO_TOOL,
        Fields::new()
            .with("window_id", typed_property("string", GET_FOCUS_INFO_WINDOW_ID)),
        Items::new(),
    )
}

/// How `list_actions` is advertised.
pub open spec fn list_actions_value() -> JsonValue {
    tool(
        methods::LIST_ACTIONS@,
        LIST_ACTIONS_TOOL@,
        json::no_fields()
            .push(("filter"@, typed("string"@, LIST_ACTIONS_FILTER@)))
            .push(("include_bindings"@, typed("boolean"@, LIST_ACTIONS_INCLUDE_BINDINGS@)))
            .push(("only_available"@, typed("boolean"@, LIST_ACTIONS_ONLY_AVAILABLE@)))
            .push(("window_id"@, typed("string"@, LIST_ACTIONS_WINDOW_ID@))),
        json::no_items(),
    )
}

fn list_actions_tool() -> (r: Json)
    ensures
        r@ == list_actions_value(),
{
    advertise(
        methods::LIST_ACTIONS,
        LIST_ACTIONS_TOOL,
        Fields::new()
            .with("filter", typed_property("string", LIST_ACTIONS_FILTER))
            .with("include_bindings", typed_property("boolean", LIST_ACTIONS_INCLUDE_BINDINGS))
            .with("only_available", typed_property("boolean", LIST_ACTIONS_ONLY_AVAILABLE))
            .with("window_id", typed_property("string", LIST_ACTIONS_WINDOW_ID)),
        Items::new(),
    )
}

/// How `execute_action` is advertised.
pub open spec fn execute_action_value() -> JsonValue {
    tool(
        methods::EXECUTE_ACTION@,
        EXECUTE_ACTION_TOOL@,
        json::no_fields()
            .push(("action"@, typed("string"@, EXECUTE_ACTION_ACTION@)))
            .push(("args"@, typed("object"@, EXECUTE_ACTION_ARGS@)))
            .push(("window_id"@, typed("string"@, EXECUTE_ACTION_WINDOW_ID@))),
        json::no_items()
            .push(JsonValue::Text("action"@)),
    )
}

fn execute_action_tool() -> (r: Json)
    ensures
        r@ == execute_action_value(),
{
    advertise(
        methods::EXECUTE_ACTION,
        EXECUTE_ACTION_TOOL,
        Fields::new()
            .with("action", typed_property("string", EXECUTE_ACTION_ACTION))
            .with("args", typed_property("object", EXECUTE_ACTION_ARGS))
            .with("window_id", typed_property("string", EXECUTE_ACTION_WINDOW_ID)),
        Items::new()
            .with(Json::text("action")),
    )
}

/// How `send_key` is advertised.
pub open spec fn send_key_value() -> JsonValue {
    tool(
        methods::SEND_KEY@,
        SEND_KEY_TOOL@,
        json::no_fields()
            .push(("key"@, typed("string"@, SEND_KEY_KEY@)))
            .push(("modifiers"@, nested(json::no_fields().push(("ctrl"@, typed("boolean"@, SEND_KEY_CTRL@))).push(("alt"@, typed("boolean"@, SEND_KEY_ALT@))).push(("shift"@, typed("boolean"@, SEND_KEY_SHIFT@))).push(("meta"@, typed("boolean"@, SEND_KEY_META@))))))
            .push(("window_id"@, typed("string"@, SEND_KEY_WINDOW_ID@))),
        json::no_items()
            .push(JsonValue::Text("key"@)),
    )
}

fn send_key_tool() -> (r: Json)
    ensures
        r@ == send_key_value(),
{
    advertise(
        methods::SEND_KEY,
        SEND_KEY_TOOL,
        Fields::new()
            .with("key", typed_property("string", SEND_KEY_KEY))
            .with("modifiers", nested_property(Fields::new().with("ctrl", typed_property("boolean", SEND_KEY_CTRL)).with("alt", typed_property("boolean", SEND_KEY_ALT)).with("shift", typed_property("boolean", SEND_KEY_SHIFT)).with("meta", typed_property("boolean", SEND_KEY_META))))
            .with("window_id", typed_property("string", SEND_KEY_WINDOW_ID)),
        Items::new()
            .with(Json::text("key")),
    )
}

/// How `click_element` is advertised.
pub open spec fn click_element_value() -> JsonValue {
    tool(
        methods::CLICK_ELEMENT@,
        CLICK_ELEMENT_TOOL@,
        json::no_fields()
            .push(("element_id"@, typed("string"@, CLICK_ELEMENT_ELEMENT_ID@)))
            .push(("x"@, typed("number"@, CLICK_ELEMENT_X@)))
            .push(("y"@, typed("number"@, CLICK_ELEMENT_Y@)))
            .push(("button"@, choice(json::no_items().push(JsonValue::Text("Left"@)).push(JsonValue::Text("Right"@)).push(JsonValue::Text("Middle"@)), CLICK_ELEMENT_BUTTON@)))
            .push(("window_id"@, typed("string"@, CLICK_ELEMENT_WINDOW_ID@))),
        json::no_items(),
    )
}

fn click_element_tool() -> (r: Json)
    ensures
        r@ == click_element_value(),
{
    advertise(
        methods::CLICK_ELEMENT,
        CLICK_ELEMENT_TOOL,
        Fields::new()
            .with("element_id", typed_property("string", CLICK_ELEMENT_ELEMENT_ID))
            .with("x", typed_property("number", CLICK_ELEMENT_X))
            .with("y", typed_property("number", CLICK_ELEMENT_Y))
            .with("button", choice_property(Items::new().with(Json::text("Left")).with(Json::text("Right")).with(Json::text("Middle")), CLICK_ELEMENT_BUTTON))
            .with("window_id", typed_property("string", CLICK_ELEMENT_WINDOW_ID)),
        Items::new(),
    )
}

/// How `type_text` is advertised.
pub open spec fn type_text_value() -> JsonValue {
    tool(
        methods::TYPE_TEXT@,
        TYPE_TEXT_TOOL@,
        json::no_fields()
            .push(("text"@, typed("string"@, TYPE_TEXT_TEXT@)))
            .push(("window_id"@, typed("string"@, TYPE_TEXT_WINDOW_ID@))),
        json::no_items()
            .push(JsonValue::Text("text"@)),
    )
}

fn type_text_tool() -> (r: Json)
    ensures
        r@ == type_text_value(),
{
    advertise(
        methods::TYPE_TEXT,
        TYPE_TEXT_TOOL,
        Fields::new()
            .with("text", typed_property("string", TYPE_TEXT_TEXT))
            .with("window_id", typed_property("string", TYPE_TEXT_WINDOW_ID)),
        Items::new()
            .with(Json::text("text")),
    )
}

/// How `wait_for` is advertised.
pub open spec fn wait_for_value() -> JsonValue {
    tool(
        methods::WAIT_FOR@,
        WAIT_FOR_TOOL@,
        json::no_fields()
            .push(("element_id"@, typed("string"@, WAIT_FOR_ELEMENT_ID@)))
            .push(("text"@, typed("string"@, WAIT_FOR_TEXT@)))
            .push(("key_context"@, typed("string"@, WAIT_FOR_KEY_CONTEXT@)))
            .push(("app_state_path"@, typed("string"@, WAIT_FOR_APP_STATE_PATH@)))
            .push(("app_state_equals"@, untyped(WAIT_FOR_APP_STATE_EQUALS@)))
            .push(("absent"@, typed("boolean"@, WAIT_FOR_ABSENT@)))
            .push(("timeout_ms"@, typed("integer"@, WAIT_FOR_TIMEOUT_MS@)))
            .push(("window_id"@, typed("string"@, WAIT_FOR_WINDOW_ID@))),
        json::no_items(),
    )
}

fn wait_for_tool() -> (r: Json)
    ensures
        r@ == wait_for_value(),
{
    advertise(
        methods::WAIT_FOR,
        WAIT_FOR_TOOL,
        Fields::new()
            .with("element_id", typed_property("string", WAIT_FOR_ELEMENT_ID))
            .with("text", typed_property("string", WAIT_FOR_TEXT))
            .with("key_context", typed_property("string", WAIT_FOR_KEY_CONTEXT))
            .with("app_state_path", typed_property("string", WAIT_FOR_APP_STATE_PATH))
            .with("app_state_equals", untyped_property(WAIT_FOR_APP_STATE_EQUALS))
            .with("absent", typed_property("boolean", WAIT_FOR_ABSENT))
            .with("timeout_ms", typed_property("integer", WAIT_FOR_TIMEOUT_MS))
            .with("window_id", typed_property("string", WAIT_FOR_WINDOW_ID)),
        Items::new(),
    )
}

/// How `batch` is advertised.
pub open spec fn batch_value() -> JsonValue {
    tool(
        methods::BATCH@,
        BATCH_TOOL@,
        json::no_fields()
            .push(("steps"@, steps_schema()))
            .push(("stop_on_error"@, typed("boolean"@, BATCH_STOP_ON_ERROR@)))
            .push(("window_id"@, typed("string"@, BATCH_WINDOW_ID@))),
        json::no_items()
            .push(JsonValue::Text("steps"@)),
    )
}

fn batch_tool() -> (r: Json)
    ensures
        r@ == batch_value(),
{
    advertise(
        methods::BATCH,
        BATCH_TOOL,
        Fields::new()
            .with("steps", steps_property())
            .with("stop_on_error", typed_property("boolean", BATCH_STOP_ON_ERROR))
            .with("window_id", typed_property("string", BATCH_WINDOW_ID)),
        Items::new()
            .with(Json::text("steps")),
    )
}

/// How `take_screenshot` is advertised.
pub open spec fn take_screenshot_value() -> JsonValue {
    tool(
        methods::TAKE_SCREENSHOT@,
        TAKE_SCREENSHOT_TOOL@,
        json::no_fields()
            .push(("window_id"@, typed("string"@, TAKE_SCREENSHOT_WINDOW_ID@)))
            .push(("element_id"@, typed("string"@, TAKE_SCREENSHOT_ELEMENT_ID@)))
            .push(("max_width"@, typed("integer"@, TAKE_SCREENSHOT_MAX_WIDTH@))),
        json::no_items(),
    )
}

fn take_screenshot_tool() -> (r: Json)
    ensures
        r@ == take_screenshot_value(),
{
    advertise(
        methods::TAKE_SCREENSHOT,
        TAKE_SCREENSHOT_TOOL,
        Fields::new()
            .with("window_id", typed_property("string", TAKE_SCREENSHOT_WINDOW_ID))
            .with("element_id", typed_property("string", TAKE_SCREENSHOT_ELEMENT_ID))
            .with("max_width", typed_property("integer", TAKE_SCREENSHOT_MAX_WIDTH)),
        Items::new(),
    )
}

/// How `get_app_state` is advertised.
pub open spec fn get_app_state_value() -> JsonValue {
    tool(
        methods::GET_APP_STATE@,
        GET_APP_STATE_TOOL@,
        json::no_fields(),
        json::no_items(),
    )
}

fn get_app_state_tool() -> (r: Json)
    ensures
        r@ == get_app_state_value(),
{
    advertise(
        methods::GET_APP_STATE,
        GET_APP_STATE_TOOL,
        Fields::new(),
        Items::new(),
    )
}

/// How `get_logs` is advertised.
pub open spec fn get_logs_value() -> JsonValue {
    tool(
        methods::GET_LOGS@,
        GET_LOGS_TOOL@,
        json::no_fields(),
        json::no_items(),
    )
}

fn get_logs_tool() -> (r: Json)
    ensures
        r@ == get_logs_value(),
{
    advertise(
        methods::GET_LOGS,
        GET_LOGS_TOOL,
        Fields::new(),
        Items::new(),
    )
}

/// How `set_viewport` is advertised.
pub open spec fn set_viewport_value() -> JsonValue {
    tool(
        methods::SET_VIEWPORT@,
        SET_VIEWPORT_TOOL@,
        json::no_fields()
            .push(("width"@, typed("number"@, SET_VIEWPORT_WIDTH@)))
            .push(("height"@, typed("number"@, SET_VIEWPORT_HEIGHT@)))
            .push(("window_id"@, typed("string"@, SET_VIEWPORT_WINDOW_ID@))),
        json::no_items()
            .push(JsonValue::Text("width"@))
            .push(JsonValue::Text("height"@)),
    )
}

fn set_viewport_tool() -> (r: Json)
    ensures
        r@ == set_viewport_value(),
{
    advertise(
        methods::SET_VIEWPORT,
        SET_VIEWPORT_TOOL,
        Fields::new()
            .with("width", typed_property("number", SET_VIEWPORT_WIDTH))
            .with("height", typed_property("number", SET_VIEWPORT_HEIGHT))
            .with("window_id", typed_property("string", SET_VIEWPORT_WINDOW_ID)),
        Items::new()
            .with(Json::text("width"))
            .with(Json::text("height")),
    )
}

/// How `reset_app` is advertised.
pub open spec fn reset_app_value() -> JsonValue {
    tool(
        methods::RESET_APP@,
        RESET_APP_TOOL@,
        json::no_fields()
            .push(("arguments"@, untyped(RESET_APP_ARGUMENTS@))),
        json::no_items(),
    )
}

fn reset_app_tool() -> (r: Json)
    ensures
        r@ == reset_app_value(),
{
    advertise(
        methods::RESET_APP,
        RESET_APP_TOOL,
        Fields::new()
            .with("arguments", untyped_property(RESET_APP_ARGUMENTS)),
        Items::new(),
    )
}

/// The advertised tools: the guide first, then the replay, then every method
/// of the app.
pub open spec fn tools() -> Seq<JsonValue> {
    json::no_items()
        .push(gpui_guide_value())
        .push(replay_script_value())
        .push(get_windows_value())
        .push(ui_snapshot_value())
        .push(a11y_audit_value())
        .push(a11y_tree_value())
        .push(inspect_ui_tree_value())
        .push(get_element_value())
        .push(get_focus_info_value())
        .push(list_actions_value())
        .push(execute_action_value())
        .push(send_key_value())
        .push(click_element_value())
        .push(type_text_value())
        .push(wait_for_value())
        .push(batch_value())
        .push(take_screenshot_value())
        .push(get_app_state_value())
        .push(get_logs_value())
        .push(set_viewport_value())
        .push(reset_app_value())
}

/// Answer `tools/list`.
pub fn tools_list() -> (r: Json)
    ensures
        r@ == JsonValue::Object(json::no_fields().push(("tools"@, JsonValue::Array(tools())))),
{
    let list: Items = Items::new()
        .with(gpui_guide_tool())
        .with(replay_script_tool())
        .with(get_windows_tool())
        .with(ui_snapshot_tool())
        .with(a11y_audit_tool())
        .with(a11y_tree_tool())
        .with(inspect_ui_tree_tool())
        .with(get_element_tool())
        .with(get_focus_info_tool())
        .with(list_actions_tool())
        .with(execute_action_tool())
        .with(send_key_tool())
        .with(click_element_tool())
        .with(type_text_tool())
        .with(wait_for_tool())
        .with(batch_tool())
        .with(take_screenshot_tool())
        .with(get_app_state_tool())
        .with(get_logs_tool())
        .with(set_viewport_tool())
        .with(reset_app_tool());
    Fields::new().with("tools", list.array()).object()
}

/// The name a tool is advertised under.
pub open spec fn advertised_name(tool: JsonValue) -> Option<Seq<char>> {
    json::field_text(tool, "name"@)
}

/// A tool is advertised under its name.
proof fn lemma_advertised_name()
    ensures
        forall|
            name: Seq<char>,
            description: Seq<char>,
            properties: Seq<(Seq<char>, JsonValue)>,
            required: Seq<JsonValue>,
        |
            advertised_name(#[trigger] tool(name, description, properties, required)) == Some(name),
{
    assert forall|
        name: Seq<char>,
        description: Seq<char>,
        properties: Seq<(Seq<char>, JsonValue)>,
        required: Seq<JsonValue>,
    |
        advertised_name(#[trigger] tool(name, description, properties, required)) == Some(
            name,
        ) by {
        let fields = tool(name, description, properties, required)->Object_0;
        assert(fields[0].0 == "name"@);
    }
}

#[verifier::spinoff_prover]
proof fn lemma_first_names()
    ensures
        advertised_name(gpui_guide_value()) == Some(docs::TOOL_NAME@),
        advertised_name(replay_script_value()) == Some(script::REPLAY_TOOL@),
        advertised_name(get_windows_value()) == Some(methods::GET_WINDOWS@),
        advertised_name(ui_snapshot_value()) == Some(methods::UI_SNAPSHOT@),
        advertised_name(a11y_audit_value()) == Some(methods::A11Y_AUDIT@),
        advertised_name(a11y_tree_value()) == Some(methods::A11Y_TREE@),
        advertised_name(inspect_ui_tree_value()) == Some(methods::INSPECT_UI_TREE@),
{
    lemma_advertised_name();
}

#[verifier::spinoff_prover]
proof fn lemma_second_names()
    ensures
        advertised_name(get_element_value()) == Some(methods::GET_ELEMENT@),
        advertised_name(get_focus_info_value()) == Some(methods::GET_FOCUS_INFO@),
        advertised_name(list_actions_value()) == Some(methods::LIST_ACTIONS@),
        advertised_name(execute_action_value()) == Some(methods::EXECUTE_ACTION@),
        advertised_name(send_key_value()) == Some(methods::SEND_KEY@),
        advertised_name(click_element_value()) == Some(methods::CLICK_ELEMENT@),
        advertised_name(type_text_value()) == Some(methods::TYPE_TEXT@),
{
    lemma_advertised_name();
}

#[verifier::spinoff_prover]
proof fn lemma_last_names()
    ensures
        advertised_name(wait_for_value()) == Some(methods::WAIT_FOR@),
        advertised_name(batch_value()) == Some(methods::BATCH@),
        advertised_name(take_screenshot_value()) == Some(methods::TAKE_SCREENSHOT@),
        advertised_name(get_app_state_value()) == Some(methods::GET_APP_STATE@),
        advertised_name(get_logs_value()) == Some(methods::GET_LOGS@),
        advertised_name(set_viewport_value()) == Some(methods::SET_VIEWPORT@),
        advertised_name(reset_app_value()) == Some(methods::RESET_APP@),
{
    lemma_advertised_name();
}

/// Tools stand in a list in the order they were added.
proof fn lemma_in_order(
    t0: JsonValue,
    t1: JsonValue,
    t2: JsonValue,
    t3: JsonValue,
    t4: JsonValue,
    t5: JsonValue,
    t6: JsonValue,
    t7: JsonValue,
    t8: JsonValue,
    t9: JsonValue,
    t10: JsonValue,
    t11: JsonValue,
    t12: JsonValue,
    t13: JsonValue,
    t14: JsonValue,
    t15: JsonValue,
    t16: JsonValue,
    t17: JsonValue,
    t18: JsonValue,
    t19: JsonValue,
    t20: JsonValue,
)
    ensures
        ({
            let list = json::no_items()
                .push(t0)
                .push(t1)
                .push(t2)
                .push(t3)
                .push(t4)
                .push(t5)
                .push(t6)
                .push(t7)
                .push(t8)
                .push(t9)
                .push(t10)
                .push(t11)
                .push(t12)
                .push(t13)
                .push(t14)
                .push(t15)
                .push(t16)
                .push(t17)
                .push(t18)
                .push(t19)
                .push(t20);
            &&& list.len() == 21
            &&& list[0] == t0
            &&& list[1] == t1
            &&& list[2] == t2
            &&& list[3] == t3
            &&& list[4] == t4
            &&& list[5] == t5
            &&& list[6] == t6
            &&& list[7] == t7
            &&& list[8] == t8
            &&& list[9] == t9
            &&& list[10] == t10
            &&& list[11] == t11
            &&& list[12] == t12
            &&& list[13] == t13
            &&& list[14] == t14
            &&& list[15] == t15
            &&& list[16] == t16
            &&& list[17] == t17
            &&& list[18] == t18
            &&& list[19] == t19
            &&& list[20] == t20
        }),
{
}

/// The guide is advertised first and the replay second; every method of the
/// app follows, in order, and nothing else does.
#[verifier::spinoff_prover]
pub proof fn lemma_every_method_is_advertised()
    ensures
        tools().len() == methods::all_names().len() + 2,
        advertised_name(tools()[0]) == Some(docs::TOOL_NAME@),
        advertised_name(tools()[1]) == Some(script::REPLAY_TOOL@),
        forall|i: int|
            0 <= i < methods::all_names().len() ==> advertised_name(#[trigger] tools()[i + 2])
                == Some(methods::all_names()[i]),
{
    lemma_first_names();
    lemma_second_names();
    lemma_last_names();
    lemma_in_order(
        gpui_guide_value(),
        replay_script_value(),
        get_windows_value(),
        ui_snapshot_value(),
        a11y_audit_value(),
        a11y_tree_value(),
        inspect_ui_tree_value(),
        get_element_value(),
        get_focus_info_value(),
        list_actions_value(),
        execute_action_value(),
        send_key_value(),
        click_element_value(),
        type_text_value(),
        wait_for_value(),
        batch_value(),
        take_screenshot_value(),
        get_app_state_value(),
        get_logs_value(),
        set_viewport_value(),
        reset_app_value(),
    );
}

pub const GPUI_GUIDE_TOPIC: &'static str = "Which topic to read. Default: overview.";

pub const REPLAY_SCRIPT_PATH: &'static str = "Path to the script file.";

pub const REPLAY_SCRIPT_SEEK: &'static str = "Skip steps that only read (inspect_ui_tree, screenshots, …) and run the rest. Default: false, which replays everything as a test.";

pub const REPLAY_SCRIPT_STOP_ON_ERROR: &'static str = "Stop at the first failing step. Default: true — the steps after a failure act on a state nobody intended.";

pub const REPLAY_SCRIPT_TOOL: &'static str = "Replay a recorded script: a list of steps in the same shape a batch takes, saved to a file. Two uses from one file. seek=true skips the read-only steps and just puts the app back where work happens — worth doing at the start of a session instead of clicking your way there again. seek=false runs everything as a test: a wait_for that comes back unsatisfied is a failed assertion and the report says which condition did not hold. Record a script by starting this server with GPUI_MCP_RECORD=path.json. Example: {\"path\": \"tests/open-file.json\", \"seek\": true}";

pub const GET_WINDOWS_TOOL: &'static str = "List all open GPUI windows with their ID, title, bounds, and active status. Use this first to discover window IDs for other tools. Returns: [{id, title, bounds: {x,y,width,height}, is_active}]. Example: {}";

pub const UI_SNAPSHOT_WINDOW_ID: &'static str = "Window to snapshot (default: active window)";

pub const UI_SNAPSHOT_ROOT_ELEMENT_ID: &'static str = "Snapshot this element's subtree instead of the whole window. Takes an id or a @ref.";

pub const UI_SNAPSHOT_FILTER: &'static str = "Keep only elements whose role, name or test id contains this (case-insensitive), plus the ancestors leading to them.";

pub const UI_SNAPSHOT_INTERACTIVE_ONLY: &'static str = "Keep only what you can act on — buttons, inputs, list items, tabs. The fastest way to answer 'what can I click here?'.";

pub const UI_SNAPSHOT_MAX_ELEMENTS: &'static str = "Stop after this many lines and say so. Default 200.";

pub const UI_SNAPSHOT_INCLUDE_BOUNDS: &'static str = "Add each element's bounds. Off by default — a snapshot is about structure, and coordinates are what make the tree expensive.";

pub const UI_SNAPSHOT_TOOL: &'static str = "Read the window as a short, readable list: one line per element that means something, with the layout scaffolding left out. START HERE instead of inspect_ui_tree — on a real UI this is a fraction of the size and answers the question you actually have, which is what is on screen and what can be acted on. Every line ends with a @ref (@e7) that works as element_id in click_element, wait_for, get_element and take_screenshot; the next snapshot replaces them. Lines read: role \"name\" #test-id @ref. Example: {\"interactive_only\": true}";

pub const A11Y_AUDIT_WINDOW_ID: &'static str = "Window to audit (default: active window)";

pub const A11Y_AUDIT_ROOT_ELEMENT_ID: &'static str = "Audit this element's subtree instead of the whole window. Takes an id or a @ref.";

pub const A11Y_AUDIT_FAIL_ON: &'static str = "Severity at which the audit reports ok:false. Default: serious.";

pub const A11Y_AUDIT_MIN_TARGET_SIZE: &'static str = "Smallest acceptable side of an interactive element, in pixels. Default 24 (WCAG 2.2).";

pub const A11Y_AUDIT_MAX_FINDINGS: &'static str = "Stop after this many findings. Default 50.";

pub const A11Y_AUDIT_TOOL: &'static str = "Check the window for accessibility problems that are also targeting problems: a control with no text (nothing can name it, nothing can match on it), an id that names several elements (a suffix match takes the first, so a script targeting it may click the wrong one), a target below the 24px minimum, a control painted with no area. Each finding names the element, its id, and the source location gpui recorded — for a gpui-component widget that is the widget own file, so it says what the element is; the id and the element path are what locate it in your app. Reads the same derived layer ui_snapshot prints, so it cannot see colours and does not check contrast. As a step in a recorded script it fails the replay when findings reach fail_on, which is how this stays checked. Example: {\"fail_on\": \"serious\"}";

pub const A11Y_TREE_WINDOW_ID: &'static str = "Window to read (default: active window)";

pub const A11Y_TREE_TOOL: &'static str = "The accessibility tree for the window: what a screen reader would actually be handed. Real roles (Button, MenuBar, TextInput) rather than roles guessed from a filename, the label a control announces even when it paints no text, an input's current value, and the actions each node offers (Click, Focus, SetValue). GPUI builds this tree only while assistive technology is attached, so this turns it on for the window and waits a frame. It does NOT replace ui_snapshot: only elements somebody annotated get a node, so the tree is far smaller than the window — the answer says how many of the painted elements made it in. Each node carries the element id and source location, so a node can be matched to a snapshot line. Example: {}";

pub const INSPECT_UI_TREE_MAX_DEPTH: &'static str = "Maximum tree depth to return (0 or omit = unlimited). Use 2-3 for overview.";

pub const INSPECT_UI_TREE_WINDOW_ID: &'static str = "Only inspect this window (from get_windows). Omit for all windows.";

pub const INSPECT_UI_TREE_ELEMENT_TYPE_FILTER: &'static str = "Only return elements whose type contains this substring (case-insensitive)";

pub const INSPECT_UI_TREE_ROOT_ELEMENT_ID: &'static str = "Start the tree at this element instead of the root. Supports full_id, global_id, or suffix match. Use to drill into a subtree without fetching the whole tree.";

pub const INSPECT_UI_TREE_FORMAT: &'static str = "Output format. 'compact' strips bounds, content_mask, source_location, content_size — keeps id, element_type, children, properties. Default: 'full'.";

pub const INSPECT_UI_TREE_TEXT_FILTER: &'static str = "Only return elements whose text_content contains this substring (case-insensitive). Keeps matching elements and their ancestors.";

pub const INSPECT_UI_TREE_TOOL: &'static str = "Get the UI element hierarchy for debugging layout and structure. Each element has: id, element_type (derived from source file), bounds, source_location, children, properties. Use max_depth to limit tree size (default: unlimited). Use root_element_id to inspect a subtree instead of the whole app. Use format='compact' to strip verbose fields (bounds, content_mask, source_location, content_size). WARNING: Without filters this can return very large responses. Example: {\"max_depth\": 3, \"format\": \"compact\"}";

pub const GET_ELEMENT_ELEMENT_ID: &'static str = "Element ID to find. Can be full ID (WindowId(1)/view-1.panel[0]), global_id (view-1.panel), or suffix (panel)";

pub const GET_ELEMENT_TOOL: &'static str = "Get a UI element and its full subtree by ID. Supports exact full_id, global_id, or suffix match. Returns the element with all descendants, text content, bounds, source location, and properties. Example: {\"element_id\": \"results\"}";

pub const GET_FOCUS_INFO_WINDOW_ID: &'static str = "Window to check focus for (default: active window)";

pub const GET_FOCUS_INFO_TOOL: &'static str = "Get information about the currently focused element and active key contexts. Essential for debugging keyboard/focus issues. Returns: {has_focus, focus_id, window_id, key_contexts: [...]}. Example: {}";

pub const LIST_ACTIONS_FILTER: &'static str = "Filter actions by name substring (case-insensitive). E.g. 'cursor', 'toggle'";

pub const LIST_ACTIONS_INCLUDE_BINDINGS: &'static str = "If true, return keybinding, context, and documentation for each action instead of just names. Default: false.";

pub const LIST_ACTIONS_ONLY_AVAILABLE: &'static str = "If true, only return actions whose keybinding predicate matches the current focus chain. Implies include_bindings=true. Default: false.";

pub const LIST_ACTIONS_WINDOW_ID: &'static str = "Window to evaluate only_available against (default: active window)";

pub const LIST_ACTIONS_TOOL: &'static str = "List GPUI actions that can be dispatched via execute_action. Actions are the keyboard shortcuts and commands of the app (e.g. 'elane::CursorUp', 'elane::ToggleTerminal'). Use filter to search by name substring. Set include_bindings=true for keybinding and context info. Set only_available=true to restrict results to actions whose binding context matches the current focus chain — i.e. 'what can I actually press right now?' (implies include_bindings=true). Example: {\"filter\": \"toggle\", \"include_bindings\": true}";

pub const EXECUTE_ACTION_ACTION: &'static str = "Full action name (e.g. 'elane::CursorUp', 'elane::ActivateItem'). Use list_actions to discover names.";

pub const EXECUTE_ACTION_ARGS: &'static str = "Optional JSON arguments for the action (most actions take none)";

pub const EXECUTE_ACTION_WINDOW_ID: &'static str = "Target window (default: active window)";

pub const EXECUTE_ACTION_TOOL: &'static str = "Execute a named GPUI action on the focused element of a window. Actions are dispatched through the focus chain just like keyboard shortcuts. Use list_actions to find available action names. Example: {\"action\": \"elane::ToggleTerminal\"}";

pub const SEND_KEY_KEY: &'static str = "Key name: 'a'-'z', '0'-'9', 'enter', 'escape', 'tab', 'space', 'backspace', 'delete', 'up', 'down', 'left', 'right', 'home', 'end', 'pageup', 'pagedown', 'f1'-'f12', '+', '-', etc.";

pub const SEND_KEY_CTRL: &'static str = "Ctrl modifier";

pub const SEND_KEY_ALT: &'static str = "Alt modifier";

pub const SEND_KEY_SHIFT: &'static str = "Shift modifier";

pub const SEND_KEY_META: &'static str = "Super/Cmd modifier";

pub const SEND_KEY_WINDOW_ID: &'static str = "Target window (default: active window)";

pub const SEND_KEY_TOOL: &'static str = "Send a keyboard keystroke to the app. The key is dispatched to the focused element. Use GPUI key format: lowercase key name with modifier prefixes. Examples: 'a', 'enter', 'escape', 'tab', 'f1', 'up', 'down'. Modifiers via the modifiers object. Example: {\"key\": \"s\", \"modifiers\": {\"ctrl\": true}}";

pub const CLICK_ELEMENT_ELEMENT_ID: &'static str = "Click the center of this element. Supports full_id, global_id, or suffix match from inspect_ui_tree.";

pub const CLICK_ELEMENT_X: &'static str = "X coordinate in pixels (from window left edge). Used when element_id is not provided.";

pub const CLICK_ELEMENT_Y: &'static str = "Y coordinate in pixels (from window top edge). Used when element_id is not provided.";

pub const CLICK_ELEMENT_BUTTON: &'static str = "Mouse button (default: Left)";

pub const CLICK_ELEMENT_WINDOW_ID: &'static str = "Target window (default: active window)";

pub const CLICK_ELEMENT_TOOL: &'static str = "Simulate a mouse click. Provide EITHER element_id (clicks center of that element) OR x/y pixel coordinates. Element ID supports full_id, global_id, or suffix match. Example: {\"element_id\": \"save-button\"}";

pub const TYPE_TEXT_TEXT: &'static str = "The text to type";

pub const TYPE_TEXT_WINDOW_ID: &'static str = "Target window (default: active window)";

pub const TYPE_TEXT_TOOL: &'static str = "Type a text string into the focused element by dispatching individual keystrokes. Much more convenient than send_key for entering text in input fields and dialogs. Example: {\"text\": \"src/main.rs\"}";

pub const WAIT_FOR_ELEMENT_ID: &'static str = "Wait until an element with this id is painted. Full id, global_id or suffix, as everywhere else.";

pub const WAIT_FOR_TEXT: &'static str = "Wait until this text is painted anywhere in the window (case-insensitive).";

pub const WAIT_FOR_KEY_CONTEXT: &'static str = "Wait until this key context is on the focus chain (substring, case-insensitive) — how you wait for a dialog or a mode to take the keyboard.";

pub const WAIT_FOR_APP_STATE_PATH: &'static str = "JSON pointer into the get_app_state answer, e.g. '/app/rows'. Without app_state_equals the condition is 'this resolves to something other than null'.";

pub const WAIT_FOR_APP_STATE_EQUALS: &'static str = "The value app_state_path must reach.";

pub const WAIT_FOR_ABSENT: &'static str = "Invert: wait until the conditions stop holding. Default: false.";

pub const WAIT_FOR_TIMEOUT_MS: &'static str = "Give up after this long. Default 3000, capped at 30000.";

pub const WAIT_FOR_WINDOW_ID: &'static str = "Window to watch (default: active window)";

pub const WAIT_FOR_TOOL: &'static str = "Wait until the app looks a certain way, then answer. The app checks once per painted frame, so waiting here costs nothing — NEVER poll by calling inspect_ui_tree or get_app_state in a loop, that costs a round trip per look. Every condition given must hold at the same time. Set absent=true to wait for them to STOP holding, which is how you wait for a dialog to close or a spinner to disappear. Running out of time is not an error: the answer says satisfied:false and 'checks' names the part that was missing. Example: {\"text\": \"Saved\", \"timeout_ms\": 5000}";

pub const BATCH_STOP_ON_ERROR: &'static str = "Stop at the first failing step. Default: true. Turning it off means later steps run against whatever state the failure left behind.";

pub const BATCH_WINDOW_ID: &'static str = "Default window for steps that do not name one.";

pub const BATCH_TOOL: &'static str = "Run several tools in one call. Steps run in order inside the app and the answer carries each step's result plus one app_state/focus_info at the end. This is the main way to spend fewer turns: click, type, enter, wait is ONE call instead of four. Steps stop at the first failure unless stop_on_error is false. A batch cannot contain another batch. Screenshots taken inside a batch come back as images attached to the answer. Example: {\"steps\": [{\"method\": \"click_element\", \"params\": {\"element_id\": \"search\"}}, {\"method\": \"type_text\", \"params\": {\"text\": \"main.rs\"}}, {\"method\": \"send_key\", \"params\": {\"key\": \"enter\"}}, {\"method\": \"wait_for\", \"params\": {\"text\": \"main.rs\"}}]}";

pub const TAKE_SCREENSHOT_WINDOW_ID: &'static str = "Window to screenshot (default: active window)";

pub const TAKE_SCREENSHOT_ELEMENT_ID: &'static str = "Crop screenshot to this element's bounds. Supports full_id, global_id, or suffix match from inspect_ui_tree.";

pub const TAKE_SCREENSHOT_MAX_WIDTH: &'static str = "Downscale until the image is at most this wide in pixels. Default 1400; 0 keeps every pixel. An image costs tokens by its dimensions, so ask for full size only when you need to read fine detail. When the image was scaled the answer says so, and coordinates read off it are no longer window coordinates.";

pub const TAKE_SCREENSHOT_TOOL: &'static str = "Take a screenshot of a window or a specific element. Renders the current window content to a PNG image. Optionally crop to a specific element by ID for a focused, higher-detail view. Example: {\"element_id\": \"sidebar\"}";

pub const GET_APP_STATE_TOOL: &'static str = "Get a snapshot of the application state: window count, active window, and per-window bounds/titles. Quick overview without the full UI tree. Example: {}";

pub const GET_LOGS_TOOL: &'static str = "Get recent MCP-related log entries (up to 500 buffered). Useful for debugging MCP interactions and seeing results of dispatched actions/keys. Example: {}";

pub const SET_VIEWPORT_WIDTH: &'static str = "Content width in logical pixels.";

pub const SET_VIEWPORT_HEIGHT: &'static str = "Content height in logical pixels.";

pub const SET_VIEWPORT_WINDOW_ID: &'static str = "Window to resize (default: active window)";

pub const SET_VIEWPORT_TOOL: &'static str = "Resize a window to an exact content size, in logical pixels, and answer after the frame that shows it. A window's size decides its layout, so pin it before anything that has to look the same twice. The answer carries the size actually reached, and honoured:false when the platform refused or clamped the resize. Recorded scripts carry a viewport, and a replay applies it before its first step. Example: {\"width\": 1280, \"height\": 800}";

pub const RESET_APP_ARGUMENTS: &'static str = "Passed to the hook unchanged. An app with more than one starting state can name which one it wants.";

pub const RESET_APP_TOOL: &'static str = "Put the app back into a known starting state, through the hook it registered. Fails and says so when the app registered none: a replay that believes it started from a known state and did not is a green run hiding a bug. Example: {}";

pub const BATCH_STEPS: &'static str = "The steps, in order. At most 32.";

pub const BATCH_STEP_METHOD: &'static str = "The tool to run for this step.";

pub const BATCH_STEP_PARAMS: &'static str = "That tool's arguments.";

pub const GUIDE_BEFORE_TOPICS: &'static str = "Read this first. How to drive a GPUI app through this server: the three-step start, worked examples for every common task, how element ids resolve, and the traps that otherwise cost a round trip each. Answered by the server itself, so it works before the app is even running. Topics: ";

pub const GUIDE_AFTER_TOPICS: &'static str = ". Example: {\"topic\": \"recipes\"}";

/// The schema of an argument that a tool takes.
pub open spec fn takes(tool: JsonValue, key: Seq<char>) -> Option<JsonValue> {
    match json::field(tool, "inputSchema"@) {
        Some(input) => match json::field(input, "properties"@) {
            Some(properties) => json::field(properties, key),
            None => None,
        },
        None => None,
    }
}

/// Whether a tool cannot do without an argument.
pub open spec fn needs(tool: JsonValue, key: Seq<char>) -> bool {
    json::field(tool, "inputSchema"@) matches Some(input) && json::field(
        input,
        "required"@,
    ) matches Some(JsonValue::Array(required)) && required.contains(JsonValue::Text(key))
}

/// Whether a tool takes an argument of that type, under that description.
pub open spec fn takes_typed(
    tool: JsonValue,
    key: Seq<char>,
    kind: Seq<char>,
    description: Seq<char>,
) -> bool {
    takes(tool, key) matches Some(property) && json::field_text(property, "type"@) == Some(kind)
        && json::field_text(property, "description"@) == Some(description)
}

/// Whether a tool takes an argument of any type, under that description.
pub open spec fn takes_untyped(tool: JsonValue, key: Seq<char>, description: Seq<char>) -> bool {
    takes(tool, key) matches Some(property) && json::field(property, "type"@) is None
        && json::field_text(property, "description"@) == Some(description)
}

/// Whether an argument that is an object has a field of that type, under that
/// description.
pub open spec fn holds(
    property: JsonValue,
    key: Seq<char>,
    kind: Seq<char>,
    description: Seq<char>,
) -> bool {
    match json::field(property, "properties"@) {
        Some(held) => match json::field(held, key) {
            Some(one) => json::field_text(one, "type"@) == Some(kind) && json::field_text(
                one,
                "description"@,
            ) == Some(description),
            None => false,
        },
        None => false,
    }
}

/// Whether a tool takes one of several strings for an argument.
pub open spec fn takes_one_of(tool: JsonValue, key: Seq<char>, names: Seq<JsonValue>) -> bool {
    takes(tool, key) matches Some(property) && json::field_text(property, "type"@) == Some(
        "string"@,
    ) && json::field(property, "enum"@) == Some(JsonValue::Array(names))
}

proof fn lemma_how_properties_read(kind: Seq<char>, description: Seq<char>, names: Seq<JsonValue>)
    ensures
        json::field_text(typed(kind, description), "type"@) == Some(kind),
        json::field_text(typed(kind, description), "description"@) == Some(description),
        json::field(untyped(description), "type"@) is None,
        json::field_text(untyped(description), "description"@) == Some(description),
        json::field_text(choice(names, description), "type"@) == Some("string"@),
        json::field_text(choice(names, description), "description"@) == Some(description),
        json::field(choice(names, description), "enum"@) == Some(JsonValue::Array(names)),
{
    reveal_strlit("type");
    reveal_strlit("enum");
    reveal_strlit("description");
    assert("type"@.len() == 4 && "enum"@.len() == 4 && "type"@[0] == 't' && "enum"@[0] == 'e'
        && "description"@.len() == 11);
    let one = typed(kind, description)->Object_0;
    json::lemma_field_at(one, 0);
    json::lemma_field_at(one, 1);
    let any = untyped(description)->Object_0;
    json::lemma_no_such_field(any, "type"@);
    json::lemma_field_at(any, 0);
    let several = choice(names, description)->Object_0;
    json::lemma_field_at(several, 0);
    json::lemma_field_at(several, 1);
    json::lemma_field_at(several, 2);
}

proof fn lemma_how_nested_properties_read(
    properties: Seq<(Seq<char>, JsonValue)>,
    required: Seq<JsonValue>,
)
    ensures
        json::field_text(nested(properties), "type"@) == Some("object"@),
        json::field(nested(properties), "properties"@) == Some(JsonValue::Object(properties)),
        json::field_text(schema(properties, required), "type"@) == Some("object"@),
        json::field(schema(properties, required), "properties"@) == Some(
            JsonValue::Object(properties),
        ),
        json::field(schema(properties, required), "required"@) == Some(JsonValue::Array(required)),
{
    reveal_strlit("type");
    reveal_strlit("properties");
    reveal_strlit("required");
    assert("type"@.len() == 4 && "properties"@.len() == 10 && "required"@.len() == 8);
    let inner = nested(properties)->Object_0;
    json::lemma_field_at(inner, 0);
    json::lemma_field_at(inner, 1);
    let outer = schema(properties, required)->Object_0;
    json::lemma_field_at(outer, 0);
    json::lemma_field_at(outer, 1);
    json::lemma_field_at(outer, 2);
}

/// A tool is advertised under its name with its description, and takes and needs what its
/// schema says.
pub proof fn lemma_how_a_tool_reads(
    name: Seq<char>,
    description: Seq<char>,
    properties: Seq<(Seq<char>, JsonValue)>,
    required: Seq<JsonValue>,
    key: Seq<char>,
)
    ensures
        advertised_name(tool(name, description, properties, required)) == Some(name),
        json::field_text(tool(name, description, properties, required), "description"@) == Some(
            description,
        ),
        takes(tool(name, description, properties, required), key) == json::field(
            JsonValue::Object(properties),
            key,
        ),
        needs(tool(name, description, properties, required), key) <==> required.contains(
            JsonValue::Text(key),
        ),
{
    reveal_strlit("name");
    reveal_strlit("description");
    reveal_strlit("inputSchema");
    assert("name"@.len() == 4 && "description"@.len() == 11 && "inputSchema"@.len() == 11
        && "description"@[0] == 'd' && "inputSchema"@[0] == 'i');
    let fields = tool(name, description, properties, required)->Object_0;
    json::lemma_field_at(fields, 0);
    json::lemma_field_at(fields, 1);
    json::lemma_field_at(fields, 2);
    lemma_how_nested_properties_read(properties, required);
}

/// What `gpui_guide` takes, and what it cannot do without.
#[verifier::spinoff_prover]
pub proof fn lemma_what_gpui_guide_takes(key: Seq<char>)
    ensures
        advertised_name(gpui_guide_value()) == Some("gpui_guide"@),
        json::field_text(gpui_guide_value(), "description"@) == Some(guide_description()),
        takes_one_of(gpui_guide_value(), "topic"@, topic_choices()),
        takes_typed(gpui_guide_value(), "topic"@, "string"@, GPUI_GUIDE_TOPIC@),
        takes(gpui_guide_value(), key) is Some <==> key == "topic"@,
        !needs(gpui_guide_value(), key),
{
    reveal_strlit("topic");
    let properties = json::no_fields()
            .push(("topic"@, choice(topic_choices(), GPUI_GUIDE_TOPIC@)));
    let required = json::no_items();
    assert(gpui_guide_value() == tool(docs::TOOL_NAME@, guide_description(), properties, required));
    lemma_how_a_tool_reads(docs::TOOL_NAME@, guide_description(), properties, required, key);
    lemma_how_a_tool_reads(docs::TOOL_NAME@, guide_description(), properties, required, "topic"@);
    json::lemma_field_at(properties, 0);
    lemma_how_properties_read("string"@, GPUI_GUIDE_TOPIC@, topic_choices());
    if key != "topic"@ {
        json::lemma_no_such_field(properties, key);
    }
}

/// What `replay_script` takes, and what it cannot do without.
#[verifier::spinoff_prover]
pub proof fn lemma_what_replay_script_takes(key: Seq<char>)
    ensures
        advertised_name(replay_script_value()) == Some("replay_script"@),
        json::field_text(replay_script_value(), "description"@) == Some(REPLAY_SCRIPT_TOOL@),
        takes_typed(replay_script_value(), "path"@, "string"@, REPLAY_SCRIPT_PATH@),
        takes_typed(replay_script_value(), "seek"@, "boolean"@, REPLAY_SCRIPT_SEEK@),
        takes_typed(replay_script_value(), "stop_on_error"@, "boolean"@, REPLAY_SCRIPT_STOP_ON_ERROR@),
        takes(replay_script_value(), key) is Some <==> key == "path"@ || key == "seek"@
            || key == "stop_on_error"@,
        needs(replay_script_value(), key) <==> key == "path"@,
{
    reveal_strlit("path");
    reveal_strlit("seek");
    reveal_strlit("stop_on_error");
    assert("path"@.len() == 4 && "path"@[0] == 'p'
        && "seek"@.len() == 4 && "seek"@[0] == 's'
        && "stop_on_error"@.len() == 13);
    let properties = json::no_fields()
            .push(("path"@, typed("string"@, REPLAY_SCRIPT_PATH@)))
            .push(("seek"@, typed("boolean"@, REPLAY_SCRIPT_SEEK@)))
            .push(("stop_on_error"@, typed("boolean"@, REPLAY_SCRIPT_STOP_ON_ERROR@)));
    let required = json::no_items()
            .push(JsonValue::Text("path"@));
    assert(replay_script_value() == tool(script::REPLAY_TOOL@, REPLAY_SCRIPT_TOOL@, properties, required));
    lemma_how_a_tool_reads(script::REPLAY_TOOL@, REPLAY_SCRIPT_TOOL@, properties, required, key);
    lemma_how_a_tool_reads(script::REPLAY_TOOL@, REPLAY_SCRIPT_TOOL@, properties, required, "path"@);
    lemma_how_a_tool_reads(script::REPLAY_TOOL@, REPLAY_SCRIPT_TOOL@, properties, required, "seek"@);
    lemma_how_a_tool_reads(script::REPLAY_TOOL@, REPLAY_SCRIPT_TOOL@, properties, required, "stop_on_error"@);
    json::lemma_field_at(properties, 0);
    lemma_how_properties_read("string"@, REPLAY_SCRIPT_PATH@, json::no_items());
    json::lemma_field_at(properties, 1);
    lemma_how_properties_read("boolean"@, REPLAY_SCRIPT_SEEK@, json::no_items());
    json::lemma_field_at(properties, 2);
    lemma_how_properties_read("boolean"@, REPLAY_SCRIPT_STOP_ON_ERROR@, json::no_items());
    if key != "path"@ && key != "seek"@ && key != "stop_on_error"@ {
        json::lemma_no_such_field(properties, key);
    }
    assert(required[0] == JsonValue::Text("path"@));
}

/// What `get_windows` takes, and what it cannot do without.
#[verifier::spinoff_prover]
pub proof fn lemma_what_get_windows_takes(key: Seq<char>)
    ensures
        advertised_name(get_windows_value()) == Some("get_windows"@),
        json::field_text(get_windows_value(), "description"@) == Some(GET_WINDOWS_TOOL@),
        takes(get_windows_value(), key) is None,
        !needs(get_windows_value(), key),
{
    let properties = json::no_fields();
    let required = json::no_items();
    assert(get_windows_value() == tool(methods::GET_WINDOWS@, GET_WINDOWS_TOOL@, properties, required));
    lemma_how_a_tool_reads(methods::GET_WINDOWS@, GET_WINDOWS_TOOL@, properties, required, key);
    json::lemma_no_such_field(properties, key);
}

/// What `ui_snapshot` takes, and what it cannot do without.
#[verifier::spinoff_prover]
pub proof fn lemma_what_ui_snapshot_takes(key: Seq<char>)
    ensures
        advertised_name(ui_snapshot_value()) == Some("ui_snapshot"@),
        json::field_text(ui_snapshot_value(), "description"@) == Some(UI_SNAPSHOT_TOOL@),
        takes_typed(ui_snapshot_value(), "window_id"@, "string"@, UI_SNAPSHOT_WINDOW_ID@),
        takes_typed(ui_snapshot_value(), "root_element_id"@, "string"@, UI_SNAPSHOT_ROOT_ELEMENT_ID@),
        takes_typed(ui_snapshot_value(), "filter"@, "string"@, UI_SNAPSHOT_FILTER@),
        takes_typed(ui_snapshot_value(), "interactive_only"@, "boolean"@, UI_SNAPSHOT_INTERACTIVE_ONLY@),
        takes_typed(ui_snapshot_value(), "max_elements"@, "integer"@, UI_SNAPSHOT_MAX_ELEMENTS@),
        takes_typed(ui_snapshot_value(), "include_bounds"@, "boolean"@, UI_SNAPSHOT_INCLUDE_BOUNDS@),
        takes(ui_snapshot_value(), key) is Some <==> key == "window_id"@
            || key == "root_element_id"@ || key == "filter"@ || key == "interactive_only"@
            || key == "max_elements"@ || key == "include_bounds"@,
        !needs(ui_snapshot_value(), key),
{
    reveal_strlit("window_id");
    reveal_strlit("root_element_id");
    reveal_strlit("filter");
    reveal_strlit("interactive_only");
    reveal_strlit("max_elements");
    reveal_strlit("include_bounds");
    assert("window_id"@.len() == 9
        && "root_element_id"@.len() == 15
        && "filter"@.len() == 6
        && "interactive_only"@.len() == 16
        && "max_elements"@.len() == 12
        && "include_bounds"@.len() == 14);
    let properties = json::no_fields()
            .push(("window_id"@, typed("string"@, UI_SNAPSHOT_WINDOW_ID@)))
            .push(("root_element_id"@, typed("string"@, UI_SNAPSHOT_ROOT_ELEMENT_ID@)))
            .push(("filter"@, typed("string"@, UI_SNAPSHOT_FILTER@)))
            .push(("interactive_only"@, typed("boolean"@, UI_SNAPSHOT_INTERACTIVE_ONLY@)))
            .push(("max_elements"@, typed("integer"@, UI_SNAPSHOT_MAX_ELEMENTS@)))
            .push(("include_bounds"@, typed("boolean"@, UI_SNAPSHOT_INCLUDE_BOUNDS@)));
    let required = json::no_items();
    assert(ui_snapshot_value() == tool(methods::UI_SNAPSHOT@, UI_SNAPSHOT_TOOL@, properties, required));
    lemma_how_a_tool_reads(methods::UI_SNAPSHOT@, UI_SNAPSHOT_TOOL@, properties, required, key);
    lemma_how_a_tool_reads(methods::UI_SNAPSHOT@, UI_SNAPSHOT_TOOL@, properties, required, "window_id"@);
    lemma_how_a_tool_reads(methods::UI_SNAPSHOT@, UI_SNAPSHOT_TOOL@, properties, required, "root_element_id"@);
    lemma_how_a_tool_reads(methods::UI_SNAPSHOT@, UI_SNAPSHOT_TOOL@, properties, required, "filter"@);
    lemma_how_a_tool_reads(methods::UI_SNAPSHOT@, UI_SNAPSHOT_TOOL@, properties, required, "interactive_only"@);
    lemma_how_a_tool_reads(methods::UI_SNAPSHOT@, UI_SNAPSHOT_TOOL@, properties, required, "max_elements"@);
    lemma_how_a_tool_reads(methods::UI_SNAPSHOT@, UI_SNAPSHOT_TOOL@, properties, required, "include_bounds"@);
    json::lemma_field_at(properties, 0);
    lemma_how_properties_read("string"@, UI_SNAPSHOT_WINDOW_ID@, json::no_items());
    json::lemma_field_at(properties, 1);
    lemma_how_properties_read("string"@, UI_SNAPSHOT_ROOT_ELEMENT_ID@, json::no_items());
    json::lemma_field_at(properties, 2);
    lemma_how_properties_read("string"@, UI_SNAPSHOT_FILTER@, json::no_items());
    json::lemma_field_at(properties, 3);
    lemma_how_properties_read("boolean"@, UI_SNAPSHOT_INTERACTIVE_ONLY@, json::no_items());
    json::lemma_field_at(properties, 4);
    lemma_how_properties_read("integer"@, UI_SNAPSHOT_MAX_ELEMENTS@, json::no_items());
    json::lemma_field_at(properties, 5);
    lemma_how_properties_read("boolean"@, UI_SNAPSHOT_INCLUDE_BOUNDS@, json::no_items());
    if key != "window_id"@ && key != "root_element_id"@ && key != "filter"@
        && key != "interactive_only"@ && key != "max_elements"@ && key != "include_bounds"@ {
        json::lemma_no_such_field(properties, key);
    }
}

/// What `a11y_audit` takes, and what it cannot do without.
#[verifier::spinoff_prover]
pub proof fn lemma_what_a11y_audit_takes(key: Seq<char>)
    ensures
        advertised_name(a11y_audit_value()) == Some("a11y_audit"@),
        json::field_text(a11y_audit_value(), "description"@) == Some(A11Y_AUDIT_TOOL@),
        takes_typed(a11y_audit_value(), "window_id"@, "string"@, A11Y_AUDIT_WINDOW_ID@),
        takes_typed(a11y_audit_value(), "root_element_id"@, "string"@, A11Y_AUDIT_ROOT_ELEMENT_ID@),
        takes_one_of(a11y_audit_value(), "fail_on"@, seq![JsonValue::Text("serious"@), JsonValue::Text("warning"@), JsonValue::Text("none"@)]),
        takes_typed(a11y_audit_value(), "fail_on"@, "string"@, A11Y_AUDIT_FAIL_ON@),
        takes_typed(a11y_audit_value(), "min_target_size"@, "number"@, A11Y_AUDIT_MIN_TARGET_SIZE@),
        takes_typed(a11y_audit_value(), "max_findings"@, "integer"@, A11Y_AUDIT_MAX_FINDINGS@),
        takes(a11y_audit_value(), key) is Some <==> key == "window_id"@
            || key == "root_element_id"@ || key == "fail_on"@ || key == "min_target_size"@
            || key == "max_findings"@,
        !needs(a11y_audit_value(), key),
{
    reveal_strlit("window_id");
    reveal_strlit("root_element_id");
    reveal_strlit("fail_on");
    reveal_strlit("min_target_size");
    reveal_strlit("max_findings");
    assert("window_id"@.len() == 9
        && "root_element_id"@.len() == 15 && "root_element_id"@[0] == 'r'
        && "min_target_size"@.len() == 15 && "min_target_size"@[0] == 'm'
        && "fail_on"@.len() == 7
        && "max_findings"@.len() == 12);
    let properties = json::no_fields()
            .push(("window_id"@, typed("string"@, A11Y_AUDIT_WINDOW_ID@)))
            .push(("root_element_id"@, typed("string"@, A11Y_AUDIT_ROOT_ELEMENT_ID@)))
            .push(("fail_on"@, choice(json::no_items().push(JsonValue::Text("serious"@)).push(JsonValue::Text("warning"@)).push(JsonValue::Text("none"@)), A11Y_AUDIT_FAIL_ON@)))
            .push(("min_target_size"@, typed("number"@, A11Y_AUDIT_MIN_TARGET_SIZE@)))
            .push(("max_findings"@, typed("integer"@, A11Y_AUDIT_MAX_FINDINGS@)));
    let required = json::no_items();
    assert(a11y_audit_value() == tool(methods::A11Y_AUDIT@, A11Y_AUDIT_TOOL@, properties, required));
    lemma_how_a_tool_reads(methods::A11Y_AUDIT@, A11Y_AUDIT_TOOL@, properties, required, key);
    lemma_how_a_tool_reads(methods::A11Y_AUDIT@, A11Y_AUDIT_TOOL@, properties, required, "window_id"@);
    lemma_how_a_tool_reads(methods::A11Y_AUDIT@, A11Y_AUDIT_TOOL@, properties, required, "root_element_id"@);
    lemma_how_a_tool_reads(methods::A11Y_AUDIT@, A11Y_AUDIT_TOOL@, properties, required, "fail_on"@);
    lemma_how_a_tool_reads(methods::A11Y_AUDIT@, A11Y_AUDIT_TOOL@, properties, required, "min_target_size"@);
    lemma_how_a_tool_reads(methods::A11Y_AUDIT@, A11Y_AUDIT_TOOL@, properties, required, "max_findings"@);
    json::lemma_field_at(properties, 0);
    lemma_how_properties_read("string"@, A11Y_AUDIT_WINDOW_ID@, json::no_items());
    json::lemma_field_at(properties, 1);
    lemma_how_properties_read("string"@, A11Y_AUDIT_ROOT_ELEMENT_ID@, json::no_items());
    json::lemma_field_at(properties, 2);
    lemma_how_properties_read("string"@, A11Y_AUDIT_FAIL_ON@, json::no_items().push(JsonValue::Text("serious"@)).push(JsonValue::Text("warning"@)).push(JsonValue::Text("none"@)));
    assert(json::no_items().push(JsonValue::Text("serious"@)).push(JsonValue::Text("warning"@)).push(JsonValue::Text("none"@)) =~= seq![JsonValue::Text("serious"@), JsonValue::Text("warning"@), JsonValue::Text("none"@)]);
    json::lemma_field_at(properties, 3);
    lemma_how_properties_read("number"@, A11Y_AUDIT_MIN_TARGET_SIZE@, json::no_items());
    json::lemma_field_at(properties, 4);
    lemma_how_properties_read("integer"@, A11Y_AUDIT_MAX_FINDINGS@, json::no_items());
    if key != "window_id"@ && key != "root_element_id"@ && key != "fail_on"@
        && key != "min_target_size"@ && key != "max_findings"@ {
        json::lemma_no_such_field(properties, key);
    }
}

/// What `a11y_tree` takes, and what it cannot do without.
#[verifier::spinoff_prover]
pub proof fn lemma_what_a11y_tree_takes(key: Seq<char>)
    ensures
        advertised_name(a11y_tree_value()) == Some("a11y_tree"@),
        json::field_text(a11y_tree_value(), "description"@) == Some(A11Y_TREE_TOOL@),
        takes_typed(a11y_tree_value(), "window_id"@, "string"@, A11Y_TREE_WINDOW_ID@),
        takes(a11y_tree_value(), key) is Some <==> key == "window_id"@,
        !needs(a11y_tree_value(), key),
{
    reveal_strlit("window_id");
    let properties = json::no_fields()
            .push(("window_id"@, typed("string"@, A11Y_TREE_WINDOW_ID@)));
    let required = json::no_items();
    assert(a11y_tree_value() == tool(methods::A11Y_TREE@, A11Y_TREE_TOOL@, properties, required));
    lemma_how_a_tool_reads(methods::A11Y_TREE@, A11Y_TREE_TOOL@, properties, required, key);
    lemma_how_a_tool_reads(methods::A11Y_TREE@, A11Y_TREE_TOOL@, properties, required, "window_id"@);
    json::lemma_field_at(properties, 0);
    lemma_how_properties_read("string"@, A11Y_TREE_WINDOW_ID@, json::no_items());
    if key != "window_id"@ {
        json::lemma_no_such_field(properties, key);
    }
}

/// What `inspect_ui_tree` takes, and what it cannot do without.
#[verifier::spinoff_prover]
pub proof fn lemma_what_inspect_ui_tree_takes(key: Seq<char>)
    ensures
        advertised_name(inspect_ui_tree_value()) == Some("inspect_ui_tree"@),
        json::field_text(inspect_ui_tree_value(), "description"@) == Some(INSPECT_UI_TREE_TOOL@),
        takes_typed(inspect_ui_tree_value(), "max_depth"@, "integer"@, INSPECT_UI_TREE_MAX_DEPTH@),
        takes_typed(inspect_ui_tree_value(), "window_id"@, "string"@, INSPECT_UI_TREE_WINDOW_ID@),
        takes_typed(inspect_ui_tree_value(), "element_type_filter"@, "string"@, INSPECT_UI_TREE_ELEMENT_TYPE_FILTER@),
        takes_typed(inspect_ui_tree_value(), "root_element_id"@, "string"@, INSPECT_UI_TREE_ROOT_ELEMENT_ID@),
        takes_one_of(inspect_ui_tree_value(), "format"@, seq![JsonValue::Text("full"@), JsonValue::Text("compact"@)]),
        takes_typed(inspect_ui_tree_value(), "format"@, "string"@, INSPECT_UI_TREE_FORMAT@),
        takes_typed(inspect_ui_tree_value(), "text_filter"@, "string"@, INSPECT_UI_TREE_TEXT_FILTER@),
        takes(inspect_ui_tree_value(), key) is Some <==> key == "max_depth"@
            || key == "window_id"@ || key == "element_type_filter"@ || key == "root_element_id"@
            || key == "format"@ || key == "text_filter"@,
        !needs(inspect_ui_tree_value(), key),
{
    reveal_strlit("max_depth");
    reveal_strlit("window_id");
    reveal_strlit("element_type_filter");
    reveal_strlit("root_element_id");
    reveal_strlit("format");
    reveal_strlit("text_filter");
    assert("max_depth"@.len() == 9 && "max_depth"@[0] == 'm'
        && "window_id"@.len() == 9 && "window_id"@[0] == 'w'
        && "element_type_filter"@.len() == 19
        && "root_element_id"@.len() == 15
        && "format"@.len() == 6
        && "text_filter"@.len() == 11);
    let properties = json::no_fields()
            .push(("max_depth"@, typed("integer"@, INSPECT_UI_TREE_MAX_DEPTH@)))
            .push(("window_id"@, typed("string"@, INSPECT_UI_TREE_WINDOW_ID@)))
            .push(("element_type_filter"@, typed("string"@, INSPECT_UI_TREE_ELEMENT_TYPE_FILTER@)))
            .push(("root_element_id"@, typed("string"@, INSPECT_UI_TREE_ROOT_ELEMENT_ID@)))
            .push(("format"@, choice(json::no_items().push(JsonValue::Text("full"@)).push(JsonValue::Text("compact"@)), INSPECT_UI_TREE_FORMAT@)))
            .push(("text_filter"@, typed("string"@, INSPECT_UI_TREE_TEXT_FILTER@)));
    let required = json::no_items();
    assert(inspect_ui_tree_value() == tool(methods::INSPECT_UI_TREE@, INSPECT_UI_TREE_TOOL@, properties, required));
    lemma_how_a_tool_reads(methods::INSPECT_UI_TREE@, INSPECT_UI_TREE_TOOL@, properties, required, key);
    lemma_how_a_tool_reads(methods::INSPECT_UI_TREE@, INSPECT_UI_TREE_TOOL@, properties, required, "max_depth"@);
    lemma_how_a_tool_reads(methods::INSPECT_UI_TREE@, INSPECT_UI_TREE_TOOL@, properties, required, "window_id"@);
    lemma_how_a_tool_reads(methods::INSPECT_UI_TREE@, INSPECT_UI_TREE_TOOL@, properties, required, "element_type_filter"@);
    lemma_how_a_tool_reads(methods::INSPECT_UI_TREE@, INSPECT_UI_TREE_TOOL@, properties, required, "root_element_id"@);
    lemma_how_a_tool_reads(methods::INSPECT_UI_TREE@, INSPECT_UI_TREE_TOOL@, properties, required, "format"@);
    lemma_how_a_tool_reads(methods::INSPECT_UI_TREE@, INSPECT_UI_TREE_TOOL@, properties, required, "text_filter"@);
    json::lemma_field_at(properties, 0);
    lemma_how_properties_read("integer"@, INSPECT_UI_TREE_MAX_DEPTH@, json::no_items());
    json::lemma_field_at(properties, 1);
    lemma_how_properties_read("string"@, INSPECT_UI_TREE_WINDOW_ID@, json::no_items());
    json::lemma_field_at(properties, 2);
    lemma_how_properties_read("string"@, INSPECT_UI_TREE_ELEMENT_TYPE_FILTER@, json::no_items());
    json::lemma_field_at(properties, 3);
    lemma_how_properties_read("string"@, INSPECT_UI_TREE_ROOT_ELEMENT_ID@, json::no_items());
    json::lemma_field_at(properties, 4);
    lemma_how_properties_read("string"@, INSPECT_UI_TREE_FORMAT@, json::no_items().push(JsonValue::Text("full"@)).push(JsonValue::Text("compact"@)));
    assert(json::no_items().push(JsonValue::Text("full"@)).push(JsonValue::Text("compact"@)) =~= seq![JsonValue::Text("full"@), JsonValue::Text("compact"@)]);
    json::lemma_field_at(properties, 5);
    lemma_how_properties_read("string"@, INSPECT_UI_TREE_TEXT_FILTER@, json::no_items());
    if key != "max_depth"@ && key != "window_id"@ && key != "element_type_filter"@
        && key != "root_element_id"@ && key != "format"@ && key != "text_filter"@ {
        json::lemma_no_such_field(properties, key);
    }
}

/// What `get_element` takes, and what it cannot do without.
#[verifier::spinoff_prover]
pub proof fn lemma_what_get_element_takes(key: Seq<char>)
    ensures
        advertised_name(get_element_value()) == Some("get_element"@),
        json::field_text(get_element_value(), "description"@) == Some(GET_ELEMENT_TOOL@),
        takes_typed(get_element_value(), "element_id"@, "string"@, GET_ELEMENT_ELEMENT_ID@),
        takes(get_element_value(), key) is Some <==> key == "element_id"@,
        needs(get_element_value(), key) <==> key == "element_id"@,
{
    reveal_strlit("element_id");
    let properties = json::no_fields()
            .push(("element_id"@, typed("string"@, GET_ELEMENT_ELEMENT_ID@)));
    let required = json::no_items()
            .push(JsonValue::Text("element_id"@));
    assert(get_element_value() == tool(methods::GET_ELEMENT@, GET_ELEMENT_TOOL@, properties, required));
    lemma_how_a_tool_reads(methods::GET_ELEMENT@, GET_ELEMENT_TOOL@, properties, required, key);
    lemma_how_a_tool_reads(methods::GET_ELEMENT@, GET_ELEMENT_TOOL@, properties, required, "element_id"@);
    json::lemma_field_at(properties, 0);
    lemma_how_properties_read("string"@, GET_ELEMENT_ELEMENT_ID@, json::no_items());
    if key != "element_id"@ {
        json::lemma_no_such_field(properties, key);
    }
    assert(required[0] == JsonValue::Text("element_id"@));
}

/// What `get_focus_info` takes, and what it cannot do without.
#[verifier::spinoff_prover]
pub proof fn lemma_what_get_focus_info_takes(key: Seq<char>)
    ensures
        advertised_name(get_focus_info_value()) == Some("get_focus_info"@),
        json::field_text(get_focus_info_value(), "description"@) == Some(GET_FOCUS_INFO_TOOL@),
        takes_typed(get_focus_info_value(), "window_id"@, "string"@, GET_FOCUS_INFO_WINDOW_ID@),
        takes(get_focus_info_value(), key) is Some <==> key == "window_id"@,
        !needs(get_focus_info_value(), key),
{
    reveal_strlit("window_id");
    let properties = json::no_fields()
            .push(("window_id"@, typed("string"@, GET_FOCUS_INFO_WINDOW_ID@)));
    let required = json::no_items();
    assert(get_focus_info_value() == tool(methods::GET_FOCUS_INFO@, GET_FOCUS_INFO_TOOL@, properties, required));
    lemma_how_a_tool_reads(methods::GET_FOCUS_INFO@, GET_FOCUS_INFO_TOOL@, properties, required, key);
    lemma_how_a_tool_reads(methods::GET_FOCUS_INFO@, GET_FOCUS_INFO_TOOL@, properties, required, "window_id"@);
    json::lemma_field_at(properties, 0);
    lemma_how_properties_read("string"@, GET_FOCUS_INFO_WINDOW_ID@, json::no_items());
    if key != "window_id"@ {
        json::lemma_no_such_field(properties, key);
    }
}

/// What `list_actions` takes, and what it cannot do without.
#[verifier::spinoff_prover]
pub proof fn lemma_what_list_actions_takes(key: Seq<char>)
    ensures
        advertised_name(list_actions_value()) == Some("list_actions"@),
        json::field_text(list_actions_value(), "description"@) == Some(LIST_ACTIONS_TOOL@),
        takes_typed(list_actions_value(), "filter"@, "string"@, LIST_ACTIONS_FILTER@),
        takes_typed(list_actions_value(), "include_bindings"@, "boolean"@, LIST_ACTIONS_INCLUDE_BINDINGS@),
        takes_typed(list_actions_value(), "only_available"@, "boolean"@, LIST_ACTIONS_ONLY_AVAILABLE@),
        takes_typed(list_actions_value(), "window_id"@, "string"@, LIST_ACTIONS_WINDOW_ID@),
        takes(list_actions_value(), key) is Some <==> key == "filter"@
            || key == "include_bindings"@ || key == "only_available"@ || key == "window_id"@,
        !needs(list_actions_value(), key),
{
    reveal_strlit("filter");
    reveal_strlit("include_bindings");
    reveal_strlit("only_available");
    reveal_strlit("window_id");
    assert("filter"@.len() == 6
        && "include_bindings"@.len() == 16
        && "only_available"@.len() == 14
        && "window_id"@.len() == 9);
    let properties = json::no_fields()
            .push(("filter"@, typed("string"@, LIST_ACTIONS_FILTER@)))
            .push(("include_bindings"@, typed("boolean"@, LIST_ACTIONS_INCLUDE_BINDINGS@)))
            .push(("only_available"@, typed("boolean"@, LIST_ACTIONS_ONLY_AVAILABLE@)))
            .push(("window_id"@, typed("string"@, LIST_ACTIONS_WINDOW_ID@)));
    let required = json::no_items();
    assert(list_actions_value() == tool(methods::LIST_ACTIONS@, LIST_ACTIONS_TOOL@, properties, required));
    lemma_how_a_tool_reads(methods::LIST_ACTIONS@, LIST_ACTIONS_TOOL@, properties, required, key);
    lemma_how_a_tool_reads(methods::LIST_ACTIONS@, LIST_ACTIONS_TOOL@, properties, required, "filter"@);
    lemma_how_a_tool_reads(methods::LIST_ACTIONS@, LIST_ACTIONS_TOOL@, properties, required, "include_bindings"@);
    lemma_how_a_tool_reads(methods::LIST_ACTIONS@, LIST_ACTIONS_TOOL@, properties, required, "only_available"@);
    lemma_how_a_tool_reads(methods::LIST_ACTIONS@, LIST_ACTIONS_TOOL@, properties, required, "window_id"@);
    json::lemma_field_at(properties, 0);
    lemma_how_properties_read("string"@, LIST_ACTIONS_FILTER@, json::no_items());
    json::lemma_field_at(properties, 1);
    lemma_how_properties_read("boolean"@, LIST_ACTIONS_INCLUDE_BINDINGS@, json::no_items());
    json::lemma_field_at(properties, 2);
    lemma_how_properties_read("boolean"@, LIST_ACTIONS_ONLY_AVAILABLE@, json::no_items());
    json::lemma_field_at(properties, 3);
    lemma_how_properties_read("string"@, LIST_ACTIONS_WINDOW_ID@, json::no_items());
    if key != "filter"@ && key != "include_bindings"@ && key != "only_available"@
        && key != "window_id"@ {
        json::lemma_no_such_field(properties, key);
    }
}

/// What `execute_action` takes, and what it cannot do without.
#[verifier::spinoff_prover]
pub proof fn lemma_what_execute_action_takes(key: Seq<char>)
    ensures
        advertised_name(execute_action_value()) == Some("execute_action"@),
        json::field_text(execute_action_value(), "description"@) == Some(EXECUTE_ACTION_TOOL@),
        takes_typed(execute_action_value(), "action"@, "string"@, EXECUTE_ACTION_ACTION@),
        takes_typed(execute_action_value(), "args"@, "object"@, EXECUTE_ACTION_ARGS@),
        takes_typed(execute_action_value(), "window_id"@, "string"@, EXECUTE_ACTION_WINDOW_ID@),
        takes(execute_action_value(), key) is Some <==> key == "action"@ || key == "args"@
            || key == "window_id"@,
        needs(execute_action_value(), key) <==> key == "action"@,
{
    reveal_strlit("action");
    reveal_strlit("args");
    reveal_strlit("window_id");
    assert("action"@.len() == 6
        && "args"@.len() == 4
        && "window_id"@.len() == 9);
    let properties = json::no_fields()
            .push(("action"@, typed("string"@, EXECUTE_ACTION_ACTION@)))
            .push(("args"@, typed("object"@, EXECUTE_ACTION_ARGS@)))
            .push(("window_id"@, typed("string"@, EXECUTE_ACTION_WINDOW_ID@)));
    let required = json::no_items()
            .push(JsonValue::Text("action"@));
    assert(execute_action_value() == tool(methods::EXECUTE_ACTION@, EXECUTE_ACTION_TOOL@, properties, required));
    lemma_how_a_tool_reads(methods::EXECUTE_ACTION@, EXECUTE_ACTION_TOOL@, properties, required, key);
    lemma_how_a_tool_reads(methods::EXECUTE_ACTION@, EXECUTE_ACTION_TOOL@, properties, required, "action"@);
    lemma_how_a_tool_reads(methods::EXECUTE_ACTION@, EXECUTE_ACTION_TOOL@, properties, required, "args"@);
    lemma_how_a_tool_reads(methods::EXECUTE_ACTION@, EXECUTE_ACTION_TOOL@, properties, required, "window_id"@);
    json::lemma_field_at(properties, 0);
    lemma_how_properties_read("string"@, EXECUTE_ACTION_ACTION@, json::no_items());
    json::lemma_field_at(properties, 1);
    lemma_how_properties_read("object"@, EXECUTE_ACTION_ARGS@, json::no_items());
    json::lemma_field_at(properties, 2);
    lemma_how_properties_read("string"@, EXECUTE_ACTION_WINDOW_ID@, json::no_items());
    if key != "action"@ && key != "args"@ && key != "window_id"@ {
        json::lemma_no_such_field(properties, key);
    }
    assert(required[0] == JsonValue::Text("action"@));
}

/// What `send_key` takes, and what it cannot do without.
#[verifier::spinoff_prover]
pub proof fn lemma_what_send_key_takes(key: Seq<char>)
    ensures
        advertised_name(send_key_value()) == Some("send_key"@),
        json::field_text(send_key_value(), "description"@) == Some(SEND_KEY_TOOL@),
        takes_typed(send_key_value(), "key"@, "string"@, SEND_KEY_KEY@),
        takes(send_key_value(), "modifiers"@) matches Some(property)
            && json::field_text(property, "type"@) == Some("object"@)
            && holds(property, "ctrl"@, "boolean"@, SEND_KEY_CTRL@)
            && holds(property, "alt"@, "boolean"@, SEND_KEY_ALT@)
            && holds(property, "shift"@, "boolean"@, SEND_KEY_SHIFT@)
            && holds(property, "meta"@, "boolean"@, SEND_KEY_META@),
        takes_typed(send_key_value(), "window_id"@, "string"@, SEND_KEY_WINDOW_ID@),
        takes(send_key_value(), key) is Some <==> key == "key"@ || key == "modifiers"@
            || key == "window_id"@,
        needs(send_key_value(), key) <==> key == "key"@,
{
    reveal_strlit("key");
    reveal_strlit("modifiers");
    reveal_strlit("window_id");
    assert("key"@.len() == 3
        && "modifiers"@.len() == 9 && "modifiers"@[0] == 'm'
        && "window_id"@.len() == 9 && "window_id"@[0] == 'w');
    let properties = json::no_fields()
            .push(("key"@, typed("string"@, SEND_KEY_KEY@)))
            .push(("modifiers"@, nested(json::no_fields().push(("ctrl"@, typed("boolean"@, SEND_KEY_CTRL@))).push(("alt"@, typed("boolean"@, SEND_KEY_ALT@))).push(("shift"@, typed("boolean"@, SEND_KEY_SHIFT@))).push(("meta"@, typed("boolean"@, SEND_KEY_META@))))))
            .push(("window_id"@, typed("string"@, SEND_KEY_WINDOW_ID@)));
    let required = json::no_items()
            .push(JsonValue::Text("key"@));
    assert(send_key_value() == tool(methods::SEND_KEY@, SEND_KEY_TOOL@, properties, required));
    lemma_how_a_tool_reads(methods::SEND_KEY@, SEND_KEY_TOOL@, properties, required, key);
    lemma_how_a_tool_reads(methods::SEND_KEY@, SEND_KEY_TOOL@, properties, required, "key"@);
    lemma_how_a_tool_reads(methods::SEND_KEY@, SEND_KEY_TOOL@, properties, required, "modifiers"@);
    lemma_how_a_tool_reads(methods::SEND_KEY@, SEND_KEY_TOOL@, properties, required, "window_id"@);
    json::lemma_field_at(properties, 0);
    lemma_how_properties_read("string"@, SEND_KEY_KEY@, json::no_items());
    json::lemma_field_at(properties, 1);
    json::lemma_field_at(properties, 2);
    lemma_how_properties_read("string"@, SEND_KEY_WINDOW_ID@, json::no_items());
    let held = json::no_fields().push(("ctrl"@, typed("boolean"@, SEND_KEY_CTRL@))).push(("alt"@, typed("boolean"@, SEND_KEY_ALT@))).push(("shift"@, typed("boolean"@, SEND_KEY_SHIFT@))).push(("meta"@, typed("boolean"@, SEND_KEY_META@)));
    lemma_how_nested_properties_read(held, json::no_items());
    reveal_strlit("ctrl");
    reveal_strlit("alt");
    reveal_strlit("shift");
    reveal_strlit("meta");
    assert("ctrl"@.len() == 4 && "ctrl"@[0] == 'c'
        && "meta"@.len() == 4 && "meta"@[0] == 'm'
        && "alt"@.len() == 3
        && "shift"@.len() == 5);
    json::lemma_field_at(held, 0);
    lemma_how_properties_read("boolean"@, SEND_KEY_CTRL@, json::no_items());
    json::lemma_field_at(held, 1);
    lemma_how_properties_read("boolean"@, SEND_KEY_ALT@, json::no_items());
    json::lemma_field_at(held, 2);
    lemma_how_properties_read("boolean"@, SEND_KEY_SHIFT@, json::no_items());
    json::lemma_field_at(held, 3);
    lemma_how_properties_read("boolean"@, SEND_KEY_META@, json::no_items());
    if key != "key"@ && key != "modifiers"@ && key != "window_id"@ {
        json::lemma_no_such_field(properties, key);
    }
    assert(required[0] == JsonValue::Text("key"@));
}

/// What `click_element` takes, and what it cannot do without.
#[verifier::spinoff_prover]
pub proof fn lemma_what_click_element_takes(key: Seq<char>)
    ensures
        advertised_name(click_element_value()) == Some("click_element"@),
        json::field_text(click_element_value(), "description"@) == Some(CLICK_ELEMENT_TOOL@),
        takes_typed(click_element_value(), "element_id"@, "string"@, CLICK_ELEMENT_ELEMENT_ID@),
        takes_typed(click_element_value(), "x"@, "number"@, CLICK_ELEMENT_X@),
        takes_typed(click_element_value(), "y"@, "number"@, CLICK_ELEMENT_Y@),
        takes_one_of(click_element_value(), "button"@, seq![JsonValue::Text("Left"@), JsonValue::Text("Right"@), JsonValue::Text("Middle"@)]),
        takes_typed(click_element_value(), "button"@, "string"@, CLICK_ELEMENT_BUTTON@),
        takes_typed(click_element_value(), "window_id"@, "string"@, CLICK_ELEMENT_WINDOW_ID@),
        takes(click_element_value(), key) is Some <==> key == "element_id"@ || key == "x"@
            || key == "y"@ || key == "button"@ || key == "window_id"@,
        !needs(click_element_value(), key),
{
    reveal_strlit("element_id");
    reveal_strlit("x");
    reveal_strlit("y");
    reveal_strlit("button");
    reveal_strlit("window_id");
    assert("element_id"@.len() == 10
        && "x"@.len() == 1 && "x"@[0] == 'x'
        && "y"@.len() == 1 && "y"@[0] == 'y'
        && "button"@.len() == 6
        && "window_id"@.len() == 9);
    let properties = json::no_fields()
            .push(("element_id"@, typed("string"@, CLICK_ELEMENT_ELEMENT_ID@)))
            .push(("x"@, typed("number"@, CLICK_ELEMENT_X@)))
            .push(("y"@, typed("number"@, CLICK_ELEMENT_Y@)))
            .push(("button"@, choice(json::no_items().push(JsonValue::Text("Left"@)).push(JsonValue::Text("Right"@)).push(JsonValue::Text("Middle"@)), CLICK_ELEMENT_BUTTON@)))
            .push(("window_id"@, typed("string"@, CLICK_ELEMENT_WINDOW_ID@)));
    let required = json::no_items();
    assert(click_element_value() == tool(methods::CLICK_ELEMENT@, CLICK_ELEMENT_TOOL@, properties, required));
    lemma_how_a_tool_reads(methods::CLICK_ELEMENT@, CLICK_ELEMENT_TOOL@, properties, required, key);
    lemma_how_a_tool_reads(methods::CLICK_ELEMENT@, CLICK_ELEMENT_TOOL@, properties, required, "element_id"@);
    lemma_how_a_tool_reads(methods::CLICK_ELEMENT@, CLICK_ELEMENT_TOOL@, properties, required, "x"@);
    lemma_how_a_tool_reads(methods::CLICK_ELEMENT@, CLICK_ELEMENT_TOOL@, properties, required, "y"@);
    lemma_how_a_tool_reads(methods::CLICK_ELEMENT@, CLICK_ELEMENT_TOOL@, properties, required, "button"@);
    lemma_how_a_tool_reads(methods::CLICK_ELEMENT@, CLICK_ELEMENT_TOOL@, properties, required, "window_id"@);
    json::lemma_field_at(properties, 0);
    lemma_how_properties_read("string"@, CLICK_ELEMENT_ELEMENT_ID@, json::no_items());
    json::lemma_field_at(properties, 1);
    lemma_how_properties_read("number"@, CLICK_ELEMENT_X@, json::no_items());
    json::lemma_field_at(properties, 2);
    lemma_how_properties_read("number"@, CLICK_ELEMENT_Y@, json::no_items());
    json::lemma_field_at(properties, 3);
    lemma_how_properties_read("string"@, CLICK_ELEMENT_BUTTON@, json::no_items().push(JsonValue::Text("Left"@)).push(JsonValue::Text("Right"@)).push(JsonValue::Text("Middle"@)));
    assert(json::no_items().push(JsonValue::Text("Left"@)).push(JsonValue::Text("Right"@)).push(JsonValue::Text("Middle"@)) =~= seq![JsonValue::Text("Left"@), JsonValue::Text("Right"@), JsonValue::Text("Middle"@)]);
    json::lemma_field_at(properties, 4);
    lemma_how_properties_read("string"@, CLICK_ELEMENT_WINDOW_ID@, json::no_items());
    if key != "element_id"@ && key != "x"@ && key != "y"@ && key != "button"@
        && key != "window_id"@ {
        json::lemma_no_such_field(properties, key);
    }
}

/// What `type_text` takes, and what it cannot do without.
#[verifier::spinoff_prover]
pub proof fn lemma_what_type_text_takes(key: Seq<char>)
    ensures
        advertised_name(type_text_value()) == Some("type_text"@),
        json::field_text(type_text_value(), "description"@) == Some(TYPE_TEXT_TOOL@),
        takes_typed(type_text_value(), "text"@, "string"@, TYPE_TEXT_TEXT@),
        takes_typed(type_text_value(), "window_id"@, "string"@, TYPE_TEXT_WINDOW_ID@),
        takes(type_text_value(), key) is Some <==> key == "text"@ || key == "window_id"@,
        needs(type_text_value(), key) <==> key == "text"@,
{
    reveal_strlit("text");
    reveal_strlit("window_id");
    assert("text"@.len() == 4
        && "window_id"@.len() == 9);
    let properties = json::no_fields()
            .push(("text"@, typed("string"@, TYPE_TEXT_TEXT@)))
            .push(("window_id"@, typed("string"@, TYPE_TEXT_WINDOW_ID@)));
    let required = json::no_items()
            .push(JsonValue::Text("text"@));
    assert(type_text_value() == tool(methods::TYPE_TEXT@, TYPE_TEXT_TOOL@, properties, required));
    lemma_how_a_tool_reads(methods::TYPE_TEXT@, TYPE_TEXT_TOOL@, properties, required, key);
    lemma_how_a_tool_reads(methods::TYPE_TEXT@, TYPE_TEXT_TOOL@, properties, required, "text"@);
    lemma_how_a_tool_reads(methods::TYPE_TEXT@, TYPE_TEXT_TOOL@, properties, required, "window_id"@);
    json::lemma_field_at(properties, 0);
    lemma_how_properties_read("string"@, TYPE_TEXT_TEXT@, json::no_items());
    json::lemma_field_at(properties, 1);
    lemma_how_properties_read("string"@, TYPE_TEXT_WINDOW_ID@, json::no_items());
    if key != "text"@ && key != "window_id"@ {
        json::lemma_no_such_field(properties, key);
    }
    assert(required[0] == JsonValue::Text("text"@));
}

/// What `wait_for` takes, and what it cannot do without.
#[verifier::spinoff_prover]
pub proof fn lemma_what_wait_for_takes(key: Seq<char>)
    ensures
        advertised_name(wait_for_value()) == Some("wait_for"@),
        json::field_text(wait_for_value(), "description"@) == Some(WAIT_FOR_TOOL@),
        takes_typed(wait_for_value(), "element_id"@, "string"@, WAIT_FOR_ELEMENT_ID@),
        takes_typed(wait_for_value(), "text"@, "string"@, WAIT_FOR_TEXT@),
        takes_typed(wait_for_value(), "key_context"@, "string"@, WAIT_FOR_KEY_CONTEXT@),
        takes_typed(wait_for_value(), "app_state_path"@, "string"@, WAIT_FOR_APP_STATE_PATH@),
        takes_untyped(wait_for_value(), "app_state_equals"@, WAIT_FOR_APP_STATE_EQUALS@),
        takes_typed(wait_for_value(), "absent"@, "boolean"@, WAIT_FOR_ABSENT@),
        takes_typed(wait_for_value(), "timeout_ms"@, "integer"@, WAIT_FOR_TIMEOUT_MS@),
        takes_typed(wait_for_value(), "window_id"@, "string"@, WAIT_FOR_WINDOW_ID@),
        takes(wait_for_value(), key) is Some <==> key == "element_id"@ || key == "text"@
            || key == "key_context"@ || key == "app_state_path"@ || key == "app_state_equals"@
            || key == "absent"@ || key == "timeout_ms"@ || key == "window_id"@,
        !needs(wait_for_value(), key),
{
    reveal_strlit("element_id");
    reveal_strlit("text");
    reveal_strlit("key_context");
    reveal_strlit("app_state_path");
    reveal_strlit("app_state_equals");
    reveal_strlit("absent");
    reveal_strlit("timeout_ms");
    reveal_strlit("window_id");
    assert("element_id"@.len() == 10 && "element_id"@[0] == 'e'
        && "timeout_ms"@.len() == 10 && "timeout_ms"@[0] == 't'
        && "text"@.len() == 4
        && "key_context"@.len() == 11
        && "app_state_path"@.len() == 14
        && "app_state_equals"@.len() == 16
        && "absent"@.len() == 6
        && "window_id"@.len() == 9);
    let properties = json::no_fields()
            .push(("element_id"@, typed("string"@, WAIT_FOR_ELEMENT_ID@)))
            .push(("text"@, typed("string"@, WAIT_FOR_TEXT@)))
            .push(("key_context"@, typed("string"@, WAIT_FOR_KEY_CONTEXT@)))
            .push(("app_state_path"@, typed("string"@, WAIT_FOR_APP_STATE_PATH@)))
            .push(("app_state_equals"@, untyped(WAIT_FOR_APP_STATE_EQUALS@)))
            .push(("absent"@, typed("boolean"@, WAIT_FOR_ABSENT@)))
            .push(("timeout_ms"@, typed("integer"@, WAIT_FOR_TIMEOUT_MS@)))
            .push(("window_id"@, typed("string"@, WAIT_FOR_WINDOW_ID@)));
    let required = json::no_items();
    assert(wait_for_value() == tool(methods::WAIT_FOR@, WAIT_FOR_TOOL@, properties, required));
    lemma_how_a_tool_reads(methods::WAIT_FOR@, WAIT_FOR_TOOL@, properties, required, key);
    lemma_how_a_tool_reads(methods::WAIT_FOR@, WAIT_FOR_TOOL@, properties, required, "element_id"@);
    lemma_how_a_tool_reads(methods::WAIT_FOR@, WAIT_FOR_TOOL@, properties, required, "text"@);
    lemma_how_a_tool_reads(methods::WAIT_FOR@, WAIT_FOR_TOOL@, properties, required, "key_context"@);
    lemma_how_a_tool_reads(methods::WAIT_FOR@, WAIT_FOR_TOOL@, properties, required, "app_state_path"@);
    lemma_how_a_tool_reads(methods::WAIT_FOR@, WAIT_FOR_TOOL@, properties, required, "app_state_equals"@);
    lemma_how_a_tool_reads(methods::WAIT_FOR@, WAIT_FOR_TOOL@, properties, required, "absent"@);
    lemma_how_a_tool_reads(methods::WAIT_FOR@, WAIT_FOR_TOOL@, properties, required, "timeout_ms"@);
    lemma_how_a_tool_reads(methods::WAIT_FOR@, WAIT_FOR_TOOL@, properties, required, "window_id"@);
    json::lemma_field_at(properties, 0);
    lemma_how_properties_read("string"@, WAIT_FOR_ELEMENT_ID@, json::no_items());
    json::lemma_field_at(properties, 1);
    lemma_how_properties_read("string"@, WAIT_FOR_TEXT@, json::no_items());
    json::lemma_field_at(properties, 2);
    lemma_how_properties_read("string"@, WAIT_FOR_KEY_CONTEXT@, json::no_items());
    json::lemma_field_at(properties, 3);
    lemma_how_properties_read("string"@, WAIT_FOR_APP_STATE_PATH@, json::no_items());
    json::lemma_field_at(properties, 4);
    lemma_how_properties_read(""@, WAIT_FOR_APP_STATE_EQUALS@, json::no_items());
    json::lemma_field_at(properties, 5);
    lemma_how_properties_read("boolean"@, WAIT_FOR_ABSENT@, json::no_items());
    json::lemma_field_at(properties, 6);
    lemma_how_properties_read("integer"@, WAIT_FOR_TIMEOUT_MS@, json::no_items());
    json::lemma_field_at(properties, 7);
    lemma_how_properties_read("string"@, WAIT_FOR_WINDOW_ID@, json::no_items());
    if key != "element_id"@ && key != "text"@ && key != "key_context"@ && key != "app_state_path"@
        && key != "app_state_equals"@ && key != "absent"@ && key != "timeout_ms"@
        && key != "window_id"@ {
        json::lemma_no_such_field(properties, key);
    }
}

/// What `batch` takes, and what it cannot do without.
#[verifier::spinoff_prover]
pub proof fn lemma_what_batch_takes(key: Seq<char>)
    ensures
        advertised_name(batch_value()) == Some("batch"@),
        json::field_text(batch_value(), "description"@) == Some(BATCH_TOOL@),
        takes(batch_value(), "steps"@) == Some(steps_schema()),
        takes_typed(batch_value(), "stop_on_error"@, "boolean"@, BATCH_STOP_ON_ERROR@),
        takes_typed(batch_value(), "window_id"@, "string"@, BATCH_WINDOW_ID@),
        takes(batch_value(), key) is Some <==> key == "steps"@ || key == "stop_on_error"@
            || key == "window_id"@,
        needs(batch_value(), key) <==> key == "steps"@,
{
    reveal_strlit("steps");
    reveal_strlit("stop_on_error");
    reveal_strlit("window_id");
    assert("steps"@.len() == 5
        && "stop_on_error"@.len() == 13
        && "window_id"@.len() == 9);
    let properties = json::no_fields()
            .push(("steps"@, steps_schema()))
            .push(("stop_on_error"@, typed("boolean"@, BATCH_STOP_ON_ERROR@)))
            .push(("window_id"@, typed("string"@, BATCH_WINDOW_ID@)));
    let required = json::no_items()
            .push(JsonValue::Text("steps"@));
    assert(batch_value() == tool(methods::BATCH@, BATCH_TOOL@, properties, required));
    lemma_how_a_tool_reads(methods::BATCH@, BATCH_TOOL@, properties, required, key);
    lemma_how_a_tool_reads(methods::BATCH@, BATCH_TOOL@, properties, required, "steps"@);
    lemma_how_a_tool_reads(methods::BATCH@, BATCH_TOOL@, properties, required, "stop_on_error"@);
    lemma_how_a_tool_reads(methods::BATCH@, BATCH_TOOL@, properties, required, "window_id"@);
    json::lemma_field_at(properties, 0);
    json::lemma_field_at(properties, 1);
    lemma_how_properties_read("boolean"@, BATCH_STOP_ON_ERROR@, json::no_items());
    json::lemma_field_at(properties, 2);
    lemma_how_properties_read("string"@, BATCH_WINDOW_ID@, json::no_items());
    if key != "steps"@ && key != "stop_on_error"@ && key != "window_id"@ {
        json::lemma_no_such_field(properties, key);
    }
    assert(required[0] == JsonValue::Text("steps"@));
}

/// What `take_screenshot` takes, and what it cannot do without.
#[verifier::spinoff_prover]
pub proof fn lemma_what_take_screenshot_takes(key: Seq<char>)
    ensures
        advertised_name(take_screenshot_value()) == Some("take_screenshot"@),
        json::field_text(take_screenshot_value(), "description"@) == Some(TAKE_SCREENSHOT_TOOL@),
        takes_typed(take_screenshot_value(), "window_id"@, "string"@, TAKE_SCREENSHOT_WINDOW_ID@),
        takes_typed(take_screenshot_value(), "element_id"@, "string"@, TAKE_SCREENSHOT_ELEMENT_ID@),
        takes_typed(take_screenshot_value(), "max_width"@, "integer"@, TAKE_SCREENSHOT_MAX_WIDTH@),
        takes(take_screenshot_value(), key) is Some <==> key == "window_id"@
            || key == "element_id"@ || key == "max_width"@,
        !needs(take_screenshot_value(), key),
{
    reveal_strlit("window_id");
    reveal_strlit("element_id");
    reveal_strlit("max_width");
    assert("window_id"@.len() == 9 && "window_id"@[0] == 'w'
        && "max_width"@.len() == 9 && "max_width"@[0] == 'm'
        && "element_id"@.len() == 10);
    let properties = json::no_fields()
            .push(("window_id"@, typed("string"@, TAKE_SCREENSHOT_WINDOW_ID@)))
            .push(("element_id"@, typed("string"@, TAKE_SCREENSHOT_ELEMENT_ID@)))
            .push(("max_width"@, typed("integer"@, TAKE_SCREENSHOT_MAX_WIDTH@)));
    let required = json::no_items();
    assert(take_screenshot_value() == tool(methods::TAKE_SCREENSHOT@, TAKE_SCREENSHOT_TOOL@, properties, required));
    lemma_how_a_tool_reads(methods::TAKE_SCREENSHOT@, TAKE_SCREENSHOT_TOOL@, properties, required, key);
    lemma_how_a_tool_reads(methods::TAKE_SCREENSHOT@, TAKE_SCREENSHOT_TOOL@, properties, required, "window_id"@);
    lemma_how_a_tool_reads(methods::TAKE_SCREENSHOT@, TAKE_SCREENSHOT_TOOL@, properties, required, "element_id"@);
    lemma_how_a_tool_reads(methods::TAKE_SCREENSHOT@, TAKE_SCREENSHOT_TOOL@, properties, required, "max_width"@);
    json::lemma_field_at(properties, 0);
    lemma_how_properties_read("string"@, TAKE_SCREENSHOT_WINDOW_ID@, json::no_items());
    json::lemma_field_at(properties, 1);
    lemma_how_properties_read("string"@, TAKE_SCREENSHOT_ELEMENT_ID@, json::no_items());
    json::lemma_field_at(properties, 2);
    lemma_how_properties_read("integer"@, TAKE_SCREENSHOT_MAX_WIDTH@, json::no_items());
    if key != "window_id"@ && key != "element_id"@ && key != "max_width"@ {
        json::lemma_no_such_field(properties, key);
    }
}

/// What `get_app_state` takes, and what it cannot do without.
#[verifier::spinoff_prover]
pub proof fn lemma_what_get_app_state_takes(key: Seq<char>)
    ensures
        advertised_name(get_app_state_value()) == Some("get_app_state"@),
        json::field_text(get_app_state_value(), "description"@) == Some(GET_APP_STATE_TOOL@),
        takes(get_app_state_value(), key) is None,
        !needs(get_app_state_value(), key),
{
    let properties = json::no_fields();
    let required = json::no_items();
    assert(get_app_state_value() == tool(methods::GET_APP_STATE@, GET_APP_STATE_TOOL@, properties, required));
    lemma_how_a_tool_reads(methods::GET_APP_STATE@, GET_APP_STATE_TOOL@, properties, required, key);
    json::lemma_no_such_field(properties, key);
}

/// What `get_logs` takes, and what it cannot do without.
#[verifier::spinoff_prover]
pub proof fn lemma_what_get_logs_takes(key: Seq<char>)
    ensures
        advertised_name(get_logs_value()) == Some("get_logs"@),
        json::field_text(get_logs_value(), "description"@) == Some(GET_LOGS_TOOL@),
        takes(get_logs_value(), key) is None,
        !needs(get_logs_value(), key),
{
    let properties = json::no_fields();
    let required = json::no_items();
    assert(get_logs_value() == tool(methods::GET_LOGS@, GET_LOGS_TOOL@, properties, required));
    lemma_how_a_tool_reads(methods::GET_LOGS@, GET_LOGS_TOOL@, properties, required, key);
    json::lemma_no_such_field(properties, key);
}

/// What `set_viewport` takes, and what it cannot do without.
#[verifier::spinoff_prover]
pub proof fn lemma_what_set_viewport_takes(key: Seq<char>)
    ensures
        advertised_name(set_viewport_value()) == Some("set_viewport"@),
        json::field_text(set_viewport_value(), "description"@) == Some(SET_VIEWPORT_TOOL@),
        takes_typed(set_viewport_value(), "width"@, "number"@, SET_VIEWPORT_WIDTH@),
        takes_typed(set_viewport_value(), "height"@, "number"@, SET_VIEWPORT_HEIGHT@),
        takes_typed(set_viewport_value(), "window_id"@, "string"@, SET_VIEWPORT_WINDOW_ID@),
        takes(set_viewport_value(), key) is Some <==> key == "width"@ || key == "height"@
            || key == "window_id"@,
        needs(set_viewport_value(), key) <==> key == "width"@ || key == "height"@,
{
    reveal_strlit("width");
    reveal_strlit("height");
    reveal_strlit("window_id");
    assert("width"@.len() == 5
        && "height"@.len() == 6
        && "window_id"@.len() == 9);
    let properties = json::no_fields()
            .push(("width"@, typed("number"@, SET_VIEWPORT_WIDTH@)))
            .push(("height"@, typed("number"@, SET_VIEWPORT_HEIGHT@)))
            .push(("window_id"@, typed("string"@, SET_VIEWPORT_WINDOW_ID@)));
    let required = json::no_items()
            .push(JsonValue::Text("width"@))
            .push(JsonValue::Text("height"@));
    assert(set_viewport_value() == tool(methods::SET_VIEWPORT@, SET_VIEWPORT_TOOL@, properties, required));
    lemma_how_a_tool_reads(methods::SET_VIEWPORT@, SET_VIEWPORT_TOOL@, properties, required, key);
    lemma_how_a_tool_reads(methods::SET_VIEWPORT@, SET_VIEWPORT_TOOL@, properties, required, "width"@);
    lemma_how_a_tool_reads(methods::SET_VIEWPORT@, SET_VIEWPORT_TOOL@, properties, required, "height"@);
    lemma_how_a_tool_reads(methods::SET_VIEWPORT@, SET_VIEWPORT_TOOL@, properties, required, "window_id"@);
    json::lemma_field_at(properties, 0);
    lemma_how_properties_read("number"@, SET_VIEWPORT_WIDTH@, json::no_items());
    json::lemma_field_at(properties, 1);
    lemma_how_properties_read("number"@, SET_VIEWPORT_HEIGHT@, json::no_items());
    json::lemma_field_at(properties, 2);
    lemma_how_properties_read("string"@, SET_VIEWPORT_WINDOW_ID@, json::no_items());
    if key != "width"@ && key != "height"@ && key != "window_id"@ {
        json::lemma_no_such_field(properties, key);
    }
    assert(required[0] == JsonValue::Text("width"@));
    assert(required[1] == JsonValue::Text("height"@));
}

/// What `reset_app` takes, and what it cannot do without.
#[verifier::spinoff_prover]
pub proof fn lemma_what_reset_app_takes(key: Seq<char>)
    ensures
        advertised_name(reset_app_value()) == Some("reset_app"@),
        json::field_text(reset_app_value(), "description"@) == Some(RESET_APP_TOOL@),
        takes_untyped(reset_app_value(), "arguments"@, RESET_APP_ARGUMENTS@),
        takes(reset_app_value(), key) is Some <==> key == "arguments"@,
        !needs(reset_app_value(), key),
{
    reveal_strlit("arguments");
    let properties = json::no_fields()
            .push(("arguments"@, untyped(RESET_APP_ARGUMENTS@)));
    let required = json::no_items();
    assert(reset_app_value() == tool(methods::RESET_APP@, RESET_APP_TOOL@, properties, required));
    lemma_how_a_tool_reads(methods::RESET_APP@, RESET_APP_TOOL@, properties, required, key);
    lemma_how_a_tool_reads(methods::RESET_APP@, RESET_APP_TOOL@, properties, required, "arguments"@);
    json::lemma_field_at(properties, 0);
    lemma_how_properties_read(""@, RESET_APP_ARGUMENTS@, json::no_items());
    if key != "arguments"@ {
        json::lemma_no_such_field(properties, key);
    }
}

proof fn lemma_topic_items(topics: Seq<docs::TopicValue>, n: nat)
    requires
        n <= topics.len(),
    ensures
        topic_items_of(topics, n as int) == Seq::new(
            n,
            |i: int| JsonValue::Text(topics[i].name),
        ),
    decreases n,
{
    if n > 0 {
        lemma_topic_items(topics, (n - 1) as nat);
    }
    assert(topic_items_of(topics, n as int) =~= Seq::new(
        n,
        |i: int| JsonValue::Text(topics[i].name),
    ));
}

/// The guide offers every topic there is, in order, and no other.
pub proof fn lemma_the_topics_that_are_offered()
    ensures
        takes_one_of(
            gpui_guide_value(),
            "topic"@,
            docs::all_topics().map_values(|topic: docs::TopicValue| JsonValue::Text(topic.name)),
        ),
{
    lemma_what_gpui_guide_takes("topic"@);
    lemma_topic_items(docs::all_topics(), docs::all_topics().len());
    assert(topic_choices() =~= docs::all_topics().map_values(
        |topic: docs::TopicValue| JsonValue::Text(topic.name),
    ));
}

proof fn lemma_step_items(names: Seq<Seq<char>>, n: nat)
    requires
        n <= names.len(),
    ensures
        step_items_of(names, n as int) == names.take(n as int).filter(
            |name: Seq<char>| name != "batch"@,
        ).map_values(|name: Seq<char>| JsonValue::Text(name)),
    decreases n,
{
    let other = |name: Seq<char>| name != "batch"@;
    let as_text = |name: Seq<char>| JsonValue::Text(name);
    let some = names.take(n as int);
    reveal(Seq::filter);
    if n > 0 {
        let k = (n - 1) as nat;
        lemma_step_items(names, k);
        let before = names.take(k as int);
        assert(some.drop_last() =~= before);
        assert(some.last() == names[n - 1]);
        if other(names[n - 1]) {
            assert(before.filter(other).push(names[n - 1]).map_values(as_text) =~= before.filter(
                other,
            ).map_values(as_text).push(as_text(names[n - 1])));
        }
        assert(step_items_of(names, n as int) =~= some.filter(other).map_values(as_text));
    } else {
        assert(some.filter(other).map_values(as_text) =~= Seq::empty());
    }
}

/// A step of a batch is any method of the app but the batch itself, and needs
/// nothing but the method.
pub proof fn lemma_what_a_step_of_a_batch_takes()
    ensures
        takes(batch_value(), "steps"@) matches Some(steps) && {
            &&& json::field_text(steps, "type"@) == Some("array"@)
            &&& json::field_text(steps, "description"@) == Some(BATCH_STEPS@)
            &&& json::field(steps, "items"@) matches Some(step)
            &&& json::field(step, "required"@) == Some(
                JsonValue::Array(seq![JsonValue::Text("method"@)]),
            )
            &&& json::field(step, "properties"@) matches Some(held)
            &&& json::field(held, "params"@) matches Some(params)
            &&& json::field_text(params, "type"@) == Some("object"@)
            &&& json::field(held, "method"@) matches Some(method)
            &&& json::field(method, "enum"@) == Some(
                JsonValue::Array(
                    methods::all_names().filter(|name: Seq<char>| name != "batch"@).map_values(
                        |name: Seq<char>| JsonValue::Text(name),
                    ),
                ),
            )
        },
{
    lemma_what_batch_takes("steps"@);
    let names = step_items_of(methods::all_names(), methods::all_names().len() as int);
    lemma_step_items(methods::all_names(), methods::all_names().len());
    assert(methods::all_names().take(methods::all_names().len() as int)
        =~= methods::all_names());
    reveal_strlit("type");
    reveal_strlit("description");
    reveal_strlit("items");
    reveal_strlit("method");
    reveal_strlit("params");
    assert("type"@.len() == 4 && "description"@.len() == 11 && "items"@.len() == 5);
    assert("method"@[0] == 'm' && "params"@[0] == 'p');
    let steps = steps_schema()->Object_0;
    json::lemma_field_at(steps, 0);
    json::lemma_field_at(steps, 1);
    json::lemma_field_at(steps, 2);
    let held = json::no_fields().push(("method"@, choice(names, BATCH_STEP_METHOD@))).push(
        ("params"@, typed("object"@, BATCH_STEP_PARAMS@)),
    );
    let required = json::no_items().push(JsonValue::Text("method"@));
    assert(required =~= seq![JsonValue::Text("method"@)]);
    lemma_how_nested_properties_read(held, required);
    json::lemma_field_at(held, 0);
    json::lemma_field_at(held, 1);
    lemma_how_properties_read("object"@, BATCH_STEP_PARAMS@, names);
    lemma_how_properties_read("object"@, BATCH_STEP_METHOD@, names);
}

/// The guide's description names every topic.
pub proof fn lemma_the_guide_names_its_topics()
    ensures
        text::mentions(
            guide_description(),
            text::joined(docs::names_of(docs::all_topics()), ", "@),
        ),
{
    text::lemma_mentions(
        GUIDE_BEFORE_TOPICS@,
        text::joined(docs::names_of(docs::all_topics()), ", "@),
        GUIDE_AFTER_TOPICS@,
    );
}

} // verus!
