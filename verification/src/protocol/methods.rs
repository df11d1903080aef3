//! IPC method names. The MCP tool names are identical.
use vstd::prelude::*;

use crate::text;

verus! {

// Inspection
pub const UI_SNAPSHOT: &'static str = "ui_snapshot";

pub const A11Y_AUDIT: &'static str = "a11y_audit";

pub const A11Y_TREE: &'static str = "a11y_tree";

pub const INSPECT_UI_TREE: &'static str = "inspect_ui_tree";

pub const GET_ELEMENT: &'static str = "get_element";

pub const GET_WINDOWS: &'static str = "get_windows";

pub const TAKE_SCREENSHOT: &'static str = "take_screenshot";

pub const GET_FOCUS_INFO: &'static str = "get_focus_info";

// Automation
pub const WAIT_FOR: &'static str = "wait_for";

pub const BATCH: &'static str = "batch";

pub const CLICK_ELEMENT: &'static str = "click_element";

pub const SEND_KEY: &'static str = "send_key";

pub const TYPE_TEXT: &'static str = "type_text";

pub const EXECUTE_ACTION: &'static str = "execute_action";

pub const LIST_ACTIONS: &'static str = "list_actions";

// State & debugging
pub const GET_APP_STATE: &'static str = "get_app_state";

pub const GET_LOGS: &'static str = "get_logs";

// Determinism: a script that replays the same way tomorrow
pub const SET_VIEWPORT: &'static str = "set_viewport";

pub const RESET_APP: &'static str = "reset_app";

/// Every method, in the order the MCP server advertises its tools.
pub open spec fn all_names() -> Seq<Seq<char>> {
    seq![
        GET_WINDOWS@,
        UI_SNAPSHOT@,
        A11Y_AUDIT@,
        A11Y_TREE@,
        INSPECT_UI_TREE@,
        GET_ELEMENT@,
        GET_FOCUS_INFO@,
        LIST_ACTIONS@,
        EXECUTE_ACTION@,
        SEND_KEY@,
        CLICK_ELEMENT@,
        TYPE_TEXT@,
        WAIT_FOR@,
        BATCH@,
        TAKE_SCREENSHOT@,
        GET_APP_STATE@,
        GET_LOGS@,
        SET_VIEWPORT@,
        RESET_APP@,
    ]
}

/// Every method, in the order the MCP server advertises its tools.
pub fn all() -> (r: Vec<&'static str>)
    ensures
        text::texts(r@) == all_names(),
{
    let r: Vec<&'static str> = vec![
        GET_WINDOWS,
        UI_SNAPSHOT,
        A11Y_AUDIT,
        A11Y_TREE,
        INSPECT_UI_TREE,
        GET_ELEMENT,
        GET_FOCUS_INFO,
        LIST_ACTIONS,
        EXECUTE_ACTION,
        SEND_KEY,
        CLICK_ELEMENT,
        TYPE_TEXT,
        WAIT_FOR,
        BATCH,
        TAKE_SCREENSHOT,
        GET_APP_STATE,
        GET_LOGS,
        SET_VIEWPORT,
        RESET_APP,
    ];
    proof {
        assert(text::texts(r@) =~= all_names());
    }
    r
}

/// Whether the app answers a method of this name.
pub fn is_method(name: &str) -> (r: bool)
    ensures
        r == all_names().contains(name@),
{
    let names: Vec<&'static str> = all();
    let mut i: usize = 0;
    while i < names.len()
        invariant
            i <= names@.len(),
            text::texts(names@) == all_names(),
            forall|j: int| 0 <= j < i ==> all_names()[j] != name@,
        decreases names@.len() - i,
    {
        proof {
            assert(all_names()[i as int] == names@[i as int]@);
        }
        if text::same_text(names[i], name) {
            return true;
        }
        i += 1;
    }
    proof {
        assert(names@.len() == all_names().len());
    }
    false
}

/// A length and two characters: enough to tell the methods apart.
pub open spec fn stamp(name: Seq<char>) -> (nat, char, char) {
    (name.len(), name[0], name[4])
}

/// No two methods share a name.
pub proof fn lemma_every_method_is_listed_once()
    ensures
        all_names().no_duplicates(),
{
    reveal_strlit("get_windows");
    reveal_strlit("ui_snapshot");
    reveal_strlit("a11y_audit");
    reveal_strlit("a11y_tree");
    reveal_strlit("inspect_ui_tree");
    reveal_strlit("get_element");
    reveal_strlit("get_focus_info");
    reveal_strlit("list_actions");
    reveal_strlit("execute_action");
    reveal_strlit("send_key");
    reveal_strlit("click_element");
    reveal_strlit("type_text");
    reveal_strlit("wait_for");
    reveal_strlit("batch");
    reveal_strlit("take_screenshot");
    reveal_strlit("get_app_state");
    reveal_strlit("get_logs");
    reveal_strlit("set_viewport");
    reveal_strlit("reset_app");
    let stamps: Seq<(nat, char, char)> = seq![
        (11, 'g', 'w'),
        (11, 'u', 'n'),
        (10, 'a', '_'),
        (9, 'a', '_'),
        (15, 'i', 'e'),
        (11, 'g', 'e'),
        (14, 'g', 'f'),
        (12, 'l', '_'),
        (14, 'e', 'u'),
        (8, 's', '_'),
        (13, 'c', 'k'),
        (9, 't', '_'),
        (8, 'w', '_'),
        (5, 'b', 'h'),
        (15, 't', '_'),
        (13, 'g', 'a'),
        (8, 'g', 'l'),
        (12, 's', 'v'),
        (9, 'r', 't'),
    ];
    assert forall|i: int| 0 <= i < stamps.len() implies #[trigger] stamp(all_names()[i])
        == stamps[i] by {};
    assert(forall|i: int, j: int| 0 <= i < j < stamps.len() ==> stamps[i] != stamps[j]);
    assert forall|i: int, j: int|
        0 <= i < all_names().len() && 0 <= j < all_names().len() && i
            != j implies all_names()[i] != all_names()[j] by {
        assert(stamp(all_names()[i]) == stamps[i]);
        assert(stamp(all_names()[j]) == stamps[j]);
    }
}

/// The tools that the server answers itself are no methods of the app.
pub proof fn lemma_server_tools_are_no_methods()
    ensures
        !all_names().contains("gpui_guide"@),
        !all_names().contains("replay_script"@),
        !all_names().contains("expect_screenshot"@),
{
    reveal_strlit("get_windows");
    reveal_strlit("ui_snapshot");
    reveal_strlit("a11y_audit");
    reveal_strlit("a11y_tree");
    reveal_strlit("inspect_ui_tree");
    reveal_strlit("get_element");
    reveal_strlit("get_focus_info");
    reveal_strlit("list_actions");
    reveal_strlit("execute_action");
    reveal_strlit("send_key");
    reveal_strlit("click_element");
    reveal_strlit("type_text");
    reveal_strlit("wait_for");
    reveal_strlit("batch");
    reveal_strlit("take_screenshot");
    reveal_strlit("get_app_state");
    reveal_strlit("get_logs");
    reveal_strlit("set_viewport");
    reveal_strlit("reset_app");
    reveal_strlit("gpui_guide");
    reveal_strlit("replay_script");
    reveal_strlit("expect_screenshot");
    assert(stamp("gpui_guide"@) == (10nat, 'g', '_'));
    assert(stamp("replay_script"@) == (13nat, 'r', 'a'));
    assert(stamp("expect_screenshot"@) == (17nat, 'e', 'c'));
    assert forall|i: int| 0 <= i < all_names().len() implies all_names()[i] != "gpui_guide"@
        && all_names()[i] != "replay_script"@ && all_names()[i] != "expect_screenshot"@ by {
        let name = all_names()[i];
        assert(stamp(name) == (name.len(), name[0], name[4]));
    }
}

/// The stamps of the methods, by name.
pub proof fn lemma_stamps()
    ensures
        stamp("get_windows"@) == (11nat, 'g', 'w'),
        stamp("ui_snapshot"@) == (11nat, 'u', 'n'),
        stamp("a11y_audit"@) == (10nat, 'a', '_'),
        stamp("a11y_tree"@) == (9nat, 'a', '_'),
        stamp("inspect_ui_tree"@) == (15nat, 'i', 'e'),
        stamp("get_element"@) == (11nat, 'g', 'e'),
        stamp("get_focus_info"@) == (14nat, 'g', 'f'),
        stamp("list_actions"@) == (12nat, 'l', '_'),
        stamp("execute_action"@) == (14nat, 'e', 'u'),
        stamp("send_key"@) == (8nat, 's', '_'),
        stamp("click_element"@) == (13nat, 'c', 'k'),
        stamp("type_text"@) == (9nat, 't', '_'),
        stamp("wait_for"@) == (8nat, 'w', '_'),
        stamp("batch"@) == (5nat, 'b', 'h'),
        stamp("take_screenshot"@) == (15nat, 't', '_'),
        stamp("get_app_state"@) == (13nat, 'g', 'a'),
        stamp("get_logs"@) == (8nat, 'g', 'l'),
        stamp("set_viewport"@) == (12nat, 's', 'v'),
        stamp("reset_app"@) == (9nat, 'r', 't'),
        stamp("gpui_guide"@) == (10nat, 'g', '_'),
        stamp("replay_script"@) == (13nat, 'r', 'a'),
        stamp("expect_screenshot"@) == (17nat, 'e', 'c'),
{
    reveal_strlit("get_windows");
    reveal_strlit("ui_snapshot");
    reveal_strlit("a11y_audit");
    reveal_strlit("a11y_tree");
    reveal_strlit("inspect_ui_tree");
    reveal_strlit("get_element");
    reveal_strlit("get_focus_info");
    reveal_strlit("list_actions");
    reveal_strlit("execute_action");
    reveal_strlit("send_key");
    reveal_strlit("click_element");
    reveal_strlit("type_text");
    reveal_strlit("wait_for");
    reveal_strlit("batch");
    reveal_strlit("take_screenshot");
    reveal_strlit("get_app_state");
    reveal_strlit("get_logs");
    reveal_strlit("set_viewport");
    reveal_strlit("reset_app");
    reveal_strlit("gpui_guide");
    reveal_strlit("replay_script");
    reveal_strlit("expect_screenshot");
}

/// The app answers the methods of the wire protocol and no others.
pub proof fn lemma_the_methods_of_the_app(name: Seq<char>)
    ensures
        all_names().len() == 19,
        all_names().contains(name) <==> {
            ||| name == "get_windows"@ || name == "ui_snapshot"@ || name == "a11y_audit"@
            ||| name == "a11y_tree"@ || name == "inspect_ui_tree"@ || name == "get_element"@
            ||| name == "get_focus_info"@ || name == "list_actions"@ || name == "execute_action"@
            ||| name == "send_key"@ || name == "click_element"@ || name == "type_text"@
            ||| name == "wait_for"@ || name == "batch"@ || name == "take_screenshot"@
            ||| name == "get_app_state"@ || name == "get_logs"@ || name == "set_viewport"@
            ||| name == "reset_app"@
        },
{
    let names = all_names();
    if names.contains(name) {
        let i = choose|i: int| 0 <= i < names.len() && names[i] == name;
        assert(names[i] == name);
    }
    assert(names[0] == "get_windows"@ && names[1] == "ui_snapshot"@ && names[2] == "a11y_audit"@);
    assert(names[3] == "a11y_tree"@ && names[4] == "inspect_ui_tree"@ && names[5]
        == "get_element"@);
    assert(names[6] == "get_focus_info"@ && names[7] == "list_actions"@ && names[8]
        == "execute_action"@);
    assert(names[9] == "send_key"@ && names[10] == "click_element"@ && names[11] == "type_text"@);
    assert(names[12] == "wait_for"@ && names[13] == "batch"@ && names[14] == "take_screenshot"@);
    assert(names[15] == "get_app_state"@ && names[16] == "get_logs"@ && names[17]
        == "set_viewport"@ && names[18] == "reset_app"@);
}

} // verus!
