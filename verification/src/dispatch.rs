//! The in-app side: which of the app's own functions a request asks for, and
//! what is answered.
use vstd::prelude::*;
use vstd::string::*;

use crate::guide;
use crate::json;
use crate::json::{Fields, Items, Json, JsonValue};
use crate::protocol::methods;
use crate::protocol::{IpcRequest, IpcResponse};
use crate::text;

verus! {

/// What the app is asked to do.
#[derive(Debug, Clone, Copy, PartialEq, Eq, Structural)]
pub enum AppCall {
    GetUiTree,
    GetElement,
    GetWindows,
    TakeScreenshot,
    ClickElement,
    SendKey,
    ExecuteAction,
    GetAppState,
    GetLogs,
}

/// What the app has to say.
#[derive(Debug)]
pub enum Reply {
    /// A value to hand on.
    Value(Json),
    /// The element that was asked for, where there is one.
    Element(Option<Json>),
    /// Whether an input was accepted.
    Done(bool),
    /// Log lines.
    Lines(Vec<String>),
}

/// What a [`Reply`] holds.
pub enum ReplyValue {
    Value(JsonValue),
    Element(Option<JsonValue>),
    Done(bool),
    Lines(Seq<Seq<char>>),
}

impl View for Reply {
    type V = ReplyValue;

    open spec fn view(&self) -> ReplyValue {
        match *self {
            Reply::Value(value) => ReplyValue::Value(value@),
            Reply::Element(found) => ReplyValue::Element(
                match found {
                    Some(element) => Some(element@),
                    None => None,
                },
            ),
            Reply::Done(done) => ReplyValue::Done(done),
            Reply::Lines(lines) => ReplyValue::Lines(text::owned_texts(lines@)),
        }
    }
}

/// What a method asks the app to do; `None` for one it does not answer.
pub open spec fn call_for(method: Seq<char>) -> Option<AppCall> {
    if method == methods::INSPECT_UI_TREE@ {
        Some(AppCall::GetUiTree)
    } else if method == methods::GET_ELEMENT@ {
        Some(AppCall::GetElement)
    } else if method == methods::GET_WINDOWS@ {
        Some(AppCall::GetWindows)
    } else if method == methods::TAKE_SCREENSHOT@ {
        Some(AppCall::TakeScreenshot)
    } else if method == methods::CLICK_ELEMENT@ {
        Some(AppCall::ClickElement)
    } else if method == methods::SEND_KEY@ {
        Some(AppCall::SendKey)
    } else if method == methods::EXECUTE_ACTION@ {
        Some(AppCall::ExecuteAction)
    } else if method == methods::GET_APP_STATE@ {
        Some(AppCall::GetAppState)
    } else if method == methods::GET_LOGS@ {
        Some(AppCall::GetLogs)
    } else {
        None
    }
}

/// What a method asks the app to do; `None` for one it does not answer.
pub fn app_call(method: &str) -> (r: Option<AppCall>)
    ensures
        r == call_for(method@),
{
    if text::same_text(method, methods::INSPECT_UI_TREE) {
        Some(AppCall::GetUiTree)
    } else if text::same_text(method, methods::GET_ELEMENT) {
        Some(AppCall::GetElement)
    } else if text::same_text(method, methods::GET_WINDOWS) {
        Some(AppCall::GetWindows)
    } else if text::same_text(method, methods::TAKE_SCREENSHOT) {
        Some(AppCall::TakeScreenshot)
    } else if text::same_text(method, methods::CLICK_ELEMENT) {
        Some(AppCall::ClickElement)
    } else if text::same_text(method, methods::SEND_KEY) {
        Some(AppCall::SendKey)
    } else if text::same_text(method, methods::EXECUTE_ACTION) {
        Some(AppCall::ExecuteAction)
    } else if text::same_text(method, methods::GET_APP_STATE) {
        Some(AppCall::GetAppState)
    } else if text::same_text(method, methods::GET_LOGS) {
        Some(AppCall::GetLogs)
    } else {
        None
    }
}

/// The first `n` lines, as strings.
pub open spec fn line_items(lines: Seq<Seq<char>>, n: int) -> Seq<JsonValue>
    decreases n,
{
    if n <= 0 {
        json::no_items()
    } else {
        line_items(lines, n - 1).push(JsonValue::Text(lines[n - 1]))
    }
}

/// The element that the arguments of a request ask for: under its name, or as
/// the one item of a list. Empty where they ask for none, which the app refuses
/// before it looks for one.
pub open spec fn element_asked(params: JsonValue) -> Seq<char> {
    match params {
        JsonValue::Array(items) => if items.len() == 1 {
            match items[0] {
                JsonValue::Text(id) => id,
                _ => ""@,
            }
        } else {
            ""@
        },
        _ => match json::field_text(params, "element_id"@) {
            Some(id) => id,
            None => ""@,
        },
    }
}

fn asked_element(params: &Json) -> (r: String)
    ensures
        r@ == element_asked(params@),
{
    match params {
        Json::Array(items) => {
            if items.len() == 1 {
                proof {
                    assert(params@->Array_0[0] == items@[0]@);
                }
                match &items[0] {
                    Json::Text(id) => id.clone(),
                    _ => "".to_owned(),
                }
            } else {
                "".to_owned()
            }
        },
        _ => match params.get_text("element_id") {
            Some(id) => id.to_owned(),
            None => "".to_owned(),
        },
    }
}

/// What is answered to a request for what the app has to say.
pub open spec fn reply_answer(params: JsonValue, reply: ReplyValue) -> Result<
    JsonValue,
    Seq<char>,
> {
    match reply {
        ReplyValue::Value(value) => Ok(value),
        ReplyValue::Element(found) => match found {
            Some(element) => Ok(element),
            None => Err("Element not found: "@ + element_asked(params)),
        },
        ReplyValue::Done(done) => Ok(
            JsonValue::Object(json::no_fields().push(("success"@, JsonValue::Bool(done)))),
        ),
        ReplyValue::Lines(lines) => Ok(
            JsonValue::Object(
                json::no_fields().push(
                    ("logs"@, JsonValue::Array(line_items(lines, lines.len() as int))),
                ),
            ),
        ),
    }
}

/// What is answered to a request with these arguments for what the app has to
/// say.
pub fn answer_for(params: &Json, reply: Reply) -> (r: Result<Json, String>)
    ensures
        guide::result_of(r) == reply_answer(params@, reply@),
{
    match reply {
        Reply::Value(value) => Ok(value),
        Reply::Element(found) => match found {
            Some(element) => Ok(element),
            None => Err("Element not found: ".to_owned().concat(asked_element(params).as_str())),
        },
        Reply::Done(done) => Ok(Fields::new().with("success", Json::Bool(done)).object()),
        Reply::Lines(lines) => {
            let mut list: Items = Items::new();
            let mut i: usize = 0;
            while i < lines.len()
                invariant
                    i <= lines@.len(),
                    list@ == line_items(text::owned_texts(lines@), i as int),
                decreases lines@.len() - i,
            {
                list = list.with(Json::text(lines[i].as_str()));
                i += 1;
            }
            Ok(Fields::new().with("logs", list.array()).object())
        },
    }
}

/// What a performed call comes to.
pub open spec fn performed(params: JsonValue, reply: Result<Reply, String>) -> Result<
    JsonValue,
    Seq<char>,
> {
    match reply {
        Ok(reply) => reply_answer(params, reply@),
        Err(error) => Err(error@),
    }
}

/// Answer a request: `perform` asks the app, with the request's arguments. A
/// method the app does not answer is refused without asking it: `perform` need
/// not be fit for any call then.
pub fn handle_request<P: FnOnce(AppCall, &Json) -> Result<Reply, String>>(
    request: &IpcRequest,
    perform: P,
) -> (r: Result<Json, String>)
    requires
        call_for(request.method@) matches Some(call) ==> call_requires(
            perform,
            (call, &request.params),
        ),
    ensures
        match call_for(request.method@) {
            None => guide::result_of(r) == Err::<JsonValue, Seq<char>>(
                "Unknown method: "@ + request.method@,
            ),
            Some(call) => exists|reply: Result<Reply, String>| #[trigger]
                call_ensures(perform, (call, &request.params), reply) && guide::result_of(r)
                    == performed(request.params@, reply),
        },
{
    match app_call(request.method.as_str()) {
        Some(call) => {
            let reply: Result<Reply, String> = perform(call, &request.params);
            proof {
                assert(call_ensures(perform, (call, &request.params), reply));
            }
            match reply {
                Ok(reply) => answer_for(&request.params, reply),
                Err(error) => Err(error),
            }
        },
        None => Err("Unknown method: ".to_owned().concat(request.method.as_str())),
    }
}

/// The response to a request: its id, and what it came to.
pub fn respond(request: IpcRequest, result: Result<Json, String>) -> (r: IpcResponse)
    ensures
        r.id == request.id,
        r.result == result,
        r.protocol_version == crate::protocol::PROTOCOL_VERSION,
{
    IpcResponse::new(request.id, result)
}

/// Each method asks for the one thing it is named after, and no other method
/// asks for it; the app answers methods of the protocol and no others.
pub proof fn lemma_what_each_method_asks_for(method: Seq<char>)
    ensures
        call_for(method) == Some(AppCall::GetUiTree) <==> method == "inspect_ui_tree"@,
        call_for(method) == Some(AppCall::GetElement) <==> method == "get_element"@,
        call_for(method) == Some(AppCall::GetWindows) <==> method == "get_windows"@,
        call_for(method) == Some(AppCall::TakeScreenshot) <==> method == "take_screenshot"@,
        call_for(method) == Some(AppCall::ClickElement) <==> method == "click_element"@,
        call_for(method) == Some(AppCall::SendKey) <==> method == "send_key"@,
        call_for(method) == Some(AppCall::ExecuteAction) <==> method == "execute_action"@,
        call_for(method) == Some(AppCall::GetAppState) <==> method == "get_app_state"@,
        call_for(method) == Some(AppCall::GetLogs) <==> method == "get_logs"@,
        call_for(method) is Some ==> methods::all_names().contains(method),
{
    methods::lemma_stamps();
    methods::lemma_the_methods_of_the_app(method);
}

/// What the app says is answered as it is: a value and an element unchanged,
/// an input by whether it was accepted, log lines one by one; an element that
/// is not there is an error that ends in the id that was asked for.
pub proof fn lemma_what_is_answered(
    params: JsonValue,
    value: JsonValue,
    done: bool,
    lines: Seq<Seq<char>>,
    i: int,
)
    ensures
        reply_answer(params, ReplyValue::Value(value)) == Ok::<JsonValue, Seq<char>>(value),
        reply_answer(params, ReplyValue::Element(Some(value))) == Ok::<JsonValue, Seq<char>>(value),
        reply_answer(params, ReplyValue::Done(done)) is Ok,
        json::field(reply_answer(params, ReplyValue::Done(done))->Ok_0, "success"@) == Some(
            JsonValue::Bool(done),
        ),
        reply_answer(params, ReplyValue::Element(None)) is Err,
        !(params is Array) ==> (json::field_text(params, "element_id"@) matches Some(id)
            ==> reply_answer(params, ReplyValue::Element(None))->Err_0 == "Element not found: "@
            + id),
        reply_answer(params, ReplyValue::Lines(lines)) is Ok,
        ({
            let logs = json::field(reply_answer(params, ReplyValue::Lines(lines))->Ok_0, "logs"@);
            &&& logs matches Some(JsonValue::Array(items)) && items.len() == lines.len() && (0 <= i
                < lines.len() ==> items[i] == JsonValue::Text(lines[i]))
        }),
{
    let a = reply_answer(params, ReplyValue::Done(done))->Ok_0->Object_0;
    json::lemma_field_at(a, 0);
    let b = reply_answer(params, ReplyValue::Lines(lines))->Ok_0->Object_0;
    json::lemma_field_at(b, 0);
    lemma_line_items(lines, lines.len() as int);
}

proof fn lemma_line_items(lines: Seq<Seq<char>>, n: int)
    requires
        0 <= n <= lines.len(),
    ensures
        line_items(lines, n).len() == n,
        forall|i: int|
            0 <= i < n ==> #[trigger] line_items(lines, n)[i] == JsonValue::Text(lines[i]),
    decreases n,
{
    if n > 0 {
        lemma_line_items(lines, n - 1);
    }
}

/// The element that was asked for is named the same whether it stood under its
/// name or was the one item of a list.
pub proof fn lemma_which_element_was_asked_for(id: Seq<char>)
    ensures
        reply_answer(
            JsonValue::Array(seq![JsonValue::Text(id)]),
            ReplyValue::Element(None),
        )->Err_0 == "Element not found: "@ + id,
        reply_answer(
            JsonValue::Object(Seq::empty().push(("element_id"@, JsonValue::Text(id)))),
            ReplyValue::Element(None),
        )->Err_0 == "Element not found: "@ + id,
{
    json::lemma_field_at(Seq::empty().push(("element_id"@, JsonValue::Text(id))), 0);
}

} // verus!
