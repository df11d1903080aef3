//! Recorded sessions: what is in the file, and what a step's arguments mean.
//!
//! A session driving a GPUI app is already a sequence of steps; writing it
//! down costs nothing and buys two things. The cheap one: replaying it puts
//! the app back into the state where work happens. The valuable one: the same
//! file is a regression test, and it runs in CI without an agent.
use vstd::prelude::*;
use vstd::string::*;

use crate::docs;
use crate::golden;
use crate::json;
use crate::json::{Json, JsonValue, Number, NumberValue};
use crate::path;
use crate::path::{Component, Part};
use crate::protocol::methods;
use crate::text;

verus! {

/// Name of the tool that replays a recorded script. Server-local, like the
/// guide: it drives the app through the other tools rather than being one of
/// them.
pub const REPLAY_TOOL: &'static str = "replay_script";

/// A recorded session.
#[derive(Debug)]
pub struct Script {
    /// Where the file was read from, when it was. Not part of the file: it is
    /// what a relative golden path is relative to, so the goldens travel with
    /// the script.
    pub source: Option<String>,
    /// Free-form, for whoever reads the file. Defaults to the file stem: see
    /// [`default_name`].
    pub name: String,
    /// The app this was recorded against, when one was named. Replay does not
    /// enforce it — it is a note for the reader.
    pub app: Option<String>,
    pub recorded_with: Option<String>,
    /// The window size this was recorded at, in logical pixels. Replay applies
    /// it before the first step.
    pub viewport: Option<Viewport>,
    pub steps: Vec<Step>,
}

/// A window's content size, in logical pixels.
#[derive(Debug, PartialEq)]
pub struct Viewport {
    pub width: Number,
    pub height: Number,
}

/// One step: a tool name and its arguments, exactly as they were sent.
#[derive(Debug)]
pub struct Step {
    pub method: String,
    pub params: Json,
    /// Written by the recorder when it could not make a step reproducible.
    pub note: Option<String>,
}

/// What a [`Viewport`] holds.
pub struct ViewportValue {
    pub width: NumberValue,
    pub height: NumberValue,
}

/// What a [`Step`] holds.
pub struct StepValue {
    pub method: Seq<char>,
    pub params: JsonValue,
    pub note: Option<Seq<char>>,
}

/// What a [`Script`] holds.
pub struct ScriptValue {
    pub source: Option<Seq<char>>,
    pub name: Seq<char>,
    pub app: Option<Seq<char>>,
    pub recorded_with: Option<Seq<char>>,
    pub viewport: Option<ViewportValue>,
    pub steps: Seq<StepValue>,
}

impl View for Viewport {
    type V = ViewportValue;

    open spec fn view(&self) -> ViewportValue {
        ViewportValue { width: self.width@, height: self.height@ }
    }
}

impl Clone for Viewport {
    fn clone(&self) -> (r: Self)
        ensures
            r@ == self@,
    {
        Viewport { width: self.width.clone(), height: self.height.clone() }
    }
}

impl View for Step {
    type V = StepValue;

    open spec fn view(&self) -> StepValue {
        StepValue { method: self.method@, params: self.params@, note: text::maybe_owned(self.note) }
    }
}

/// What the steps of a script hold.
pub open spec fn steps_of(steps: Seq<Step>) -> Seq<StepValue> {
    Seq::new(steps.len(), |i: int| steps[i]@)
}

/// What an optional viewport holds.
pub open spec fn viewport_of(viewport: Option<Viewport>) -> Option<ViewportValue> {
    match viewport {
        Some(viewport) => Some(viewport@),
        None => None,
    }
}

impl View for Script {
    type V = ScriptValue;

    open spec fn view(&self) -> ScriptValue {
        ScriptValue {
            source: text::maybe_owned(self.source),
            name: self.name@,
            app: text::maybe_owned(self.app),
            recorded_with: text::maybe_owned(self.recorded_with),
            viewport: viewport_of(self.viewport),
            steps: steps_of(self.steps@),
        }
    }
}

/// The name of a script in a file of this name that gives it none: the file's
/// stem.
pub open spec fn name_after(source: Seq<char>) -> Seq<char> {
    match path::file_stem_of(path::parts_in(source)) {
        Some(stem) => stem,
        None => "recording"@,
    }
}

/// The name of a script that was given none: the stem of its file.
pub fn default_name(source: &str) -> (r: String)
    ensures
        r@ == name_after(source@),
{
    match path::file_stem(&path::parse_path(source)) {
        Some(stem) => stem,
        None => "recording".to_owned(),
    }
}

/// Tools that describe the app rather than change it. A `seek` replay skips
/// them: re-reading the tree on the way to a state is pure cost.
///
/// A snapshot is not among them: it hands out the refs a later step may need.
pub open spec fn read_only(method: Seq<char>) -> bool {
    ||| method == methods::A11Y_AUDIT@
    ||| method == methods::A11Y_TREE@
    ||| method == golden::TOOL_NAME@
    ||| method == methods::GET_WINDOWS@
    ||| method == methods::GET_APP_STATE@
    ||| method == methods::GET_LOGS@
    ||| method == methods::GET_ELEMENT@
    ||| method == methods::GET_FOCUS_INFO@
    ||| method == methods::INSPECT_UI_TREE@
    ||| method == methods::LIST_ACTIONS@
    ||| method == methods::TAKE_SCREENSHOT@
}

/// Whether a method describes the app rather than changing it.
pub fn is_read_only(method: &str) -> (r: bool)
    ensures
        r == read_only(method@),
{
    text::same_text(method, methods::A11Y_AUDIT) || text::same_text(method, methods::A11Y_TREE)
        || golden::is_golden(method) || text::same_text(
        method,
        methods::GET_WINDOWS,
    ) || text::same_text(method, methods::GET_APP_STATE) || text::same_text(
        method,
        methods::GET_LOGS,
    ) || text::same_text(method, methods::GET_ELEMENT) || text::same_text(
        method,
        methods::GET_FOCUS_INFO,
    ) || text::same_text(method, methods::INSPECT_UI_TREE) || text::same_text(
        method,
        methods::LIST_ACTIONS,
    ) || text::same_text(method, methods::TAKE_SCREENSHOT)
}

/// Tools that are the server's own and mean nothing to a replay.
pub open spec fn server_only(method: Seq<char>) -> bool {
    method == docs::TOOL_NAME@ || method == REPLAY_TOOL@
}

/// Whether a tool is the server's own, and so never recorded.
pub fn is_not_recorded(method: &str) -> (r: bool)
    ensures
        r == server_only(method@),
{
    text::same_text(method, docs::TOOL_NAME) || text::same_text(method, REPLAY_TOOL)
}

/// The directory of a file, where it is known and named.
pub open spec fn directory_of(source: Option<Seq<char>>) -> Option<Seq<Part>> {
    match source {
        Some(source) => match path::parent_parts(path::parts_in(source)) {
            Some(dir) => if dir.len() > 0 {
                Some(dir)
            } else {
                None
            },
            None => None,
        },
        None => None,
    }
}

/// Whether a step's golden path is to be read from the script's directory: it
/// is a golden step, and its path does not begin at the root.
pub open spec fn rebased_path(method: Seq<char>, params: JsonValue) -> Option<Seq<char>> {
    if method != golden::TOOL_NAME@ {
        None
    } else {
        match json::field_text(params, "path"@) {
            Some(path) => if path::rooted(path) {
                None
            } else {
                Some(path)
            },
            None => None,
        }
    }
}

/// A step's arguments as the tool should see them: a golden path is relative
/// to the script file, and is made relative to the working directory here.
pub open spec fn params_seen(
    source: Option<Seq<char>>,
    method: Seq<char>,
    params: JsonValue,
) -> JsonValue {
    match (directory_of(source), rebased_path(method, params)) {
        (Some(dir), Some(path)) => json::set_field(
            params,
            "path"@,
            JsonValue::Text(path::path_text(path::folded(dir + path::parts_in(path)))),
        ),
        _ => params,
    }
}

impl Script {
    /// The directory relative golden paths are resolved against: the script's
    /// own, when it is known.
    pub fn base_dir(&self) -> (r: Option<Vec<Component>>)
        ensures
            match r {
                Some(dir) => directory_of(self@.source) == Some(path::parts(dir@)),
                None => directory_of(self@.source) is None,
            },
    {
        match &self.source {
            Some(source) => match path::parent(&path::parse_path(source.as_str())) {
                Some(dir) => if dir.len() > 0 {
                    Some(dir)
                } else {
                    None
                },
                None => None,
            },
            None => None,
        }
    }

    /// A step's params as the tool should see them. The one rewrite: a golden
    /// path is relative to the script file, and the tool knows nothing about
    /// scripts, so it is made relative to the working directory here.
    pub fn params_for(&self, step: &Step) -> (r: Json)
        ensures
            r@ == params_seen(self@.source, step@.method, step@.params),
    {
        let mut params: Json = step.params.clone();
        if !golden::is_golden(step.method.as_str()) {
            return params;
        }
        match self.base_dir() {
            Some(dir) => {
                let rebased: Option<String> = match params.get_text("path") {
                    Some(path) => if path::has_root(path) {
                        None
                    } else {
                        let whole: Vec<Component> = path::join(&dir, &path::parse_path(path));
                        Some(path::render_path(&path::normalise(&whole)))
                    },
                    None => None,
                };
                if let Some(written) = rebased {
                    params.set("path", Json::Text(written));
                }
                params
            },
            None => params,
        }
    }
}

/// Only a golden's path is rewritten: the arguments of every other step, and
/// every other argument of a golden step, reach the tool as they were
/// recorded. So does a golden's path that begins at the root.
pub proof fn lemma_only_a_golden_path_is_rewritten(
    source: Option<Seq<char>>,
    method: Seq<char>,
    params: JsonValue,
    key: Seq<char>,
)
    ensures
        method != golden::TOOL_NAME@ ==> params_seen(source, method, params) == params,
        json::field_text(params, "path"@) matches Some(path) ==> path::rooted(path) ==> params_seen(
            source,
            method,
            params,
        ) == params,
        key != "path"@ ==> json::field(params_seen(source, method, params), key) == json::field(
            params,
            key,
        ),
{
    match (directory_of(source), rebased_path(method, params)) {
        (Some(dir), Some(path)) => {
            json::lemma_set_then_get(
                params,
                "path"@,
                JsonValue::Text(path::path_text(path::folded(dir + path::parts_in(path)))),
            );
        },
        _ => {},
    }
}

/// The directory that the name of a script gives it.
pub open spec fn script_dir(source: Seq<char>) -> Seq<Part> {
    match path::parent_parts(path::parts_in(source)) {
        Some(dir) => dir,
        None => Seq::empty(),
    }
}

/// A golden is read from the script's directory, whatever directory the replay
/// is started in: the path that the tool sees leads, from the working
/// directory, where the path in the script leads from the script's directory.
pub proof fn lemma_a_golden_is_read_from_the_script(
    cwd: Seq<Part>,
    source: Seq<char>,
    params: JsonValue,
    path: Seq<char>,
)
    requires
        json::field_text(params, "path"@) == Some(path),
        !path::rooted(path),
    ensures
        ({
            let seen = json::field_text(
                params_seen(Some(source), golden::TOOL_NAME@, params),
                "path"@,
            );
            &&& seen is Some
            &&& path::folded(cwd + path::parts_in(seen->0)) == path::folded(
                cwd + script_dir(source) + path::parts_in(path),
            )
        }),
{
    let dir = script_dir(source);
    let written = path::parts_in(path);
    let whole = dir + written;
    assert(cwd + dir + written =~= cwd + whole);
    if dir.len() == 0 {
        assert(whole =~= written);
    } else {
        path::lemma_read_paths_are_writable(source);
        path::lemma_read_paths_are_writable(path);
        let named = path::parts_in(source);
        assert(path::writable(dir)) by {
            assert(forall|i: int| 0 <= i < dir.len() ==> dir[i] == named[i]);
        }
        path::lemma_joined_is_plain(dir, written);
        path::lemma_folded_is_writable(whole);
        path::lemma_path_round_trip(path::folded(whole));
        path::lemma_folding_keeps_the_way(cwd, whole);
        json::lemma_set_then_get(
            params,
            "path"@,
            JsonValue::Text(path::path_text(path::folded(whole))),
        );
    }
}

/// A method that does something to the app, or waits for it to do something,
/// or hands out the refs that later steps may need.
pub open spec fn acts(method: Seq<char>) -> bool {
    ||| method == "click_element"@ || method == "type_text"@ || method == "send_key"@
    ||| method == "execute_action"@ || method == "wait_for"@ || method == "batch"@
    ||| method == "set_viewport"@ || method == "reset_app"@ || method == "ui_snapshot"@
}

/// Every method of the app, and the golden, either acts or only looks: what
/// only looks is what does not act. Nothing else only looks.
pub proof fn lemma_a_method_acts_or_only_looks(method: Seq<char>)
    ensures
        acts(method) ==> !read_only(method) && methods::all_names().contains(method),
        methods::all_names().contains(method) ==> read_only(method) == !acts(method),
        read_only("expect_screenshot"@),
        read_only(method) ==> methods::all_names().contains(method) || method
            == "expect_screenshot"@,
        !read_only("gpui_guide"@) && !read_only("replay_script"@),
{
    methods::lemma_stamps();
    methods::lemma_the_methods_of_the_app(method);
    assert(methods::stamp(method) == (method.len(), method[0], method[4]));
}

/// A call is left out of a recording only where it asks for the guide or for a
/// replay: every method of the app, and the golden, is recorded.
pub proof fn lemma_only_the_guide_and_the_replay_are_not_recorded(method: Seq<char>)
    ensures
        server_only(method) <==> method == "gpui_guide"@ || method == "replay_script"@,
        methods::all_names().contains(method) || method == "expect_screenshot"@ ==> !server_only(
            method,
        ),
{
    methods::lemma_stamps();
    methods::lemma_the_methods_of_the_app(method);
}

/// A script that was read from no file has its arguments left alone.
pub proof fn lemma_no_source_no_rewriting(method: Seq<char>, params: JsonValue)
    ensures
        params_seen(None, method, params) == params,
{
}

/// A script that gives no name is named after its file, without the directory
/// and without the extension.
pub proof fn lemma_a_script_is_named_after_its_file(
    dir: Seq<char>,
    name: Seq<char>,
    extension: Seq<char>,
)
    requires
        path::writable_name(name),
        forall|i: int| 0 <= i < extension.len() ==> extension[i] != '.' && extension[i] != '/',
    ensures
        name_after(path::text_under(dir, name + seq!['.'] + extension)) == name,
{
    let file = name + seq!['.'] + extension;
    assert(file[name.len() as int] == '.');
    assert(path::writable_name(file)) by {
        if file == seq!['.', '.'] {
            assert(file[0] == name[0] && file.len() == 2);
            assert(name =~= seq!['.']);
        }
        assert(file.len() > name.len());
    }
    path::lemma_text_under(dir, file);
    path::lemma_stem(name, extension);
    let parts = path::parts_in(dir).push(Part::Normal(file));
    assert(parts.last() == Part::Normal(file));
}

} // verus!
