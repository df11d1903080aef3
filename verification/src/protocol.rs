//! Wire types shared by the `gpui-mcp-server` binary and the in-app side.
//!
//! Transport: one newline-delimited JSON [`IpcRequest`] per connection over a
//! Unix-domain socket, answered by one [`IpcResponse`] line.
use vstd::prelude::*;
use vstd::string::*;

use crate::json::Json;
use crate::text;

pub mod methods;

verus! {

/// Version of the wire format in this module.
///
/// Bumped only when a change to the types below is not backward compatible: a
/// new field with a default is compatible, a renamed or retyped field is not.
///
/// - **v2** — input methods answer only once the frame that shows their effect
///   has been painted, and `wait_for` / `batch` exist.
pub const PROTOCOL_VERSION: u32 = 2;

/// What a peer built before the version handshake existed appears as: it sends
/// no version at all, and that reads back as zero.
pub const VERSION_UNKNOWN: u32 = 0;

/// What a version other than ours says about its peer.
pub open spec fn their_version(peer: u32) -> Seq<char> {
    if peer == VERSION_UNKNOWN {
        "predates the version handshake"@
    } else {
        "speaks protocol v"@ + text::decimal_of(peer as nat)
    }
}

/// The explanation of a version disagreement.
pub open spec fn complaint_text(peer: u32, peer_label: Seq<char>, rebuild: Seq<char>) -> Seq<char> {
    "gpui-mcp protocol mismatch: the "@ + peer_label + " "@ + their_version(peer)
        + ", this side speaks v"@ + text::decimal_of(PROTOCOL_VERSION as nat)
        + ". They are built from one crate but by different mechanisms, so they can drift apart. Rebuild the "@
        + peer_label + ": "@ + rebuild
}

/// Explain a version disagreement to whoever is reading the error, or return
/// `None` when the peer agrees with us.
///
/// `peer_label` names the half that needs rebuilding and `rebuild` is the
/// command that does it — both sides of the socket call this, and each knows
/// only the other's remedy.
pub fn version_complaint(peer: u32, peer_label: &str, rebuild: &str) -> (r: Option<String>)
    ensures
        r is None <==> peer == PROTOCOL_VERSION,
        r matches Some(complaint) ==> complaint@ == complaint_text(peer, peer_label@, rebuild@),
{
    if peer == PROTOCOL_VERSION {
        return None;
    }
    let theirs: String = if peer == VERSION_UNKNOWN {
        "predates the version handshake".to_owned()
    } else {
        "speaks protocol v".to_owned().concat(text::decimal(peer as u64).as_str())
    };
    let mut out: String = "gpui-mcp protocol mismatch: the ".to_owned();
    out.append(peer_label);
    out.append(" ");
    out.append(theirs.as_str());
    out.append(", this side speaks v");
    out.append(text::decimal(PROTOCOL_VERSION as u64).as_str());
    out.append(
        ". They are built from one crate but by different mechanisms, so they can drift apart. Rebuild the ",
    );
    out.append(peer_label);
    out.append(": ");
    out.append(rebuild);
    Some(out)
}

/// A request from the MCP server to the GPUI app.
#[derive(Debug)]
pub struct IpcRequest {
    pub id: String,
    /// One of the constants in [`methods`].
    pub method: String,
    pub params: Json,
    /// Sender's [`PROTOCOL_VERSION`]; [`VERSION_UNKNOWN`] from a peer that
    /// predates the handshake.
    pub protocol_version: u32,
}

/// The app's answer to an [`IpcRequest`], echoing its `id`.
#[derive(Debug)]
pub struct IpcResponse {
    pub id: String,
    pub result: Result<Json, String>,
    /// Sender's [`PROTOCOL_VERSION`]; see [`IpcRequest::protocol_version`].
    pub protocol_version: u32,
}

impl IpcRequest {
    /// Build a request stamped with this build's [`PROTOCOL_VERSION`].
    pub fn new(id: String, method: String, params: Json) -> (r: Self)
        ensures
            r.id == id,
            r.method == method,
            r.params == params,
            r.protocol_version == PROTOCOL_VERSION,
    {
        IpcRequest { id, method, params, protocol_version: PROTOCOL_VERSION }
    }
}

impl IpcResponse {
    /// Build a response stamped with this build's [`PROTOCOL_VERSION`].
    pub fn new(id: String, result: Result<Json, String>) -> (r: Self)
        ensures
            r.id == id,
            r.result == result,
            r.protocol_version == PROTOCOL_VERSION,
    {
        IpcResponse { id, result, protocol_version: PROTOCOL_VERSION }
    }
}

/// Whether an accessibility node id says nothing, and is left out of the wire
/// form.
pub fn is_zero(value: &u64) -> (r: bool)
    ensures
        r == (*value == 0),
{
    *value == 0
}

#[derive(Debug, Clone, Copy, PartialEq, Eq, Structural)]
pub enum MouseButton {
    Left,
    Right,
    Middle,
}

impl Default for MouseButton {
    fn default() -> (r: Self)
        ensures
            r == MouseButton::Left,
    {
        MouseButton::Left
    }
}

#[derive(Debug, Clone, Copy, PartialEq, Eq, Structural)]
pub struct Modifiers {
    pub ctrl: bool,
    pub alt: bool,
    pub shift: bool,
    pub meta: bool,
}

impl Default for Modifiers {
    fn default() -> (r: Self)
        ensures
            r == (Modifiers { ctrl: false, alt: false, shift: false, meta: false }),
    {
        Modifiers { ctrl: false, alt: false, shift: false, meta: false }
    }
}

/// Params for [`methods::SEND_KEY`].
#[derive(Debug)]
pub struct KeyEvent {
    /// Key name in gpui notation (`a`, `enter`, `pagedown`, `f5`, ...).
    pub key: String,
    pub modifiers: Modifiers,
    /// Target window (falls back to the active window, then the first window).
    pub window_id: Option<String>,
}

#[derive(Debug)]
pub struct GetElementParams {
    pub element_id: String,
}

#[derive(Debug)]
pub struct TakeScreenshotParams {
    /// Element ids to highlight in the image (kept for wire compatibility).
    pub highlight_elements: Vec<String>,
    pub window_id: Option<String>,
    /// If set, crop the screenshot to this element's bounds.
    pub element_id: Option<String>,
    /// Downscale until the image is at most this wide, in device pixels.
    /// Omitted: [`DEFAULT_SCREENSHOT_MAX_WIDTH`]. Zero: no downscaling.
    pub max_width: Option<u32>,
}

impl Default for TakeScreenshotParams {
    fn default() -> (r: Self)
        ensures
            r.highlight_elements@.len() == 0,
            r.window_id is None,
            r.element_id is None,
            r.max_width is None,
    {
        TakeScreenshotParams {
            highlight_elements: Vec::new(),
            window_id: None,
            element_id: None,
            max_width: None,
        }
    }
}

/// Widest image [`methods::TAKE_SCREENSHOT`] returns unless asked otherwise.
///
/// An image costs an agent tokens by its pixel dimensions, not by its file
/// size, so a smaller picture is a cheaper picture.
pub const DEFAULT_SCREENSHOT_MAX_WIDTH: u32 = 1400;

#[derive(Debug)]
pub struct ExecuteActionParams {
    pub action: String,
    pub args: Json,
    pub window_id: Option<String>,
}

#[derive(Debug)]
pub struct InspectUiTreeParams {
    /// Maximum depth of the tree to return (0 = unlimited).
    pub max_depth: usize,
    /// Only return elements from this window.
    pub window_id: Option<String>,
    /// Only return elements whose type contains this substring.
    pub element_type_filter: Option<String>,
    /// Start the tree at this element instead of the root.
    pub root_element_id: Option<String>,
    /// Output format: `"full"` (default) or `"compact"`.
    pub format: Option<String>,
    /// Only return elements whose `text_content` contains this substring
    /// (case-insensitive).
    pub text_filter: Option<String>,
}

impl Default for InspectUiTreeParams {
    fn default() -> (r: Self)
        ensures
            r.max_depth == 0,
            r.window_id is None,
            r.element_type_filter is None,
            r.root_element_id is None,
            r.format is None,
            r.text_filter is None,
    {
        InspectUiTreeParams {
            max_depth: 0,
            window_id: None,
            element_type_filter: None,
            root_element_id: None,
            format: None,
            text_filter: None,
        }
    }
}

#[derive(Debug)]
pub struct ListActionsParams {
    /// Filter actions by name substring.
    pub filter: Option<String>,
    /// Give the keybinding and context info of each action too.
    pub include_bindings: bool,
    /// Only return actions whose key-binding predicate matches the current
    /// focus chain in the target window. Implies `include_bindings`.
    pub only_available: bool,
    /// Window to evaluate `only_available` against (default: active window).
    pub window_id: Option<String>,
}

impl Default for ListActionsParams {
    fn default() -> (r: Self)
        ensures
            r.filter is None,
            !r.include_bindings,
            !r.only_available,
            r.window_id is None,
    {
        ListActionsParams {
            filter: None,
            include_bindings: false,
            only_available: false,
            window_id: None,
        }
    }
}

#[derive(Debug)]
pub struct TypeTextParams {
    /// The text to type into the focused element.
    pub text: String,
    /// Target window (default: active window).
    pub window_id: Option<String>,
}

#[derive(Debug)]
pub struct GetFocusInfoParams {
    pub window_id: Option<String>,
}

impl Default for GetFocusInfoParams {
    fn default() -> (r: Self)
        ensures
            r.window_id is None,
    {
        GetFocusInfoParams { window_id: None }
    }
}

/// Params for [`methods::UI_SNAPSHOT`].
///
/// The snapshot is the cheap way to look at a UI: one line per element that
/// means something, with the layout scaffolding left out.
#[derive(Debug)]
pub struct UiSnapshotParams {
    pub window_id: Option<String>,
    /// Snapshot this element's subtree instead of the whole window.
    pub root_element_id: Option<String>,
    /// Keep only elements whose role, name or test id contains this
    /// (case-insensitive), along with their ancestors.
    pub filter: Option<String>,
    /// Keep only elements you can act on.
    pub interactive_only: bool,
    /// Stop after this many elements, saying so. Default
    /// [`DEFAULT_SNAPSHOT_ELEMENTS`].
    pub max_elements: Option<usize>,
    /// Add each element's bounds.
    pub include_bounds: bool,
}

impl Default for UiSnapshotParams {
    fn default() -> (r: Self)
        ensures
            r.window_id is None,
            r.root_element_id is None,
            r.filter is None,
            !r.interactive_only,
            r.max_elements is None,
            !r.include_bounds,
    {
        UiSnapshotParams {
            window_id: None,
            root_element_id: None,
            filter: None,
            interactive_only: false,
            max_elements: None,
            include_bounds: false,
        }
    }
}

/// How many elements a snapshot returns unless asked for more.
pub const DEFAULT_SNAPSHOT_ELEMENTS: usize = 200;

/// Params for [`methods::A11Y_TREE`].
#[derive(Debug)]
pub struct A11yTreeParams {
    /// Window to read (default: active window).
    pub window_id: Option<String>,
}

impl Default for A11yTreeParams {
    fn default() -> (r: Self)
        ensures
            r.window_id is None,
    {
        A11yTreeParams { window_id: None }
    }
}

/// How many findings an audit returns unless asked for more.
pub const DEFAULT_MAX_FINDINGS: usize = 50;

/// Params for [`methods::RESET_APP`].
///
/// Answered by a hook the app registers. Without one the method fails and says
/// so rather than quietly doing nothing.
#[derive(Debug)]
pub struct ResetAppParams {
    /// Passed to the hook unchanged.
    pub arguments: Option<Json>,
}

impl Default for ResetAppParams {
    fn default() -> (r: Self)
        ensures
            r.arguments is None,
    {
        ResetAppParams { arguments: None }
    }
}

/// Params for [`methods::WAIT_FOR`].
///
/// Every condition that is set must hold in the same painted frame. Setting
/// none is legal and returns as soon as one frame has been painted.
#[derive(Debug)]
pub struct WaitForParams {
    /// Wait until an element with this id is in the painted frame.
    pub element_id: Option<String>,
    /// Wait until this text is painted anywhere in the window
    /// (case-insensitive).
    pub text: Option<String>,
    /// Wait until this key context is on the focus chain (substring,
    /// case-insensitive).
    pub key_context: Option<String>,
    /// JSON pointer into the [`methods::GET_APP_STATE`] answer. Without
    /// [`Self::app_state_equals`] the condition is "this pointer resolves to
    /// something other than null".
    pub app_state_path: Option<String>,
    /// The value [`Self::app_state_path`] must reach.
    pub app_state_equals: Option<Json>,
    /// Invert the whole predicate: wait until the conditions stop holding.
    pub absent: bool,
    /// Give up after this long, defaulting to [`DEFAULT_WAIT_MS`] and capped
    /// at [`MAX_WAIT_MS`].
    pub timeout_ms: Option<u64>,
    pub window_id: Option<String>,
}

impl Default for WaitForParams {
    fn default() -> (r: Self)
        ensures
            r.element_id is None,
            r.text is None,
            r.key_context is None,
            r.app_state_path is None,
            r.app_state_equals is None,
            !r.absent,
            r.timeout_ms is None,
            r.window_id is None,
    {
        WaitForParams {
            element_id: None,
            text: None,
            key_context: None,
            app_state_path: None,
            app_state_equals: None,
            absent: false,
            timeout_ms: None,
            window_id: None,
        }
    }
}

/// How long [`methods::WAIT_FOR`] waits when no timeout is given.
pub const DEFAULT_WAIT_MS: u64 = 3_000;

/// Longest wait [`methods::WAIT_FOR`] accepts. The app answers one request at
/// a time, so an unbounded wait would wedge every later call.
pub const MAX_WAIT_MS: u64 = 30_000;

/// Params for [`methods::BATCH`]: several methods in one request.
#[derive(Debug)]
pub struct BatchParams {
    /// Run in order, at most [`MAX_BATCH_STEPS`] of them.
    pub steps: Vec<BatchStep>,
    /// Stop at the first step that fails. [`default_true`] where the wire form
    /// does not say.
    pub stop_on_error: bool,
    /// `window_id` for steps that do not name one themselves.
    pub window_id: Option<String>,
}

impl Default for BatchParams {
    fn default() -> (r: Self)
        ensures
            r.steps@.len() == 0,
            !r.stop_on_error,
            r.window_id is None,
    {
        BatchParams { steps: Vec::new(), stop_on_error: false, window_id: None }
    }
}

/// One step of a [`BatchParams`].
#[derive(Debug)]
pub struct BatchStep {
    /// Any method in [`methods::all`] except [`methods::BATCH`] itself.
    pub method: String,
    pub params: Json,
}

/// What a switch reads as where the wire form leaves it out and continuing is
/// the dangerous choice.
pub fn default_true() -> (r: bool)
    ensures
        r,
{
    true
}

/// Most steps a single [`methods::BATCH`] may carry.
pub const MAX_BATCH_STEPS: usize = 32;

/// Deadline for a whole [`methods::BATCH`], however its steps divide it.
pub const MAX_BATCH_MS: u64 = 45_000;

/// The number of trailing digits at which an id stops looking hand-written.
///
/// gpui builds an element id out of what the app passed plus the numbers it
/// generates itself: an entity number becomes `input-4294967299`, which is
/// lowercase, dashed and looks every bit as deliberate as `save-button`. Six
/// is where the line goes so that a counter or a year survives.
pub const GENERATED_ID_DIGITS: usize = 6;

/// How many digits `s` ends in.
pub open spec fn trailing_digits(s: Seq<char>) -> nat
    decreases s.len(),
{
    if s.len() > 0 && text::digit(s.last()) {
        trailing_digits(s.drop_last()) + 1
    } else {
        0
    }
}

/// Whether a `test_id` ends in a number the app generated rather than chose.
pub fn id_looks_generated(test_id: &str) -> (r: bool)
    ensures
        r == (trailing_digits(test_id@) >= GENERATED_ID_DIGITS),
{
    let c: Vec<char> = text::chars_of(test_id);
    let n: usize = c.len();
    let mut i: usize = n;
    proof {
        assert(c@.take(n as int) =~= c@);
    }
    while i > 0 && '0' <= c[i - 1] && c[i - 1] <= '9'
        invariant
            i <= n,
            n == c@.len(),
            trailing_digits(c@) == (n - i) + trailing_digits(c@.take(i as int)),
        decreases i,
    {
        proof {
            assert(c@.take(i as int).drop_last() =~= c@.take(i - 1));
        }
        i -= 1;
    }
    n - i >= GENERATED_ID_DIGITS
}

proof fn lemma_trailing_digits(s: Seq<char>, n: nat)
    ensures
        trailing_digits(s) >= n <==> s.len() >= n && forall|k: int|
            s.len() - n <= k < s.len() ==> text::digit(#[trigger] s[k]),
    decreases s.len(),
{
    if s.len() > 0 && n > 0 {
        let before = s.drop_last();
        let last = s.len() - 1;
        lemma_trailing_digits(before, (n - 1) as nat);
        assert(forall|k: int| 0 <= k < before.len() ==> before[k] == s[k]);
        assert(s.last() == s[last]);
        if trailing_digits(s) >= n {
            assert forall|k: int| s.len() - n <= k < s.len() implies text::digit(
                #[trigger] s[k],
            ) by {
                if k < last {
                    assert(text::digit(before[k]));
                }
            }
        } else if s.len() >= n && (forall|k: int|
            s.len() - n <= k < s.len() ==> text::digit(#[trigger] s[k])) {
            assert(text::digit(s[last]));
            assert forall|k: int| before.len() - (n - 1) <= k < before.len() implies text::digit(
                #[trigger] before[k],
            ) by {
                assert(text::digit(s[k]));
            }
        }
    }
}

/// An id looks generated exactly where its last six characters are digits.
pub proof fn lemma_what_looks_generated(id: Seq<char>)
    ensures
        trailing_digits(id) >= GENERATED_ID_DIGITS <==> id.len() >= 6 && forall|k: int|
            id.len() - 6 <= k < id.len() ==> '0' <= #[trigger] id[k] <= '9',
{
    lemma_trailing_digits(id, 6);
    if trailing_digits(id) >= 6 {
        assert forall|k: int| id.len() - 6 <= k < id.len() implies '0' <= #[trigger] id[k]
            <= '9' by {
            assert(text::digit(id[k]));
        }
    }
}

/// A complaint says which half is out of step, what it speaks and what this
/// side speaks, and how to rebuild it.
pub proof fn lemma_what_a_complaint_says(peer: u32, peer_label: Seq<char>, rebuild: Seq<char>)
    requires
        peer != PROTOCOL_VERSION,
    ensures
        ({
            let said = complaint_text(peer, peer_label, rebuild);
            &&& text::has_prefix(said, "gpui-mcp protocol mismatch: the "@ + peer_label + " "@)
            &&& peer == 0 ==> text::mentions(said, "predates the version handshake"@)
            &&& peer != 0 ==> text::mentions(
                said,
                "speaks protocol v"@ + text::decimal_of(peer as nat) + ", "@,
            )
            &&& text::mentions(said, ", this side speaks v"@ + text::decimal_of(2) + ". "@)
            &&& text::has_suffix(said, "Rebuild the "@ + peer_label + ": "@ + rebuild)
        }),
{
    let said = complaint_text(peer, peer_label, rebuild);
    let a = "gpui-mcp protocol mismatch: the "@ + peer_label + " "@;
    let b = their_version(peer);
    let c = ", this side speaks v"@ + text::decimal_of(PROTOCOL_VERSION as nat);
    let d =
        ". They are built from one crate but by different mechanisms, so they can drift apart. Rebuild the "@;
    let e = peer_label + ": "@ + rebuild;
    assert(said =~= a + b + c + d + e);
    assert(said =~= a + (b + c + d + e));
    text::lemma_begins_with(a, b + c + d + e);
    assert(said =~= a + b + (c + d + e));
    text::lemma_mentions(a, b, c + d + e);
    reveal_strlit(
        ". They are built from one crate but by different mechanisms, so they can drift apart. Rebuild the ",
    );
    reveal_strlit(". ");
    reveal_strlit("Rebuild the ");
    reveal_strlit(", this side speaks v");
    reveal_strlit(", ");
    if peer != 0 {
        let theirs = "speaks protocol v"@ + text::decimal_of(peer as nat) + ", "@;
        let c2 = c.skip(2);
        assert(c =~= ", "@ + c2);
        assert(said =~= a + theirs + (c2 + d + e));
        text::lemma_mentions(a, theirs, c2 + d + e);
    }
    let ours = c + ". "@;
    let d2 = d.skip(2);
    assert(d =~= ". "@ + d2);
    assert(said =~= (a + b) + ours + (d2 + e));
    text::lemma_mentions(a + b, ours, d2 + e);
    let n = d.len() - "Rebuild the "@.len();
    assert(d =~= d.take(n) + "Rebuild the "@);
    let last = "Rebuild the "@ + peer_label + ": "@ + rebuild;
    assert(said =~= (a + b + c + d.take(n)) + last);
    text::lemma_ends_with(a + b + c + d.take(n), last);
}

} // verus!
