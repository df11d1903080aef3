//! Doing a recorded session again.
//!
//! There is no separate assertion step, because there does not need to be one:
//! a `wait_for` that comes back unsatisfied *is* a failed assertion. So the
//! same file works as a way to reach a state and as a test of getting there.
use vstd::prelude::*;
use vstd::string::*;

use crate::golden;
use crate::json;
use crate::json::{Fields, Json, JsonValue, NumberValue};
use crate::protocol::methods;
use crate::script;
use crate::script::{Script, ScriptValue, Step, StepValue, Viewport, ViewportValue};
use crate::text;

verus! {

/// How to replay a script.
#[derive(Debug, Clone, Copy)]
pub struct ReplayOptions {
    /// Skip the steps that only look at the app. Getting somewhere is the
    /// point; re-reading the tree on the way is pure cost.
    pub seek: bool,
    /// Stop at the first failing step. On by default: the steps after a
    /// failure are acting on a state nobody intended.
    pub stop_on_error: bool,
}

impl Default for ReplayOptions {
    /// A test run: every step, stopping at the first failure — what the tool
    /// and the command line both do unless told otherwise.
    fn default() -> (r: Self)
        ensures
            !r.seek,
            r.stop_on_error,
    {
        ReplayOptions { seek: false, stop_on_error: true }
    }
}

/// What one step did.
#[derive(Debug)]
pub struct StepOutcome {
    pub index: usize,
    pub method: String,
    /// `passed`, `failed` or `skipped`.
    pub status: &'static str,
    pub detail: Option<String>,
}

/// What applying a script's viewport did. It happens before step one and is
/// reported before it, as the command line's line 0.
#[derive(Debug)]
pub struct ViewportOutcome {
    /// `applied` or `failed`.
    pub status: &'static str,
    pub requested: Viewport,
    /// The size the window actually reached, when the app said.
    pub reached: Option<Viewport>,
    pub detail: Option<String>,
}

/// What the whole replay did.
///
/// The counts are about the steps. The viewport header is not a step: its
/// outcome is `viewport`, and `ok` covers both — a header that failed is
/// `ok: false` with `failed: 0` and every step skipped.
#[derive(Debug)]
pub struct Report {
    pub ok: bool,
    pub passed: usize,
    pub failed: usize,
    pub skipped: usize,
    pub of: usize,
    /// What applying the script's viewport did, when the script carried one.
    pub viewport: Option<ViewportOutcome>,
    pub steps: Vec<StepOutcome>,
}

pub const PASSED: &'static str = "passed";

pub const FAILED: &'static str = "failed";

pub const SKIPPED: &'static str = "skipped";

pub const APPLIED: &'static str = "applied";

/// What a [`StepOutcome`] holds.
pub struct OutcomeValue {
    pub index: nat,
    pub method: Seq<char>,
    pub status: Seq<char>,
    pub detail: Option<Seq<char>>,
}

/// What a [`ViewportOutcome`] holds.
pub struct ViewportOutcomeValue {
    pub status: Seq<char>,
    pub requested: ViewportValue,
    pub reached: Option<ViewportValue>,
    pub detail: Option<Seq<char>>,
}

/// What a [`Report`] holds.
pub struct ReportValue {
    pub ok: bool,
    pub passed: nat,
    pub failed: nat,
    pub skipped: nat,
    pub of: nat,
    pub viewport: Option<ViewportOutcomeValue>,
    pub steps: Seq<OutcomeValue>,
}

impl View for StepOutcome {
    type V = OutcomeValue;

    open spec fn view(&self) -> OutcomeValue {
        OutcomeValue {
            index: self.index as nat,
            method: self.method@,
            status: self.status@,
            detail: text::maybe_owned(self.detail),
        }
    }
}

impl View for ViewportOutcome {
    type V = ViewportOutcomeValue;

    open spec fn view(&self) -> ViewportOutcomeValue {
        ViewportOutcomeValue {
            status: self.status@,
            requested: self.requested@,
            reached: script::viewport_of(self.reached),
            detail: text::maybe_owned(self.detail),
        }
    }
}

/// What the outcomes of a report hold.
pub open spec fn outcomes_of(steps: Seq<StepOutcome>) -> Seq<OutcomeValue> {
    Seq::new(steps.len(), |i: int| steps[i]@)
}

impl View for Report {
    type V = ReportValue;

    open spec fn view(&self) -> ReportValue {
        ReportValue {
            ok: self.ok,
            passed: self.passed as nat,
            failed: self.failed as nat,
            skipped: self.skipped as nat,
            of: self.of as nat,
            viewport: match self.viewport {
                Some(outcome) => Some(outcome@),
                None => None,
            },
            steps: outcomes_of(self.steps@),
        }
    }
}

/// Whether a field is there and says `b`.
pub open spec fn says(value: JsonValue, key: Seq<char>, b: bool) -> bool {
    json::field(value, key) == Some(JsonValue::Bool(b))
}

fn field_says(value: &Json, key: &str, b: bool) -> (r: bool)
    ensures
        r == says(value@, key@, b),
{
    match value.get(key) {
        Some(Json::Bool(found)) => *found == b,
        _ => false,
    }
}

/// A field on one line, or `otherwise` where there is none.
pub open spec fn shown(value: JsonValue, key: Seq<char>, otherwise: Seq<char>) -> Seq<char> {
    match json::field(value, key) {
        Some(found) => json::compact_text(found),
        None => otherwise,
    }
}

fn show(value: &Json, key: &str, otherwise: &str) -> (r: String)
    ensures
        r@ == shown(value@, key@, otherwise@),
{
    match value.get(key) {
        Some(found) => found.compact(),
        None => otherwise.to_owned(),
    }
}

/// One side of a size in an answer, as a person writes it.
pub open spec fn side_text(value: JsonValue, key: Seq<char>, side: Seq<char>) -> Seq<char> {
    match json::field_or_null(json::field_or_null(value, key), side) {
        JsonValue::Number(n) => n.plain,
        _ => "?"@,
    }
}

/// A size in an answer, as a person writes it.
pub open spec fn size_text(value: JsonValue, key: Seq<char>) -> Seq<char> {
    side_text(value, key, "width"@) + "x"@ + side_text(value, key, "height"@)
}

/// What a `set_viewport` answer says against the resize it answers.
pub open spec fn refusal(value: JsonValue) -> Option<Seq<char>> {
    if says(value, "honoured"@, false) {
        Some(
            "asked for "@ + size_text(value, "requested"@) + " and the window reached "@
                + size_text(value, "viewport"@) + REFUSED_RESIZE@,
        )
    } else {
        None
    }
}

pub const REFUSED_RESIZE: &'static str = ": the platform refused or clamped the resize — a minimum size, a maximised window, or a tiling window manager. The layout is not the one the script was recorded against.";

fn side(value: &Json, key: &str, name: &str) -> (r: String)
    ensures
        r@ == side_text(value@, key@, name@),
{
    match value.get_or_null(key).get_or_null(name) {
        Json::Number(n) => n.plain,
        _ => "?".to_owned(),
    }
}

fn size(value: &Json, key: &str) -> (r: String)
    ensures
        r@ == size_text(value@, key@),
{
    let mut out: String = side(value, key, "width");
    out.append("x");
    out.append(side(value, key, "height").as_str());
    out
}

/// A `set_viewport` answer that says the window is not the size it was asked
/// to be. The call succeeded; the resize did not, and a script that carries
/// on is replaying a different layout.
pub fn refused_resize(value: &Json) -> (r: Option<String>)
    ensures
        text::maybe_owned(r) == refusal(value@),
{
    if !field_says(value, "honoured", false) {
        return None;
    }
    let mut out: String = "asked for ".to_owned();
    out.append(size(value, "requested").as_str());
    out.append(" and the window reached ");
    out.append(size(value, "viewport").as_str());
    out.append(REFUSED_RESIZE);
    Some(out)
}

/// Something a passing step should still say.
pub open spec fn note_on_pass(method: Seq<char>, value: JsonValue) -> Option<Seq<char>> {
    if method == golden::TOOL_NAME@ && (says(value, "created"@, true) || says(
        value,
        "compared"@,
        false,
    )) {
        Some(
            match json::field_text(value, "detail"@) {
                Some(detail) => detail,
                None => "the golden was written, not compared"@,
            },
        )
    } else {
        None
    }
}

/// Something a passing step should still say. A golden that was written
/// rather than compared passed without proving anything, and a report that
/// printed a bare `passed` for it would hide exactly the run that needs a
/// look.
pub fn passing_note(method: &str, value: &Json) -> (r: Option<String>)
    ensures
        text::maybe_owned(r) == note_on_pass(method@, value@),
{
    let not_compared: bool = field_says(value, "created", true) || field_says(
        value,
        "compared",
        false,
    );
    if !golden::is_golden(method) || !not_compared {
        return None;
    }
    match value.get_text("detail") {
        Some(detail) => Some(detail.to_owned()),
        None => Some("the golden was written, not compared".to_owned()),
    }
}

/// What an answer says against what the script expects of its step.
pub open spec fn complaint(method: Seq<char>, value: JsonValue) -> Option<Seq<char>> {
    if method == methods::SET_VIEWPORT@ {
        refusal(value)
    } else if method == methods::WAIT_FOR@ && says(value, "satisfied"@, false) {
        Some(
            "waited "@ + shown(value, "waited_ms"@, "0"@)
                + " ms and the condition never held: "@ + shown(value, "checks"@, "{}"@),
        )
    } else if method == methods::BATCH@ && says(value, "ok"@, false) {
        Some(
            shown(value, "ran"@, "0"@) + " of "@ + shown(value, "of"@, "0"@)
                + " steps ran before one failed"@,
        )
    } else if method == golden::TOOL_NAME@ && says(value, "matched"@, false) {
        Some(
            match json::field_text(value, "detail"@) {
                Some(detail) => detail,
                None => "the window does not match its golden image"@,
            },
        )
    } else if method == methods::A11Y_AUDIT@ && says(value, "ok"@, false) {
        Some(
            shown(value, "serious"@, "0"@) + " serious and "@ + shown(value, "warnings"@, "0"@)
                + " warnings, at fail_on="@ + shown(value, "fail_on"@, "\"serious\""@),
        )
    } else {
        None
    }
}

/// A step that succeeded as a call but did not say what the script expects.
pub fn unmet_expectation(method: &str, value: &Json) -> (r: Option<String>)
    ensures
        text::maybe_owned(r) == complaint(method@, value@),
{
    if text::same_text(method, methods::SET_VIEWPORT) {
        // A recorded resize that the platform refused leaves every later step
        // on a layout the script did not mean, the same as a refused header.
        refused_resize(value)
    } else if text::same_text(method, methods::WAIT_FOR) && field_says(value, "satisfied", false) {
        let mut out: String = "waited ".to_owned();
        out.append(show(value, "waited_ms", "0").as_str());
        out.append(" ms and the condition never held: ");
        out.append(show(value, "checks", "{}").as_str());
        Some(out)
    } else if text::same_text(method, methods::BATCH) && field_says(value, "ok", false) {
        let mut out: String = show(value, "ran", "0");
        out.append(" of ");
        out.append(show(value, "of", "0").as_str());
        out.append(" steps ran before one failed");
        Some(out)
    } else if golden::is_golden(method) && field_says(value, "matched", false) {
        // A golden screenshot is the same kind of assertion, about how the
        // window looks rather than what it contains.
        match value.get_text("detail") {
            Some(detail) => Some(detail.to_owned()),
            None => Some("the window does not match its golden image".to_owned()),
        }
    } else if text::same_text(method, methods::A11Y_AUDIT) && field_says(value, "ok", false) {
        // An audit step in a script is an assertion about the UI, the same way
        // a wait is an assertion about its state.
        let mut out: String = show(value, "serious", "0");
        out.append(" serious and ");
        out.append(show(value, "warnings", "0").as_str());
        out.append(" warnings, at fail_on=");
        out.append(show(value, "fail_on", "\"serious\"").as_str());
        Some(out)
    } else {
        None
    }
}

/// What came back from a call.
pub open spec fn answer_of(answer: Result<Json, String>) -> Result<JsonValue, Seq<char>> {
    match answer {
        Ok(value) => Ok(value@),
        Err(error) => Err(error@),
    }
}

/// What a step did, given what its call came back with.
pub open spec fn judged(
    index: nat,
    method: Seq<char>,
    answer: Result<JsonValue, Seq<char>>,
) -> OutcomeValue {
    match answer {
        Err(error) => OutcomeValue { index, method, status: FAILED@, detail: Some(error) },
        Ok(value) => match complaint(method, value) {
            Some(reason) => OutcomeValue { index, method, status: FAILED@, detail: Some(reason) },
            None => OutcomeValue {
                index,
                method,
                status: PASSED@,
                detail: note_on_pass(method, value),
            },
        },
    }
}

/// Judge a step by what its call came back with. Answers whether it passed.
pub fn judge(index: usize, method: &str, answer: Result<Json, String>) -> (r: (StepOutcome, bool))
    ensures
        r.0@ == judged(index as nat, method@, answer_of(answer)),
        r.1 == (r.0@.status == PASSED@),
        !r.1 == (r.0@.status == FAILED@),
{
    proof {
        lemma_statuses_differ();
    }
    match answer {
        Err(error) => (
            StepOutcome { index, method: method.to_owned(), status: FAILED, detail: Some(error) },
            false,
        ),
        Ok(value) => match unmet_expectation(method, &value) {
            Some(reason) => (
                StepOutcome {
                    index,
                    method: method.to_owned(),
                    status: FAILED,
                    detail: Some(reason),
                },
                false,
            ),
            None => (
                StepOutcome {
                    index,
                    method: method.to_owned(),
                    status: PASSED,
                    detail: passing_note(method, &value),
                },
                true,
            ),
        },
    }
}

/// The statuses can be told apart.
pub proof fn lemma_statuses_differ()
    ensures
        PASSED@ != FAILED@,
        PASSED@ != SKIPPED@,
        FAILED@ != SKIPPED@,
        APPLIED@ != FAILED@,
{
    reveal_strlit("passed");
    reveal_strlit("failed");
    reveal_strlit("skipped");
    reveal_strlit("applied");
    assert(PASSED@[0] == 'p');
    assert(FAILED@[0] == 'f');
    assert(SKIPPED@[0] == 's');
    assert(APPLIED@[0] == 'a');
}

/// Whether a replay passes over a step.
pub open spec fn passes_over(seek: bool, method: Seq<char>) -> bool {
    seek && script::read_only(method)
}

/// What a step did: skipped, or judged by what its call came back with.
pub open spec fn outcome_at(
    steps: Seq<StepValue>,
    seek: bool,
    answers: Seq<Result<JsonValue, Seq<char>>>,
    i: int,
) -> OutcomeValue {
    if passes_over(seek, steps[i].method) {
        OutcomeValue {
            index: i as nat,
            method: steps[i].method,
            status: SKIPPED@,
            detail: None,
        }
    } else {
        judged(i as nat, steps[i].method, answers[i])
    }
}

/// What the first `n` steps did. After a failure nothing more is done, where
/// the replay stops on one.
pub open spec fn outcomes(
    steps: Seq<StepValue>,
    options: ReplayOptions,
    answers: Seq<Result<JsonValue, Seq<char>>>,
    n: int,
) -> Seq<OutcomeValue>
    decreases n,
{
    if n <= 0 {
        Seq::empty()
    } else {
        let before = outcomes(steps, options, answers, n - 1);
        if stopped(options, before) {
            before
        } else {
            before.push(outcome_at(steps, options.seek, answers, n - 1))
        }
    }
}

/// Whether a replay has stopped at a failure.
pub open spec fn stopped(options: ReplayOptions, done: Seq<OutcomeValue>) -> bool {
    options.stop_on_error && done.len() > 0 && done.last().status == FAILED@
}

/// How many outcomes have a status.
pub open spec fn count(done: Seq<OutcomeValue>, status: Seq<char>) -> nat
    decreases done.len(),
{
    if done.len() == 0 {
        0
    } else {
        count(done.drop_last(), status) + (if done.last().status == status {
            1nat
        } else {
            0nat
        })
    }
}

/// The arguments of the call that sets a viewport.
pub open spec fn viewport_params(viewport: ViewportValue) -> JsonValue {
    JsonValue::Object(
        json::no_fields().push(("width"@, JsonValue::Number(viewport.width))).push(
            ("height"@, JsonValue::Number(viewport.height)),
        ),
    )
}

/// The size that a value writes: two numbers, under their names or in order, in
/// single precision.
pub open spec fn viewport_in(value: JsonValue) -> Option<ViewportValue> {
    match value {
        JsonValue::Array(items) => if items.len() == 2 {
            match (items[0], items[1]) {
                (JsonValue::Number(width), JsonValue::Number(height)) => Some(
                    ViewportValue { width: json::narrowed(width), height: json::narrowed(height) },
                ),
                _ => None,
            }
        } else {
            None
        },
        _ => match (json::field(value, "width"@), json::field(value, "height"@)) {
            (Some(JsonValue::Number(width)), Some(JsonValue::Number(height))) => Some(
                ViewportValue { width: json::narrowed(width), height: json::narrowed(height) },
            ),
            _ => None,
        },
    }
}

/// What applying a viewport did, given what its call came back with.
pub open spec fn header_judged(
    requested: ViewportValue,
    answer: Result<JsonValue, Seq<char>>,
) -> ViewportOutcomeValue {
    match answer {
        Err(error) => ViewportOutcomeValue {
            status: FAILED@,
            requested,
            reached: None,
            detail: Some(error),
        },
        Ok(value) => ViewportOutcomeValue {
            status: if refusal(value) is Some {
                FAILED@
            } else {
                APPLIED@
            },
            requested,
            reached: viewport_in(json::field_or_null(value, "viewport"@)),
            detail: refusal(value),
        },
    }
}

/// Read a size: two numbers, under their names or in order, in single precision.
pub fn read_viewport(value: &Json) -> (r: Option<Viewport>)
    ensures
        script::viewport_of(r) == viewport_in(value@),
{
    match value {
        Json::Array(items) => {
            if items.len() == 2 {
                proof {
                    assert(value@->Array_0[0] == items@[0]@);
                    assert(value@->Array_0[1] == items@[1]@);
                }
                match (&items[0], &items[1]) {
                    (Json::Number(width), Json::Number(height)) => Some(
                        Viewport { width: width.narrow(), height: height.narrow() },
                    ),
                    _ => None,
                }
            } else {
                None
            }
        },
        _ => match (value.get("width"), value.get("height")) {
            (Some(Json::Number(width)), Some(Json::Number(height))) => Some(
                Viewport { width: width.narrow(), height: height.narrow() },
            ),
            _ => None,
        },
    }
}

/// Judge a viewport header by what its call came back with. Answers whether it
/// was applied.
pub fn judge_header(requested: &Viewport, answer: Result<Json, String>) -> (r: (
    ViewportOutcome,
    bool,
))
    ensures
        r.0@ == header_judged(requested@, answer_of(answer)),
        r.1 == (r.0@.status != FAILED@),
{
    proof {
        lemma_statuses_differ();
    }
    match answer {
        Err(error) => (
            ViewportOutcome {
                status: FAILED,
                requested: requested.clone(),
                reached: None,
                detail: Some(error),
            },
            false,
        ),
        Ok(value) => {
            let refused: Option<String> = refused_resize(&value);
            let applied: bool = refused.is_none();
            (
                ViewportOutcome {
                    status: if applied {
                        APPLIED
                    } else {
                        FAILED
                    },
                    requested: requested.clone(),
                    reached: read_viewport(&value.get_or_null("viewport")),
                    detail: refused,
                },
                applied,
            )
        },
    }
}

/// The report of a replay whose calls came back with `header`, for the
/// viewport, and `answers`, for the steps.
pub open spec fn report_of(
    script: ScriptValue,
    options: ReplayOptions,
    header: Result<JsonValue, Seq<char>>,
    answers: Seq<Result<JsonValue, Seq<char>>>,
) -> ReportValue {
    let viewport = match script.viewport {
        Some(size) => Some(header_judged(size, header)),
        None => None,
    };
    if viewport is Some && viewport->0.status == FAILED@ {
        ReportValue {
            ok: false,
            passed: 0,
            failed: 0,
            skipped: script.steps.len(),
            of: script.steps.len(),
            viewport,
            steps: Seq::empty(),
        }
    } else {
        let done = outcomes(script.steps, options, answers, script.steps.len() as int);
        ReportValue {
            ok: count(done, FAILED@) == 0,
            passed: count(done, PASSED@),
            failed: count(done, FAILED@),
            skipped: count(done, SKIPPED@),
            of: script.steps.len(),
            viewport,
            steps: done,
        }
    }
}

/// Whether `call`, asked for `method` with `params`, can come back with
/// `answer`.
pub open spec fn answers_with<F: FnMut(&str, Json) -> Result<Json, String>>(
    call: F,
    method: Seq<char>,
    params: JsonValue,
    answer: Result<JsonValue, Seq<char>>,
) -> bool {
    exists|m: &str, p: Json, a: Result<Json, String>|
        #![trigger call_ensures(call, (m, p), a)]
        m@ == method && p@ == params && answer_of(a) == answer && call_ensures(call, (m, p), a)
}

/// Whether the answers are those of the calls that a replay makes: the
/// viewport first, where the script has one, and then each step that is
/// neither passed over nor behind the failure the replay stops at.
pub open spec fn answered<F: FnMut(&str, Json) -> Result<Json, String>>(
    call: F,
    script: ScriptValue,
    options: ReplayOptions,
    header: Result<JsonValue, Seq<char>>,
    answers: Seq<Result<JsonValue, Seq<char>>>,
) -> bool {
    &&& script.viewport matches Some(size) ==> answers_with(
        call,
        methods::SET_VIEWPORT@,
        viewport_params(size),
        header,
    )
    &&& forall|i: int|
        0 <= i < report_of(script, options, header, answers).steps.len() && !passes_over(
            options.seek,
            script.steps[i].method,
        ) ==> answers_with(
            call,
            script.steps[i].method,
            script::params_seen(script.source, script.steps[i].method, script.steps[i].params),
            #[trigger] answers[i],
        )
}

/// Outcomes depend on the answers up to theirs and on no later ones.
proof fn lemma_outcomes_prefix(
    steps: Seq<StepValue>,
    options: ReplayOptions,
    answers: Seq<Result<JsonValue, Seq<char>>>,
    more: Seq<Result<JsonValue, Seq<char>>>,
    n: int,
)
    requires
        forall|i: int| 0 <= i < n ==> answers[i] == more[i],
    ensures
        outcomes(steps, options, answers, n) == outcomes(steps, options, more, n),
    decreases n,
{
    if n > 0 {
        lemma_outcomes_prefix(steps, options, answers, more, n - 1);
    }
}

/// Once stopped, a replay stays stopped.
proof fn lemma_stopped_stays(
    steps: Seq<StepValue>,
    options: ReplayOptions,
    answers: Seq<Result<JsonValue, Seq<char>>>,
    n: int,
    m: int,
)
    requires
        0 <= n <= m,
        stopped(options, outcomes(steps, options, answers, n)),
    ensures
        outcomes(steps, options, answers, m) == outcomes(steps, options, answers, n),
    decreases m - n,
{
    if n < m {
        lemma_stopped_stays(steps, options, answers, n, m - 1);
    }
}

/// The calls that are made of an app: what makes them, and which were made.
pub struct Calls<F> {
    call: F,
    made: Ghost<Seq<(Seq<char>, JsonValue)>>,
}

impl<F: FnMut(&str, Json) -> Result<Json, String>> Calls<F> {
    /// What makes the calls.
    pub closed spec fn callee(&self) -> F {
        self.call
    }

    /// The calls that were made, each by its method and its arguments, in the
    /// order they were made.
    pub closed spec fn made(&self) -> Seq<(Seq<char>, JsonValue)> {
        self.made@
    }

    /// Calls made through `call`: none so far.
    pub fn new(call: F) -> (r: Self)
        ensures
            r.callee() == call,
            r.made() == Seq::<(Seq<char>, JsonValue)>::empty(),
    {
        Calls { call, made: Ghost(Seq::empty()) }
    }

    /// Make a call.
    fn ask(&mut self, method: &str, params: Json) -> (r: Result<Json, String>)
        requires
            call_requires(old(self).callee(), (method, params)),
        ensures
            final(self).callee() == old(self).callee(),
            final(self).made() == old(self).made().push((method@, params@)),
            call_ensures(old(self).callee(), (method, params), r),
    {
        let ghost made = self.made@.push((method@, params@));
        self.made = Ghost(made);
        (self.call)(method, params)
    }
}

/// The call that sets a script's viewport, where it has one.
pub open spec fn header_calls(script: ScriptValue) -> Seq<(Seq<char>, JsonValue)> {
    match script.viewport {
        Some(size) => seq![(methods::SET_VIEWPORT@, viewport_params(size))],
        None => Seq::empty(),
    }
}

/// The call of a step.
pub open spec fn step_call(script: ScriptValue, i: int) -> (Seq<char>, JsonValue) {
    (
        script.steps[i].method,
        script::params_seen(script.source, script.steps[i].method, script.steps[i].params),
    )
}

/// The calls of the first `n` steps: one for each that is not passed over.
pub open spec fn step_calls(script: ScriptValue, options: ReplayOptions, n: int) -> Seq<
    (Seq<char>, JsonValue),
>
    decreases n,
{
    if n <= 0 {
        Seq::empty()
    } else if passes_over(options.seek, script.steps[n - 1].method) {
        step_calls(script, options, n - 1)
    } else {
        step_calls(script, options, n - 1).push(step_call(script, n - 1))
    }
}

/// The calls that a replay makes, in order: the viewport, where the script has
/// one, and then one for each step that was reached and not passed over.
pub open spec fn calls_of(
    script: ScriptValue,
    options: ReplayOptions,
    report: ReportValue,
) -> Seq<(Seq<char>, JsonValue)> {
    header_calls(script) + step_calls(script, options, report.steps.len() as int)
}

/// Whether a replay may make a call: it sets the script's viewport, or it is
/// that of a step that is not passed over.
pub open spec fn may_call(
    script: ScriptValue,
    options: ReplayOptions,
    method: Seq<char>,
    params: JsonValue,
) -> bool {
    ||| script.viewport matches Some(size) && method == methods::SET_VIEWPORT@ && params
        == viewport_params(size)
    ||| exists|i: int|
        0 <= i < script.steps.len() && !passes_over(options.seek, script.steps[i].method) && (
        method, params) == #[trigger] step_call(script, i)
}

/// Whether `call` can be asked for every call that a replay may make.
pub open spec fn can_ask<F: FnMut(&str, Json) -> Result<Json, String>>(
    call: F,
    script: ScriptValue,
    options: ReplayOptions,
) -> bool {
    forall|m: &str, p: Json|
        may_call(script, options, m@, p@) ==> #[trigger] call_requires(call, (m, p))
}

/// Pin the window to the script's size, and say what happened. Answers whether
/// the size was applied.
fn apply_viewport<F: FnMut(&str, Json) -> Result<Json, String>>(
    size: &Viewport,
    calls: &mut Calls<F>,
) -> (r: (ViewportOutcome, bool))
    requires
        forall|m: &str, p: Json|
            m@ == methods::SET_VIEWPORT@ && p@ == viewport_params(size@)
                ==> #[trigger] call_requires(old(calls).callee(), (m, p)),
    ensures
        final(calls).callee() == old(calls).callee(),
        final(calls).made() == old(calls).made().push(
            (methods::SET_VIEWPORT@, viewport_params(size@)),
        ),
        exists|header: Result<JsonValue, Seq<char>>| #[trigger]
            answers_with(
                old(calls).callee(),
                methods::SET_VIEWPORT@,
                viewport_params(size@),
                header,
            ) && r.0@ == header_judged(size@, header),
        r.1 == (r.0@.status != FAILED@),
{
    let params: Json = Fields::new().with("width", Json::Number(size.width.clone())).with(
        "height",
        Json::Number(size.height.clone()),
    ).object();
    let ghost sent = params;
    let ghost asked = calls.callee();
    let method: &str = methods::SET_VIEWPORT;
    proof {
        assert(sent@ == viewport_params(size@));
    }
    let answer: Result<Json, String> = calls.ask(method, params);
    let ghost header = answer_of(answer);
    proof {
        assert(call_ensures(asked, (method, sent), answer));
        assert(answers_with(asked, methods::SET_VIEWPORT@, viewport_params(size@), header));
    }
    judge_header(size, answer)
}

/// What a replay does next.
#[derive(Debug, Clone, Copy, PartialEq, Eq, Structural)]
pub enum Turn {
    /// Apply the viewport.
    Header,
    /// Make the call of this step.
    Step(usize),
    /// Pass over this step.
    Skip(usize),
    /// Nothing: the replay is over.
    Over,
}

/// What a replay does next, given what came of the viewport and what the steps
/// so far did. The viewport comes before anything else, because everything
/// after it depends on the layout; the steps follow one by one. A viewport
/// that failed ends the replay, and so does a failed step where the replay
/// stops on one.
pub open spec fn turn_after(
    script: ScriptValue,
    options: ReplayOptions,
    header: Option<ViewportOutcomeValue>,
    done: Seq<OutcomeValue>,
) -> Turn {
    if script.viewport is Some && header is None {
        Turn::Header
    } else if header is Some && header->0.status == FAILED@ {
        Turn::Over
    } else if stopped(options, done) || done.len() >= script.steps.len() {
        Turn::Over
    } else if passes_over(options.seek, script.steps[done.len() as int].method) {
        Turn::Skip(done.len() as usize)
    } else {
        Turn::Step(done.len() as usize)
    }
}

/// What came of a viewport, where anything did.
pub open spec fn header_of(header: Option<ViewportOutcome>) -> Option<ViewportOutcomeValue> {
    match header {
        Some(outcome) => Some(outcome@),
        None => None,
    }
}

/// Decide what a replay does next.
pub fn next_turn(
    script: &Script,
    options: &ReplayOptions,
    header: &Option<ViewportOutcome>,
    done: &Vec<StepOutcome>,
) -> (r: Turn)
    ensures
        r == turn_after(script@, *options, header_of(*header), outcomes_of(done@)),
{
    match header {
        Some(outcome) => {
            if text::same_text(outcome.status, FAILED) {
                return Turn::Over;
            }
        },
        None => {
            if script.viewport.is_some() {
                return Turn::Header;
            }
        },
    }
    let n: usize = done.len();
    if options.stop_on_error && n > 0 && text::same_text(done[n - 1].status, FAILED) {
        return Turn::Over;
    }
    if n >= script.steps.len() {
        return Turn::Over;
    }
    proof {
        assert(script@.steps[n as int] == script.steps@[n as int]@);
    }
    if options.seek && script::is_read_only(script.steps[n].method.as_str()) {
        Turn::Skip(n)
    } else {
        Turn::Step(n)
    }
}

/// No step has its turn, and none is passed over, before the viewport has been
/// applied; each step's turn comes once, when every step before it has had
/// its own.
pub proof fn lemma_the_viewport_comes_first(
    script: ScriptValue,
    options: ReplayOptions,
    header: Option<ViewportOutcomeValue>,
    done: Seq<OutcomeValue>,
)
    requires
        done.len() <= script.steps.len() <= usize::MAX,
    ensures
        ({
            let turn = turn_after(script, options, header, done);
            &&& (turn is Step || turn is Skip) && script.viewport is Some ==> header is Some
                && header->0.status != FAILED@
            &&& turn matches Turn::Step(i) ==> i == done.len() && i < script.steps.len()
            &&& turn matches Turn::Skip(i) ==> i == done.len() && i < script.steps.len()
            &&& turn is Header <==> script.viewport is Some && header is None
        }),
{
}

/// Replay a script, calling `call` for each step: see [`replay_through`], which
/// says of the calls which they are.
pub fn replay<F: FnMut(&str, Json) -> Result<Json, String>>(
    script: &Script,
    options: &ReplayOptions,
    call: F,
) -> (r: Report)
    requires
        can_ask(call, script@, *options),
    ensures
        exists|
            header: Result<JsonValue, Seq<char>>,
            answers: Seq<Result<JsonValue, Seq<char>>>,
        | #[trigger]
            answered(call, script@, *options, header, answers) && r@ == report_of(
                script@,
                *options,
                header,
                answers,
            ),
{
    let mut calls: Calls<F> = Calls::new(call);
    replay_through(script, options, &mut calls)
}

/// Replay a script through `calls`: [`next_turn`] says when which call is made.
/// The calls that were made in the end are those of the report, once each and
/// in their order: the viewport first, then each step that was reached and not
/// passed over.
pub fn replay_through<F: FnMut(&str, Json) -> Result<Json, String>>(
    script: &Script,
    options: &ReplayOptions,
    calls: &mut Calls<F>,
) -> (r: Report)
    requires
        can_ask(old(calls).callee(), script@, *options),
    ensures
        final(calls).callee() == old(calls).callee(),
        final(calls).made() == old(calls).made() + calls_of(script@, *options, r@),
        exists|
            header: Result<JsonValue, Seq<char>>,
            answers: Seq<Result<JsonValue, Seq<char>>>,
        | #[trigger]
            answered(old(calls).callee(), script@, *options, header, answers) && r@ == report_of(
                script@,
                *options,
                header,
                answers,
            ),
{
    let ghost asked = calls.callee();
    let ghost begun = calls.made();
    let ghost first = header_calls(script@);
    let ghost steps = script@.steps;
    let n: usize = script.steps.len();
    let mut viewport: Option<ViewportOutcome> = None;
    let ghost mut header: Result<JsonValue, Seq<char>> = Err(Seq::empty());
    let mut done: Vec<StepOutcome> = Vec::new();
    let mut passed: usize = 0;
    let mut failed: usize = 0;
    let mut skipped: usize = 0;
    let ghost mut answers: Seq<Result<JsonValue, Seq<char>>> = Seq::empty();
    let mut turn: Turn = next_turn(script, options, &viewport, &done);
    proof {
        lemma_statuses_differ();
        assert(outcomes_of(done@) =~= Seq::empty());
        assert(script.viewport is None ==> begun + (first + step_calls(script@, *options, 0))
            =~= begun);
    }
    while !matches!(turn, Turn::Over)
        invariant
            turn == turn_after(script@, *options, header_of(viewport), outcomes_of(done@)),
            n == script.steps@.len(),
            steps == script@.steps,
            calls.callee() == asked,
            can_ask(asked, script@, *options),
            first == header_calls(script@),
            calls.made() == (if viewport is None && script.viewport is Some {
                begun
            } else {
                begun + (first + step_calls(script@, *options, done@.len() as int))
            }),
            header_of(viewport) matches Some(outcome) ==> script.viewport is Some && outcome
                == header_judged(script.viewport->0@, header) && answers_with(
                asked,
                methods::SET_VIEWPORT@,
                viewport_params(script.viewport->0@),
                header,
            ),
            done@.len() <= n,
            viewport is None && script.viewport is Some ==> done@.len() == 0,
            header_of(viewport) matches Some(outcome) ==> outcome.status == FAILED@ ==> done@.len()
                == 0,
            answers.len() == done@.len(),
            outcomes_of(done@) == outcomes(steps, *options, answers, done@.len() as int),
            passed == count(outcomes_of(done@), PASSED@),
            failed == count(outcomes_of(done@), FAILED@),
            skipped == count(outcomes_of(done@), SKIPPED@),
            passed + failed + skipped == done@.len(),
            forall|j: int|
                0 <= j < done@.len() && !passes_over(options.seek, steps[j].method)
                    ==> answers_with(
                    asked,
                    steps[j].method,
                    script::params_seen(script@.source, steps[j].method, steps[j].params),
                    #[trigger] answers[j],
                ),
            PASSED@ != FAILED@,
            PASSED@ != SKIPPED@,
            FAILED@ != SKIPPED@,
        decreases
                n - done@.len() + (if viewport is None {
                    1int
                } else {
                    0int
                }),
    {
        let ghost before = outcomes_of(done@);
        let ghost earlier = answers;
        let ghost k = done@.len() as int;
        match turn {
            Turn::Header => {
                if let Some(size) = &script.viewport {
                    // A window that cannot be resized — refused as well as
                    // unreachable — ends the run rather than producing
                    // failures that all say the wrong thing.
                    let (outcome, _) = apply_viewport(size, calls);
                    proof {
                        assert(calls.made() =~= begun + (first + step_calls(
                            script@,
                            *options,
                            0,
                        )));
                        header = choose|header: Result<JsonValue, Seq<char>>| #[trigger]
                            answers_with(
                                asked,
                                methods::SET_VIEWPORT@,
                                viewport_params(size@),
                                header,
                            ) && outcome@ == header_judged(size@, header);
                    }
                    viewport = Some(outcome);
                }
            },
            Turn::Skip(i) => {
                let step: &Step = &script.steps[i];
                skipped += 1;
                proof {
                    assert(steps[k] == step@);
                    answers = answers.push(Err(Seq::empty()));
                }
                done.push(
                    StepOutcome {
                        index: i,
                        method: step.method.clone(),
                        status: SKIPPED,
                        detail: None,
                    },
                );
            },
            Turn::Step(i) => {
                let step: &Step = &script.steps[i];
                let params: Json = script.params_for(step);
                let ghost sent = params;
                let method: &str = step.method.as_str();
                proof {
                    assert(steps[k] == step@);
                    assert((method@, params@) == step_call(script@, k));
                }
                let answer: Result<Json, String> = calls.ask(method, params);
                proof {
                    assert(calls.made() =~= begun + (first + step_calls(script@, *options, k + 1)));
                    answers = answers.push(answer_of(answer));
                    assert(call_ensures(asked, (method, sent), answer));
                    assert(answers_with(
                        asked,
                        step@.method,
                        script::params_seen(script@.source, step@.method, step@.params),
                        answer_of(answer),
                    ));
                }
                let (outcome, ok) = judge(i, method, answer);
                if ok {
                    passed += 1;
                } else {
                    failed += 1;
                }
                done.push(outcome);
            },
            Turn::Over => {},
        }
        proof {
            lemma_outcomes_prefix(steps, *options, earlier, answers, k);
            if done@.len() > k {
                let last = outcome_at(steps, options.seek, answers, k);
                assert(outcomes_of(done@) =~= before.push(last));
                assert(before.push(last).drop_last() =~= before);
            }
        }
        turn = next_turn(script, options, &viewport, &done);
    }
    let header_applied: bool = match &viewport {
        Some(outcome) => !text::same_text(outcome.status, FAILED),
        None => true,
    };
    if !header_applied {
        let r: Report = Report {
            ok: false,
            passed: 0,
            failed: 0,
            skipped: n,
            of: n,
            viewport,
            steps: Vec::new(),
        };
        proof {
            assert(r@.steps =~= Seq::empty());
            assert(r@ == report_of(script@, *options, header, answers));
            assert(answered(asked, script@, *options, header, answers));
        }
        return r;
    }
    proof {
        if stopped(*options, outcomes_of(done@)) {
            lemma_stopped_stays(steps, *options, answers, done@.len() as int, n as int);
        }
    }
    let r: Report = Report {
        ok: failed == 0,
        passed,
        failed,
        skipped,
        of: n,
        viewport,
        steps: done,
    };
    proof {
        assert(r@ == report_of(script@, *options, header, answers));
        assert(answered(asked, script@, *options, header, answers));
    }
    r
}

/// A report says one thing of each step it got to, in order, and its counts
/// are the counts of what it says: together as many as the steps it got to,
/// and as many as the script has wherever nothing stopped it.
pub proof fn lemma_counts_are_honest(
    script: ScriptValue,
    options: ReplayOptions,
    header: Result<JsonValue, Seq<char>>,
    answers: Seq<Result<JsonValue, Seq<char>>>,
)
    ensures
        ({
            let r = report_of(script, options, header, answers);
            let header_failed = r.viewport is Some && r.viewport->0.status == FAILED@;
            &&& r.of == script.steps.len()
            &&& r.steps.len() <= r.of
            &&& !header_failed ==> r.passed + r.failed + r.skipped == r.steps.len()
            &&& (header_failed || !options.stop_on_error || r.failed == 0) ==> r.passed + r.failed
                + r.skipped == r.of
            &&& r.ok == (r.failed == 0 && !header_failed)
            &&& options.stop_on_error ==> r.failed <= 1
            &&& forall|i: int|
                0 <= i < r.steps.len() ==> (#[trigger] r.steps[i]).index == i && r.steps[i].method
                    == script.steps[i].method
        }),
{
    lemma_statuses_differ();
    let n = script.steps.len() as int;
    lemma_outcomes(script.steps, options, answers, n);
}

proof fn lemma_outcomes(
    steps: Seq<StepValue>,
    options: ReplayOptions,
    answers: Seq<Result<JsonValue, Seq<char>>>,
    n: int,
)
    requires
        0 <= n <= steps.len(),
    ensures
        ({
            let done = outcomes(steps, options, answers, n);
            &&& done.len() <= n
            &&& !stopped(options, done) ==> done.len() == n
            &&& count(done, PASSED@) + count(done, FAILED@) + count(done, SKIPPED@) == done.len()
            &&& stopped(options, done) ==> count(done, FAILED@) == 1
            &&& options.stop_on_error && !stopped(options, done) ==> count(done, FAILED@) == 0
            &&& forall|i: int|
                0 <= i < done.len() ==> #[trigger] done[i] == outcome_at(
                    steps,
                    options.seek,
                    answers,
                    i,
                )
        }),
    decreases n,
{
    lemma_statuses_differ();
    if n > 0 {
        lemma_outcomes(steps, options, answers, n - 1);
        let before = outcomes(steps, options, answers, n - 1);
        let done = outcomes(steps, options, answers, n);
        if !stopped(options, before) {
            assert(done.drop_last() =~= before);
        }
    }
}

/// A header that fails stops the replay before its first step: every step is
/// skipped, none is counted as failed, and the report says why.
pub proof fn lemma_a_failed_header_runs_nothing(
    script: ScriptValue,
    options: ReplayOptions,
    header: Result<JsonValue, Seq<char>>,
    answers: Seq<Result<JsonValue, Seq<char>>>,
)
    requires
        script.viewport is Some,
        header is Err || refusal(header->Ok_0) is Some,
    ensures
        ({
            let r = report_of(script, options, header, answers);
            &&& !r.ok
            &&& r.steps.len() == 0
            &&& r.passed == 0 && r.failed == 0 && r.skipped == r.of
            &&& r.viewport is Some && r.viewport->0.status == FAILED@ && r.viewport->0.detail is Some
        }),
{
}

proof fn lemma_step_calls(
    script: ScriptValue,
    options: ReplayOptions,
    answers: Seq<Result<JsonValue, Seq<char>>>,
    n: int,
)
    requires
        0 <= n <= script.steps.len(),
    ensures
        ({
            let done = outcomes(script.steps, options, answers, n);
            let made = step_calls(script, options, done.len() as int);
            &&& made.len() == count(done, PASSED@) + count(done, FAILED@)
            &&& options.seek ==> forall|k: int|
                0 <= k < made.len() ==> !script::read_only((#[trigger] made[k]).0)
            &&& !options.seek ==> made.len() == done.len() && forall|k: int|
                0 <= k < made.len() ==> #[trigger] made[k] == step_call(script, k)
            &&& !options.seek ==> count(done, SKIPPED@) == 0
        }),
    decreases n,
{
    lemma_statuses_differ();
    if n > 0 {
        lemma_step_calls(script, options, answers, n - 1);
        lemma_outcomes(script.steps, options, answers, n - 1);
        let before = outcomes(script.steps, options, answers, n - 1);
        let done = outcomes(script.steps, options, answers, n);
        if !stopped(options, before) {
            assert(done.drop_last() =~= before);
        }
    }
}

/// A replay makes one call for each step that passed or failed, after the one
/// that sets the viewport, and none besides. One that seeks makes no call that
/// only looks; one that does not makes the call of every step it reports. A
/// header that fails is the only call.
pub proof fn lemma_calls_are_those_of_the_report(
    script: ScriptValue,
    options: ReplayOptions,
    header: Result<JsonValue, Seq<char>>,
    answers: Seq<Result<JsonValue, Seq<char>>>,
)
    ensures
        ({
            let r = report_of(script, options, header, answers);
            let made = calls_of(script, options, r);
            let n = header_calls(script).len();
            &&& made.len() == n + r.passed + r.failed
            &&& script.viewport matches Some(size) ==> made[0] == (
                methods::SET_VIEWPORT@,
                viewport_params(size),
            )
            &&& r.viewport is Some && r.viewport->0.status == FAILED@ ==> made == header_calls(
                script,
            )
            &&& options.seek ==> forall|k: int|
                n <= k < made.len() ==> !script::read_only((#[trigger] made[k]).0)
            &&& !options.seek ==> forall|k: int|
                n <= k < made.len() ==> #[trigger] made[k] == step_call(script, k - n)
            &&& !options.seek && !(r.viewport is Some && r.viewport->0.status == FAILED@)
                ==> r.skipped == 0
        }),
{
    let r = report_of(script, options, header, answers);
    let made = calls_of(script, options, r);
    let first = header_calls(script);
    lemma_step_calls(script, options, answers, script.steps.len() as int);
    let after = step_calls(script, options, r.steps.len() as int);
    assert(forall|k: int| first.len() <= k < made.len() ==> made[k] == after[k - first.len()]);
    if r.steps.len() == 0 {
        assert(made =~= first);
    }
}

/// A step is skipped exactly where the replay seeks and the step only looks;
/// every other step that was reached was judged by what its call came back
/// with.
pub proof fn lemma_seeking_skips_what_only_looks(
    script: ScriptValue,
    options: ReplayOptions,
    header: Result<JsonValue, Seq<char>>,
    answers: Seq<Result<JsonValue, Seq<char>>>,
    i: int,
)
    requires
        0 <= i < report_of(script, options, header, answers).steps.len(),
    ensures
        ({
            let outcome = report_of(script, options, header, answers).steps[i];
            &&& outcome.status == SKIPPED@ <==> options.seek && script::read_only(
                script.steps[i].method,
            )
            &&& outcome.status != SKIPPED@ ==> outcome == judged(
                i as nat,
                script.steps[i].method,
                answers[i],
            )
        }),
{
    lemma_statuses_differ();
    lemma_outcomes(script.steps, options, answers, script.steps.len() as int);
}

/// Where a replay stops on a failure, the failing step is the last it reports.
pub proof fn lemma_nothing_follows_a_failure(
    script: ScriptValue,
    options: ReplayOptions,
    header: Result<JsonValue, Seq<char>>,
    answers: Seq<Result<JsonValue, Seq<char>>>,
    i: int,
)
    requires
        options.stop_on_error,
        0 <= i < report_of(script, options, header, answers).steps.len(),
        report_of(script, options, header, answers).steps[i].status == FAILED@,
    ensures
        i == report_of(script, options, header, answers).steps.len() - 1,
{
    lemma_only_the_last_fails(script.steps, options, answers, script.steps.len() as int, i);
}

proof fn lemma_only_the_last_fails(
    steps: Seq<StepValue>,
    options: ReplayOptions,
    answers: Seq<Result<JsonValue, Seq<char>>>,
    n: int,
    i: int,
)
    requires
        options.stop_on_error,
        0 <= i < outcomes(steps, options, answers, n).len(),
        outcomes(steps, options, answers, n)[i].status == FAILED@,
    ensures
        i == outcomes(steps, options, answers, n).len() - 1,
    decreases n,
{
    if n > 0 {
        let before = outcomes(steps, options, answers, n - 1);
        if i < before.len() {
            lemma_only_the_last_fails(steps, options, answers, n - 1, i);
        }
    }
}

/// A step of a method that is never an assertion — no wait, no batch, no
/// golden, no audit and no resize — fails only where its call failed.
pub proof fn lemma_other_steps_fail_only_as_calls(
    index: nat,
    method: Seq<char>,
    answer: Result<JsonValue, Seq<char>>,
)
    requires
        method != methods::SET_VIEWPORT@,
        method != methods::WAIT_FOR@,
        method != methods::BATCH@,
        method != golden::TOOL_NAME@,
        method != methods::A11Y_AUDIT@,
    ensures
        judged(index, method, answer).status == FAILED@ <==> answer is Err,
{
    lemma_statuses_differ();
}

/// A script with a viewport is replayed at that viewport: the first call sets
/// the width to the script's width and the height to its height, and says
/// nothing else.
pub proof fn lemma_the_window_is_pinned_to_the_script(
    script: ScriptValue,
    options: ReplayOptions,
    report: ReportValue,
)
    requires
        script.viewport is Some,
    ensures
        ({
            let (method, params) = calls_of(script, options, report)[0];
            let size = script.viewport->0;
            &&& calls_of(script, options, report).len() > 0
            &&& method == "set_viewport"@
            &&& json::field(params, "width"@) == Some(JsonValue::Number(size.width))
            &&& json::field(params, "height"@) == Some(JsonValue::Number(size.height))
            &&& params is Object && params->Object_0.len() == 2
        }),
{
    let fields = viewport_params(script.viewport->0)->Object_0;
    lemma_sides();
    assert(fields[0].0 == "width"@ && fields[1].0 == "height"@);
    json::lemma_field_at(fields, 0);
    json::lemma_field_at(fields, 1);
}

proof fn lemma_sides()
    ensures
        "width"@ != "height"@,
{
    reveal_strlit("width");
    reveal_strlit("height");
    assert("width"@.len() == 5 && "height"@.len() == 6);
}

/// The calls of a replay are those of the steps that are not passed over, each
/// with its method and its arguments as the tool should see them, in order.
pub proof fn lemma_step_calls_are_those_of_the_steps(
    script: ScriptValue,
    options: ReplayOptions,
    n: int,
)
    requires
        0 <= n <= script.steps.len(),
    ensures
        step_calls(script, options, n) == script.steps.take(n).filter(
            |step: StepValue| !(options.seek && script::read_only(step.method)),
        ).map_values(
            |step: StepValue|
                (step.method, script::params_seen(script.source, step.method, step.params)),
        ),
    decreases n,
{
    let keep = |step: StepValue| !(options.seek && script::read_only(step.method));
    let call = |step: StepValue|
        (step.method, script::params_seen(script.source, step.method, step.params));
    reveal(Seq::filter);
    let steps = script.steps.take(n);
    if n > 0 {
        lemma_step_calls_are_those_of_the_steps(script, options, n - 1);
        let before = script.steps.take(n - 1);
        assert(steps.drop_last() =~= before);
        assert(steps.last() == script.steps[n - 1]);
        if keep(steps.last()) {
            assert(steps.filter(keep) == before.filter(keep).push(steps.last()));
            assert(before.filter(keep).push(steps.last()).map_values(call) =~= before.filter(
                keep,
            ).map_values(call).push(call(steps.last())));
        }
        assert(step_calls(script, options, n) =~= steps.filter(keep).map_values(call));
    } else {
        assert(steps.filter(keep).map_values(call) =~= Seq::empty());
    }
}

/// A step that is called is called with the arguments in the script, but for
/// the path of a golden.
pub proof fn lemma_a_step_is_called_as_it_is_written(script: ScriptValue, i: int, key: Seq<char>)
    requires
        0 <= i < script.steps.len(),
    ensures
        ({
            let (method, params) = step_call(script, i);
            let step = script.steps[i];
            &&& method == step.method
            &&& method != "expect_screenshot"@ ==> params == step.params
            &&& key != "path"@ ==> json::field(params, key) == json::field(step.params, key)
        }),
{
    script::lemma_only_a_golden_path_is_rewritten(
        script.source,
        script.steps[i].method,
        script.steps[i].params,
        key,
    );
}

/// A count is the number of outcomes with that status.
pub proof fn lemma_counts_count(done: Seq<OutcomeValue>, status: Seq<char>)
    ensures
        count(done, status) == done.filter(
            |outcome: OutcomeValue| outcome.status == status,
        ).len(),
    decreases done.len(),
{
    reveal(Seq::filter);
    if done.len() > 0 {
        lemma_counts_count(done.drop_last(), status);
    }
}

/// Whether an answer says of itself that what was asked for did not come about:
/// the window was not resized, the condition never held, a step of the batch
/// failed, the image does not match, the audit found too much.
pub open spec fn denies(method: Seq<char>, value: JsonValue) -> bool {
    let no = Some(JsonValue::Bool(false));
    ||| method == "set_viewport"@ && json::field(value, "honoured"@) == no
    ||| method == "wait_for"@ && json::field(value, "satisfied"@) == no
    ||| method == "batch"@ && json::field(value, "ok"@) == no
    ||| method == "expect_screenshot"@ && json::field(value, "matched"@) == no
    ||| method == "a11y_audit"@ && json::field(value, "ok"@) == no
}

/// A step fails exactly where its call failed, or its answer says that what was
/// asked for did not come about; it passes everywhere else. A failed call is
/// told in its own words.
pub proof fn lemma_when_a_step_fails(
    index: nat,
    method: Seq<char>,
    answer: Result<JsonValue, Seq<char>>,
)
    ensures
        ({
            let outcome = judged(index, method, answer);
            let failed = answer is Err || denies(method, answer->Ok_0);
            &&& outcome.index == index && outcome.method == method
            &&& failed ==> outcome.status == "failed"@ && outcome.detail is Some
            &&& !failed ==> outcome.status == "passed"@
            &&& answer matches Err(error) ==> outcome.detail == Some(error)
        }),
{
    methods::lemma_stamps();
}

proof fn lemma_said_of_a_wait(waited: Seq<char>, checks: Seq<char>)
    ensures
        ({
            let said = "waited "@ + waited + " ms and the condition never held: "@ + checks;
            &&& text::has_prefix(said, "waited "@ + waited + " ms"@)
            &&& text::has_suffix(said, ": "@ + checks)
            &&& text::has_suffix(said, checks)
        }),
{
    reveal_strlit(" ms and the condition never held: ");
    reveal_strlit(" ms");
    reveal_strlit(": ");
    let between = " ms and the condition never held: "@;
    let n = between.len() as int;
    let said = "waited "@ + waited + between + checks;
    assert(between =~= " ms"@ + between.skip(3));
    assert(between =~= between.take(n - 2) + ": "@);
    let a = "waited "@ + waited + " ms"@;
    assert(said =~= a + (between.skip(3) + checks));
    text::lemma_begins_with(a, between.skip(3) + checks);
    let b = ": "@ + checks;
    assert(said =~= ("waited "@ + waited + between.take(n - 2)) + b);
    text::lemma_ends_with("waited "@ + waited + between.take(n - 2), b);
    text::lemma_ends_with("waited "@ + waited + between, checks);
}

proof fn lemma_said_of_a_batch(ran: Seq<char>, of: Seq<char>)
    ensures
        ({
            let said = ran + " of "@ + of + " steps ran before one failed"@;
            &&& text::has_prefix(said, ran + " of "@)
            &&& text::has_suffix(said, " of "@ + of + " steps ran before one failed"@)
        }),
{
    let end = " steps ran before one failed"@;
    let said = ran + " of "@ + of + end;
    assert(said =~= (ran + " of "@) + (of + end));
    text::lemma_begins_with(ran + " of "@, of + end);
    assert(said =~= ran + (" of "@ + of + end));
    text::lemma_ends_with(ran, " of "@ + of + end);
}

proof fn lemma_said_of_an_audit(serious: Seq<char>, warnings: Seq<char>, fail_on: Seq<char>)
    ensures
        ({
            let said = serious + " serious and "@ + warnings + " warnings, at fail_on="@ + fail_on;
            &&& text::has_prefix(said, serious + " serious and "@)
            &&& text::mentions(said, " serious and "@ + warnings + " warnings"@)
            &&& text::has_suffix(said, "fail_on="@ + fail_on)
            &&& text::has_suffix(said, fail_on)
        }),
{
    reveal_strlit(" warnings, at fail_on=");
    reveal_strlit(" warnings");
    reveal_strlit("fail_on=");
    let between = " warnings, at fail_on="@;
    let n = between.len() as int;
    let said = serious + " serious and "@ + warnings + between + fail_on;
    assert(between =~= " warnings"@ + between.skip(9));
    assert(between =~= between.take(n - 8) + "fail_on="@);
    let a = serious + " serious and "@;
    assert(said =~= a + (warnings + between + fail_on));
    text::lemma_begins_with(a, warnings + between + fail_on);
    let b = " serious and "@ + warnings + " warnings"@;
    assert(said =~= serious + b + (between.skip(9) + fail_on));
    text::lemma_mentions(serious, b, between.skip(9) + fail_on);
    let front = serious + " serious and "@ + warnings + between.take(n - 8);
    assert(said =~= front + ("fail_on="@ + fail_on));
    text::lemma_ends_with(front, "fail_on="@ + fail_on);
    text::lemma_ends_with(serious + " serious and "@ + warnings + between, fail_on);
}

proof fn lemma_how_a_denial_is_put(method: Seq<char>, value: JsonValue)
    requires
        denies(method, value),
    ensures
        complaint(method, value) is Some,
        method == "wait_for"@ ==> complaint(method, value)->0 == "waited "@ + shown(
            value,
            "waited_ms"@,
            "0"@,
        ) + " ms and the condition never held: "@ + shown(value, "checks"@, "{}"@),
        method == "batch"@ ==> complaint(method, value)->0 == shown(value, "ran"@, "0"@) + " of "@
            + shown(value, "of"@, "0"@) + " steps ran before one failed"@,
        method == "a11y_audit"@ ==> complaint(method, value)->0 == shown(value, "serious"@, "0"@)
            + " serious and "@ + shown(value, "warnings"@, "0"@) + " warnings, at fail_on="@
            + shown(value, "fail_on"@, "\"serious\""@),
{
    methods::lemma_stamps();
}

/// What a denial says: how long was waited and for what, how far the batch got,
/// what the comparison found, what the audit found. Each is told as the answer
/// gives it.
pub proof fn lemma_what_a_denial_says(method: Seq<char>, value: JsonValue)
    requires
        denies(method, value),
    ensures
        complaint(method, value) is Some,
        ({
            let said = complaint(method, value)->0;
            &&& method == "wait_for"@ ==> {
                &&& json::field(value, "waited_ms"@) matches Some(waited) ==> text::has_prefix(
                    said,
                    "waited "@ + json::compact_text(waited) + " ms"@,
                )
                &&& json::field(value, "checks"@) matches Some(checks) ==> text::has_suffix(
                    said,
                    ": "@ + json::compact_text(checks),
                )
            }
            &&& method == "batch"@ ==> {
                &&& json::field(value, "ran"@) matches Some(ran) ==> text::has_prefix(
                    said,
                    json::compact_text(ran) + " of "@,
                )
                &&& json::field(value, "of"@) matches Some(of) ==> text::has_suffix(
                    said,
                    " of "@ + json::compact_text(of) + " steps ran before one failed"@,
                )
            }
            &&& method == "expect_screenshot"@ ==> (json::field_text(value, "detail"@) matches Some(
                detail,
            ) ==> said == detail)
            &&& method == "a11y_audit"@ ==> {
                &&& json::field(value, "serious"@) matches Some(serious) ==> text::has_prefix(
                    said,
                    json::compact_text(serious) + " serious and "@,
                )
                &&& json::field(value, "warnings"@) matches Some(warnings) ==> text::mentions(
                    said,
                    " serious and "@ + json::compact_text(warnings) + " warnings"@,
                )
                &&& json::field(value, "fail_on"@) matches Some(fail_on) ==> text::has_suffix(
                    said,
                    "fail_on="@ + json::compact_text(fail_on),
                )
            }
        }),
{
    methods::lemma_stamps();
    lemma_how_a_denial_is_put(method, value);
    lemma_said_of_a_wait(shown(value, "waited_ms"@, "0"@), shown(value, "checks"@, "{}"@));
    lemma_said_of_a_batch(shown(value, "ran"@, "0"@), shown(value, "of"@, "0"@));
    lemma_said_of_an_audit(
        shown(value, "serious"@, "0"@),
        shown(value, "warnings"@, "0"@),
        shown(value, "fail_on"@, "\"serious\""@),
    );
}

/// One side of a size in an answer.
pub open spec fn side_in(value: JsonValue, key: Seq<char>, side: Seq<char>) -> Option<NumberValue> {
    match json::field(value, key) {
        Some(size) => match json::field(size, side) {
            Some(JsonValue::Number(n)) => Some(n),
            _ => None,
        },
        None => None,
    }
}

/// A refused resize says the size that was asked for and the size that was
/// reached, each as its width and its height.
pub proof fn lemma_a_refusal_says_both_sizes(value: JsonValue)
    ensures
        refusal(value) is Some <==> json::field(value, "honoured"@) == Some(JsonValue::Bool(false)),
        refusal(value) matches Some(said) ==> {
            let asked_width = side_in(value, "requested"@, "width"@);
            let asked_height = side_in(value, "requested"@, "height"@);
            let width = side_in(value, "viewport"@, "width"@);
            let height = side_in(value, "viewport"@, "height"@);
            asked_width is Some && asked_height is Some && width is Some && height is Some
                ==> text::has_prefix(
                said,
                "asked for "@ + asked_width->0.plain + "x"@ + asked_height->0.plain
                    + " and the window reached "@ + width->0.plain + "x"@ + height->0.plain + ": "@,
            )
        },
{
    if let Some(said) = refusal(value) {
        let asked = size_text(value, "requested"@);
        let reached = size_text(value, "viewport"@);
        let front = "asked for "@ + asked + " and the window reached "@ + reached;
        reveal_strlit(
            ": the platform refused or clamped the resize — a minimum size, a maximised window, or a tiling window manager. The layout is not the one the script was recorded against.",
        );
        reveal_strlit(": ");
        let rest = REFUSED_RESIZE@;
        assert(rest =~= ": "@ + rest.skip(2));
        let asked_width = side_in(value, "requested"@, "width"@);
        let asked_height = side_in(value, "requested"@, "height"@);
        let width = side_in(value, "viewport"@, "width"@);
        let height = side_in(value, "viewport"@, "height"@);
        if asked_width is Some && asked_height is Some && width is Some && height is Some {
            let whole = "asked for "@ + asked_width->0.plain + "x"@ + asked_height->0.plain
                + " and the window reached "@ + width->0.plain + "x"@ + height->0.plain + ": "@;
            assert(whole =~= front + ": "@);
            assert(said =~= whole + rest.skip(2));
            text::lemma_begins_with(whole, rest.skip(2));
        }
    }
}

/// A golden that passed says something exactly where it was written and not
/// compared; no other step that passed says anything.
pub proof fn lemma_what_a_pass_says(method: Seq<char>, value: JsonValue)
    ensures
        ({
            let unseen = json::field(value, "created"@) == Some(JsonValue::Bool(true))
                || json::field(value, "compared"@) == Some(JsonValue::Bool(false));
            let note = note_on_pass(method, value);
            &&& note is Some <==> method == "expect_screenshot"@ && unseen
            &&& note is Some ==> (json::field_text(value, "detail"@) matches Some(detail) ==> note
                == Some(detail))
        }),
{
}

/// A size is read by its names, whatever else stands beside them, or in order;
/// the width is the width and the height the height.
pub proof fn lemma_a_size_is_read(value: JsonValue, width: NumberValue, height: NumberValue)
    requires
        json::field(value, "width"@) == Some(JsonValue::Number(width)),
        json::field(value, "height"@) == Some(JsonValue::Number(height)),
    ensures
        viewport_in(value) == Some(
            ViewportValue { width: json::narrowed(width), height: json::narrowed(height) },
        ),
        viewport_in(
            JsonValue::Array(seq![JsonValue::Number(width), JsonValue::Number(height)]),
        ) == viewport_in(value),
{
}

/// What is no size is not read as one.
pub proof fn lemma_what_is_no_size(value: JsonValue)
    ensures
        !(value is Array) && !(json::field(value, "width"@) matches Some(JsonValue::Number(_)))
            ==> viewport_in(value) is None,
        !(value is Array) && !(json::field(value, "height"@) matches Some(JsonValue::Number(_)))
            ==> viewport_in(value) is None,
        value matches JsonValue::Array(items) ==> items.len() != 2 ==> viewport_in(value) is None,
{
}

/// The report tells of the viewport exactly where the script has one: what was
/// requested, whether it was applied, and what was reached.
pub proof fn lemma_the_report_tells_of_the_viewport(
    script: ScriptValue,
    options: ReplayOptions,
    header: Result<JsonValue, Seq<char>>,
    answers: Seq<Result<JsonValue, Seq<char>>>,
)
    ensures
        ({
            let told = report_of(script, options, header, answers).viewport;
            let failed = header is Err || json::field(header->Ok_0, "honoured"@) == Some(
                JsonValue::Bool(false),
            );
            &&& told is Some <==> script.viewport is Some
            &&& told matches Some(outcome) ==> {
                &&& outcome.requested == script.viewport->0
                &&& failed ==> outcome.status == "failed"@ && outcome.detail is Some
                &&& !failed ==> outcome.status == "applied"@ && outcome.detail is None
                &&& header matches Err(error) ==> outcome.detail == Some(error) && outcome.reached
                    is None
                &&& header matches Ok(value) ==> outcome.reached == viewport_in(
                    json::field_or_null(value, "viewport"@),
                )
            }
        }),
{
}

/// A step that failed though its call did not says what the answer says against
/// it, and one that passed says what a pass still should.
pub proof fn lemma_what_a_judged_step_says(index: nat, method: Seq<char>, value: JsonValue)
    ensures
        denies(method, value) ==> judged(index, method, Ok(value)).detail == complaint(
            method,
            value,
        ),
        !denies(method, value) ==> judged(index, method, Ok(value)).detail == note_on_pass(
            method,
            value,
        ),
{
    lemma_when_a_step_fails(index, method, Ok(value));
    if denies(method, value) {
        lemma_what_a_denial_says(method, value);
    } else {
        lemma_statuses_differ();
    }
}

/// What a denial says of what its answer leaves out.
pub proof fn lemma_what_a_denial_leaves_open(method: Seq<char>, value: JsonValue)
    requires
        denies(method, value),
    ensures
        ({
            let said = complaint(method, value)->0;
            let none = |key: Seq<char>| json::field(value, key) is None;
            &&& method == "wait_for"@ && none("waited_ms"@) ==> text::has_prefix(
                said,
                "waited "@ + "0"@ + " ms"@,
            )
            &&& method == "wait_for"@ && none("checks"@) ==> text::has_suffix(said, "{}"@)
            &&& method == "batch"@ && none("ran"@) ==> text::has_prefix(said, "0"@ + " of "@)
            &&& method == "batch"@ && none("of"@) ==> text::has_suffix(
                said,
                " of "@ + "0"@ + " steps ran before one failed"@,
            )
            &&& method == "a11y_audit"@ && none("serious"@) ==> text::has_prefix(
                said,
                "0"@ + " serious and "@,
            )
            &&& method == "a11y_audit"@ && none("warnings"@) ==> text::mentions(
                said,
                " serious and "@ + "0"@ + " warnings"@,
            )
            &&& method == "a11y_audit"@ && none("fail_on"@) ==> text::has_suffix(
                said,
                "\"serious\""@,
            )
            &&& method == "expect_screenshot"@ && json::field_text(value, "detail"@) is None ==> said
                == "the window does not match its golden image"@
        }),
{
    methods::lemma_stamps();
    lemma_how_a_denial_is_put(method, value);
    lemma_said_of_a_wait(shown(value, "waited_ms"@, "0"@), shown(value, "checks"@, "{}"@));
    lemma_said_of_a_batch(shown(value, "ran"@, "0"@), shown(value, "of"@, "0"@));
    lemma_said_of_an_audit(
        shown(value, "serious"@, "0"@),
        shown(value, "warnings"@, "0"@),
        shown(value, "fail_on"@, "\"serious\""@),
    );
}

/// A step that is passed over is told to be skipped, and nothing else is said of
/// it.
pub proof fn lemma_what_is_said_of_a_skipped_step(
    script: ScriptValue,
    options: ReplayOptions,
    header: Result<JsonValue, Seq<char>>,
    answers: Seq<Result<JsonValue, Seq<char>>>,
    i: int,
)
    requires
        0 <= i < report_of(script, options, header, answers).steps.len(),
        options.seek,
        script::read_only(script.steps[i].method),
    ensures
        ({
            let outcome = report_of(script, options, header, answers).steps[i];
            &&& outcome.status == "skipped"@
            &&& outcome.detail is None
            &&& outcome.index == i
            &&& outcome.method == script.steps[i].method
        }),
{
    lemma_outcomes_are_those_of_the_steps(
        script.steps,
        options,
        answers,
        script.steps.len() as int,
        i,
    );
}

proof fn lemma_outcomes_are_those_of_the_steps(
    steps: Seq<StepValue>,
    options: ReplayOptions,
    answers: Seq<Result<JsonValue, Seq<char>>>,
    n: int,
    i: int,
)
    requires
        0 <= n <= steps.len(),
        0 <= i < outcomes(steps, options, answers, n).len(),
    ensures
        outcomes(steps, options, answers, n).len() <= n,
        outcomes(steps, options, answers, n)[i] == outcome_at(steps, options.seek, answers, i),
    decreases n,
{
    if n > 0 {
        let before = outcomes(steps, options, answers, n - 1);
        lemma_outcomes_keep_pace(steps, options, answers, n - 1);
        if i < before.len() {
            lemma_outcomes_are_those_of_the_steps(steps, options, answers, n - 1, i);
        }
    }
}

proof fn lemma_outcomes_keep_pace(
    steps: Seq<StepValue>,
    options: ReplayOptions,
    answers: Seq<Result<JsonValue, Seq<char>>>,
    n: int,
)
    requires
        0 <= n <= steps.len(),
    ensures
        outcomes(steps, options, answers, n).len() <= n,
        outcomes(steps, options, answers, n).len() < n ==> stopped(
            options,
            outcomes(steps, options, answers, n),
        ),
    decreases n,
{
    if n > 0 {
        lemma_outcomes_keep_pace(steps, options, answers, n - 1);
    }
}

/// A replay is over exactly where its viewport failed, or every step had its
/// turn, or the last one failed and the replay stops on that. Until then the
/// next step has its turn: it is passed over where the replay seeks and the
/// step only looks, and called everywhere else.
pub proof fn lemma_whose_turn_it_is(
    script: ScriptValue,
    options: ReplayOptions,
    header: Option<ViewportOutcomeValue>,
    done: Seq<OutcomeValue>,
)
    requires
        done.len() <= script.steps.len() <= usize::MAX,
        script.viewport is Some ==> header is Some,
    ensures
        ({
            let turn = turn_after(script, options, header, done);
            let refused = header is Some && header->0.status == "failed"@;
            let failed = options.stop_on_error && done.len() > 0 && done.last().status
                == "failed"@;
            let over = refused || failed || done.len() == script.steps.len();
            let looks = options.seek && script::read_only(
                script.steps[done.len() as int].method,
            );
            &&& over ==> turn is Over
            &&& !over && looks ==> turn == Turn::Skip(done.len() as usize)
            &&& !over && !looks ==> turn == Turn::Step(done.len() as usize)
        }),
{
}

/// The answers that a report is made of came back from the calls that the
/// script asks for: the viewport's from one that sets its width and its height,
/// and each step's from one of its method with its arguments as the tool should
/// see them.
pub proof fn lemma_answers_are_those_of_the_calls<F: FnMut(&str, Json) -> Result<Json, String>>(
    call: F,
    script: ScriptValue,
    options: ReplayOptions,
    header: Result<JsonValue, Seq<char>>,
    answers: Seq<Result<JsonValue, Seq<char>>>,
    i: int,
)
    requires
        answered(call, script, options, header, answers),
    ensures
        script.viewport matches Some(size) ==> exists|m: &str, p: Json, a: Result<Json, String>|
            {
                &&& #[trigger] call_ensures(call, (m, p), a)
                &&& m@ == "set_viewport"@
                &&& json::field(p@, "width"@) == Some(JsonValue::Number(size.width))
                &&& json::field(p@, "height"@) == Some(JsonValue::Number(size.height))
                &&& answer_of(a) == header
            },
        0 <= i < report_of(script, options, header, answers).steps.len() && !(options.seek
            && script::read_only(script.steps[i].method)) ==> exists|
            m: &str,
            p: Json,
            a: Result<Json, String>,
        |
            {
                &&& #[trigger] call_ensures(call, (m, p), a)
                &&& m@ == script.steps[i].method
                &&& p@ == script::params_seen(
                    script.source,
                    script.steps[i].method,
                    script.steps[i].params,
                )
                &&& answer_of(a) == answers[i]
            },
{
    if let Some(size) = script.viewport {
        reveal_strlit("width");
        reveal_strlit("height");
        assert("width"@.len() == 5 && "height"@.len() == 6);
        let fields = viewport_params(size)->Object_0;
        json::lemma_field_at(fields, 0);
        json::lemma_field_at(fields, 1);
        assert(answers_with(call, methods::SET_VIEWPORT@, viewport_params(size), header));
        let (m, p, a) = choose|m: &str, p: Json, a: Result<Json, String>|
            {
                &&& #[trigger] call_ensures(call, (m, p), a)
                &&& m@ == methods::SET_VIEWPORT@
                &&& p@ == viewport_params(size)
                &&& answer_of(a) == header
            };
        assert(call_ensures(call, (m, p), a));
    }
    if 0 <= i < report_of(script, options, header, answers).steps.len() && !(options.seek
        && script::read_only(script.steps[i].method)) {
        assert(answers_with(
            call,
            script.steps[i].method,
            script::params_seen(script.source, script.steps[i].method, script.steps[i].params),
            answers[i],
        ));
    }
}

} // verus!
