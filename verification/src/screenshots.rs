//! Tool calls that go to the app, and the images their answers carry.
//!
//! Any screenshot in an answer — the whole answer for `take_screenshot`, or
//! one step of a `batch` — is lifted out of the JSON and returned alongside
//! it, so the agent sees a picture rather than a path into a temp directory it
//! cannot read.
use vstd::prelude::*;
use vstd::string::*;

use crate::guide;
use crate::json;
use crate::json::{Fields, Json, JsonValue};
use crate::protocol::methods;
use crate::text;

verus! {

/// A screenshot the app handed over, with the bytes of its image.
#[derive(Debug)]
pub struct Screenshot {
    pub width: u32,
    pub height: u32,
    pub format: String,
    /// The scale it was downscaled by: a number, or null.
    pub scale: Json,
    pub element_id: Option<String>,
    pub bytes: Vec<u8>,
}

/// What a [`Screenshot`] holds.
pub struct ShotValue {
    pub width: u32,
    pub height: u32,
    pub format: Seq<char>,
    pub scale: JsonValue,
    pub element_id: Option<Seq<char>>,
    pub bytes: Seq<u8>,
}

impl View for Screenshot {
    type V = ShotValue;

    open spec fn view(&self) -> ShotValue {
        ShotValue {
            width: self.width,
            height: self.height,
            format: self.format@,
            scale: self.scale@,
            element_id: text::maybe_owned(self.element_id),
            bytes: self.bytes@,
        }
    }
}

/// What an optional screenshot holds.
pub open spec fn shot_of(shot: Option<Screenshot>) -> Option<ShotValue> {
    match shot {
        Some(shot) => Some(shot@),
        None => None,
    }
}

/// An image lifted out of a tool result and handed to the agent as its own
/// content block.
#[derive(Debug)]
pub struct InlineImage {
    pub data: String,
    pub mime_type: String,
}

/// What an [`InlineImage`] holds.
pub struct ImageValue {
    pub data: Seq<char>,
    pub mime_type: Seq<char>,
}

impl View for InlineImage {
    type V = ImageValue;

    open spec fn view(&self) -> ImageValue {
        ImageValue { data: self.data@, mime_type: self.mime_type@ }
    }
}

/// What the images of a list hold.
pub open spec fn images_of(images: Seq<InlineImage>) -> Seq<ImageValue> {
    Seq::new(images.len(), |i: int| images[i]@)
}

/// The character that base64 writes for six bits.
pub open spec fn base64_char(n: int) -> char {
    if n < 26 {
        (('A' as int) + n) as char
    } else if n < 52 {
        (('a' as int) + n - 26) as char
    } else if n < 62 {
        (('0' as int) + n - 52) as char
    } else if n == 62 {
        '+'
    } else {
        '/'
    }
}

/// Bytes in base64: four characters for each three bytes, and `=` in place of
/// the characters that a last group of one or two bytes does not need.
pub open spec fn base64_text(bytes: Seq<u8>) -> Seq<char>
    decreases bytes.len(),
{
    let n = bytes.len();
    let a = bytes[0] as int;
    let b = bytes[1] as int;
    let c = bytes[2] as int;
    if n == 0 {
        Seq::empty()
    } else if n == 1 {
        seq![base64_char(a / 4), base64_char((a % 4) * 16), '=', '=']
    } else if n == 2 {
        seq![base64_char(a / 4), base64_char((a % 4) * 16 + b / 16), base64_char((b % 16) * 4), '=']
    } else {
        seq![
            base64_char(a / 4),
            base64_char((a % 4) * 16 + b / 16),
            base64_char((b % 16) * 4 + c / 64),
            base64_char(c % 64),
        ] + base64_text(bytes.skip(3))
    }
}

/// Whether the base64 form of `n` bytes fits a string.
pub open spec fn fits(n: int) -> bool {
    (n + 2) / 3 * 4 <= isize::MAX
}

/// Whether an image of this many bytes can be handed over.
pub fn can_inline(n: usize) -> (r: bool)
    ensures
        r == fits(n as int),
{
    let groups: usize = if n % 3 == 0 {
        n / 3
    } else {
        n / 3 + 1
    };
    groups <= isize::MAX as usize / 4
}

/// `base64::engine::general_purpose::STANDARD`, encoding: the bytes in base64,
/// with the standard alphabet and padding, where they fit a string.
#[verifier::external_body]
fn to_base64(bytes: &[u8]) -> (r: String)
    requires
        fits(bytes@.len() as int),
    ensures
        r@ == base64_text(bytes@),
{
    base64::Engine::encode(&base64::engine::general_purpose::STANDARD, bytes)
}

pub const IMAGE_NOTE: &'static str = "The image is attached to this answer as its own content block.";

/// What stands in the answer in place of a screenshot that was lifted out.
pub open spec fn lifted_value(shot: ShotValue) -> JsonValue {
    JsonValue::Object(
        json::no_fields().push(
            ("width"@, JsonValue::Number(json::whole_number(shot.width as nat))),
        ).push(("height"@, JsonValue::Number(json::whole_number(shot.height as nat)))).push(
            ("format"@, JsonValue::Text(shot.format)),
        ).push(("scale"@, shot.scale)).push(
            (
                "element_id"@,
                match shot.element_id {
                    Some(id) => JsonValue::Text(id),
                    None => JsonValue::Null,
                },
            ),
        ).push(("note"@, JsonValue::Text(IMAGE_NOTE@))),
    )
}

/// The image of a screenshot.
pub open spec fn image_value(shot: ShotValue) -> ImageValue {
    ImageValue { data: base64_text(shot.bytes), mime_type: "image/"@ + shot.format }
}

/// Turn a screenshot that was handed over into an image the agent can see, and
/// what stands in its place.
pub fn inline_screenshot(shot: Screenshot) -> (r: (Json, InlineImage))
    requires
        fits(shot.bytes@.len() as int),
    ensures
        r.0@ == lifted_value(shot@),
        r.1@ == image_value(shot@),
{
    let data: String = to_base64(shot.bytes.as_slice());
    let mime_type: String = "image/".to_owned().concat(shot.format.as_str());
    let element_id: Json = match shot.element_id {
        Some(id) => Json::Text(id),
        None => Json::Null,
    };
    let value: Json = Fields::new().with("width", Json::whole(shot.width as u64)).with(
        "height",
        Json::whole(shot.height as u64),
    ).with("format", Json::Text(shot.format)).with("scale", shot.scale).with(
        "element_id",
        element_id,
    ).with("note", Json::text(IMAGE_NOTE)).object();
    (value, InlineImage { data, mime_type })
}

/// Whether a step of a batch took a screenshot, and with what result.
pub open spec fn shot_in(step: JsonValue) -> Option<JsonValue> {
    if json::field(step, "method"@) == Some(JsonValue::Text(methods::TAKE_SCREENSHOT@))
        && json::field(step, "ok"@) == Some(JsonValue::Bool(true)) {
        json::field(step, "result"@)
    } else {
        None
    }
}

/// A step of a batch, once its screenshot was lifted out.
pub open spec fn step_lifted(step: JsonValue, shot: Option<ShotValue>) -> JsonValue {
    match shot {
        Some(shot) => if shot_in(step) is Some {
            json::set_field(step, "result"@, lifted_value(shot))
        } else {
            step
        },
        None => step,
    }
}

/// The first `n` steps of a batch, once their screenshots were lifted out.
pub open spec fn steps_lifted(
    steps: Seq<JsonValue>,
    shots: Seq<Option<ShotValue>>,
    n: int,
) -> Seq<JsonValue>
    decreases n,
{
    if n <= 0 {
        Seq::empty()
    } else {
        steps_lifted(steps, shots, n - 1).push(step_lifted(steps[n - 1], shots[n - 1]))
    }
}

/// The images of the first `n` steps of a batch.
pub open spec fn step_images(
    steps: Seq<JsonValue>,
    shots: Seq<Option<ShotValue>>,
    n: int,
) -> Seq<ImageValue>
    decreases n,
{
    if n <= 0 {
        Seq::empty()
    } else {
        let before = step_images(steps, shots, n - 1);
        match shots[n - 1] {
            Some(shot) => if shot_in(steps[n - 1]) is Some {
                before.push(image_value(shot))
            } else {
                before
            },
            None => before,
        }
    }
}

/// The screenshots of an answer that a tool gave: where each is, `None` for a
/// step of a batch that took none.
pub open spec fn shots_in(tool: Seq<char>, answer: JsonValue) -> Seq<Option<JsonValue>> {
    if tool == methods::TAKE_SCREENSHOT@ {
        seq![Some(answer)]
    } else if tool == methods::BATCH@ {
        match json::field(answer, "steps"@) {
            Some(JsonValue::Array(steps)) => Seq::new(steps.len(), |i: int| shot_in(steps[i])),
            _ => Seq::empty(),
        }
    } else {
        Seq::empty()
    }
}

/// An answer and its images, once the screenshots that could be fetched
/// (`shots`) were lifted out. One that could not is left as it is: an answer
/// naming a file is at least diagnosable, where a silently missing image is
/// not.
pub open spec fn lifted(
    tool: Seq<char>,
    answer: JsonValue,
    shots: Seq<Option<ShotValue>>,
) -> (JsonValue, Seq<ImageValue>) {
    if tool == methods::TAKE_SCREENSHOT@ {
        match shots[0] {
            Some(shot) => (lifted_value(shot), seq![image_value(shot)]),
            None => (answer, Seq::empty()),
        }
    } else if tool == methods::BATCH@ {
        match json::field(answer, "steps"@) {
            Some(JsonValue::Array(steps)) => (
                json::set_field(
                    answer,
                    "steps"@,
                    JsonValue::Array(steps_lifted(steps, shots, steps.len() as int)),
                ),
                step_images(steps, shots, steps.len() as int),
            ),
            _ => (answer, Seq::empty()),
        }
    } else {
        (answer, Seq::empty())
    }
}

/// Whether `fetch`, asked for the screenshot that `value` names, can come back
/// with `shot`.
pub open spec fn gives<R: FnMut(&Json) -> Option<Screenshot>>(
    fetch: R,
    value: JsonValue,
    shot: Option<ShotValue>,
) -> bool {
    exists|j: &Json, s: Option<Screenshot>|
        #![trigger call_ensures(fetch, (j,), s)]
        j@ == value && shot_of(s) == shot && call_ensures(fetch, (j,), s)
}

/// Whether the screenshots are those that `fetch` came back with, one for each
/// that the answer names.
pub open spec fn fetched<R: FnMut(&Json) -> Option<Screenshot>>(
    fetch: R,
    tool: Seq<char>,
    answer: JsonValue,
    shots: Seq<Option<ShotValue>>,
) -> bool {
    forall|i: int|
        0 <= i < shots_in(tool, answer).len() && shots_in(tool, answer)[i] is Some ==> gives(
            fetch,
            shots_in(tool, answer)[i]->0,
            #[trigger] shots[i],
        )
}

/// Whether an answer that a tool gave names a screenshot by `value`.
pub open spec fn names_shot(tool: Seq<char>, answer: JsonValue, value: JsonValue) -> bool {
    exists|i: int|
        0 <= i < shots_in(tool, answer).len() && #[trigger] shots_in(tool, answer)[i] == Some(value)
}

/// Whether `fetch` can be asked for the screenshots that an answer names, and
/// for them never comes back with an image too large to hand over.
pub open spec fn can_fetch<R: FnMut(&Json) -> Option<Screenshot>>(
    fetch: R,
    tool: Seq<char>,
    answer: JsonValue,
) -> bool {
    &&& forall|j: &Json|
        names_shot(tool, answer, j@) ==> #[trigger] call_requires(fetch, (j,))
    &&& forall|j: &Json, s: Option<Screenshot>|
        names_shot(tool, answer, j@) && #[trigger] call_ensures(fetch, (j,), s) && s is Some
            ==> fits(s->0.bytes@.len() as int)
}

/// The screenshots that are fetched: what fetches them, and which were asked
/// for.
pub struct Fetches<R> {
    fetch: R,
    asked: Ghost<Seq<JsonValue>>,
}

impl<R: FnMut(&Json) -> Option<Screenshot>> Fetches<R> {
    /// What fetches the screenshots.
    pub closed spec fn fetcher(&self) -> R {
        self.fetch
    }

    /// The screenshots that were asked for, each by the value that names it, in
    /// the order they were.
    pub closed spec fn asked(&self) -> Seq<JsonValue> {
        self.asked@
    }

    /// Screenshots fetched through `fetch`: none so far.
    pub fn new(fetch: R) -> (r: Self)
        ensures
            r.fetcher() == fetch,
            r.asked() == Seq::<JsonValue>::empty(),
    {
        Fetches { fetch, asked: Ghost(Seq::empty()) }
    }

    /// Fetch a screenshot.
    fn ask(&mut self, value: &Json) -> (r: Option<Screenshot>)
        requires
            call_requires(old(self).fetcher(), (value,)),
        ensures
            final(self).fetcher() == old(self).fetcher(),
            final(self).asked() == old(self).asked().push(value@),
            call_ensures(old(self).fetcher(), (value,), r),
    {
        let ghost asked = self.asked@.push(value@);
        self.asked = Ghost(asked);
        (self.fetch)(value)
    }
}

/// The screenshots among the first `n` places where one may be.
pub open spec fn wanted(shots: Seq<Option<JsonValue>>, n: int) -> Seq<JsonValue>
    decreases n,
{
    if n <= 0 {
        Seq::empty()
    } else {
        match shots[n - 1] {
            Some(value) => wanted(shots, n - 1).push(value),
            None => wanted(shots, n - 1),
        }
    }
}

/// The screenshots that an answer names, in order.
pub open spec fn wanted_in(tool: Seq<char>, answer: JsonValue) -> Seq<JsonValue> {
    wanted(shots_in(tool, answer), shots_in(tool, answer).len() as int)
}

proof fn lemma_steps_prefix(
    steps: Seq<JsonValue>,
    shots: Seq<Option<ShotValue>>,
    more: Seq<Option<ShotValue>>,
    n: int,
)
    requires
        forall|i: int| 0 <= i < n ==> shots[i] == more[i],
    ensures
        steps_lifted(steps, shots, n) == steps_lifted(steps, more, n),
        step_images(steps, shots, n) == step_images(steps, more, n),
    decreases n,
{
    if n > 0 {
        lemma_steps_prefix(steps, shots, more, n - 1);
    }
}

fn says_true(step: &Json) -> (r: bool)
    ensures
        r == (json::field(step@, "ok"@) == Some(JsonValue::Bool(true))),
{
    match step.get("ok") {
        Some(Json::Bool(b)) => *b,
        _ => false,
    }
}

fn names_screenshot(step: &Json) -> (r: bool)
    ensures
        r == (json::field(step@, "method"@) == Some(
            JsonValue::Text(methods::TAKE_SCREENSHOT@),
        )),
{
    match step.get("method") {
        Some(Json::Text(name)) => text::same_text(name.as_str(), methods::TAKE_SCREENSHOT),
        _ => false,
    }
}

fn lift_steps<R: FnMut(&Json) -> Option<Screenshot>>(
    Ghost(answer): Ghost<JsonValue>,
    steps: &Vec<Json>,
    fetches: &mut Fetches<R>,
) -> (r: (Vec<Json>, Vec<InlineImage>))
    requires
        json::field(answer, "steps"@) == Some(JsonValue::Array(json::values_of(steps@))),
        can_fetch(old(fetches).fetcher(), methods::BATCH@, answer),
    ensures
        final(fetches).fetcher() == old(fetches).fetcher(),
        final(fetches).asked() == old(fetches).asked() + wanted_in(methods::BATCH@, answer),
        exists|shots: Seq<Option<ShotValue>>|
            {
                &&& shots.len() == steps@.len()
                &&& forall|i: int|
                    0 <= i < shots.len() && shot_in(steps@[i]@) is Some ==> gives(
                        old(fetches).fetcher(),
                        shot_in(steps@[i]@)->0,
                        #[trigger] shots[i],
                    )
                &&& json::values_of(r.0@) == steps_lifted(
                    json::values_of(steps@),
                    shots,
                    steps@.len() as int,
                )
                &&& #[trigger] step_images(json::values_of(steps@), shots, steps@.len() as int)
                    == images_of(r.1@)
            },
{
    let ghost asked = fetches.fetcher();
    let ghost begun = fetches.asked();
    let ghost places = shots_in(methods::BATCH@, answer);
    let ghost values = json::values_of(steps@);
    let ghost mut shots: Seq<Option<ShotValue>> = Seq::empty();
    let mut out: Vec<Json> = Vec::new();
    let mut images: Vec<InlineImage> = Vec::new();
    let mut i: usize = 0;
    proof {
        lemma_the_two_differ();
        assert(json::values_of(out@) =~= Seq::empty());
        assert(images_of(images@) =~= Seq::empty());
        assert(begun + wanted(places, 0) =~= begun);
    }
    while i < steps.len()
        invariant
            i <= steps@.len(),
            fetches.fetcher() == asked,
            can_fetch(asked, methods::BATCH@, answer),
            places == shots_in(methods::BATCH@, answer),
            fetches.asked() == begun + wanted(places, i as int),
            json::field(answer, "steps"@) == Some(JsonValue::Array(values)),
            methods::TAKE_SCREENSHOT@ != methods::BATCH@,
            values == json::values_of(steps@),
            shots.len() == i,
            forall|k: int|
                0 <= k < i && shot_in(steps@[k]@) is Some ==> gives(
                    asked,
                    shot_in(steps@[k]@)->0,
                    #[trigger] shots[k],
                ),
            json::values_of(out@) == steps_lifted(values, shots, i as int),
            images_of(images@) == step_images(values, shots, i as int),
        decreases steps@.len() - i,
    {
        let ghost earlier = shots;
        let ghost before = json::values_of(out@);
        let ghost before_images = images_of(images@);
        let mut step: Json = steps[i].clone();
        proof {
            assert(values[i as int] == steps@[i as int]@);
        }
        let mut found: Option<Screenshot> = None;
        if names_screenshot(&step) && says_true(&step) {
            if let Some(value) = step.get("result") {
                proof {
                    assert(shots_in(methods::BATCH@, answer)[i as int] == Some(value@));
                    assert(names_shot(methods::BATCH@, answer, value@));
                }
                found = fetches.ask(value);
                proof {
                    assert(fetches.asked() =~= begun + wanted(places, i + 1));
                    assert(call_ensures(asked, (value,), found));
                    assert(gives(asked, value@, shot_of(found)));
                }
            }
        }
        proof {
            shots = shots.push(shot_of(found));
            lemma_steps_prefix(values, earlier, shots, i as int);
        }
        if let Some(shot) = found {
            let (value, image) = inline_screenshot(shot);
            let ghost added = image@;
            step.set("result", value);
            images.push(image);
            proof {
                assert(images_of(images@) =~= before_images.push(added));
            }
        }
        let ghost kept = step@;
        out.push(step);
        proof {
            assert(json::values_of(out@) =~= before.push(kept));
        }
        i += 1;
    }
    (out, images)
}

/// Lift the screenshots out of the answer a tool gave. `fetch` reads the file
/// that a screenshot names, where it can; it is asked for nothing else. See
/// [`lift_through`], which says in which order it is asked.
pub fn lift_screenshots<R: FnMut(&Json) -> Option<Screenshot>>(
    tool: &str,
    answer: Json,
    fetch: R,
) -> (r: (Json, Vec<InlineImage>))
    requires
        can_fetch(fetch, tool@, answer@),
    ensures
        exists|shots: Seq<Option<ShotValue>>| #[trigger]
            fetched(fetch, tool@, answer@, shots) && (r.0@, images_of(r.1@)) == lifted(
                tool@,
                answer@,
                shots,
            ),
{
    let mut fetches: Fetches<R> = Fetches::new(fetch);
    lift_through(tool, answer, &mut fetches)
}

/// Lift the screenshots out of the answer a tool gave. Each one that the answer
/// names is fetched once, in order, and nothing else is.
pub fn lift_through<R: FnMut(&Json) -> Option<Screenshot>>(
    tool: &str,
    answer: Json,
    fetches: &mut Fetches<R>,
) -> (r: (Json, Vec<InlineImage>))
    requires
        can_fetch(old(fetches).fetcher(), tool@, answer@),
    ensures
        final(fetches).fetcher() == old(fetches).fetcher(),
        final(fetches).asked() == old(fetches).asked() + wanted_in(tool@, answer@),
        exists|shots: Seq<Option<ShotValue>>| #[trigger]
            fetched(old(fetches).fetcher(), tool@, answer@, shots) && (r.0@, images_of(r.1@))
                == lifted(tool@, answer@, shots),
{
    let ghost asked = fetches.fetcher();
    let ghost begun = fetches.asked();
    let ghost whole = answer@;
    proof {
        lemma_the_two_differ();
    }
    if text::same_text(tool, methods::TAKE_SCREENSHOT) {
        let given: &Json = &answer;
        proof {
            assert(shots_in(tool@, whole)[0] == Some(whole));
            assert(names_shot(tool@, whole, given@));
        }
        let found: Option<Screenshot> = fetches.ask(given);
        proof {
            let places = shots_in(tool@, whole);
            assert(wanted(places, 0) =~= Seq::empty());
            assert(wanted(places, 1) =~= seq![whole]);
            assert(fetches.asked() =~= begun + wanted_in(tool@, whole));
        }
        let ghost shots = seq![shot_of(found)];
        proof {
            assert(call_ensures(asked, (given,), found));
            assert(gives(asked, whole, shots[0]));
            assert(fetched(asked, tool@, whole, shots));
        }
        match found {
            Some(shot) => {
                let (value, image) = inline_screenshot(shot);
                let ghost added = image@;
                let images: Vec<InlineImage> = vec![image];
                proof {
                    assert(images_of(images@) =~= seq![added]);
                }
                (value, images)
            },
            None => {
                let images: Vec<InlineImage> = Vec::new();
                proof {
                    assert(images_of(images@) =~= Seq::empty());
                }
                (answer, images)
            },
        }
    } else {
        let mut answer: Json = answer;
        let mut images: Vec<InlineImage> = Vec::new();
        let ghost mut shots: Seq<Option<ShotValue>> = Seq::empty();
        proof {
            assert(images_of(images@) =~= Seq::empty());
            assert(begun + Seq::<JsonValue>::empty() =~= begun);
        }
        if text::same_text(tool, methods::BATCH) {
            let mut kept: Option<Vec<Json>> = None;
            if let Some(Json::Array(steps)) = answer.get("steps") {
                let ghost values = json::values_of(steps@);
                let (out, found) = lift_steps(Ghost(whole), steps, fetches);
                proof {
                    shots = choose|shots: Seq<Option<ShotValue>>|
                        {
                            &&& shots.len() == steps@.len()
                            &&& forall|i: int|
                                0 <= i < shots.len() && shot_in(steps@[i]@) is Some ==> gives(
                                    asked,
                                    shot_in(steps@[i]@)->0,
                                    #[trigger] shots[i],
                                )
                            &&& json::values_of(out@) == steps_lifted(
                                values,
                                shots,
                                steps@.len() as int,
                            )
                            &&& #[trigger] step_images(values, shots, steps@.len() as int)
                                == images_of(found@)
                        };
                    assert(forall|i: int| 0 <= i < values.len() ==> values[i] == steps@[i]@);
                }
                images = found;
                kept = Some(out);
            }
            if let Some(out) = kept {
                answer.set("steps", Json::Array(out));
            }
        }
        proof {
            assert(fetched(asked, tool@, whole, shots));
        }
        (answer, images)
    }
}

proof fn lemma_the_two_differ()
    ensures
        methods::TAKE_SCREENSHOT@ != methods::BATCH@,
{
    reveal_strlit("take_screenshot");
    reveal_strlit("batch");
    assert(methods::TAKE_SCREENSHOT@.len() != methods::BATCH@.len());
}

/// Whether `send`, asked for `method` with `params`, can come back with
/// `answer`.
pub open spec fn sends<S: FnOnce(&str, Json) -> Result<Json, String>>(
    send: S,
    method: Seq<char>,
    params: JsonValue,
    answer: Result<JsonValue, Seq<char>>,
) -> bool {
    exists|m: &str, p: Json, a: Result<Json, String>|
        #![trigger call_ensures(send, (m, p), a)]
        m@ == method && p@ == params && guide::result_of(a) == answer && call_ensures(
            send,
            (m, p),
            a,
        )
}

/// What the result of a tool call holds.
pub open spec fn called(r: Result<(Json, Vec<InlineImage>), String>) -> Result<
    (JsonValue, Seq<ImageValue>),
    Seq<char>,
> {
    match r {
        Ok((value, images)) => Ok((value@, images_of(images@))),
        Err(error) => Err(error@),
    }
}

/// What a tool call comes to, given what the app answered and what could be
/// fetched.
pub open spec fn call_value(
    tool: Seq<char>,
    answer: Result<JsonValue, Seq<char>>,
    shots: Seq<Option<ShotValue>>,
) -> Result<(JsonValue, Seq<ImageValue>), Seq<char>> {
    match answer {
        Ok(value) => Ok(lifted(tool, value, shots)),
        Err(error) => Err(error),
    }
}

/// Forward a tool call to the app. Tool names equal IPC method names; a name
/// that is none is refused without asking the app: `send` need not be fit for
/// any call then.
pub fn handle_tool_call<
    S: FnOnce(&str, Json) -> Result<Json, String>,
    R: FnMut(&Json) -> Option<Screenshot>,
>(tool_name: &str, arguments: Json, send: S, fetch: R) -> (r: Result<
    (Json, Vec<InlineImage>),
    String,
>)
    requires
        methods::all_names().contains(tool_name@) ==> forall|m: &str, p: Json|
            m@ == tool_name@ && p@ == arguments@ ==> #[trigger] call_requires(send, (m, p)),
        forall|m: &str, p: Json, answer: Json|
            m@ == tool_name@ && p@ == arguments@ && #[trigger] call_ensures(
                send,
                (m, p),
                Ok(answer),
            ) ==> can_fetch(fetch, tool_name@, answer@),
    ensures
        !methods::all_names().contains(tool_name@) ==> called(r)
            == Err::<(JsonValue, Seq<ImageValue>), Seq<char>>("Unknown tool: "@ + tool_name@),
        methods::all_names().contains(tool_name@) ==> exists|
            answer: Result<JsonValue, Seq<char>>,
            shots: Seq<Option<ShotValue>>,
        | #[trigger]
            call_value(tool_name@, answer, shots) == called(r) && sends(
                send,
                tool_name@,
                arguments@,
                answer,
            ) && (answer matches Ok(value) ==> fetched(fetch, tool_name@, value, shots)),
{
    if !methods::is_method(tool_name) {
        return Err("Unknown tool: ".to_owned().concat(tool_name));
    }
    let ghost sent = arguments;
    let answer: Result<Json, String> = send(tool_name, arguments);
    let ghost came = guide::result_of(answer);
    proof {
        assert(call_ensures(send, (tool_name, sent), answer));
        assert(sends(send, tool_name@, sent@, came));
    }
    match answer {
        Ok(value) => {
            let ghost given = value@;
            let (kept, images) = lift_screenshots(tool_name, value, fetch);
            let r: Result<(Json, Vec<InlineImage>), String> = Ok((kept, images));
            proof {
                let shots = choose|shots: Seq<Option<ShotValue>>| #[trigger]
                    fetched(fetch, tool_name@, given, shots) && (kept@, images_of(images@))
                        == lifted(tool_name@, given, shots);
                assert(call_value(tool_name@, came, shots) == called(r));
            }
            r
        },
        Err(error) => {
            let r: Result<(Json, Vec<InlineImage>), String> = Err(error);
            proof {
                assert(call_value(tool_name@, came, Seq::empty()) == called(r));
            }
            r
        },
    }
}

/// Lifting screenshots out of an answer changes nothing else in it, and an
/// answer of any other tool is not changed at all.
pub proof fn lemma_only_screenshots_are_lifted(
    tool: Seq<char>,
    answer: JsonValue,
    shots: Seq<Option<ShotValue>>,
    key: Seq<char>,
)
    ensures
        tool != methods::TAKE_SCREENSHOT@ && tool != methods::BATCH@ ==> lifted(tool, answer, shots)
            == (answer, Seq::<ImageValue>::empty()),
        tool == methods::BATCH@ && key != "steps"@ ==> json::field(
            lifted(tool, answer, shots).0,
            key,
        ) == json::field(answer, key),
{
    lemma_the_two_differ();
    if tool == methods::BATCH@ {
        match json::field(answer, "steps"@) {
            Some(JsonValue::Array(steps)) => {
                json::lemma_set_then_get(
                    answer,
                    "steps"@,
                    JsonValue::Array(steps_lifted(steps, shots, steps.len() as int)),
                );
            },
            _ => {},
        }
    }
}

/// What stands in place of a screenshot tells its size, its format, its scale
/// and its element, and no longer names a file; its image is of that format.
pub proof fn lemma_what_stands_in_place_of_a_screenshot(shot: ShotValue)
    ensures
        ({
            let value = lifted_value(shot);
            &&& json::field(value, "width"@) == Some(
                JsonValue::Number(json::whole_number(shot.width as nat)),
            )
            &&& json::field(value, "height"@) == Some(
                JsonValue::Number(json::whole_number(shot.height as nat)),
            )
            &&& json::field_text(value, "format"@) == Some(shot.format)
            &&& json::field(value, "scale"@) == Some(shot.scale)
            &&& shot.element_id matches Some(id) ==> json::field_text(value, "element_id"@) == Some(
                id,
            )
            &&& shot.element_id is None ==> json::field(value, "element_id"@) == Some(
                JsonValue::Null,
            )
            &&& json::field(value, "path"@) is None
            &&& text::has_suffix(image_value(shot).mime_type, "/"@ + shot.format)
            &&& image_value(shot).mime_type.len() == 6 + shot.format.len()
            &&& image_value(shot).data == base64_text(shot.bytes)
        }),
{
    let fields = lifted_value(shot)->Object_0;
    reveal_strlit("width");
    reveal_strlit("height");
    reveal_strlit("format");
    reveal_strlit("scale");
    reveal_strlit("element_id");
    reveal_strlit("note");
    reveal_strlit("path");
    reveal_strlit("image/");
    reveal_strlit("/");
    assert("width"@[0] == 'w' && "height"@[0] == 'h' && "format"@[0] == 'f' && "scale"@[0] == 's'
        && "element_id"@[0] == 'e' && "note"@[0] == 'n' && "path"@[0] == 'p');
    json::lemma_field_at(fields, 0);
    json::lemma_field_at(fields, 1);
    json::lemma_field_at(fields, 2);
    json::lemma_field_at(fields, 3);
    json::lemma_field_at(fields, 4);
    json::lemma_no_such_field(fields, "path"@);
    let kind = "image/"@;
    assert(kind =~= kind.take(5) + "/"@);
    assert(kind + shot.format =~= kind.take(5) + ("/"@ + shot.format));
    text::lemma_ends_with(kind.take(5), "/"@ + shot.format);
}

/// Whether a step of a batch is a screenshot that was taken.
pub open spec fn took_one(step: JsonValue) -> bool {
    &&& json::field_text(step, "method"@) == Some("take_screenshot"@)
    &&& json::field(step, "ok"@) == Some(JsonValue::Bool(true))
    &&& json::field(step, "result"@) is Some
}

proof fn lemma_took_one(step: JsonValue)
    ensures
        shot_in(step) is Some <==> took_one(step),
        took_one(step) ==> shot_in(step) == json::field(step, "result"@),
{
}

proof fn lemma_each_step(steps: Seq<JsonValue>, shots: Seq<Option<ShotValue>>, n: int)
    requires
        0 <= n <= steps.len(),
    ensures
        steps_lifted(steps, shots, n).len() == n,
        forall|i: int|
            0 <= i < n ==> #[trigger] steps_lifted(steps, shots, n)[i] == step_lifted(
                steps[i],
                shots[i],
            ),
    decreases n,
{
    if n > 0 {
        lemma_each_step(steps, shots, n - 1);
    }
}

/// A batch keeps its steps, one for one. A step that took a screenshot which
/// could be fetched has its result replaced and nothing else; every other step
/// stays as it is.
pub proof fn lemma_what_becomes_of_a_batch(
    answer: JsonValue,
    steps: Seq<JsonValue>,
    shots: Seq<Option<ShotValue>>,
    i: int,
    key: Seq<char>,
)
    requires
        json::field(answer, "steps"@) == Some(JsonValue::Array(steps)),
        0 <= i < steps.len(),
    ensures
        json::field(lifted("batch"@, answer, shots).0, "steps"@) matches Some(
            JsonValue::Array(after),
        ) && {
            &&& after.len() == steps.len()
            &&& !took_one(steps[i]) || shots[i] is None ==> after[i] == steps[i]
            &&& took_one(steps[i]) && shots[i] is Some ==> json::field(after[i], "result"@) == Some(
                lifted_value(shots[i]->0),
            ) && (key != "result"@ ==> json::field(after[i], key) == json::field(steps[i], key))
        },
{
    lemma_the_two_differ();
    lemma_each_step(steps, shots, steps.len() as int);
    lemma_took_one(steps[i]);
    let all = steps_lifted(steps, shots, steps.len() as int);
    json::lemma_set_then_get(answer, "steps"@, JsonValue::Array(all));
    assert(all[i] == step_lifted(steps[i], shots[i]));
    if took_one(steps[i]) && shots[i] is Some {
        json::lemma_set_then_get(steps[i], "result"@, lifted_value(shots[i]->0));
    }
}

/// The images of a batch are those of the steps that took one which could be
/// fetched, in order.
pub proof fn lemma_the_images_of_a_batch(
    steps: Seq<JsonValue>,
    shots: Seq<Option<ShotValue>>,
    n: nat,
)
    requires
        n <= steps.len(),
    ensures
        step_images(steps, shots, n as int) == Seq::new(n, |i: int| i).filter(
            |i: int| took_one(steps[i]) && shots[i] is Some,
        ).map_values(|i: int| image_value(shots[i]->0)),
    decreases n,
{
    let all = Seq::new(n, |i: int| i);
    let has = |i: int| took_one(steps[i]) && shots[i] is Some;
    let image = |i: int| image_value(shots[i]->0);
    reveal(Seq::filter);
    if n > 0 {
        let k = (n - 1) as nat;
        lemma_the_images_of_a_batch(steps, shots, k);
        lemma_took_one(steps[n - 1]);
        let before = Seq::new(k, |i: int| i);
        assert(all.drop_last() =~= before);
        assert(all.last() == n - 1);
        if has(n - 1) {
            assert(all.filter(has) == before.filter(has).push(n - 1));
            assert(before.filter(has).push(n - 1).map_values(image) =~= before.filter(
                has,
            ).map_values(image).push(image(n - 1)));
        }
        assert(step_images(steps, shots, n as int) =~= all.filter(has).map_values(image));
    } else {
        assert(all.filter(has).map_values(image) =~= Seq::empty());
    }
}

/// A screenshot that could be fetched is answered with what stands in its place
/// and its one image; one that could not is answered as it is, with none.
pub proof fn lemma_what_becomes_of_a_screenshot(answer: JsonValue, shot: Option<ShotValue>)
    ensures
        shot matches Some(taken) ==> lifted("take_screenshot"@, answer, seq![shot]) == (
            lifted_value(taken),
            seq![image_value(taken)],
        ),
        shot is None ==> lifted("take_screenshot"@, answer, seq![shot]) == (
            answer,
            Seq::<ImageValue>::empty(),
        ),
        wanted_in("take_screenshot"@, answer) == seq![answer],
{
    let places = shots_in("take_screenshot"@, answer);
    assert(places.len() == 1);
    assert(wanted(places, 0) =~= Seq::empty());
    assert(wanted(places, 1) =~= seq![answer]);
}

/// The screenshots that are fetched for a batch are the results of the steps
/// that took one, in order; no other tool has any fetched.
pub proof fn lemma_what_is_fetched(
    tool: Seq<char>,
    answer: JsonValue,
    steps: Seq<JsonValue>,
    n: nat,
)
    requires
        n <= steps.len(),
    ensures
        wanted(Seq::new(steps.len(), |i: int| shot_in(steps[i])), n as int) == Seq::new(
            n,
            |i: int| i,
        ).filter(|i: int| took_one(steps[i])).map_values(
            |i: int| json::field(steps[i], "result"@)->0,
        ),
        json::field(answer, "steps"@) == Some(JsonValue::Array(steps)) ==> wanted_in(
            "batch"@,
            answer,
        ) == wanted(Seq::new(steps.len(), |i: int| shot_in(steps[i])), steps.len() as int),
        tool != "take_screenshot"@ && tool != "batch"@ ==> wanted_in(tool, answer).len() == 0,
    decreases n,
{
    lemma_the_two_differ();
    let places = Seq::new(steps.len(), |i: int| shot_in(steps[i]));
    let all = Seq::new(n, |i: int| i);
    let has = |i: int| took_one(steps[i]);
    let result = |i: int| json::field(steps[i], "result"@)->0;
    reveal(Seq::filter);
    if n > 0 {
        let k = (n - 1) as nat;
        lemma_what_is_fetched(tool, answer, steps, k);
        lemma_took_one(steps[n - 1]);
        let before = Seq::new(k, |i: int| i);
        assert(all.drop_last() =~= before);
        assert(all.last() == n - 1);
        assert(places[n - 1] == shot_in(steps[n - 1]));
        if has(n - 1) {
            assert(all.filter(has) == before.filter(has).push(n - 1));
            assert(before.filter(has).push(n - 1).map_values(result) =~= before.filter(
                has,
            ).map_values(result).push(result(n - 1)));
        }
        assert(wanted(places, n as int) =~= all.filter(has).map_values(result));
    } else {
        assert(all.filter(has).map_values(result) =~= Seq::empty());
    }
}

/// An error of the app is the error of the call.
pub proof fn lemma_an_error_is_passed_on(
    tool: Seq<char>,
    error: Seq<char>,
    shots: Seq<Option<ShotValue>>,
)
    ensures
        call_value(tool, Err(error), shots) == Err::<(JsonValue, Seq<ImageValue>), Seq<char>>(error),
{
}

/// The six bits that a character of base64 writes.
pub open spec fn six_bits(c: char) -> int {
    if 'A' <= c <= 'Z' {
        c as int - 'A' as int
    } else if 'a' <= c <= 'z' {
        c as int - 'a' as int + 26
    } else if '0' <= c <= '9' {
        c as int - '0' as int + 52
    } else if c == '+' {
        62
    } else {
        63
    }
}

/// The bytes that a text in base64 writes.
pub open spec fn from_base64(s: Seq<char>) -> Seq<u8>
    decreases s.len(),
{
    if s.len() < 4 {
        Seq::empty()
    } else {
        let bits = six_bits(s[0]) * 0x40000 + six_bits(s[1]) * 0x1000 + six_bits(s[2]) * 0x40
            + six_bits(s[3]);
        if s[2] == '=' {
            seq![(six_bits(s[0]) * 4 + six_bits(s[1]) / 16) as u8]
        } else if s[3] == '=' {
            seq![
                (six_bits(s[0]) * 4 + six_bits(s[1]) / 16) as u8,
                (six_bits(s[1]) % 16 * 16 + six_bits(s[2]) / 4) as u8,
            ]
        } else {
            seq![(bits / 0x10000) as u8, (bits / 0x100 % 0x100) as u8, (bits % 0x100) as u8]
                + from_base64(s.skip(4))
        }
    }
}

proof fn lemma_six_bits(n: int)
    requires
        0 <= n < 64,
    ensures
        six_bits(base64_char(n)) == n,
        base64_char(n) != '=',
{
}

proof fn lemma_three_bytes(a: int, b: int, c: int)
    requires
        0 <= a < 256,
        0 <= b < 256,
        0 <= c < 256,
    ensures
        ({
            let p = a / 4;
            let q = (a % 4) * 16 + b / 16;
            let r = (b % 16) * 4 + c / 64;
            let s = c % 64;
            let bits = p * 0x40000 + q * 0x1000 + r * 0x40 + s;
            &&& 0 <= p < 64 && 0 <= q < 64 && 0 <= r < 64 && 0 <= s < 64
            &&& bits / 0x10000 == a
            &&& bits / 0x100 % 0x100 == b
            &&& bits % 0x100 == c
            &&& p * 4 + q / 16 == a
            &&& q % 16 * 16 + r / 4 == b
        }),
{
    let p = a / 4;
    let x = a % 4;
    let y = b / 16;
    let z = b % 16;
    let u = c / 64;
    let v = c % 64;
    assert(a == 4 * p + x && 0 <= x < 4 && 0 <= p < 64);
    assert(b == 16 * y + z && 0 <= z < 16 && 0 <= y < 16);
    assert(c == 64 * u + v && 0 <= v < 64 && 0 <= u < 4);
    let bits = p * 0x40000 + (x * 16 + y) * 0x1000 + (z * 4 + u) * 0x40 + v;
    assert(bits == a * 0x10000 + b * 0x100 + c);
    lemma_bytes_in_order(a, b, c);
    lemma_high_and_low(x, y, 16);
    lemma_high_and_low(z, u, 4);
}

proof fn lemma_bytes_in_order(a: int, b: int, c: int)
    requires
        0 <= a < 256,
        0 <= b < 256,
        0 <= c < 256,
    ensures
        (a * 0x10000 + b * 0x100 + c) / 0x10000 == a,
        (a * 0x10000 + b * 0x100 + c) / 0x100 % 0x100 == b,
        (a * 0x10000 + b * 0x100 + c) % 0x100 == c,
{
    let bits = a * 0x10000 + b * 0x100 + c;
    lemma_high_and_low(a, b * 0x100 + c, 0x10000);
    lemma_high_and_low(a * 0x100 + b, c, 0x100);
    lemma_high_and_low(a, b, 0x100);
    assert(bits == (a * 0x100 + b) * 0x100 + c);
}

proof fn lemma_high_and_low(high: int, low: int, base: int)
    requires
        0 <= low < base,
    ensures
        (high * base + low) / base == high,
        (high * base + low) % base == low,
{
    vstd::arithmetic::div_mod::lemma_fundamental_div_mod_converse(
        high * base + low,
        base,
        high,
        low,
    );
}

proof fn lemma_last_bytes(a: int, b: int)
    requires
        0 <= a < 256,
        0 <= b < 256,
    ensures
        0 <= a / 4 < 64,
        0 <= (a % 4) * 16 < 64,
        (a / 4) * 4 + ((a % 4) * 16) / 16 == a,
        0 <= (a % 4) * 16 + b / 16 < 64,
        0 <= (b % 16) * 4 < 64,
        (a / 4) * 4 + ((a % 4) * 16 + b / 16) / 16 == a,
        ((a % 4) * 16 + b / 16) % 16 * 16 + ((b % 16) * 4) / 4 == b,
{
}

/// An image in base64 reads back as its bytes.
#[verifier::spinoff_prover]
pub proof fn lemma_base64_round_trip(bytes: Seq<u8>)
    ensures
        from_base64(base64_text(bytes)) == bytes,
        base64_text(bytes).len() == (bytes.len() + 2) / 3 * 4,
    decreases bytes.len(),
{
    let n = bytes.len();
    let s = base64_text(bytes);
    let a = bytes[0] as int;
    let b = bytes[1] as int;
    let c = bytes[2] as int;
    if n == 0 {
        assert(s =~= Seq::empty());
        assert(from_base64(s) =~= bytes);
    } else if n == 1 {
        lemma_last_bytes(a, 0);
        lemma_six_bits(a / 4);
        lemma_six_bits((a % 4) * 16);
        assert(s.len() == 4);
        assert(from_base64(s) =~= seq![a as u8]);
        assert(from_base64(s) =~= bytes);
    } else if n == 2 {
        lemma_last_bytes(a, b);
        lemma_six_bits(a / 4);
        lemma_six_bits((a % 4) * 16 + b / 16);
        lemma_six_bits((b % 16) * 4);
        assert(s.len() == 4);
        assert(from_base64(s) =~= seq![a as u8, b as u8]);
        assert(from_base64(s) =~= bytes);
    } else {
        let rest = bytes.skip(3);
        lemma_three_bytes(a, b, c);
        lemma_six_bits(a / 4);
        lemma_six_bits((a % 4) * 16 + b / 16);
        lemma_six_bits((b % 16) * 4 + c / 64);
        lemma_six_bits(c % 64);
        lemma_base64_round_trip(rest);
        assert(s.len() == 4 + base64_text(rest).len());
        assert(s.skip(4) =~= base64_text(rest));
        assert(from_base64(s) =~= seq![a as u8, b as u8, c as u8] + rest);
        assert(from_base64(s) =~= bytes);
    }
}

/// What came back for a screenshot came back for what the answer says of it:
/// the answer itself, or the result of the step of the batch that took it.
pub proof fn lemma_what_was_fetched<R: FnMut(&Json) -> Option<Screenshot>>(
    fetch: R,
    answer: JsonValue,
    steps: Seq<JsonValue>,
    shots: Seq<Option<ShotValue>>,
    i: int,
)
    ensures
        fetched(fetch, "take_screenshot"@, answer, shots) ==> exists|
            j: &Json,
            s: Option<Screenshot>,
        |
            #[trigger] call_ensures(fetch, (j,), s) && j@ == answer && shot_of(s) == shots[0],
        json::field(answer, "steps"@) == Some(JsonValue::Array(steps)) && 0 <= i < steps.len()
            && took_one(steps[i]) && fetched(fetch, "batch"@, answer, shots) ==> exists|
            j: &Json,
            s: Option<Screenshot>,
        | #[trigger]
            call_ensures(fetch, (j,), s) && Some(j@) == json::field(steps[i], "result"@) && shot_of(
                s,
            ) == shots[i],
{
    lemma_the_two_differ();
    if fetched(fetch, "take_screenshot"@, answer, shots) {
        assert(shots_in("take_screenshot"@, answer)[0] == Some(answer));
        assert(gives(fetch, answer, shots[0]));
    }
    if json::field(answer, "steps"@) == Some(JsonValue::Array(steps)) && 0 <= i < steps.len()
        && took_one(steps[i]) && fetched(fetch, "batch"@, answer, shots) {
        lemma_took_one(steps[i]);
        assert(shots_in("batch"@, answer)[i] == shot_in(steps[i]));
        assert(gives(fetch, json::field(steps[i], "result"@)->0, shots[i]));
    }
}

/// What a tool call comes to came back from a call of that very tool with those
/// very arguments.
pub proof fn lemma_what_was_sent<S: FnOnce(&str, Json) -> Result<Json, String>>(
    send: S,
    method: Seq<char>,
    params: JsonValue,
    answer: Result<JsonValue, Seq<char>>,
)
    requires
        sends(send, method, params, answer),
    ensures
        exists|m: &str, p: Json, a: Result<Json, String>|
            {
                &&& #[trigger] call_ensures(send, (m, p), a)
                &&& m@ == method
                &&& p@ == params
                &&& a matches Ok(value) ==> answer == Ok::<JsonValue, Seq<char>>(value@)
                &&& a matches Err(error) ==> answer == Err::<JsonValue, Seq<char>>(error@)
            },
{
}

} // verus!
