//! One exchange with the app: the request that is sent, and what its answer
//! comes to.
use vstd::prelude::*;
use vstd::string::*;

use crate::guide;
use crate::json::{Json, JsonValue};
use crate::protocol;
use crate::protocol::{IpcRequest, IpcResponse};
use crate::text;

verus! {

/// A lower-case hexadecimal digit.
pub open spec fn hex(c: char) -> bool {
    '0' <= c <= '9' || 'a' <= c <= 'f'
}

/// A random id in its usual form: hexadecimal digits in groups of eight, four,
/// four, four and twelve, with dashes between them, a `4` at the start of the
/// third group and one of `8`, `9`, `a` and `b` at the start of the fourth.
pub open spec fn random_id(s: Seq<char>) -> bool {
    &&& s.len() == 36
    &&& forall|i: int|
        0 <= i < 36 ==> if i == 8 || i == 13 || i == 18 || i == 23 {
            #[trigger] s[i] == '-'
        } else {
            hex(s[i])
        }
    &&& s[14] == '4'
    &&& s[19] == '8' || s[19] == '9' || s[19] == 'a' || s[19] == 'b'
}

/// `uuid::Uuid::new_v4`, as text. Which id comes is left to chance, of which the
/// operating system has to provide some; every one has the form of a random
/// id.
#[verifier::external_body]
fn fresh_id() -> (r: String)
    ensures
        random_id(r@),
{
    uuid::Uuid::new_v4().to_string()
}

/// The request that asks the app for `method`, under an id of its own.
pub fn request_for(method: &str, params: Json) -> (r: IpcRequest)
    ensures
        random_id(r.id@),
        r.method@ == method@,
        r.params == params,
        r.protocol_version == protocol::PROTOCOL_VERSION,
{
    IpcRequest::new(fresh_id(), method.to_owned(), params)
}

/// Whether a line that came back holds an answer at all.
pub open spec fn answers(line: Seq<char>) -> bool {
    text::trimmed(line).len() > 0
}

/// Check that a line that came back holds an answer.
pub fn check_line(line: &str) -> (r: Result<(), String>)
    ensures
        r is Ok <==> answers(line@),
        r matches Err(message) ==> message@
            == "GPUI app closed the connection without a response"@,
{
    if text::trim(line).unicode_len() == 0 {
        Err("GPUI app closed the connection without a response".to_owned())
    } else {
        Ok(())
    }
}

pub const REBUILD_APP: &'static str = "rebuild the app (for Elane: `cargo xtask run`); if the app is current, rebuild this server with `cargo build --release` inside the gpui-mcp checkout";

/// What an answer comes to: an app of another version is an error before
/// anything it says, and an error of the app is said to be one.
pub open spec fn settled(version: u32, result: Result<JsonValue, Seq<char>>) -> Result<
    JsonValue,
    Seq<char>,
> {
    if version != protocol::PROTOCOL_VERSION {
        Err(protocol::complaint_text(version, "GPUI app"@, REBUILD_APP@))
    } else {
        match result {
            Ok(value) => Ok(value),
            Err(error) => Err("GPUI app error: "@ + error),
        }
    }
}

/// What the app's answer comes to.
///
/// The app is the half that gets rebuilt by a normal build, so a disagreement
/// here almost always means *this* binary is the stale one — but the app's
/// remedy is named too, since only its owner knows which.
pub fn settle_response(response: IpcResponse) -> (r: Result<Json, String>)
    ensures
        guide::result_of(r) == settled(
            response.protocol_version,
            guide::result_of(response.result),
        ),
{
    match protocol::version_complaint(response.protocol_version, "GPUI app", REBUILD_APP) {
        Some(complaint) => Err(complaint),
        None => match response.result {
            Ok(value) => Ok(value),
            Err(error) => Err("GPUI app error: ".to_owned().concat(error.as_str())),
        },
    }
}

/// An answer is taken exactly where the app speaks the same version and
/// answered with a value, and then as it is; an error of the app is told in its
/// own words, and another version in those of the version complaint.
pub proof fn lemma_which_answers_are_taken(version: u32, result: Result<JsonValue, Seq<char>>)
    ensures
        settled(version, result) is Ok <==> version == 2 && result is Ok,
        settled(version, result) is Ok ==> settled(version, result) == result,
        version == 2 ==> (result matches Err(error) ==> text::has_suffix(
            settled(version, result)->Err_0,
            error,
        )),
        version != 2 ==> text::has_prefix(
            settled(version, result)->Err_0,
            "gpui-mcp protocol mismatch: the GPUI app "@,
        ) && text::has_suffix(settled(version, result)->Err_0, "Rebuild the GPUI app: "@ + REBUILD_APP@),
{
    if version != 2 {
        protocol::lemma_what_a_complaint_says(version, "GPUI app"@, REBUILD_APP@);
        reveal_strlit("gpui-mcp protocol mismatch: the ");
        reveal_strlit("GPUI app");
        reveal_strlit(" ");
        reveal_strlit("gpui-mcp protocol mismatch: the GPUI app ");
        reveal_strlit("Rebuild the ");
        reveal_strlit(": ");
        reveal_strlit("Rebuild the GPUI app: ");
        assert("gpui-mcp protocol mismatch: the "@ + "GPUI app"@ + " "@
            =~= "gpui-mcp protocol mismatch: the GPUI app "@);
        assert("Rebuild the "@ + "GPUI app"@ + ": "@ =~= "Rebuild the GPUI app: "@);
    } else if let Err(error) = result {
        text::lemma_ends_with("GPUI app error: "@, error);
    }
}

/// A line holds an answer exactly where it holds anything but white space.
pub proof fn lemma_which_lines_hold_an_answer(before: Seq<char>, core: Seq<char>, behind: Seq<char>)
    requires
        text::all_white(before),
        text::all_white(behind),
        core.len() > 0 ==> !text::white(core[0]) && !text::white(core[core.len() - 1]),
    ensures
        answers(before + core + behind) <==> core.len() > 0,
{
    text::lemma_trimmed_is(before, core, behind);
}

} // verus!
