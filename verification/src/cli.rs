//! The command-line side.
//!
//! Replaying without an agent is what makes a recording usable in CI: the same
//! file an agent produced by exploring becomes a test that costs no model
//! tokens to run.
use vstd::prelude::*;
use vstd::string::*;

use crate::replay;
use crate::replay::{OutcomeValue, ReplayOptions, Report, ReportValue, ViewportOutcomeValue};
use crate::script::{Script, ScriptValue, StepValue};
use crate::text;

verus! {

/// What this binary prints when asked, and when told something it does not
/// understand.
pub const USAGE: &'static str = "gpui-mcp-server — an MCP server for inspecting and driving a running GPUI app.

  gpui-mcp-server                       speak MCP on stdin/stdout (what an
                                        agent launches; the usual case)
  gpui-mcp-server replay <script.json>  replay a recorded script and report
      --seek                            skip the read-only steps: reach the
                                        state, do not test the way there
      --keep-going                      do not stop at the first failure
  gpui-mcp-server --help

Environment:
  GPUI_MCP_APP      restrict discovery to one app name
  GPUI_MCP_PID      with GPUI_MCP_APP: one exact instance, no discovery
  GPUI_MCP_RECORD   write every successful tool call to this script file
";

/// What the command line asks for.
#[derive(Debug)]
pub enum Command {
    /// Print the usage.
    Help,
    /// Replay this script.
    Replay { path: String, options: ReplayOptions },
    /// A replay that cannot be made, and why.
    BadReplay(String),
    /// No command of this program: print this, and the usage.
    Unknown(String),
}

/// What a [`Command`] holds.
pub enum CommandValue {
    Help,
    Replay { path: Seq<char>, options: ReplayOptions },
    BadReplay(Seq<char>),
    Unknown(Seq<char>),
}

impl View for Command {
    type V = CommandValue;

    open spec fn view(&self) -> CommandValue {
        match *self {
            Command::Help => CommandValue::Help,
            Command::Replay { path, options } => CommandValue::Replay { path: path@, options },
            Command::BadReplay(message) => CommandValue::BadReplay(message@),
            Command::Unknown(message) => CommandValue::Unknown(message@),
        }
    }
}

/// What the first `n` arguments of a replay say: the last path among them, and
/// the options; or the first option that is none.
pub open spec fn replay_line(arguments: Seq<Seq<char>>, n: int) -> Result<
    (Option<Seq<char>>, ReplayOptions),
    Seq<char>,
>
    decreases n,
{
    if n <= 0 {
        Ok((None, ReplayOptions { seek: false, stop_on_error: true }))
    } else {
        let argument = arguments[n - 1];
        match replay_line(arguments, n - 1) {
            Err(message) => Err(message),
            Ok((path, options)) => if argument == "--seek"@ {
                Ok((path, ReplayOptions { seek: true, ..options }))
            } else if argument == "--keep-going"@ {
                Ok((path, ReplayOptions { stop_on_error: false, ..options }))
            } else if argument.len() > 0 && argument[0] == '-' {
                Err("Unknown option for replay: "@ + argument)
            } else {
                Ok((Some(argument), options))
            },
        }
    }
}

/// What a replay is asked for.
pub open spec fn replay_command(arguments: Seq<Seq<char>>) -> CommandValue {
    match replay_line(arguments, arguments.len() as int) {
        Err(message) => CommandValue::BadReplay(message),
        Ok((Some(path), options)) => CommandValue::Replay { path, options },
        Ok((None, _)) => CommandValue::BadReplay("replay needs a script file"@),
    }
}

/// What the command line asks for.
pub open spec fn command(arguments: Seq<Seq<char>>) -> CommandValue {
    let first = arguments[0];
    if first == "--help"@ || first == "-h"@ || first == "help"@ {
        CommandValue::Help
    } else if first == "replay"@ {
        replay_command(arguments.skip(1))
    } else {
        CommandValue::Unknown("Unknown command: "@ + first + "\n"@)
    }
}

fn begins_with_dash(s: &str) -> (r: bool)
    ensures
        r == (s@.len() > 0 && s@[0] == '-'),
{
    s.unicode_len() > 0 && s.get_char(0) == '-'
}

fn parse_replay(arguments: &Vec<String>) -> (r: Command)
    requires
        arguments@.len() > 0,
    ensures
        r@ == replay_command(text::owned_texts(arguments@).skip(1)),
{
    let ghost rest = text::owned_texts(arguments@).skip(1);
    let mut path: Option<String> = None;
    let mut options: ReplayOptions = ReplayOptions { seek: false, stop_on_error: true };
    let mut i: usize = 1;
    while i < arguments.len()
        invariant
            1 <= i <= arguments@.len(),
            rest == text::owned_texts(arguments@).skip(1),
            replay_line(rest, i - 1) == Ok::<_, Seq<char>>((text::maybe_owned(path), options)),
        decreases arguments@.len() - i,
    {
        let argument: &str = arguments[i].as_str();
        proof {
            assert(rest[i - 1] == argument@);
        }
        if text::same_text(argument, "--seek") {
            options.seek = true;
        } else if text::same_text(argument, "--keep-going") {
            options.stop_on_error = false;
        } else if begins_with_dash(argument) {
            let message: String = "Unknown option for replay: ".to_owned().concat(argument);
            proof {
                lemma_an_error_stays(rest, i as int, rest.len() as int);
            }
            return Command::BadReplay(message);
        } else {
            path = Some(argument.to_owned());
        }
        i += 1;
    }
    match path {
        Some(path) => Command::Replay { path, options },
        None => Command::BadReplay("replay needs a script file".to_owned()),
    }
}

proof fn lemma_an_error_stays(arguments: Seq<Seq<char>>, n: int, m: int)
    requires
        0 <= n <= m,
        replay_line(arguments, n) is Err,
    ensures
        replay_line(arguments, m) == replay_line(arguments, n),
    decreases m - n,
{
    if n < m {
        lemma_an_error_stays(arguments, n, m - 1);
    }
}

/// Read the command line: the arguments after the program's name, of which
/// there is at least one.
pub fn parse_command(arguments: &Vec<String>) -> (r: Command)
    requires
        arguments@.len() > 0,
    ensures
        r@ == command(text::owned_texts(arguments@)),
{
    let first: &str = arguments[0].as_str();
    proof {
        assert(text::owned_texts(arguments@)[0] == first@);
    }
    if text::same_text(first, "--help") || text::same_text(first, "-h") || text::same_text(
        first,
        "help",
    ) {
        Command::Help
    } else if text::same_text(first, "replay") {
        parse_replay(arguments)
    } else {
        let mut message: String = "Unknown command: ".to_owned();
        message.append(first);
        message.append("\n");
        Command::Unknown(message)
    }
}

/// One line of a listing.
pub open spec fn listing_line(
    number: nat,
    status: Seq<char>,
    what: Seq<char>,
    detail: Option<Seq<char>>,
) -> Seq<char> {
    text::right_aligned(text::decimal_of(number), 3) + "  "@ + text::left_aligned(status, 7) + "  "@
        + what + (match detail {
        Some(detail) => " — "@ + detail,
        None => ""@,
    })
}

fn line(number: u64, status: &str, what: &str, detail: Option<&str>) -> (r: String)
    ensures
        r@ == listing_line(number as nat, status@, what@, text::maybe(detail)),
{
    let mut end: String = "".to_owned();
    if let Some(detail) = detail {
        end = " — ".to_owned();
        end.append(detail);
    }
    let mut out: String = text::align_right(text::decimal(number).as_str(), 3);
    out.append("  ");
    out.append(text::align_left(status, 7).as_str());
    out.append("  ");
    out.append(what);
    out.append(end.as_str());
    out
}

/// Line 0: the viewport, where the script has one.
pub open spec fn header_lines(viewport: Option<ViewportOutcomeValue>) -> Seq<Seq<char>> {
    match viewport {
        Some(outcome) => seq![
            listing_line(
                0,
                outcome.status,
                "viewport "@ + outcome.requested.width.plain + "x"@
                    + outcome.requested.height.plain,
                outcome.detail,
            ),
        ],
        None => Seq::empty(),
    }
}

/// The lines of the first `n` steps that were reached.
pub open spec fn outcome_lines(steps: Seq<OutcomeValue>, n: int) -> Seq<Seq<char>>
    decreases n,
{
    if n <= 0 {
        Seq::empty()
    } else {
        let step = steps[n - 1];
        outcome_lines(steps, n - 1).push(
            listing_line(step.index + 1, step.status, step.method, step.detail),
        )
    }
}

/// The lines of the first `n` steps of a script that a failed header stopped:
/// every one skipped.
pub open spec fn skipped_lines(steps: Seq<StepValue>, n: int) -> Seq<Seq<char>>
    decreases n,
{
    if n <= 0 {
        Seq::empty()
    } else {
        skipped_lines(steps, n - 1).push(
            listing_line(n as nat, replay::SKIPPED@, steps[n - 1].method, None),
        )
    }
}

/// Whether applying the viewport failed.
pub open spec fn header_failed(report: ReportValue) -> bool {
    report.viewport is Some && report.viewport->0.status == replay::FAILED@
}

/// The last line: the counts.
pub open spec fn summary(name: Seq<char>, report: ReportValue) -> Seq<char> {
    name + ": "@ + text::decimal_of(report.passed) + " passed, "@ + text::decimal_of(report.failed)
        + " failed, "@ + text::decimal_of(report.skipped) + " skipped, of "@ + text::decimal_of(
        report.of,
    )
}

/// What a replay prints: line 0 for the viewport, a line for each step, an
/// empty line and the counts.
pub open spec fn listing(script: ScriptValue, report: ReportValue) -> Seq<Seq<char>> {
    (header_lines(report.viewport) + (if header_failed(report) {
        skipped_lines(script.steps, script.steps.len() as int)
    } else {
        outcome_lines(report.steps, report.steps.len() as int)
    })).push(""@).push(summary(script.name, report))
}

fn as_slice(s: &Option<String>) -> (r: Option<&str>)
    ensures
        text::maybe(r) == text::maybe_owned(*s),
{
    match s {
        Some(s) => Some(s.as_str()),
        None => None,
    }
}

/// What a replay prints.
///
/// Line 0 is the script's viewport header, applied before the first step. When
/// it could not be, the run stopped there, every step reads `skipped`, and
/// line 0 says why.
pub fn report_lines(script: &Script, report: &Report) -> (r: Vec<String>)
    requires
        forall|i: int|
            0 <= i < report.steps@.len() ==> (#[trigger] report.steps@[i]).index < usize::MAX,
    ensures
        text::owned_texts(r@) == listing(script@, report@),
{
    let mut out: Vec<String> = Vec::new();
    let mut failed: bool = false;
    proof {
        assert(text::owned_texts(out@) =~= Seq::empty());
    }
    if let Some(outcome) = &report.viewport {
        let mut what: String = "viewport ".to_owned();
        what.append(outcome.requested.width.plain.as_str());
        what.append("x");
        what.append(outcome.requested.height.plain.as_str());
        let first: String = line(0, outcome.status, what.as_str(), as_slice(&outcome.detail));
        let ghost said = first@;
        out.push(first);
        failed = text::same_text(outcome.status, replay::FAILED);
        proof {
            assert(text::owned_texts(out@) =~= seq![said]);
        }
    }
    let ghost head = header_lines(report@.viewport);
    proof {
        assert(text::owned_texts(out@) == head);
        assert(failed == header_failed(report@));
        assert(head + Seq::<Seq<char>>::empty() =~= head);
    }
    let mut i: usize = 0;
    if failed {
        while i < script.steps.len()
            invariant
                i <= script.steps@.len(),
                text::owned_texts(out@) == head + skipped_lines(script@.steps, i as int),
            decreases script.steps@.len() - i,
        {
            let ghost before = text::owned_texts(out@);
            let number: u64 = i as u64 + 1;
            let step_line: String = line(
                number,
                replay::SKIPPED,
                script.steps[i].method.as_str(),
                None,
            );
            let ghost said = step_line@;
            out.push(step_line);
            proof {
                assert(script@.steps[i as int] == script.steps@[i as int]@);
                assert(text::owned_texts(out@) =~= before.push(said));
                assert(text::owned_texts(out@) =~= head + skipped_lines(script@.steps, i + 1));
            }
            i += 1;
        }
    } else {
        while i < report.steps.len()
            invariant
                i <= report.steps@.len(),
                forall|k: int|
                    0 <= k < report.steps@.len() ==> (#[trigger] report.steps@[k]).index
                        < usize::MAX,
                text::owned_texts(out@) == head + outcome_lines(report@.steps, i as int),
            decreases report.steps@.len() - i,
        {
            let ghost before = text::owned_texts(out@);
            let number: u64 = report.steps[i].index as u64 + 1;
            let step_line: String = line(
                number,
                report.steps[i].status,
                report.steps[i].method.as_str(),
                as_slice(&report.steps[i].detail),
            );
            let ghost said = step_line@;
            out.push(step_line);
            proof {
                assert(report@.steps[i as int] == report.steps@[i as int]@);
                assert(text::owned_texts(out@) =~= before.push(said));
                assert(text::owned_texts(out@) =~= head + outcome_lines(report@.steps, i + 1));
            }
            i += 1;
        }
    }
    let ghost body = text::owned_texts(out@);
    out.push("".to_owned());
    let mut counts: String = script.name.clone();
    counts.append(": ");
    counts.append(text::decimal(report.passed as u64).as_str());
    counts.append(" passed, ");
    counts.append(text::decimal(report.failed as u64).as_str());
    counts.append(" failed, ");
    counts.append(text::decimal(report.skipped as u64).as_str());
    counts.append(" skipped, of ");
    counts.append(text::decimal(report.of as u64).as_str());
    let ghost said = counts@;
    out.push(counts);
    proof {
        assert(text::owned_texts(out@) =~= body.push(""@).push(said));
    }
    out
}

/// The exit code of a replay: zero where nothing failed.
pub fn exit_code(report: &Report) -> (r: i32)
    ensures
        r == (if report@.ok {
            0i32
        } else {
            1i32
        }),
{
    if report.ok {
        0
    } else {
        1
    }
}

/// Whether an argument is an option.
pub open spec fn dashed(argument: Seq<char>) -> bool {
    argument.len() > 0 && argument[0] == '-'
}

proof fn lemma_options()
    ensures
        dashed("--seek"@),
        dashed("--keep-going"@),
        "--seek"@ != "--keep-going"@,
{
    reveal_strlit("--seek");
    reveal_strlit("--keep-going");
    assert("--seek"@.len() == 6 && "--keep-going"@.len() == 12);
    assert("--seek"@[0] == '-' && "--keep-going"@[0] == '-');
}

proof fn lemma_replay_line(arguments: Seq<Seq<char>>, n: int)
    requires
        0 <= n <= arguments.len(),
    ensures
        ({
            let known = forall|i: int|
                0 <= i < n && dashed(#[trigger] arguments[i]) ==> arguments[i] == "--seek"@
                    || arguments[i] == "--keep-going"@;
            &&& replay_line(arguments, n) is Ok <==> known
            &&& replay_line(arguments, n) matches Ok((path, options)) ==> {
                &&& options.seek <==> exists|i: int|
                    0 <= i < n && #[trigger] arguments[i] == "--seek"@
                &&& !options.stop_on_error <==> exists|i: int|
                    0 <= i < n && #[trigger] arguments[i] == "--keep-going"@
                &&& path is None <==> forall|i: int| 0 <= i < n ==> dashed(#[trigger] arguments[i])
                &&& path matches Some(named) ==> exists|i: int|
                    0 <= i < n && #[trigger] arguments[i] == named && !dashed(named) && forall|j:
                        int| i < j < n ==> dashed(#[trigger] arguments[j])
            }
        }),
    decreases n,
{
    lemma_options();
    if n > 0 {
        lemma_replay_line(arguments, n - 1);
        let last = arguments[n - 1];
        if let Ok((path, options)) = replay_line(arguments, n - 1) {
            if !dashed(last) {
                assert(arguments[n - 1] == last);
            } else if let Some(named) = path {
                let i = choose|i: int|
                    0 <= i < n - 1 && #[trigger] arguments[i] == named && !dashed(named) && forall|j:
                        int| i < j < n - 1 ==> dashed(#[trigger] arguments[j]);
                assert(arguments[i] == named);
                assert forall|j: int| i < j < n implies dashed(#[trigger] arguments[j]) by {
                    if j == n - 1 {
                        assert(arguments[j] == last);
                    }
                }
            }
        }
    }
}

/// A replay is asked for with the options that stand among its arguments, in
/// any order, and with the last of them that is no option as its script. It is
/// refused exactly where an option is unknown or no script is named.
pub proof fn lemma_what_a_replay_is_asked_for(arguments: Seq<Seq<char>>)
    ensures
        ({
            let known = forall|i: int|
                0 <= i < arguments.len() && dashed(#[trigger] arguments[i]) ==> arguments[i]
                    == "--seek"@ || arguments[i] == "--keep-going"@;
            let named = exists|i: int| 0 <= i < arguments.len() && !dashed(#[trigger] arguments[i]);
            let asked = replay_command(arguments);
            &&& asked is Replay <==> known && named
            &&& !(asked is Replay) ==> asked is BadReplay
            &&& asked matches CommandValue::Replay { path, options } ==> {
                &&& options.seek <==> arguments.contains("--seek"@)
                &&& options.stop_on_error <==> !arguments.contains("--keep-going"@)
                &&& exists|i: int|
                    0 <= i < arguments.len() && #[trigger] arguments[i] == path && !dashed(path)
                        && forall|j: int|
                        i < j < arguments.len() ==> dashed(#[trigger] arguments[j])
            }
        }),
{
    lemma_replay_line(arguments, arguments.len() as int);
}

/// The first argument is the command: help in one of three spellings, a replay
/// with the arguments behind it, or nothing that is known, which is named.
pub proof fn lemma_what_the_command_line_asks_for(first: Seq<char>, rest: Seq<Seq<char>>)
    ensures
        ({
            let asked = command(seq![first] + rest);
            let help = first == "--help"@ || first == "-h"@ || first == "help"@;
            &&& asked is Help <==> help
            &&& first == "replay"@ ==> asked == replay_command(rest)
            &&& asked is Unknown <==> !help && first != "replay"@
            &&& asked matches CommandValue::Unknown(message) ==> text::mentions(message, first)
        }),
{
    reveal_strlit("--help");
    reveal_strlit("-h");
    reveal_strlit("help");
    reveal_strlit("replay");
    assert("--help"@[0] == '-' && "-h"@[0] == '-' && "help"@[0] == 'h' && "replay"@[0] == 'r');
    let arguments = seq![first] + rest;
    assert(arguments[0] == first);
    assert(arguments.skip(1) =~= rest);
    text::lemma_mentions("Unknown command: "@, first, "\n"@);
    lemma_what_a_replay_is_asked_for(rest);
}

/// A line of a listing: the number in the first three columns, the status in
/// its own seven, then what it is about, and what there is to say behind that.
pub proof fn lemma_a_line_of_the_listing(
    number: nat,
    status: Seq<char>,
    what: Seq<char>,
    detail: Option<Seq<char>>,
)
    requires
        number < 1000,
        status.len() <= 7,
    ensures
        ({
            let line = listing_line(number, status, what, detail);
            &&& line.take(3) == text::right_aligned(text::decimal_of(number), 3)
            &&& line.subrange(5, 12) == text::left_aligned(status, 7)
            &&& line.subrange(14, 14 + what.len() as int) == what
            &&& detail is None ==> line.len() == 14 + what.len()
            &&& detail matches Some(said) ==> text::has_suffix(line, said) && line.len() == 14
                + what.len() + 3 + said.len()
        }),
{
    reveal_strlit("  ");
    reveal_strlit(" — ");
    reveal_strlit("");
    let line = listing_line(number, status, what, detail);
    let digits = text::decimal_of(number);
    lemma_few_digits(number);
    text::lemma_aligned(digits, 3);
    text::lemma_aligned(status, 7);
    let a = text::right_aligned(digits, 3);
    let b = text::left_aligned(status, 7);
    let end = match detail {
        Some(detail) => " — "@ + detail,
        None => ""@,
    };
    assert(line == a + "  "@ + b + "  "@ + what + end);
    assert(line.take(3) =~= a);
    assert(line.subrange(5, 12) =~= b);
    assert(line.subrange(14, 14 + what.len() as int) =~= what);
    if let Some(said) = detail {
        let front = a + "  "@ + b + "  "@ + what + " — "@;
        assert(line =~= front + said);
        text::lemma_ends_with(front, said);
    }
}

proof fn lemma_few_digits(n: nat)
    requires
        n < 1000,
    ensures
        text::decimal_of(n).len() <= 3,
{
    reveal_with_fuel(text::decimal_of, 3);
}

proof fn lemma_lines_of_steps(
    steps: Seq<OutcomeValue>,
    skipped: Seq<StepValue>,
    n: int,
)
    ensures
        0 <= n ==> outcome_lines(steps, n).len() == n && skipped_lines(skipped, n).len() == n,
        forall|i: int|
            0 <= i < n ==> #[trigger] outcome_lines(steps, n)[i] == listing_line(
                steps[i].index + 1,
                steps[i].status,
                steps[i].method,
                steps[i].detail,
            ),
        forall|i: int|
            0 <= i < n ==> #[trigger] skipped_lines(skipped, n)[i] == listing_line(
                (i + 1) as nat,
                "skipped"@,
                skipped[i].method,
                None,
            ),
    decreases n,
{
    if n > 0 {
        lemma_lines_of_steps(steps, skipped, n - 1);
    }
}

/// A listing has a line for the viewport where the script has one, then one for
/// each step — as the report tells it, or skipped where the viewport could not
/// be applied — and then an empty line and the counts.
pub proof fn lemma_what_a_listing_lists(script: ScriptValue, report: ReportValue)
    ensures
        ({
            let lines = listing(script, report);
            let stopped = report.viewport matches Some(outcome) && outcome.status == "failed"@;
            let k: int = if report.viewport is Some {
                1
            } else {
                0
            };
            let n: int = if stopped {
                script.steps.len() as int
            } else {
                report.steps.len() as int
            };
            &&& lines.len() == k + n + 2
            &&& report.viewport matches Some(outcome) ==> lines[0] == listing_line(
                0,
                outcome.status,
                "viewport "@ + outcome.requested.width.plain + "x"@
                    + outcome.requested.height.plain,
                outcome.detail,
            )
            &&& !stopped ==> forall|i: int|
                0 <= i < n ==> #[trigger] lines[k + i] == listing_line(
                    report.steps[i].index + 1,
                    report.steps[i].status,
                    report.steps[i].method,
                    report.steps[i].detail,
                )
            &&& stopped ==> forall|i: int|
                0 <= i < n ==> #[trigger] lines[k + i] == listing_line(
                    (i + 1) as nat,
                    "skipped"@,
                    script.steps[i].method,
                    None,
                )
            &&& lines[k + n] == ""@
            &&& lines[k + n + 1] == summary(script.name, report)
        }),
{
    lemma_lines_of_steps(report.steps, script.steps, report.steps.len() as int);
    lemma_lines_of_steps(report.steps, script.steps, script.steps.len() as int);
}

/// The last line begins with the script's name and gives each count with its
/// own word.
pub proof fn lemma_what_the_summary_says(name: Seq<char>, report: ReportValue)
    ensures
        text::has_prefix(summary(name, report), name + ": "@),
        text::mentions(
            summary(name, report),
            ": "@ + text::decimal_of(report.passed) + " passed, "@,
        ),
        text::mentions(
            summary(name, report),
            " passed, "@ + text::decimal_of(report.failed) + " failed, "@,
        ),
        text::mentions(
            summary(name, report),
            " failed, "@ + text::decimal_of(report.skipped) + " skipped, "@,
        ),
        text::has_suffix(summary(name, report), " skipped, of "@ + text::decimal_of(report.of)),
{
    let p = text::decimal_of(report.passed);
    let f = text::decimal_of(report.failed);
    let k = text::decimal_of(report.skipped);
    let o = text::decimal_of(report.of);
    let said = summary(name, report);
    reveal_strlit(" skipped, of ");
    reveal_strlit(" skipped, ");
    let of = " skipped, of "@;
    assert(of =~= " skipped, "@ + of.skip(10));
    let r1 = p + " passed, "@ + f + " failed, "@ + k + of + o;
    assert(said =~= (name + ": "@) + r1);
    text::lemma_begins_with(name + ": "@, r1);
    let a = ": "@ + p + " passed, "@;
    let r2 = f + " failed, "@ + k + of + o;
    assert(said =~= name + a + r2);
    text::lemma_mentions(name, a, r2);
    let b = " passed, "@ + f + " failed, "@;
    let r3 = k + of + o;
    assert(said =~= (name + ": "@ + p) + b + r3);
    text::lemma_mentions(name + ": "@ + p, b, r3);
    let c = " failed, "@ + k + " skipped, "@;
    let f4 = name + ": "@ + p + " passed, "@ + f;
    assert(said =~= f4 + c + (of.skip(10) + o));
    text::lemma_mentions(f4, c, of.skip(10) + o);
    let d = of + o;
    let f5 = name + ": "@ + p + " passed, "@ + f + " failed, "@ + k;
    assert(said =~= f5 + d);
    text::lemma_ends_with(f5, d);
}

/// Whether an argument of a replay is an option that there is none of.
pub open spec fn unknown_option(argument: Seq<char>) -> bool {
    dashed(argument) && argument != "--seek"@ && argument != "--keep-going"@
}

proof fn lemma_the_first_unknown_option(arguments: Seq<Seq<char>>, n: int, i: int)
    requires
        0 <= i < n <= arguments.len(),
        unknown_option(arguments[i]),
        forall|j: int| 0 <= j < i ==> !unknown_option(#[trigger] arguments[j]),
    ensures
        replay_line(arguments, n) == Err::<(Option<Seq<char>>, ReplayOptions), Seq<char>>(
            "Unknown option for replay: "@ + arguments[i],
        ),
    decreases n,
{
    if i == n - 1 {
        assert forall|j: int| 0 <= j < n - 1 && dashed(#[trigger] arguments[j]) implies arguments[j]
            == "--seek"@ || arguments[j] == "--keep-going"@ by {
            assert(!unknown_option(arguments[j]));
        }
        lemma_replay_line(arguments, n - 1);
    } else {
        lemma_the_first_unknown_option(arguments, n - 1, i);
    }
}

/// A replay that is refused says why: it names the first option that there is
/// none of, or says that the script is missing.
pub proof fn lemma_why_a_replay_is_refused(arguments: Seq<Seq<char>>, i: int)
    ensures
        0 <= i < arguments.len() && unknown_option(arguments[i]) && (forall|j: int|
            0 <= j < i ==> !unknown_option(#[trigger] arguments[j])) ==> (replay_command(arguments)
            matches CommandValue::BadReplay(said) && text::has_suffix(said, ": "@ + arguments[i])),
        (forall|j: int|
            0 <= j < arguments.len() ==> #[trigger] arguments[j] == "--seek"@ || arguments[j]
                == "--keep-going"@) ==> (replay_command(arguments) matches CommandValue::BadReplay(
            said,
        ) && said == "replay needs a script file"@),
{
    lemma_options();
    lemma_replay_line(arguments, arguments.len() as int);
    if 0 <= i < arguments.len() && unknown_option(arguments[i]) && (forall|j: int|
        0 <= j < i ==> !unknown_option(#[trigger] arguments[j])) {
        lemma_the_first_unknown_option(arguments, arguments.len() as int, i);
        let head = "Unknown option for replay: "@;
        reveal_strlit("Unknown option for replay: ");
        reveal_strlit(": ");
        assert(head =~= head.take(25) + ": "@);
        assert(head + arguments[i] =~= head.take(25) + (": "@ + arguments[i]));
        text::lemma_ends_with(head.take(25), ": "@ + arguments[i]);
    }
}

} // verus!
