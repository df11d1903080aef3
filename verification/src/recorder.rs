//! Writing down what an agent did.
//!
//! Recording happens in the server, so no app change and no wire change is
//! involved. The point of it is the rewriting: a ref such as `@e7` means "line
//! 7 of the snapshot I am looking at", which is worthless in a file, so it is
//! written down as the id beside it wherever that id identifies one element.
use vstd::hash_map::StringHashMap;
use vstd::prelude::*;
use vstd::string::*;

use crate::golden;
use crate::json;
use crate::json::{Json, JsonValue};
use crate::path;
use crate::path::{Component, Part};
use crate::protocol;
use crate::protocol::methods;
use crate::replay;
use crate::script;
use crate::script::{Script, ScriptValue, Step, StepValue, Viewport, ViewportValue};
use crate::text;

verus! {

/// A character that a hand-written id is made of.
pub open spec fn id_char(c: char) -> bool {
    'a' <= c <= 'z' || '0' <= c <= '9' || c == '-' || c == '_'
}

/// Whether `s` is shaped like a hand-written id.
pub open spec fn looks_like_an_id(s: Seq<char>) -> bool {
    s.len() > 0 && forall|i: int| 0 <= i < s.len() ==> id_char(#[trigger] s[i])
}

/// Whether `s` is shaped like a ref: an `e` and a number.
pub open spec fn looks_like_a_ref(s: Seq<char>) -> bool {
    s.len() > 0 && s[0] == 'e' && text::number_in(s.skip(1), usize::MAX as nat) is Some
}

/// How many `"` stand in `s`.
pub open spec fn quotes(s: Seq<char>) -> nat
    decreases s.len(),
{
    if s.len() == 0 {
        0
    } else {
        quotes(s.drop_last()) + (if s.last() == '"' {
            1nat
        } else {
            0nat
        })
    }
}

/// Whether a place in a line is inside quotes, with `before` in front of it and
/// `behind` behind it: one was opened and not closed before it, and one stands
/// behind.
pub open spec fn quoted(before: Seq<char>, behind: Seq<char>) -> bool {
    quotes(before) % 2 == 1 && quotes(behind) > 0
}

/// The ref and the id that one snapshot line carries. The id is looked for
/// only in front of the ref, and not inside a quoted name.
pub open spec fn entry_on(line: Seq<char>) -> Option<(Seq<char>, Seq<char>)> {
    match text::split_last(line, " @"@) {
        None => None,
        Some((before_ref, after_ref)) => match text::first_word_of(after_ref) {
            None => None,
            Some(reference) => if !looks_like_a_ref(reference) {
                None
            } else {
                match text::split_last(before_ref, " #"@) {
                    None => None,
                    Some((before_mark, after_mark)) => if quoted(before_mark, after_mark) {
                        None
                    } else {
                        match text::first_word_of(after_mark) {
                            None => None,
                            Some(test_id) => if looks_like_an_id(test_id) {
                                Some((reference, test_id))
                            } else {
                                None
                            },
                        }
                    },
                }
            },
        },
    }
}

fn is_an_id(s: &str) -> (r: bool)
    ensures
        r == looks_like_an_id(s@),
{
    let c: Vec<char> = text::chars_of(s);
    if c.len() == 0 {
        return false;
    }
    let mut i: usize = 0;
    while i < c.len()
        invariant
            i <= c@.len(),
            c@ == s@,
            forall|j: int| 0 <= j < i ==> id_char(#[trigger] s@[j]),
        decreases c@.len() - i,
    {
        let d: char = c[i];
        if !(('a' <= d && d <= 'z') || ('0' <= d && d <= '9') || d == '-' || d == '_') {
            proof {
                assert(!id_char(s@[i as int]));
            }
            return false;
        }
        i += 1;
    }
    true
}

fn count_quotes(s: &str) -> (r: usize)
    ensures
        r == quotes(s@),
{
    let c: Vec<char> = text::chars_of(s);
    let mut count: usize = 0;
    let mut i: usize = 0;
    proof {
        assert(s@.take(0) =~= Seq::empty());
    }
    while i < c.len()
        invariant
            i <= c@.len(),
            c@ == s@,
            count <= i,
            count == quotes(s@.take(i as int)),
        decreases c@.len() - i,
    {
        proof {
            let longer = s@.take(i + 1);
            assert(longer.drop_last() =~= s@.take(i as int));
            assert(longer.last() == c@[i as int]);
        }
        if c[i] == '"' {
            count += 1;
        }
        i += 1;
    }
    proof {
        assert(s@.take(i as int) =~= s@);
    }
    count
}

/// Pull `(ref, test_id)` out of one snapshot line, e.g.
/// `  - button "Save" #save-button @e6` -> `("e6", "save-button")`.
///
/// A line without an id yields nothing: there is no stable name to record. A
/// name can contain a `#` of its own, so an id is read only outside the quotes
/// of the name, and only where it is shaped like one.
pub fn parse_snapshot_line<'a>(line: &'a str) -> (r: Option<(&'a str, &'a str)>)
    ensures
        match r {
            Some(entry) => entry_on(line@) == Some((entry.0@, entry.1@)),
            None => entry_on(line@) is None,
        },
{
    let (before_ref, after_ref) = match text::rsplit_once(line, " @") {
        Some(parts) => parts,
        None => {
            return None;
        },
    };
    let reference: &'a str = match text::first_word(after_ref) {
        Some(word) => word,
        None => {
            return None;
        },
    };
    let n: usize = reference.unicode_len();
    if n == 0 || reference.get_char(0) != 'e' {
        return None;
    }
    let number: &str = reference.substring_char(1, n);
    proof {
        assert(number@ =~= reference@.skip(1));
    }
    if text::parse_number(number, usize::MAX as u64).is_none() {
        return None;
    }
    let (before_mark, after_mark) = match text::rsplit_once(before_ref, " #") {
        Some(parts) => parts,
        None => {
            return None;
        },
    };
    if count_quotes(before_mark) % 2 == 1 && count_quotes(after_mark) > 0 {
        return None;
    }
    let test_id: &'a str = match text::first_word(after_mark) {
        Some(word) => word,
        None => {
            return None;
        },
    };
    if !is_an_id(test_id) {
        return None;
    }
    Some((reference, test_id))
}

proof fn lemma_quotes_add(a: Seq<char>, b: Seq<char>)
    ensures
        quotes(a + b) == quotes(a) + quotes(b),
    decreases b.len(),
{
    if b.len() == 0 {
        assert(a + b =~= a);
    } else {
        lemma_quotes_add(a, b.drop_last());
        assert((a + b).drop_last() =~= a + b.drop_last());
        assert((a + b).last() == b.last());
    }
}

/// A `#` inside a name is no id: a line whose last mark before the ref stands
/// in its quoted name carries no id, whatever the name says.
pub proof fn lemma_a_name_holds_no_id(
    line: Seq<char>,
    head: Seq<char>,
    name: Seq<char>,
    rest: Seq<char>,
)
    requires
        text::split_last(line, " @"@) matches Some((before_ref, _)) && before_ref == head + seq!['"']
            + name + seq!['"'] + rest && head.len() <= text::last_match(
            before_ref,
            " #"@,
            before_ref.len() as int,
        ) <= head.len() + name.len(),
        quotes(head) == 0,
        quotes(name) == 0,
    ensures
        entry_on(line) is None,
{
    let (before_ref, _) = text::split_last(line, " @"@)->0;
    let n = before_ref.len() as int;
    let i = text::last_match(before_ref, " #"@, n);
    text::lemma_last_match(before_ref, " #"@, n);
    reveal_strlit(" #");
    let quote = seq!['"'];
    assert(before_ref.subrange(i, i + 2)[0] == ' ');
    assert(before_ref.subrange(i, i + 2)[1] == '#');
    assert(before_ref[i] == ' ');
    assert(before_ref[i + 1] == '#');
    let k = i - head.len() - 1;
    let close = head.len() + 1 + name.len();
    assert(before_ref[head.len() as int] == '"');
    assert(before_ref[close as int] == '"');
    let before_mark = before_ref.take(i);
    let after_mark = before_ref.skip(i + 2);
    let inside = name.take(k);
    let left = name.skip(k);
    assert(before_mark =~= head + quote + inside);
    assert(name =~= inside + left);
    let between = name.skip(k + 2);
    assert(after_mark =~= between + quote + rest);
    assert(quotes(quote.drop_last()) == 0);
    assert(quote.last() == '"');
    assert(quotes(quote) == 1);
    lemma_quotes_add(inside, left);
    lemma_quotes_add(head, quote);
    lemma_quotes_add(head + quote, inside);
    lemma_quotes_add(between, quote);
    lemma_quotes_add(between + quote, rest);
}

/// What a line carries is a ref and an id, and the id stands before the ref.
pub proof fn lemma_what_a_line_carries(line: Seq<char>)
    requires
        entry_on(line) is Some,
    ensures
        ({
            let (reference, id) = entry_on(line)->0;
            &&& looks_like_a_ref(reference)
            &&& looks_like_an_id(id)
            &&& exists|i: int, j: int| #[trigger]
                text::occurs_at(line, id, i) && #[trigger] text::occurs_at(line, reference, j) && i
                    + id.len() <= j
        }),
{
    let (before_ref, after_ref) = text::split_last(line, " @"@)->0;
    let (before_mark, after_mark) = text::split_last(before_ref, " #"@)->0;
    let (reference, id) = entry_on(line)->0;
    let n = line.len() as int;
    let m = before_ref.len() as int;
    text::lemma_last_match(line, " @"@, n);
    text::lemma_last_match(before_ref, " #"@, m);
    let at = text::last_match(line, " @"@, n) + " @"@.len();
    let mark = text::last_match(before_ref, " #"@, m) + " #"@.len();
    let j = text::lemma_first_word(after_ref, Seq::empty());
    let i = text::lemma_first_word(after_mark, Seq::empty());
    assert(line.subrange(at + j, at + j + reference.len()) =~= after_ref.subrange(
        j,
        j + reference.len(),
    ));
    assert(line.subrange(mark + i, mark + i + id.len()) =~= after_mark.subrange(i, i + id.len()));
    assert(text::occurs_at(line, reference, at + j));
    assert(text::occurs_at(line, id, mark + i));
}

/// What a line carries does not depend on the state behind its ref, nor on how
/// far it is indented.
pub proof fn lemma_state_and_indentation_do_not_matter(
    line: Seq<char>,
    state: Seq<char>,
    indent: Seq<char>,
)
    requires
        entry_on(line) is Some,
        state.len() > 0 && state[0] == ' ',
        forall|i: int| !#[trigger] text::occurs_at(state, " @"@, i),
        quotes(indent) == 0,
    ensures
        entry_on(line + state) == entry_on(line),
        entry_on(indent + line) == entry_on(line),
{
    let (before_ref, after_ref) = text::split_last(line, " @"@)->0;
    let (before_mark, after_mark) = text::split_last(before_ref, " #"@)->0;
    let n = line.len() as int;
    reveal_strlit(" @");
    assert forall|j: int| n - " @"@.len() < j implies !#[trigger] text::occurs_at(
        line + state,
        " @"@,
        j,
    ) by {
        if text::occurs_at(line + state, " @"@, j) {
            assert((line + state).subrange(j, j + 2)[1] == '@');
            assert((line + state)[j + 1] == '@');
            if j == n - 1 {
                assert((line + state)[n] == state[0]);
            } else {
                assert((line + state).subrange(j, j + 2) =~= state.subrange(j - n, j - n + 2));
                assert(text::occurs_at(state, " @"@, j - n));
            }
        }
    }
    text::lemma_split_before(line, state, " @"@);
    let _ = text::lemma_first_word(after_ref, state);
    text::lemma_split_behind(indent, line, " @"@);
    text::lemma_split_behind(indent, before_ref, " #"@);
    lemma_quotes_add(indent, before_mark);
}

/// The refs and ids that the lines of a snapshot carry, in order.
pub open spec fn entries_on(lines: Seq<Seq<char>>) -> Seq<(Seq<char>, Seq<char>)>
    decreases lines.len(),
{
    if lines.len() == 0 {
        Seq::empty()
    } else {
        match entry_on(lines.last()) {
            Some(entry) => entries_on(lines.drop_last()).push(entry),
            None => entries_on(lines.drop_last()),
        }
    }
}

/// How many lines carry an id.
pub open spec fn carriers(entries: Seq<(Seq<char>, Seq<char>)>, id: Seq<char>) -> nat
    decreases entries.len(),
{
    if entries.len() == 0 {
        0
    } else {
        carriers(entries.drop_last(), id) + (if entries.last().1 == id {
            1nat
        } else {
            0nat
        })
    }
}

/// What each ref of `entries` stands for, of the refs whose id one line of
/// `all` carries (`unique`) or of those whose id more than one does. A ref that
/// occurs twice stands for what it stood for last.
pub open spec fn refs_in(
    entries: Seq<(Seq<char>, Seq<char>)>,
    all: Seq<(Seq<char>, Seq<char>)>,
    unique: bool,
) -> Map<Seq<char>, Seq<char>>
    decreases entries.len(),
{
    if entries.len() == 0 {
        Map::empty()
    } else {
        let before = refs_in(entries.drop_last(), all, unique);
        let last = entries.last();
        if (carriers(all, last.1) == 1) == unique {
            before.insert(last.0, last.1)
        } else {
            before
        }
    }
}

/// What the strings of a table hold.
pub open spec fn table_of(table: Map<Seq<char>, String>) -> Map<Seq<char>, Seq<char>> {
    table.map_values(|s: String| s@)
}

/// An id without the `#`s it begins with.
pub open spec fn after_hashes(s: Seq<char>) -> Seq<char>
    decreases s.len(),
{
    if s.len() > 0 && s[0] == '#' {
        after_hashes(s.skip(1))
    } else {
        s
    }
}

/// The last segment of an id: what a snapshot counts. A step may name an id as
/// `#save`, a bare `save`, or a whole dotted path ending in it.
pub open spec fn last_segment(id: Seq<char>) -> Seq<char> {
    match text::split_last(after_hashes(id), "."@) {
        Some((_, after)) => after,
        None => after_hashes(id),
    }
}

pub const SEVERAL_CARRY_IT: &'static str = " elements in the snapshot before this step. A suffix match takes the first, so this step may replay against a different one than it was recorded against. Give that element its own id in the app.";

pub const GENERATED_EACH_START: &'static str = " ends in a number the app generates fresh on every start, so it reads like a name and is not one: this step will find nothing after a restart. Give that element an id of its own in the app.";

pub const REF_IS_AMBIGUOUS: &'static str = ", which appears on more than one line of that snapshot and so does not identify it. The ref was left as written and will only replay if the snapshot before it produces the same lines. Give that element its own id in the app.";

pub const REF_HAS_NO_ID: &'static str = "' is a snapshot ref with no id beside it, so it was left as written and will only replay if the snapshot before it produces the same lines. Give that element an id in the app.";

/// What is wrong with the id a step is written down with.
pub open spec fn doubts(entries: Seq<(Seq<char>, Seq<char>)>, id: Seq<char>) -> Option<Seq<char>> {
    let segment = last_segment(id);
    if carriers(entries, segment) > 1 {
        Some(
            "#"@ + segment + " names "@ + text::decimal_of(carriers(entries, segment))
                + SEVERAL_CARRY_IT@,
        )
    } else if protocol::trailing_digits(segment) >= protocol::GENERATED_ID_DIGITS {
        Some("#"@ + segment + GENERATED_EACH_START@)
    } else {
        None
    }
}

/// `notes` with what is wrong with an id, where anything is.
pub open spec fn with_doubts(
    entries: Seq<(Seq<char>, Seq<char>)>,
    notes: Seq<Seq<char>>,
    id: Seq<char>,
) -> Seq<Seq<char>> {
    match doubts(entries, id) {
        Some(note) => notes.push(note),
        None => notes,
    }
}

/// The arguments of a step, and the notes on it, once the argument named `key`
/// has been written down as something that holds.
pub open spec fn resolved_at(
    entries: Seq<(Seq<char>, Seq<char>)>,
    key: Seq<char>,
    params: JsonValue,
    notes: Seq<Seq<char>>,
) -> (JsonValue, Seq<Seq<char>>) {
    match json::field_text(params, key) {
        None => (params, notes),
        Some(value) => if value.len() == 0 || value[0] != '@' {
            (params, with_doubts(entries, notes, value))
        } else {
            let reference = value.skip(1);
            let unique = refs_in(entries, entries, true);
            let ambiguous = refs_in(entries, entries, false);
            if unique.contains_key(reference) {
                (
                    json::set_field(params, key, JsonValue::Text(unique[reference])),
                    with_doubts(entries, notes, unique[reference]),
                )
            } else if ambiguous.contains_key(reference) {
                (
                    params,
                    notes.push(
                        "'"@ + value + "' pointed at #"@ + ambiguous[reference]
                            + REF_IS_AMBIGUOUS@,
                    ),
                )
            } else {
                (params, notes.push("'"@ + value + REF_HAS_NO_ID@))
            }
        },
    }
}

/// The arguments of a step as they are written down, and what is to be said of
/// them.
pub open spec fn resolved(entries: Seq<(Seq<char>, Seq<char>)>, params: JsonValue) -> (
    JsonValue,
    Option<Seq<char>>,
) {
    let first = resolved_at(entries, "element_id"@, params, Seq::empty());
    let second = resolved_at(entries, "root_element_id"@, first.0, first.1);
    (
        second.0,
        if second.1.len() == 0 {
            None
        } else {
            Some(text::joined(second.1, " "@))
        },
    )
}

/// Where a golden image lies, as the file system says: the directory of the
/// script and the image, both absolute, and the image's path as text for where
/// no path leads from one to the other.
#[derive(Debug)]
pub struct GoldenPlace {
    pub base: Vec<Component>,
    pub target: Vec<Component>,
    pub absolute: String,
}

/// What a [`GoldenPlace`] holds.
pub struct PlaceValue {
    pub base: Seq<Part>,
    pub target: Seq<Part>,
    pub absolute: Seq<char>,
}

impl View for GoldenPlace {
    type V = PlaceValue;

    open spec fn view(&self) -> PlaceValue {
        PlaceValue {
            base: path::parts(self.base@),
            target: path::parts(self.target@),
            absolute: self.absolute@,
        }
    }
}

/// What an optional place holds.
pub open spec fn place_of(place: Option<GoldenPlace>) -> Option<PlaceValue> {
    match place {
        Some(place) => Some(place@),
        None => None,
    }
}

/// The path of a golden as a script names it: relative to the script where a
/// path leads there.
pub open spec fn anchored(place: PlaceValue) -> Seq<char> {
    match path::relative_parts(place.base, place.target) {
        Some(relative) => path::path_text(relative),
        None => place.absolute,
    }
}

/// The step that is written down for a call.
pub open spec fn recorded_step(
    entries: Seq<(Seq<char>, Seq<char>)>,
    method: Seq<char>,
    params: JsonValue,
    place: Option<PlaceValue>,
) -> StepValue {
    let (written, note) = resolved(entries, params);
    StepValue {
        method,
        params: match place {
            Some(place) => if method == golden::TOOL_NAME@ && json::field_text(
                written,
                "path"@,
            ) is Some {
                json::set_field(written, "path"@, JsonValue::Text(anchored(place)))
            } else {
                written
            },
            None => written,
        },
        note,
    }
}

/// What the recorder writes as the program a script was recorded with.
pub const RECORDED_WITH: &'static str = "gpui_mcp 0.1.0";

/// The size of a window: as it is written down, and in whole pixels, rounded
/// down.
#[derive(Debug)]
pub struct WindowSize {
    pub viewport: Viewport,
    pub whole_width: u32,
    pub whole_height: u32,
}

/// The size that an answer to `get_windows` gives for its first window: the
/// content size, which is what layout sees, or the bounds where an older app
/// gives none.
pub open spec fn first_window_of(answer: JsonValue) -> Option<ViewportValue> {
    match answer {
        JsonValue::Array(windows) => if windows.len() > 0 {
            match replay::viewport_in(json::field_or_null(windows[0], "content_size"@)) {
                Some(size) => Some(size),
                None => replay::viewport_in(json::field_or_null(windows[0], "bounds"@)),
            }
        } else {
            None
        },
        _ => None,
    }
}

/// The size of the first window in an answer to `get_windows`.
pub fn first_window(answer: &Json) -> (r: Option<Viewport>)
    ensures
        script::viewport_of(r) == first_window_of(answer@),
{
    match answer {
        Json::Array(windows) => {
            if windows.len() > 0 {
                proof {
                    assert(answer@->Array_0[0] == windows@[0]@);
                }
                match replay::read_viewport(&windows[0].get_or_null("content_size")) {
                    Some(size) => Some(size),
                    None => replay::read_viewport(&windows[0].get_or_null("bounds")),
                }
            } else {
                None
            }
        },
        _ => None,
    }
}

/// Appends every tool call to a script as it happens.
pub struct Recorder {
    path: String,
    script: Script,
    /// Whether the window size has been asked for yet. Asked once: a session
    /// against an app with no window would otherwise pay a discovery and a
    /// round trip on every step for the rest of its life.
    viewport_probed: bool,
    /// `e7` -> `save-button`, learned from the last snapshot this server sent.
    /// Only ids that appeared once in that snapshot.
    refs: StringHashMap<String>,
    /// `e3` -> `item`, for refs whose id appeared more than once.
    ambiguous: StringHashMap<String>,
    /// `item` -> 62, every id in that snapshot and how many lines carried it.
    id_counts: StringHashMap<usize>,
    /// What the lines of that snapshot carried.
    entries: Ghost<Seq<(Seq<char>, Seq<char>)>>,
}

/// What a [`Recorder`] holds.
pub struct RecorderValue {
    pub path: Seq<char>,
    pub script: ScriptValue,
    pub viewport_probed: bool,
    /// The refs and ids of the last snapshot.
    pub entries: Seq<(Seq<char>, Seq<char>)>,
}

impl View for Recorder {
    type V = RecorderValue;

    closed spec fn view(&self) -> RecorderValue {
        RecorderValue {
            path: self.path@,
            script: self.script@,
            viewport_probed: self.viewport_probed,
            entries: self.entries@,
        }
    }
}

/// A recorder once a call was recorded: one more step, where the call is not to
/// one of the server's own tools, read against the refs of the snapshot that
/// came with it or of the last one before.
pub open spec fn recorded(
    before: RecorderValue,
    method: Seq<char>,
    params: JsonValue,
    snapshot: Option<Seq<char>>,
    place: Option<PlaceValue>,
) -> RecorderValue {
    if script::server_only(method) {
        before
    } else {
        let entries = match snapshot {
            Some(snapshot) => entries_on(text::lines_of(snapshot)),
            None => before.entries,
        };
        RecorderValue {
            entries,
            script: ScriptValue {
                steps: before.script.steps.push(recorded_step(entries, method, params, place)),
                ..before.script
            },
            ..before
        }
    }
}

/// A recorder once the size of the window was noted: the first size that a
/// window can have is written down, and stays.
pub open spec fn noted(before: RecorderValue, size: Option<WindowSize>) -> RecorderValue {
    let viewport = match (before.script.viewport, size) {
        (None, Some(size)) => if size.whole_width > 0 && size.whole_height > 0 {
            Some(size.viewport@)
        } else {
            None
        },
        (written, _) => written,
    };
    RecorderValue {
        viewport_probed: true,
        script: ScriptValue { viewport, ..before.script },
        ..before
    }
}

/// A recorder once a call came to something: what the agent was shown, or
/// nothing where the call failed.
pub open spec fn outcome_recorded(
    before: RecorderValue,
    method: Seq<char>,
    params: JsonValue,
    said: Option<Seq<char>>,
    place: Option<PlaceValue>,
) -> RecorderValue {
    match said {
        None => before,
        Some(said) => recorded(
            before,
            method,
            params,
            if method == methods::UI_SNAPSHOT@ {
                Some(said)
            } else {
                None
            },
            place,
        ),
    }
}

/// A table that counts the ids of `entries`.
spec fn counts(table: Map<Seq<char>, usize>, entries: Seq<(Seq<char>, Seq<char>)>) -> bool {
    &&& forall|id: Seq<char>| #[trigger]
        table.contains_key(id) <==> carriers(entries, id) > 0
    &&& forall|id: Seq<char>| #[trigger]
        table.contains_key(id) ==> table[id] == carriers(entries, id)
}

proof fn lemma_carriers_bound(entries: Seq<(Seq<char>, Seq<char>)>, id: Seq<char>)
    ensures
        carriers(entries, id) <= entries.len(),
    decreases entries.len(),
{
    if entries.len() > 0 {
        lemma_carriers_bound(entries.drop_last(), id);
    }
}

proof fn lemma_insert_in_table(table: Map<Seq<char>, String>, key: Seq<char>, value: String)
    ensures
        table_of(table.insert(key, value)) == table_of(table).insert(key, value@),
{
    assert(table_of(table.insert(key, value)) =~= table_of(table).insert(key, value@));
}

impl Recorder {
    /// The tables are those of the last snapshot.
    pub closed spec fn well_formed(&self) -> bool {
        &&& table_of(self.refs@) == refs_in(self.entries@, self.entries@, true)
        &&& table_of(self.ambiguous@) == refs_in(self.entries@, self.entries@, false)
        &&& counts(self.id_counts@, self.entries@)
    }

    /// A recorder that has seen nothing yet.
    pub fn new(path: &str, app: Option<String>) -> (r: Self)
        ensures
            r.well_formed(),
            r@.path == path@,
            !r@.viewport_probed,
            r@.entries == Seq::<(Seq<char>, Seq<char>)>::empty(),
            r@.script.source == Some(path@),
            r@.script.name == script::name_after(path@),
            r@.script.app == text::maybe_owned(app),
            r@.script.recorded_with == Some(RECORDED_WITH@),
            r@.script.viewport is None,
            r@.script.steps == Seq::<StepValue>::empty(),
    {
        let name: String = script::default_name(path);
        let r: Recorder = Recorder {
            path: path.to_owned(),
            script: Script {
                source: Some(path.to_owned()),
                name,
                app,
                recorded_with: Some(RECORDED_WITH.to_owned()),
                viewport: None,
                steps: Vec::new(),
            },
            viewport_probed: false,
            refs: StringHashMap::new(),
            ambiguous: StringHashMap::new(),
            id_counts: StringHashMap::new(),
            entries: Ghost(Seq::empty()),
        };
        proof {
            assert(table_of(r.refs@) =~= Map::empty());
            assert(table_of(r.ambiguous@) =~= Map::empty());
            assert(r@.script.steps =~= Seq::empty());
        }
        r
    }

    /// The file the session is written to.
    pub fn path(&self) -> (r: &str)
        ensures
            r@ == self@.path,
    {
        self.path.as_str()
    }

    /// The script so far.
    pub fn script(&self) -> (r: &Script)
        ensures
            r@ == self@.script,
    {
        &self.script
    }

    /// Whether the window size still has to be asked for.
    pub fn needs_viewport(&self) -> (r: bool)
        ensures
            r == !self@.viewport_probed,
    {
        !self.viewport_probed
    }

    /// Record the window size the session is happening at, or that it could
    /// not be read. Returns whether a size was written.
    ///
    /// Written once, from the first window seen, and never revised: a script
    /// records the size it was *made* at.
    pub fn note_viewport(&mut self, size: Option<WindowSize>) -> (r: bool)
        requires
            old(self).well_formed(),
        ensures
            final(self).well_formed(),
            r == (old(self)@.script.viewport is None && size is Some && size->0.whole_width >= 1
                && size->0.whole_height >= 1),
            final(self)@ == (RecorderValue {
                viewport_probed: true,
                script: ScriptValue {
                    viewport: if r {
                        Some(size->0.viewport@)
                    } else {
                        old(self)@.script.viewport
                    },
                    ..old(self)@.script
                },
                ..old(self)@
            }),
            final(self)@ == noted(old(self)@, size),
    {
        self.viewport_probed = true;
        match size {
            Some(size) => {
                if self.script.viewport.is_none() && size.whole_width >= 1 && size.whole_height
                    >= 1 {
                    self.script.viewport = Some(size.viewport);
                    true
                } else {
                    false
                }
            },
            None => false,
        }
    }

    /// How many steps have been recorded.
    pub fn steps(&self) -> (r: usize)
        ensures
            r == self@.script.steps.len(),
    {
        self.script.steps.len()
    }

    /// Read `#test-id` and `@ref` off each snapshot line, so a ref recorded
    /// later can be written down as something that will still mean the same
    /// thing tomorrow.
    ///
    /// An id that appears on more than one line is not that something. A
    /// sidebar of forty entries all called `#item` would have every recorded
    /// click rewritten to the first of them. Those refs are kept aside and
    /// reported instead.
    pub fn learn_refs(&mut self, snapshot: &str)
        ensures
            final(self).well_formed(),
            final(self)@ == (RecorderValue {
                entries: entries_on(text::lines_of(snapshot@)),
                ..old(self)@
            }),
    {
        let lines: Vec<&str> = text::lines(snapshot);
        let ghost all_lines = text::texts(lines@);
        let mut seen: Vec<(String, String)> = Vec::new();
        let ghost mut entries: Seq<(Seq<char>, Seq<char>)> = Seq::empty();
        let mut id_counts: StringHashMap<usize> = StringHashMap::new();
        let mut i: usize = 0;
        proof {
            assert(all_lines.take(0) =~= Seq::empty());
        }
        while i < lines.len()
            invariant
                i <= lines@.len(),
                all_lines == text::texts(lines@),
                entries == entries_on(all_lines.take(i as int)),
                entries.len() == seen@.len(),
                entries.len() <= i,
                forall|k: int|
                    0 <= k < entries.len() ==> #[trigger] entries[k] == (seen@[k].0@, seen@[k].1@),
                counts(id_counts@, entries),
            decreases lines@.len() - i,
        {
            let ghost longer = all_lines.take(i + 1);
            let ghost before = entries;
            let ghost before_table = id_counts@;
            proof {
                assert(longer.drop_last() =~= all_lines.take(i as int));
                assert(longer.last() == lines@[i as int]@);
            }
            match parse_snapshot_line(lines[i]) {
                Some((reference, test_id)) => {
                    let count: usize = match id_counts.get(test_id) {
                        Some(count) => *count,
                        None => 0,
                    };
                    proof {
                        lemma_carriers_bound(entries, test_id@);
                        entries = entries.push((reference@, test_id@));
                        assert(entries.drop_last() =~= before);
                        assert(!before_table.contains_key(test_id@) ==> carriers(
                            before,
                            test_id@,
                        ) == 0);
                    }
                    id_counts.insert(test_id.to_owned(), count + 1);
                    seen.push((reference.to_owned(), test_id.to_owned()));
                    proof {
                        assert forall|id: Seq<char>|
                            id_counts@.contains_key(id) == (carriers(entries, id) > 0) && (
                            #[trigger] id_counts@.contains_key(id) ==> id_counts@[id] == carriers(
                                entries,
                                id,
                            )) by {
                            assert(before_table.contains_key(id) == (carriers(before, id) > 0));
                        }
                    }
                },
                None => {},
            }
            i += 1;
        }
        proof {
            assert(all_lines.take(i as int) =~= all_lines);
        }
        let mut refs: StringHashMap<String> = StringHashMap::new();
        let mut ambiguous: StringHashMap<String> = StringHashMap::new();
        let mut j: usize = 0;
        proof {
            assert(table_of(refs@) =~= Map::empty());
            assert(table_of(ambiguous@) =~= Map::empty());
            assert(entries.take(0) =~= Seq::empty());
        }
        while j < seen.len()
            invariant
                j <= seen@.len(),
                entries.len() == seen@.len(),
                forall|k: int|
                    0 <= k < entries.len() ==> #[trigger] entries[k] == (seen@[k].0@, seen@[k].1@),
                counts(id_counts@, entries),
                table_of(refs@) == refs_in(entries.take(j as int), entries, true),
                table_of(ambiguous@) == refs_in(entries.take(j as int), entries, false),
            decreases seen@.len() - j,
        {
            let reference: String = seen[j].0.clone();
            let test_id: String = seen[j].1.clone();
            let ghost longer = entries.take(j + 1);
            proof {
                assert(longer.drop_last() =~= entries.take(j as int));
                assert(longer.last() == (reference@, test_id@));
            }
            let once: bool = match id_counts.get(test_id.as_str()) {
                Some(count) => *count == 1,
                None => false,
            };
            proof {
                assert(id_counts@.contains_key(test_id@) == (carriers(entries, test_id@) > 0));
                lemma_insert_in_table(refs@, reference@, test_id);
                lemma_insert_in_table(ambiguous@, reference@, test_id);
            }
            if once {
                refs.insert(reference, test_id);
            } else {
                ambiguous.insert(reference, test_id);
            }
            j += 1;
        }
        proof {
            assert(entries.take(j as int) =~= entries);
        }
        self.refs = refs;
        self.ambiguous = ambiguous;
        self.id_counts = id_counts;
        self.entries = Ghost(entries);
    }

    /// What is wrong with the id this step is about to be written down with.
    ///
    /// Reported about *this step*, at the moment the script is being written —
    /// which is the moment somebody can still pick a different element to
    /// click, or go and name it.
    pub fn doubts_about(&self, id: &str) -> (r: Option<String>)
        requires
            self.well_formed(),
        ensures
            text::maybe_owned(r) == doubts(self@.entries, id@),
    {
        let bare: &str = trim_hashes(id);
        let segment: &str = match text::rsplit_once(bare, ".") {
            Some((_, after)) => after,
            None => bare,
        };
        let count: usize = match self.id_counts.get(segment) {
            Some(count) => *count,
            None => 0,
        };
        proof {
            assert(self.id_counts@.contains_key(segment@) == (carriers(self.entries@, segment@)
                > 0));
            assert(count == carriers(self.entries@, segment@));
        }
        if count > 1 {
            let mut out: String = "#".to_owned();
            out.append(segment);
            out.append(" names ");
            out.append(text::decimal(count as u64).as_str());
            out.append(SEVERAL_CARRY_IT);
            return Some(out);
        }
        if protocol::id_looks_generated(segment) {
            let mut out: String = "#".to_owned();
            out.append(segment);
            out.append(GENERATED_EACH_START);
            return Some(out);
        }
        None
    }

    fn resolve_at(&self, key: &str, params: &mut Json, notes: &mut Vec<String>)
        requires
            self.well_formed(),
        ensures
            (final(params)@, text::owned_texts(final(notes)@)) == resolved_at(
                self@.entries,
                key@,
                old(params)@,
                text::owned_texts(old(notes)@),
            ),
    {
        let ghost before = text::owned_texts(notes@);
        let value: String = match params.get_text(key) {
            Some(value) => value.to_owned(),
            None => {
                return;
            },
        };
        let n: usize = value.as_str().unicode_len();
        // Either the step named a ref, which becomes an id here, or it named
        // an id outright. Both end up as something written into the file, and
        // both are worth the same doubts.
        let written: String = if n == 0 || value.as_str().get_char(0) != '@' {
            value
        } else {
            let reference: &str = value.as_str().substring_char(1, n);
            proof {
                assert(reference@ =~= value@.skip(1));
                assert(table_of(self.refs@).contains_key(reference@) == self.refs@.contains_key(
                    reference@,
                ));
                assert(table_of(self.ambiguous@).contains_key(reference@)
                    == self.ambiguous@.contains_key(reference@));
            }
            match self.refs.get(reference) {
                Some(test_id) => {
                    params.set(key, Json::Text(test_id.clone()));
                    test_id.clone()
                },
                None => {
                    let mut note: String = "'".to_owned();
                    note.append(value.as_str());
                    match self.ambiguous.get(reference) {
                        Some(test_id) => {
                            note.append("' pointed at #");
                            note.append(test_id.as_str());
                            note.append(REF_IS_AMBIGUOUS);
                        },
                        None => {
                            note.append(REF_HAS_NO_ID);
                        },
                    }
                    let ghost said = note@;
                    notes.push(note);
                    proof {
                        assert(text::owned_texts(notes@) =~= before.push(said));
                    }
                    return;
                },
            }
        };
        match self.doubts_about(written.as_str()) {
            Some(note) => {
                let ghost said = note@;
                notes.push(note);
                proof {
                    assert(text::owned_texts(notes@) =~= before.push(said));
                }
            },
            None => {},
        }
    }

    /// Replace `@e7` with the id the snapshot printed beside it, and say so
    /// when the id that ends up in the file will not hold.
    pub fn resolve_refs(&self, params: &Json) -> (r: (Json, Option<String>))
        requires
            self.well_formed(),
        ensures
            (r.0@, text::maybe_owned(r.1)) == resolved(self@.entries, params@),
    {
        let mut params: Json = params.clone();
        let mut notes: Vec<String> = Vec::new();
        proof {
            assert(text::owned_texts(notes@) =~= Seq::empty());
        }
        self.resolve_at("element_id", &mut params, &mut notes);
        self.resolve_at("root_element_id", &mut params, &mut notes);
        if notes.len() == 0 {
            (params, None)
        } else {
            (params, Some(text::join(&notes, " ")))
        }
    }

    /// Record one tool call. `snapshot` is the rendered snapshot text when the
    /// call was a `ui_snapshot`, which is where refs come from; `place` is
    /// where the golden of a golden step lies, when that could be found out.
    /// Answers whether the call was recorded: the server's own tools are not.
    ///
    /// A golden path is written relative to the script rather than to wherever
    /// this server happened to be started, so it means the same file from any
    /// directory a replay is started in.
    pub fn record(
        &mut self,
        method: &str,
        params: &Json,
        snapshot: Option<&str>,
        place: Option<GoldenPlace>,
    ) -> (r: bool)
        requires
            old(self).well_formed(),
        ensures
            final(self).well_formed(),
            r == !script::server_only(method@),
            final(self)@ == recorded(
                old(self)@,
                method@,
                params@,
                text::maybe(snapshot),
                place_of(place),
            ),
    {
        if script::is_not_recorded(method) {
            return false;
        }
        if let Some(snapshot) = snapshot {
            self.learn_refs(snapshot);
        }
        let ghost before = self.script@.steps;
        let (mut params, note) = self.resolve_refs(params);
        if golden::is_golden(method) {
            if let Some(place) = place {
                anchor_golden_path(&mut params, place);
            }
        }
        let step: Step = Step { method: method.to_owned(), params, note };
        let ghost written = step@;
        self.script.steps.push(step);
        proof {
            assert(self.script@.steps =~= before.push(written));
        }
        true
    }
}

impl Recorder {
    /// Record a call by what came of it: `said` is the text the agent was
    /// shown, `None` where the call failed. Only successful calls are worth
    /// recording: a script of things that did not work replays nothing.
    pub fn record_outcome(
        &mut self,
        method: &str,
        params: &Json,
        said: Option<&str>,
        place: Option<GoldenPlace>,
    ) -> (r: bool)
        requires
            old(self).well_formed(),
        ensures
            final(self).well_formed(),
            r == (said is Some && !script::server_only(method@)),
            final(self)@ == (match said {
                Some(said) => recorded(
                    old(self)@,
                    method@,
                    params@,
                    if method@ == methods::UI_SNAPSHOT@ {
                        Some(said@)
                    } else {
                        None
                    },
                    place_of(place),
                ),
                None => old(self)@,
            }),
            final(self)@ == outcome_recorded(
                old(self)@,
                method@,
                params@,
                text::maybe(said),
                place_of(place),
            ),
    {
        match said {
            Some(said) => {
                let snapshot: Option<&str> = if text::same_text(method, methods::UI_SNAPSHOT) {
                    Some(said)
                } else {
                    None
                };
                self.record(method, params, snapshot, place)
            },
            None => false,
        }
    }
}

/// Recording adds at most one step and never changes one that is there, nor
/// the size or the name in the header.
pub proof fn lemma_recording_only_adds(
    before: RecorderValue,
    method: Seq<char>,
    params: JsonValue,
    snapshot: Option<Seq<char>>,
    place: Option<PlaceValue>,
)
    ensures
        ({
            let after = recorded(before, method, params, snapshot, place);
            &&& before.script.steps.is_prefix_of(after.script.steps)
            &&& after.script.steps.len() <= before.script.steps.len() + 1
            &&& after.script.viewport == before.script.viewport
            &&& after.script.name == before.script.name
            &&& after.path == before.path
        }),
{
}

/// Write a golden path relative to the script. When no relative path exists
/// (another drive), the absolute one is written, which is at least honest.
fn anchor_golden_path(params: &mut Json, place: GoldenPlace)
    ensures
        final(params)@ == (if json::field_text(old(params)@, "path"@) is Some {
            json::set_field(old(params)@, "path"@, JsonValue::Text(anchored(place@)))
        } else {
            old(params)@
        }),
{
    if params.get_text("path").is_none() {
        return;
    }
    let written: String = match path::relative_path(&place.base, &place.target) {
        Some(relative) => path::render_path(&relative),
        None => place.absolute,
    };
    params.set("path", Json::Text(written));
}

fn trim_hashes<'a>(s: &'a str) -> (r: &'a str)
    ensures
        r@ == after_hashes(s@),
{
    let c: Vec<char> = text::chars_of(s);
    let n: usize = c.len();
    let mut i: usize = 0;
    proof {
        assert(s@.skip(0) =~= s@);
    }
    while i < n && c[i] == '#'
        invariant
            c@ == s@,
            n == c@.len(),
            i <= n,
            after_hashes(s@) == after_hashes(s@.skip(i as int)),
        decreases n - i,
    {
        proof {
            assert(s@.skip(i as int).skip(1) =~= s@.skip(i + 1));
        }
        i += 1;
    }
    let r: &'a str = s.substring_char(i, n);
    proof {
        assert(r@ =~= s@.skip(i as int));
    }
    r
}

proof fn lemma_refs_in(
    entries: Seq<(Seq<char>, Seq<char>)>,
    all: Seq<(Seq<char>, Seq<char>)>,
    unique: bool,
    reference: Seq<char>,
)
    requires
        refs_in(entries, all, unique).contains_key(reference),
    ensures
        exists|i: int|
            0 <= i < entries.len() && #[trigger] entries[i] == (
                reference,
                refs_in(entries, all, unique)[reference],
            ),
        (carriers(all, refs_in(entries, all, unique)[reference]) == 1) == unique,
    decreases entries.len(),
{
    if entries.len() > 0 {
        let last = entries.last();
        assert(entries[entries.len() - 1] == last);
        if last.0 == reference && (carriers(all, last.1) == 1) == unique {
        } else {
            let before = entries.drop_last();
            lemma_refs_in(before, all, unique, reference);
            let id = refs_in(entries, all, unique)[reference];
            let i = choose|i: int| 0 <= i < before.len() && #[trigger] before[i] == (reference, id);
            assert(entries[i] == (reference, id));
        }
    }
}

/// A ref is written down as an id only where a line of the snapshot carries
/// both, and no other line carries that id.
pub proof fn lemma_a_ref_becomes_an_id_that_holds(
    entries: Seq<(Seq<char>, Seq<char>)>,
    reference: Seq<char>,
)
    requires
        refs_in(entries, entries, true).contains_key(reference),
    ensures
        entries.contains((reference, refs_in(entries, entries, true)[reference])),
        carriers(entries, refs_in(entries, entries, true)[reference]) == 1,
{
    lemma_refs_in(entries, entries, true, reference);
}

proof fn lemma_ref_is_kept(
    entries: Seq<(Seq<char>, Seq<char>)>,
    all: Seq<(Seq<char>, Seq<char>)>,
    i: int,
)
    requires
        0 <= i < entries.len(),
        carriers(all, entries[i].1) == 1,
        forall|j: int| i < j < entries.len() ==> (#[trigger] entries[j]).0 != entries[i].0,
    ensures
        refs_in(entries, all, true).contains_key(entries[i].0),
        refs_in(entries, all, true)[entries[i].0] == entries[i].1,
    decreases entries.len(),
{
    if i < entries.len() - 1 {
        let before = entries.drop_last();
        assert(forall|j: int| 0 <= j < before.len() ==> before[j] == entries[j]);
        assert(entries.last() == entries[entries.len() - 1]);
        lemma_ref_is_kept(before, all, i);
    }
}

/// A ref becomes the id beside it, where no other line of the snapshot carries
/// that id and no later one the ref.
pub proof fn lemma_a_ref_becomes_the_id_beside_it(
    entries: Seq<(Seq<char>, Seq<char>)>,
    key: Seq<char>,
    params: JsonValue,
    notes: Seq<Seq<char>>,
    i: int,
)
    requires
        0 <= i < entries.len(),
        carriers(entries, entries[i].1) == 1,
        forall|j: int| i < j < entries.len() ==> (#[trigger] entries[j]).0 != entries[i].0,
        json::field_text(params, key) == Some(seq!['@'] + entries[i].0),
    ensures
        json::field_text(resolved_at(entries, key, params, notes).0, key) == Some(entries[i].1),
{
    let value = seq!['@'] + entries[i].0;
    assert(value.skip(1) =~= entries[i].0);
    assert(value[0] == '@');
    lemma_ref_is_kept(entries, entries, i);
    json::lemma_set_then_get(params, key, JsonValue::Text(entries[i].1));
}

/// A ref whose lines all carry an id that other lines carry too is left as it
/// was written, and the step says so.
pub proof fn lemma_an_ambiguous_ref_is_not_rewritten(
    entries: Seq<(Seq<char>, Seq<char>)>,
    key: Seq<char>,
    params: JsonValue,
    notes: Seq<Seq<char>>,
    reference: Seq<char>,
)
    requires
        json::field_text(params, key) == Some(seq!['@'] + reference),
        forall|i: int|
            0 <= i < entries.len() && (#[trigger] entries[i]).0 == reference ==> carriers(
                entries,
                entries[i].1,
            ) > 1,
    ensures
        resolved_at(entries, key, params, notes).0 == params,
        resolved_at(entries, key, params, notes).1.len() == notes.len() + 1,
{
    let value = seq!['@'] + reference;
    assert(value.skip(1) =~= reference);
    assert(value[0] == '@');
    if refs_in(entries, entries, true).contains_key(reference) {
        lemma_refs_in(entries, entries, true, reference);
        let id = refs_in(entries, entries, true)[reference];
        let i = choose|i: int|
            0 <= i < entries.len() && #[trigger] entries[i] == (reference, id);
        assert(entries[i].0 == reference);
        assert(false);
    }
}

/// Recording rewrites the two arguments that name an element and the path of a
/// golden; every other argument is written down as it was sent.
pub proof fn lemma_other_arguments_are_kept(
    entries: Seq<(Seq<char>, Seq<char>)>,
    method: Seq<char>,
    params: JsonValue,
    place: Option<PlaceValue>,
    key: Seq<char>,
)
    requires
        key != "element_id"@,
        key != "root_element_id"@,
        key != "path"@,
    ensures
        json::field(recorded_step(entries, method, params, place).params, key) == json::field(
            params,
            key,
        ),
{
    let first = resolved_at(entries, "element_id"@, params, Seq::empty());
    lemma_resolved_keeps(entries, "element_id"@, params, Seq::empty(), key);
    lemma_resolved_keeps(entries, "root_element_id"@, first.0, first.1, key);
    let written = resolved(entries, params).0;
    if json::field_text(written, "path"@) is Some && place is Some {
        json::lemma_set_then_get(written, "path"@, JsonValue::Text(anchored(place->0)));
    }
}

proof fn lemma_resolved_keeps(
    entries: Seq<(Seq<char>, Seq<char>)>,
    key: Seq<char>,
    params: JsonValue,
    notes: Seq<Seq<char>>,
    other: Seq<char>,
)
    requires
        other != key,
    ensures
        json::field(resolved_at(entries, key, params, notes).0, other) == json::field(
            params,
            other,
        ),
{
    if json::field_text(params, key) is Some {
        let reference = json::field_text(params, key)->0.skip(1);
        json::lemma_set_then_get(
            params,
            key,
            JsonValue::Text(refs_in(entries, entries, true)[reference]),
        );
    }
}

/// A step that names its elements outright, and is no golden, is replayed with
/// the very arguments it was made with.
pub proof fn lemma_a_plain_step_replays_as_it_was_made(
    entries: Seq<(Seq<char>, Seq<char>)>,
    source: Option<Seq<char>>,
    method: Seq<char>,
    params: JsonValue,
    place: Option<PlaceValue>,
)
    requires
        method != golden::TOOL_NAME@,
        json::field_text(params, "element_id"@) matches Some(id) ==> id.len() == 0 || id[0] != '@',
        json::field_text(params, "root_element_id"@) matches Some(id) ==> id.len() == 0 || id[0]
            != '@',
    ensures
        ({
            let step = recorded_step(entries, method, params, place);
            step.method == method && script::params_seen(source, step.method, step.params)
                == params
        }),
{
}

/// A recorded golden means the same file when it is replayed, whatever
/// directory the replay is started in and however the script is named there:
/// from the working directory, the path that the tool sees leads to where the
/// golden lies.
pub proof fn lemma_a_recorded_golden_replays(
    entries: Seq<(Seq<char>, Seq<char>)>,
    cwd: Seq<Part>,
    source: Seq<char>,
    params: JsonValue,
    place: PlaceValue,
)
    requires
        json::field_text(params, "path"@) is Some,
        path::folded(cwd + script::script_dir(source)) == path::folded(place.base),
        path::relative_parts(place.base, place.target) is Some,
        path::writable(path::relative_parts(place.base, place.target)->0),
        path::can_climb(place.base, place.target),
    ensures
        ({
            let step = recorded_step(entries, golden::TOOL_NAME@, params, Some(place));
            let seen = json::field_text(
                script::params_seen(Some(source), step.method, step.params),
                "path"@,
            );
            seen is Some && path::folded(cwd + path::parts_in(seen->0)) == path::folded(
                place.target,
            )
        }),
{
    let first = resolved_at(entries, "element_id"@, params, Seq::empty());
    reveal_strlit("element_id");
    reveal_strlit("root_element_id");
    reveal_strlit("path");
    assert("path"@.len() != "element_id"@.len());
    assert("path"@.len() != "root_element_id"@.len());
    lemma_resolved_keeps(entries, "element_id"@, params, Seq::empty(), "path"@);
    lemma_resolved_keeps(entries, "root_element_id"@, first.0, first.1, "path"@);
    let written = resolved(entries, params).0;
    let relative = path::relative_parts(place.base, place.target)->0;
    let named = path::path_text(relative);
    json::lemma_set_then_get(written, "path"@, JsonValue::Text(named));
    path::lemma_path_round_trip(relative);
    path::lemma_relative_path_leads_to_target(place.base, place.target);
    if path::rooted(named) {
        assert(relative[0] == path::Part::Root);
        assert(path::anchor(relative[0]));
    }
    let step = recorded_step(entries, golden::TOOL_NAME@, params, Some(place));
    let dir = script::script_dir(source);
    script::lemma_a_golden_is_read_from_the_script(cwd, source, step.params, named);
    path::lemma_folding_joined(Seq::empty(), cwd + dir, relative);
    path::lemma_folding_joined(Seq::empty(), place.base, relative);
}

/// The count of an id is the number of lines that carry it.
pub proof fn lemma_carriers_are_lines(entries: Seq<(Seq<char>, Seq<char>)>, id: Seq<char>)
    ensures
        carriers(entries, id) == entries.filter(|entry: (Seq<char>, Seq<char>)| entry.1 == id).len(),
    decreases entries.len(),
{
    reveal(Seq::filter);
    if entries.len() > 0 {
        lemma_carriers_are_lines(entries.drop_last(), id);
    }
}

proof fn lemma_no_carrier(entries: Seq<(Seq<char>, Seq<char>)>, id: Seq<char>)
    requires
        forall|j: int| 0 <= j < entries.len() ==> (#[trigger] entries[j]).1 != id,
    ensures
        carriers(entries, id) == 0,
    decreases entries.len(),
{
    if entries.len() > 0 {
        let before = entries.drop_last();
        assert(forall|j: int| 0 <= j < before.len() ==> before[j] == entries[j]);
        assert(entries.last() == entries[entries.len() - 1]);
        lemma_no_carrier(before, id);
    }
}

/// Whether the line of an entry is the only one that carries its id.
pub open spec fn alone(entries: Seq<(Seq<char>, Seq<char>)>, i: int) -> bool {
    forall|j: int| 0 <= j < entries.len() && j != i ==> (#[trigger] entries[j]).1 != entries[i].1
}

/// An id is carried once where one line carries it and no other does, and more
/// than once where two do.
pub proof fn lemma_carried_once(entries: Seq<(Seq<char>, Seq<char>)>, i: int)
    requires
        0 <= i < entries.len(),
    ensures
        carriers(entries, entries[i].1) >= 1,
        carriers(entries, entries[i].1) == 1 <==> alone(entries, i),
    decreases entries.len(),
{
    let id = entries[i].1;
    let before = entries.drop_last();
    let last = entries.len() - 1;
    assert(forall|j: int| 0 <= j < before.len() ==> before[j] == entries[j]);
    assert(entries.last() == entries[last]);
    if i < last {
        lemma_carried_once(before, i);
        if entries[last].1 != id {
            if alone(before, i) {
                assert forall|j: int| 0 <= j < entries.len() && j != i implies (
                #[trigger] entries[j]).1 != id by {
                    if j < before.len() {
                        assert(before[j].1 != id);
                    }
                }
            } else {
                let j = choose|j: int|
                    0 <= j < before.len() && j != i && (#[trigger] before[j]).1 == before[i].1;
                assert(entries[j].1 == id);
            }
        }
    } else if carriers(before, id) > 0 {
        lemma_some_carrier(before, id);
        let j = choose|j: int| 0 <= j < before.len() && (#[trigger] before[j]).1 == id;
        assert(entries[j].1 == id);
    } else {
        assert forall|j: int| 0 <= j < entries.len() && j != i implies (#[trigger] entries[j]).1
            != id by {
            if entries[j].1 == id {
                assert(before[j].1 == id);
                lemma_carried_once(before, j);
            }
        }
    }
}

proof fn lemma_some_carrier(entries: Seq<(Seq<char>, Seq<char>)>, id: Seq<char>)
    requires
        carriers(entries, id) > 0,
    ensures
        exists|j: int| 0 <= j < entries.len() && (#[trigger] entries[j]).1 == id,
{
    if forall|j: int| 0 <= j < entries.len() ==> (#[trigger] entries[j]).1 != id {
        lemma_no_carrier(entries, id);
    }
}

proof fn lemma_key_names()
    ensures
        "element_id"@ != "root_element_id"@,
        "path"@ != "element_id"@,
        "path"@ != "root_element_id"@,
{
    reveal_strlit("element_id");
    reveal_strlit("root_element_id");
    reveal_strlit("path");
    assert("element_id"@.len() == 10 && "root_element_id"@.len() == 15 && "path"@.len() == 4);
}

/// One of the two arguments that name an element.
pub open spec fn names_an_element(key: Seq<char>) -> bool {
    key == "element_id"@ || key == "root_element_id"@
}

proof fn lemma_path_is_another_argument(
    entries: Seq<(Seq<char>, Seq<char>)>,
    method: Seq<char>,
    params: JsonValue,
    place: Option<PlaceValue>,
    key: Seq<char>,
)
    requires
        key != "path"@,
    ensures
        json::field(recorded_step(entries, method, params, place).params, key) == json::field(
            resolved(entries, params).0,
            key,
        ),
{
    let written = resolved(entries, params).0;
    if json::field_text(written, "path"@) is Some && place is Some {
        json::lemma_set_then_get(written, "path"@, JsonValue::Text(anchored(place->0)));
    }
}

/// In a recorded step, a ref stands as the id beside it in the snapshot: for
/// either argument that names an element, where no other line carries that id
/// and no later one the ref.
pub proof fn lemma_a_recorded_ref_is_the_id_beside_it(
    entries: Seq<(Seq<char>, Seq<char>)>,
    method: Seq<char>,
    params: JsonValue,
    place: Option<PlaceValue>,
    key: Seq<char>,
    i: int,
)
    requires
        names_an_element(key),
        0 <= i < entries.len(),
        alone(entries, i),
        forall|j: int| i < j < entries.len() ==> (#[trigger] entries[j]).0 != entries[i].0,
        json::field_text(params, key) == Some(seq!['@'] + entries[i].0),
    ensures
        json::field_text(recorded_step(entries, method, params, place).params, key) == Some(
            entries[i].1,
        ),
{
    lemma_key_names();
    lemma_carried_once(entries, i);
    let first = resolved_at(entries, "element_id"@, params, Seq::empty());
    lemma_path_is_another_argument(entries, method, params, place, key);
    if key == "element_id"@ {
        lemma_a_ref_becomes_the_id_beside_it(entries, key, params, Seq::empty(), i);
        lemma_resolved_keeps(entries, "root_element_id"@, first.0, first.1, key);
    } else {
        lemma_resolved_keeps(entries, "element_id"@, params, Seq::empty(), key);
        lemma_a_ref_becomes_the_id_beside_it(entries, key, first.0, first.1, i);
    }
}

proof fn lemma_kept_at(
    entries: Seq<(Seq<char>, Seq<char>)>,
    key: Seq<char>,
    params: JsonValue,
    notes: Seq<Seq<char>>,
)
    requires
        json::field_text(params, key) matches Some(value) ==> value.len() == 0 || value[0] != '@'
            || forall|i: int|
            0 <= i < entries.len() ==> (#[trigger] entries[i]).0 != value.skip(1) || !alone(
                entries,
                i,
            ),
    ensures
        resolved_at(entries, key, params, notes).0 == params,
{
    if let Some(value) = json::field_text(params, key) {
        if value.len() > 0 && value[0] == '@' {
            let reference = value.skip(1);
            if refs_in(entries, entries, true).contains_key(reference) {
                lemma_refs_in(entries, entries, true, reference);
                let id = refs_in(entries, entries, true)[reference];
                let i = choose|i: int|
                    0 <= i < entries.len() && #[trigger] entries[i] == (reference, id);
                lemma_carried_once(entries, i);
                assert(entries[i].0 == reference);
                assert(false);
            }
        }
    }
}

/// Whatever is not a ref with an id of its own stands in a recorded step as it
/// was sent: an id that was named outright, a ref without an id, and a ref
/// whose id other lines carry too.
pub proof fn lemma_what_is_not_rewritten(
    entries: Seq<(Seq<char>, Seq<char>)>,
    method: Seq<char>,
    params: JsonValue,
    place: Option<PlaceValue>,
    key: Seq<char>,
)
    requires
        names_an_element(key),
        json::field_text(params, key) matches Some(value) ==> value.len() == 0 || value[0] != '@'
            || forall|i: int|
            0 <= i < entries.len() ==> (#[trigger] entries[i]).0 != value.skip(1) || !alone(
                entries,
                i,
            ),
    ensures
        json::field(recorded_step(entries, method, params, place).params, key) == json::field(
            params,
            key,
        ),
{
    lemma_key_names();
    let first = resolved_at(entries, "element_id"@, params, Seq::empty());
    lemma_path_is_another_argument(entries, method, params, place, key);
    if key == "element_id"@ {
        lemma_kept_at(entries, key, params, Seq::empty());
        lemma_resolved_keeps(entries, "root_element_id"@, first.0, first.1, key);
    } else {
        lemma_resolved_keeps(entries, "element_id"@, params, Seq::empty(), key);
        lemma_kept_at(entries, key, first.0, first.1);
    }
}

/// The path of a golden is written as it leads from the script, or as the
/// absolute path where none leads there; any other step's path, and a golden's
/// whose place is not known, stands as it was sent.
pub proof fn lemma_which_paths_are_rewritten(
    entries: Seq<(Seq<char>, Seq<char>)>,
    method: Seq<char>,
    params: JsonValue,
    place: Option<PlaceValue>,
)
    ensures
        ({
            let step = recorded_step(entries, method, params, place);
            let written = json::field(step.params, "path"@);
            &&& method != "expect_screenshot"@ || place is None ==> written == json::field(
                params,
                "path"@,
            )
            &&& method == "expect_screenshot"@ && place is Some && json::field_text(params, "path"@)
                is Some ==> {
                let base = place->0.base;
                let target = place->0.target;
                &&& path::relative_parts(base, target) matches Some(relative) ==> written == Some(
                    JsonValue::Text(path::path_text(relative)),
                )
                &&& path::relative_parts(base, target) is None ==> written == Some(
                    JsonValue::Text(place->0.absolute),
                )
            }
            &&& json::field_text(params, "path"@) is None ==> written == json::field(
                params,
                "path"@,
            )
        }),
{
    lemma_key_names();
    let first = resolved_at(entries, "element_id"@, params, Seq::empty());
    lemma_resolved_keeps(entries, "element_id"@, params, Seq::empty(), "path"@);
    lemma_resolved_keeps(entries, "root_element_id"@, first.0, first.1, "path"@);
    let written = resolved(entries, params).0;
    if json::field_text(written, "path"@) is Some && place is Some {
        json::lemma_set_then_get(written, "path"@, JsonValue::Text(anchored(place->0)));
    }
}

/// An id that does not hold: two lines carry its last segment, or that ends in
/// six digits.
pub open spec fn shaky(entries: Seq<(Seq<char>, Seq<char>)>, id: Seq<char>) -> bool {
    let segment = last_segment(id);
    ||| exists|i: int, j: int|
        0 <= i < j < entries.len() && (#[trigger] entries[i]).1 == segment && (
        #[trigger] entries[j]).1 == segment
    ||| segment.len() >= 6 && forall|k: int|
        segment.len() - 6 <= k < segment.len() ==> '0' <= #[trigger] segment[k] <= '9'
}

/// There are doubts about an id exactly where it does not hold, and they name
/// it.
pub proof fn lemma_when_there_are_doubts(entries: Seq<(Seq<char>, Seq<char>)>, id: Seq<char>)
    ensures
        doubts(entries, id) is Some <==> shaky(entries, id),
        doubts(entries, id) matches Some(note) ==> text::has_prefix(
            note,
            "#"@ + last_segment(id),
        ),
{
    let segment = last_segment(id);
    let n = carriers(entries, segment);
    if n > 1 {
        lemma_some_carrier(entries, segment);
        let i = choose|i: int| 0 <= i < entries.len() && (#[trigger] entries[i]).1 == segment;
        lemma_carried_once(entries, i);
        let j = choose|j: int|
            0 <= j < entries.len() && j != i && (#[trigger] entries[j]).1 == entries[i].1;
        if i < j {
            assert(entries[i].1 == segment && entries[j].1 == segment);
        } else {
            assert(entries[j].1 == segment && entries[i].1 == segment);
        }
        let rest = " names "@ + text::decimal_of(n) + SEVERAL_CARRY_IT@;
        assert("#"@ + segment + " names "@ + text::decimal_of(n) + SEVERAL_CARRY_IT@ =~= "#"@
            + segment + rest);
        text::lemma_begins_with("#"@ + segment, rest);
    } else {
        assert forall|i: int, j: int|
            0 <= i < j < entries.len() && (#[trigger] entries[i]).1 == segment implies (
        #[trigger] entries[j]).1 != segment by {
            lemma_carried_once(entries, i);
        }
        text::lemma_begins_with("#"@ + segment, GENERATED_EACH_START@);
    }
    protocol::lemma_what_looks_generated(segment);
}

/// What a step is told by what it was sent with: whether an argument was left
/// as a ref that will not hold, or is an id that does not.
pub open spec fn unsound(
    entries: Seq<(Seq<char>, Seq<char>)>,
    params: JsonValue,
    key: Seq<char>,
) -> bool {
    match json::field_text(params, key) {
        None => false,
        Some(value) => if value.len() == 0 || value[0] != '@' {
            shaky(entries, value)
        } else {
            forall|i: int|
                0 <= i < entries.len() ==> (#[trigger] entries[i]).0 != value.skip(1) || !alone(
                    entries,
                    i,
                ) || shaky(entries, entries[i].1)
        },
    }
}

/// An argument that holds: it is absent, an id that is not shaky, or the ref of
/// one line, whose id no other carries and is not shaky.
pub open spec fn sound(
    entries: Seq<(Seq<char>, Seq<char>)>,
    params: JsonValue,
    key: Seq<char>,
) -> bool {
    match json::field_text(params, key) {
        None => true,
        Some(value) => if value.len() == 0 || value[0] != '@' {
            !shaky(entries, value)
        } else {
            exists|i: int|
                {
                    &&& 0 <= i < entries.len()
                    &&& #[trigger] entries[i].0 == value.skip(1)
                    &&& alone(entries, i)
                    &&& !shaky(entries, entries[i].1)
                    &&& forall|j: int|
                        i < j < entries.len() ==> (#[trigger] entries[j]).0 != entries[i].0
                }
        },
    }
}

proof fn lemma_notes_at(
    entries: Seq<(Seq<char>, Seq<char>)>,
    key: Seq<char>,
    params: JsonValue,
    notes: Seq<Seq<char>>,
)
    ensures
        ({
            let after = resolved_at(entries, key, params, notes).1;
            &&& sound(entries, params, key) ==> after == notes
            &&& unsound(entries, params, key) ==> after.len() == notes.len() + 1
            &&& after.len() >= notes.len()
            &&& forall|k: int| 0 <= k < notes.len() ==> #[trigger] after[k] == notes[k]
        }),
{
    if let Some(value) = json::field_text(params, key) {
        let unique = refs_in(entries, entries, true);
        if value.len() == 0 || value[0] != '@' {
            lemma_when_there_are_doubts(entries, value);
        } else {
            let reference = value.skip(1);
            if sound(entries, params, key) {
                let i = choose|i: int|
                    {
                        &&& 0 <= i < entries.len()
                        &&& #[trigger] entries[i].0 == reference
                        &&& alone(entries, i)
                        &&& !shaky(entries, entries[i].1)
                        &&& forall|j: int|
                            i < j < entries.len() ==> (#[trigger] entries[j]).0 != entries[i].0
                    };
                lemma_carried_once(entries, i);
                lemma_ref_is_kept(entries, entries, i);
            }
            if unique.contains_key(reference) {
                lemma_refs_in(entries, entries, true, reference);
                let id = unique[reference];
                let i = choose|i: int|
                    0 <= i < entries.len() && #[trigger] entries[i] == (reference, id);
                lemma_carried_once(entries, i);
                lemma_when_there_are_doubts(entries, id);
                assert(entries[i].0 == reference);
            }
        }
    }
}

/// A step is written down with a note exactly where one is due: none where both
/// of the arguments that name an element hold, and one where either does not.
pub proof fn lemma_when_a_step_is_noted(
    entries: Seq<(Seq<char>, Seq<char>)>,
    method: Seq<char>,
    params: JsonValue,
    place: Option<PlaceValue>,
)
    ensures
        ({
            let step = recorded_step(entries, method, params, place);
            &&& sound(entries, params, "element_id"@) && sound(
                entries,
                params,
                "root_element_id"@,
            ) ==> step.note is None
            &&& unsound(entries, params, "element_id"@) || unsound(
                entries,
                params,
                "root_element_id"@,
            ) ==> step.note is Some
        }),
{
    lemma_key_names();
    let first = resolved_at(entries, "element_id"@, params, Seq::empty());
    lemma_notes_at(entries, "element_id"@, params, Seq::empty());
    lemma_resolved_keeps(entries, "element_id"@, params, Seq::empty(), "root_element_id"@);
    lemma_notes_at(entries, "root_element_id"@, first.0, first.1);
}

/// A call to a tool that is not the server's own adds one step, of that method;
/// a call to one that is changes nothing. A snapshot replaces the refs that are
/// known, and nothing else does.
pub proof fn lemma_a_call_adds_its_step(
    before: RecorderValue,
    method: Seq<char>,
    params: JsonValue,
    snapshot: Option<Seq<char>>,
    place: Option<PlaceValue>,
)
    ensures
        ({
            let after = recorded(before, method, params, snapshot, place);
            let n = before.script.steps.len() as int;
            &&& method == "gpui_guide"@ || method == "replay_script"@ ==> after == before
            &&& method != "gpui_guide"@ && method != "replay_script"@ ==> {
                &&& after.script.steps.len() == n + 1
                &&& after.script.steps[n].method == method
                &&& after.script.steps[n] == recorded_step(after.entries, method, params, place)
                &&& snapshot matches Some(text) ==> after.entries == entries_on(
                    text::lines_of(text),
                )
                &&& snapshot is None ==> after.entries == before.entries
            }
            &&& after.viewport_probed == before.viewport_probed
            &&& after.script.app == before.script.app
            &&& after.script.source == before.script.source
            &&& after.script.recorded_with == before.script.recorded_with
        }),
{
}

/// A snapshot is read line by line: what two runs of lines carry is what the
/// first carries and then what the second does, and one line carries what it
/// does or nothing.
pub proof fn lemma_entries_line_by_line(a: Seq<Seq<char>>, b: Seq<Seq<char>>, line: Seq<char>)
    ensures
        entries_on(a + b) == entries_on(a) + entries_on(b),
        entry_on(line) matches Some(entry) ==> entries_on(seq![line]) == seq![entry],
        entry_on(line) is None ==> entries_on(seq![line]).len() == 0,
    decreases b.len(),
{
    assert(seq![line].drop_last() =~= Seq::<Seq<char>>::empty());
    assert(seq![line].last() == line);
    assert(entries_on(Seq::<Seq<char>>::empty()) =~= Seq::empty());
    if let Some(entry) = entry_on(line) {
        assert(entries_on(seq![line]) =~= seq![entry]);
    }
    if b.len() == 0 {
        assert(a + b =~= a);
        assert(entries_on(a) + entries_on(b) =~= entries_on(a));
    } else {
        lemma_entries_line_by_line(a, b.drop_last(), line);
        assert((a + b).drop_last() =~= a + b.drop_last());
        assert((a + b).last() == b.last());
        assert(entries_on(a + b) =~= entries_on(a) + entries_on(b));
    }
}

proof fn lemma_a_ref_at_the_end(before_ref: Seq<char>, n: nat)
    requires
        n <= usize::MAX,
    ensures
        ({
            let reference = seq!['e'] + text::decimal_of(n);
            &&& text::split_last(before_ref + " @e"@ + text::decimal_of(n), " @"@) == Some(
                (before_ref, reference),
            )
            &&& text::first_word_of(reference) == Some(reference)
            &&& looks_like_a_ref(reference)
        }),
{
    reveal_strlit(" @");
    reveal_strlit(" @e");
    let digits = text::decimal_of(n);
    text::lemma_decimal_round_trip(n);
    text::lemma_number_in(n, usize::MAX as nat, digits);
    let reference = seq!['e'] + digits;
    let line = before_ref + " @e"@ + digits;
    let at = before_ref.len() as int;
    assert(line =~= before_ref + " @"@ + reference);
    assert(line.subrange(at, at + 2) =~= " @"@);
    assert forall|j: int| at < j <= line.len() implies !#[trigger] text::occurs_at(
        line,
        " @"@,
        j,
    ) by {
        if text::occurs_at(line, " @"@, j) {
            assert(line.subrange(j, j + 2)[0] == ' ');
            assert(line[j] == ' ');
            if j > at + 2 {
                assert(text::digit(digits[j - at - 3]));
                assert(line[j] == digits[j - at - 3]);
            }
        }
    }
    text::lemma_last_match_is(line, " @"@, at, line.len() as int);
    assert(line.take(at) =~= before_ref);
    assert(line.skip(at + 2) =~= reference);
    let none = Seq::<char>::empty();
    assert(text::none_white(reference)) by {
        assert forall|k: int| 0 <= k < reference.len() implies !text::white(
            #[trigger] reference[k],
        ) by {
            if k > 0 {
                assert(text::digit(digits[k - 1]));
            }
        }
    }
    text::lemma_first_word_is(none, reference, none);
    assert(none + reference + none =~= reference);
    assert(reference.skip(1) =~= digits);
}

proof fn lemma_an_id_at_the_end(head: Seq<char>, id: Seq<char>)
    requires
        looks_like_an_id(id),
    ensures
        text::split_last(head + " #"@ + id, " #"@) == Some((head, id)),
        text::first_word_of(id) == Some(id),
        quotes(id) == 0,
{
    reveal_strlit(" #");
    let line = head + " #"@ + id;
    let mark = head.len() as int;
    assert(line.subrange(mark, mark + 2) =~= " #"@);
    assert forall|k: int| 0 <= k < id.len() implies #[trigger] id[k] != '"' && !text::white(
        id[k],
    ) by {
        assert(id_char(id[k]));
    }
    assert forall|j: int| mark < j <= line.len() implies !#[trigger] text::occurs_at(
        line,
        " #"@,
        j,
    ) by {
        if text::occurs_at(line, " #"@, j) {
            assert(line.subrange(j, j + 2)[0] == ' ');
            assert(line[j] == ' ');
            if j >= mark + 2 {
                assert(line[j] == id[j - mark - 2]);
                assert(!text::white(id[j - mark - 2]));
            }
        }
    }
    text::lemma_last_match_is(line, " #"@, mark, line.len() as int);
    assert(line.take(mark) =~= head);
    assert(line.skip(mark + 2) =~= id);
    let none = Seq::<char>::empty();
    text::lemma_first_word_is(none, id, none);
    assert(none + id + none =~= id);
    lemma_no_quotes(id);
}

/// A line of a snapshot reads back as its ref and its id: whatever stands
/// before the mark, a quote that is never closed included, and whatever ids of
/// lower-case letters, digits, dashes and underscores there are.
pub proof fn lemma_a_line_reads_back(head: Seq<char>, id: Seq<char>, n: nat)
    requires
        id.len() > 0,
        forall|i: int|
            0 <= i < id.len() ==> {
                ||| 'a' <= #[trigger] id[i] <= 'z'
                ||| '0' <= id[i] <= '9'
                ||| id[i] == '-'
                ||| id[i] == '_'
            },
        n <= usize::MAX,
    ensures
        entry_on(head + " #"@ + id + " @e"@ + text::decimal_of(n)) == Some(
            (seq!['e'] + text::decimal_of(n), id),
        ),
{
    assert forall|i: int| 0 <= i < id.len() implies id_char(#[trigger] id[i]) by {}
    assert(looks_like_an_id(id));
    lemma_a_ref_at_the_end(head + " #"@ + id, n);
    lemma_an_id_at_the_end(head, id);
    assert(!quoted(head, id));
}

/// Only ids of lower-case letters, digits, dashes and underscores are read, and
/// only refs of an `e` and a number.
pub proof fn lemma_what_is_read_of_a_line(line: Seq<char>)
    requires
        entry_on(line) is Some,
    ensures
        ({
            let (reference, id) = entry_on(line)->0;
            &&& id.len() > 0
            &&& forall|i: int|
                0 <= i < id.len() ==> {
                    ||| 'a' <= #[trigger] id[i] <= 'z'
                    ||| '0' <= id[i] <= '9'
                    ||| id[i] == '-'
                    ||| id[i] == '_'
                }
            &&& reference.len() > 1 && reference[0] == 'e'
            &&& text::number_in(reference.skip(1), usize::MAX as nat) is Some
        }),
{
    let (reference, id) = entry_on(line)->0;
    text::lemma_number_in(0, usize::MAX as nat, reference.skip(1));
    assert forall|i: int| 0 <= i < id.len() implies ('a' <= #[trigger] id[i] <= 'z' || '0' <= id[i]
        <= '9' || id[i] == '-' || id[i] == '_') by {
        assert(id_char(id[i]));
    }
}

/// The last segment of an id is what stands behind its last dot, or all of it,
/// without the `#`s in front.
pub proof fn lemma_last_segment(front: Seq<char>, segment: Seq<char>)
    requires
        forall|i: int| 0 <= i < segment.len() ==> segment[i] != '.',
    ensures
        last_segment(front + seq!['.'] + segment) == segment,
        segment.len() == 0 || segment[0] != '#' ==> last_segment(segment) == segment,
        last_segment(seq!['#'] + front) == last_segment(front),
    decreases front.len(),
{
    reveal_strlit(".");
    let dot = seq!['.'];
    assert("."@ =~= dot);
    let whole = front + dot + segment;
    assert((seq!['#'] + front).skip(1) =~= front);
    if front.len() > 0 && front[0] == '#' {
        let less = front.skip(1);
        lemma_last_segment(less, segment);
        assert(whole.skip(1) =~= less + dot + segment);
        assert(whole[0] == '#');
    } else {
        assert(whole[0] != '#');
        let i = front.len() as int;
        assert(whole.subrange(i, i + 1) =~= dot);
        assert forall|j: int| i < j <= whole.len() implies !#[trigger] text::occurs_at(
            whole,
            "."@,
            j,
        ) by {
            if text::occurs_at(whole, "."@, j) {
                assert(whole.subrange(j, j + 1)[0] == '.');
                assert(whole[j] == segment[j - i - 1]);
            }
        }
        text::lemma_last_match_is(whole, "."@, i, whole.len() as int);
        assert(whole.skip(i + 1) =~= segment);
    }
    text::lemma_last_match(segment, "."@, segment.len() as int);
    let k = text::last_match(segment, "."@, segment.len() as int);
    if k >= 0 {
        assert(segment.subrange(k, k + 1)[0] == '.');
        assert(segment[k] == '.');
    }
}

/// The size of the first window is its content size, or its bounds where it
/// gives none; no later window is looked at, and a list without one gives none.
pub proof fn lemma_the_first_window_counts(first: JsonValue, others: Seq<JsonValue>)
    ensures
        ({
            let size = first_window_of(JsonValue::Array(seq![first] + others));
            let content = replay::viewport_in(json::field_or_null(first, "content_size"@));
            let bounds = replay::viewport_in(json::field_or_null(first, "bounds"@));
            &&& content is Some ==> size == content
            &&& content is None ==> size == bounds
        }),
        first_window_of(JsonValue::Array(Seq::empty())) is None,
        !(first is Array) ==> first_window_of(first) is None,
{
    assert((seq![first] + others)[0] == first);
}

proof fn lemma_no_quotes(s: Seq<char>)
    requires
        forall|i: int| 0 <= i < s.len() ==> #[trigger] s[i] != '"',
    ensures
        quotes(s) == 0,
    decreases s.len(),
{
    if s.len() > 0 {
        let before = s.drop_last();
        assert(forall|i: int| 0 <= i < before.len() ==> before[i] == s[i]);
        lemma_no_quotes(before);
        assert(s.last() == s[s.len() - 1]);
    }
}

/// The quotes in a run of characters are counted one by one.
pub proof fn lemma_quotes_are_counted(s: Seq<char>)
    ensures
        quotes(s) == s.filter(|c: char| c == '"').len(),
    decreases s.len(),
{
    reveal(Seq::filter);
    if s.len() > 0 {
        lemma_quotes_are_counted(s.drop_last());
    }
}

/// Whether a ref leads to no id that one line alone carries.
pub open spec fn leads_nowhere(
    entries: Seq<(Seq<char>, Seq<char>)>,
    reference: Seq<char>,
) -> bool {
    forall|i: int|
        0 <= i < entries.len() ==> (#[trigger] entries[i]).0 != reference || !alone(entries, i)
}

proof fn lemma_what_is_noted_at(
    entries: Seq<(Seq<char>, Seq<char>)>,
    key: Seq<char>,
    params: JsonValue,
    notes: Seq<Seq<char>>,
    i: int,
)
    requires
        json::field_text(params, key) is Some,
    ensures
        ({
            let value = json::field_text(params, key)->0;
            let after = resolved_at(entries, key, params, notes).1;
            let is_ref = value.len() > 0 && value[0] == '@';
            let here = 0 <= i < entries.len() && entries[i].0 == value.skip(1) && forall|j: int|
                i < j < entries.len() ==> (#[trigger] entries[j]).0 != entries[i].0;
            &&& !is_ref && shaky(entries, value) ==> after == notes.push(
                doubts(entries, value)->0,
            )
            &&& is_ref && leads_nowhere(entries, value.skip(1)) ==> after.len() == notes.len() + 1
                && text::has_prefix(after.last(), "'"@ + value)
            &&& is_ref && leads_nowhere(entries, value.skip(1)) && here ==> text::mentions(
                after.last(),
                " pointed at #"@ + entries[i].1,
            )
            &&& is_ref && here && alone(entries, i) && shaky(entries, entries[i].1) ==> after
                == notes.push(doubts(entries, entries[i].1)->0)
        }),
{
    let value = json::field_text(params, key)->0;
    let is_ref = value.len() > 0 && value[0] == '@';
    let unique = refs_in(entries, entries, true);
    let ambiguous = refs_in(entries, entries, false);
    let reference = value.skip(1);
    let here = 0 <= i < entries.len() && entries[i].0 == reference && forall|j: int|
        i < j < entries.len() ==> (#[trigger] entries[j]).0 != entries[i].0;
    lemma_when_there_are_doubts(entries, value);
    if is_ref && leads_nowhere(entries, reference) {
        if unique.contains_key(reference) {
            lemma_refs_in(entries, entries, true, reference);
            let id = unique[reference];
            let k = choose|k: int|
                0 <= k < entries.len() && #[trigger] entries[k] == (reference, id);
            lemma_carried_once(entries, k);
            assert(entries[k].0 == reference);
            assert(false);
        }
        if here {
            lemma_carried_once(entries, i);
            lemma_last_ref_is_kept(entries, entries, false, i);
        }
        reveal_strlit("' pointed at #");
        reveal_strlit(" pointed at #");
        if ambiguous.contains_key(reference) {
            let id = ambiguous[reference];
            let pointed = "' pointed at #"@;
            assert(pointed =~= pointed.take(1) + " pointed at #"@);
            let note = "'"@ + value + pointed + id + REF_IS_AMBIGUOUS@;
            assert(note =~= ("'"@ + value) + (pointed + id + REF_IS_AMBIGUOUS@));
            text::lemma_begins_with("'"@ + value, pointed + id + REF_IS_AMBIGUOUS@);
            assert(note =~= ("'"@ + value + pointed.take(1)) + (" pointed at #"@ + id)
                + REF_IS_AMBIGUOUS@);
            text::lemma_mentions(
                "'"@ + value + pointed.take(1),
                " pointed at #"@ + id,
                REF_IS_AMBIGUOUS@,
            );
        } else {
            text::lemma_begins_with("'"@ + value, REF_HAS_NO_ID@);
        }
    }
    if is_ref && here && alone(entries, i) {
        lemma_carried_once(entries, i);
        lemma_last_ref_is_kept(entries, entries, true, i);
        lemma_when_there_are_doubts(entries, entries[i].1);
    }
}

proof fn lemma_last_ref_is_kept(
    entries: Seq<(Seq<char>, Seq<char>)>,
    all: Seq<(Seq<char>, Seq<char>)>,
    unique: bool,
    i: int,
)
    requires
        0 <= i < entries.len(),
        (carriers(all, entries[i].1) == 1) == unique,
        forall|j: int| i < j < entries.len() ==> (#[trigger] entries[j]).0 != entries[i].0,
    ensures
        refs_in(entries, all, unique).contains_key(entries[i].0),
        refs_in(entries, all, unique)[entries[i].0] == entries[i].1,
    decreases entries.len(),
{
    let last = entries.len() - 1;
    assert(entries.last() == entries[last]);
    if i < last {
        let before = entries.drop_last();
        assert(forall|j: int| 0 <= j < before.len() ==> before[j] == entries[j]);
        lemma_last_ref_is_kept(before, all, unique, i);
    }
}

/// The note on a step says what is wrong with each argument that names an
/// element: the doubts about an id; of a ref that will not hold, the ref, and
/// the id that it shares with other lines where it has one.
pub proof fn lemma_what_a_note_says(
    entries: Seq<(Seq<char>, Seq<char>)>,
    method: Seq<char>,
    params: JsonValue,
    place: Option<PlaceValue>,
    key: Seq<char>,
    i: int,
)
    requires
        names_an_element(key),
        json::field_text(params, key) is Some,
    ensures
        ({
            let value = json::field_text(params, key)->0;
            let note = recorded_step(entries, method, params, place).note;
            let is_ref = value.len() > 0 && value[0] == '@';
            let here = 0 <= i < entries.len() && entries[i].0 == value.skip(1) && forall|j: int|
                i < j < entries.len() ==> (#[trigger] entries[j]).0 != entries[i].0;
            &&& !is_ref && shaky(entries, value) ==> note is Some && text::mentions(
                note->0,
                doubts(entries, value)->0,
            )
            &&& is_ref && leads_nowhere(entries, value.skip(1)) ==> note is Some && text::mentions(
                note->0,
                "'"@ + value,
            )
            &&& is_ref && leads_nowhere(entries, value.skip(1)) && here ==> text::mentions(
                note->0,
                " pointed at #"@ + entries[i].1,
            )
            &&& is_ref && here && alone(entries, i) && shaky(entries, entries[i].1) ==> note is Some
                && text::mentions(note->0, doubts(entries, entries[i].1)->0)
        }),
{
    lemma_key_names();
    let value = json::field_text(params, key)->0;
    let first = resolved_at(entries, "element_id"@, params, Seq::empty());
    lemma_resolved_keeps(entries, "element_id"@, params, Seq::empty(), "root_element_id"@);
    lemma_notes_at(entries, "element_id"@, params, Seq::empty());
    lemma_notes_at(entries, "root_element_id"@, first.0, first.1);
    let second = resolved_at(entries, "root_element_id"@, first.0, first.1);
    let at: int = if key == "element_id"@ {
        lemma_what_is_noted_at(entries, key, params, Seq::empty(), i);
        0
    } else {
        lemma_what_is_noted_at(entries, key, first.0, first.1, i);
        first.1.len() as int
    };
    if second.1.len() > at {
        let one = second.1[at];
        text::lemma_joined_mentions(second.1, " "@, at);
        let whole = text::joined(second.1, " "@);
        assert(text::mentions(whole, one));
        if text::has_prefix(one, "'"@ + value) {
            lemma_mentions_more(whole, one, "'"@ + value, 0);
        }
        if 0 <= i < entries.len() {
            let pointed = " pointed at #"@ + entries[i].1;
            if text::mentions(one, pointed) {
                let k = choose|k: int| #[trigger] text::occurs_at(one, pointed, k);
                lemma_mentions_more(whole, one, pointed, k);
            }
        }
    }
}

proof fn lemma_mentions_more(whole: Seq<char>, part: Seq<char>, inner: Seq<char>, k: int)
    requires
        text::mentions(whole, part),
        text::occurs_at(part, inner, k),
    ensures
        text::mentions(whole, inner),
{
    let i = choose|i: int| #[trigger] text::occurs_at(whole, part, i);
    assert(part.subrange(k, k + inner.len()) =~= whole.subrange(i + k, i + k + inner.len())) by {
        assert(whole.subrange(i, i + part.len()) == part);
        assert forall|j: int| 0 <= j < inner.len() implies #[trigger] part.subrange(
            k,
            k + inner.len(),
        )[j] == whole.subrange(i + k, i + k + inner.len())[j] by {
            assert(part[k + j] == whole.subrange(i, i + part.len())[k + j]);
        }
    }
    assert(text::occurs_at(whole, inner, i + k));
}

/// Doubts about an id that several lines carry say how many do.
pub proof fn lemma_doubts_count_the_lines(entries: Seq<(Seq<char>, Seq<char>)>, id: Seq<char>)
    ensures
        ({
            let n = entries.filter(
                |entry: (Seq<char>, Seq<char>)| entry.1 == last_segment(id),
            ).len();
            n > 1 ==> doubts(entries, id) is Some && text::has_prefix(
                doubts(entries, id)->0,
                "#"@ + last_segment(id) + " names "@ + text::decimal_of(n),
            )
        }),
{
    let segment = last_segment(id);
    lemma_carriers_are_lines(entries, segment);
    text::lemma_begins_with(
        "#"@ + segment + " names "@ + text::decimal_of(carriers(entries, segment)),
        SEVERAL_CARRY_IT@,
    );
}

/// The size of the window is written down once, from the first window that has
/// one, and is never revised; noting it changes nothing else in the script.
pub proof fn lemma_the_size_is_written_once(
    before: RecorderValue,
    size: WindowSize,
    later: Option<WindowSize>,
)
    ensures
        ({
            let after = noted(before, Some(size));
            let none = noted(before, None);
            &&& after.viewport_probed && none.viewport_probed
            &&& before.script.viewport is Some ==> after.script == before.script
            &&& before.script.viewport is None && size.whole_width >= 1 && size.whole_height >= 1
                ==> after.script.viewport == Some(size.viewport@)
            &&& before.script.viewport is None && (size.whole_width == 0 || size.whole_height == 0)
                ==> after.script.viewport is None
            &&& none.script == before.script
            &&& after.script.viewport is Some ==> noted(after, later) == after
            &&& after.script.steps == before.script.steps
            &&& after.script.name == before.script.name
            &&& after.entries == before.entries
            &&& after.path == before.path
        }),
{
}

/// A call that failed is not recorded. What the agent was shown is read for refs
/// only where it is a snapshot.
pub proof fn lemma_what_is_recorded_of_an_outcome(
    before: RecorderValue,
    method: Seq<char>,
    params: JsonValue,
    said: Seq<char>,
    place: Option<PlaceValue>,
)
    ensures
        outcome_recorded(before, method, params, None, place) == before,
        ({
            let after = outcome_recorded(before, method, params, Some(said), place);
            let n = before.script.steps.len() as int;
            let own = method == "gpui_guide"@ || method == "replay_script"@;
            &&& own ==> after == before
            &&& !own ==> after.script.steps.len() == n + 1 && after.script.steps[n]
                == recorded_step(after.entries, method, params, place)
            &&& method == "ui_snapshot"@ ==> after.entries == entries_on(text::lines_of(said))
            &&& method != "ui_snapshot"@ ==> after.entries == before.entries
        }),
{
    methods::lemma_stamps();
}

} // verus!
