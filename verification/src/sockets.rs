//! Finding the app: socket names, and which of several instances to talk to.
use vstd::prelude::*;
use vstd::string::*;

use crate::text;

verus! {

/// One discovered GPUI app instance reachable via its MCP socket.
#[derive(Debug)]
pub struct Instance {
    pub app_name: String,
    pub pid: u32,
    pub path: String,
    /// When the socket was last modified, in nanoseconds since the epoch.
    pub mtime: i128,
}

/// What an [`Instance`] holds.
pub struct InstanceValue {
    pub app_name: Seq<char>,
    pub pid: u32,
    pub path: Seq<char>,
    pub mtime: i128,
}

impl View for Instance {
    type V = InstanceValue;

    open spec fn view(&self) -> InstanceValue {
        InstanceValue {
            app_name: self.app_name@,
            pid: self.pid,
            path: self.path@,
            mtime: self.mtime,
        }
    }
}

/// What the instances of a list hold.
pub open spec fn instances_of(list: Seq<Instance>) -> Seq<InstanceValue> {
    Seq::new(list.len(), |i: int| list[i]@)
}

/// The name of the socket of an app instance.
pub open spec fn socket_name(app: Seq<char>, pid: Seq<char>) -> Seq<char> {
    "gpui-mcp-"@ + app + "-"@ + pid + ".sock"@
}

/// The app name and the process id that a socket name carries. The app name
/// may itself contain `-`, so the last one separates the two.
pub open spec fn socket_parts(name: Seq<char>) -> Option<(Seq<char>, u32)> {
    if !text::has_prefix(name, "gpui-mcp-"@) {
        None
    } else {
        let rest = name.skip("gpui-mcp-"@.len() as int);
        if !text::has_suffix(rest, ".sock"@) {
            None
        } else {
            let middle = rest.take(rest.len() - ".sock"@.len());
            match text::split_last(middle, "-"@) {
                None => None,
                Some((app, pid)) => match text::number_in(pid, u32::MAX as nat) {
                    None => None,
                    Some(pid) => if app.len() == 0 {
                        None
                    } else {
                        Some((app, pid as u32))
                    },
                },
            }
        }
    }
}

/// Parse a gpui-mcp socket filename into `(app_name, pid)`.
///
/// Expected format: `gpui-mcp-{app_name}-{pid}.sock`. Returns `None` for any
/// filename that doesn't match or has a non-numeric PID.
pub fn parse_socket_name(name: &str) -> (r: Option<(String, u32)>)
    ensures
        match r {
            Some((app, pid)) => socket_parts(name@) == Some((app@, pid)),
            None => socket_parts(name@) is None,
        },
{
    let rest: &str = match text::strip_prefix(name, "gpui-mcp-") {
        Some(rest) => rest,
        None => {
            return None;
        },
    };
    let middle: &str = match text::strip_suffix(rest, ".sock") {
        Some(middle) => middle,
        None => {
            return None;
        },
    };
    match text::rsplit_once(middle, "-") {
        Some((app, pid)) => match text::parse_number(pid, u32::MAX as u64) {
            Some(pid) => if app.unicode_len() == 0 {
                None
            } else {
                Some((app.to_owned(), pid as u32))
            },
            None => None,
        },
        None => None,
    }
}

/// The socket name of an app and a process id reads back as that app and that
/// id, dashes in the app's name or not.
pub proof fn lemma_socket_name_round_trip(app: Seq<char>, pid: u32)
    requires
        app.len() > 0,
    ensures
        socket_parts(socket_name(app, text::decimal_of(pid as nat))) == Some((app, pid)),
{
    let digits = text::decimal_of(pid as nat);
    text::lemma_decimal_round_trip(pid as nat);
    let prefix = "gpui-mcp-"@;
    let dash = "-"@;
    let suffix = ".sock"@;
    let name = socket_name(app, digits);
    let middle = app + dash + digits;
    reveal_strlit("-");
    assert(dash =~= seq!['-']);
    assert(name.subrange(0, prefix.len() as int) =~= prefix);
    let rest = name.skip(prefix.len() as int);
    assert(rest =~= middle + suffix);
    assert(rest.subrange(rest.len() - suffix.len(), rest.len() as int) =~= suffix);
    assert(rest.take(rest.len() - suffix.len()) =~= middle);
    let i = app.len() as int;
    assert(middle.subrange(i, i + 1) =~= dash);
    assert forall|j: int| i < j <= middle.len() implies !#[trigger] text::occurs_at(
        middle,
        dash,
        j,
    ) by {
        if text::occurs_at(middle, dash, j) {
            assert(middle.subrange(j, j + 1)[0] == dash[0]);
            assert(middle[j] == digits[j - i - 1]);
            assert(text::digit(digits[j - i - 1]));
        }
    }
    text::lemma_last_match_is(middle, dash, i, middle.len() as int);
    assert(middle.take(i) =~= app);
    assert(middle.skip(i + 1) =~= digits);
    assert(text::digit(digits[0]));
}

/// A socket worth probing: its name parses, and names the app asked for where
/// one was.
pub open spec fn candidate(name: Seq<char>, app_filter: Option<Seq<char>>) -> Option<
    (Seq<char>, u32),
> {
    match socket_parts(name) {
        None => None,
        Some((app, pid)) => match app_filter {
            Some(filter) => if app == filter {
                Some((app, pid))
            } else {
                None
            },
            None => Some((app, pid)),
        },
    }
}

/// Whether a file of the temp directory is a socket worth probing, and whose.
///
/// If `app_filter` is `Some`, only sockets of that app are.
pub fn socket_candidate(name: &str, app_filter: Option<&str>) -> (r: Option<(String, u32)>)
    ensures
        match r {
            Some((app, pid)) => candidate(name@, text::maybe(app_filter)) == Some((app@, pid)),
            None => candidate(name@, text::maybe(app_filter)) is None,
        },
{
    match parse_socket_name(name) {
        Some((app, pid)) => match app_filter {
            Some(filter) => if text::same_text(app.as_str(), filter) {
                Some((app, pid))
            } else {
                None
            },
            None => Some((app, pid)),
        },
        None => None,
    }
}

/// Where an instance goes in a list that is newest first: behind every one
/// that is as new or newer.
pub open spec fn place_in(list: Seq<InstanceValue>, mtime: i128, from: int) -> int
    decreases list.len() - from,
{
    if 0 <= from < list.len() && list[from].mtime >= mtime {
        place_in(list, mtime, from + 1)
    } else {
        from
    }
}

/// The instances, newest first; those of one time in the order they were
/// found.
pub open spec fn newest_first_of(list: Seq<InstanceValue>) -> Seq<InstanceValue>
    decreases list.len(),
{
    if list.len() == 0 {
        Seq::empty()
    } else {
        let sorted = newest_first_of(list.drop_last());
        sorted.insert(place_in(sorted, list.last().mtime, 0), list.last())
    }
}

proof fn lemma_place_in(list: Seq<InstanceValue>, mtime: i128, from: int)
    requires
        0 <= from <= list.len(),
    ensures
        from <= place_in(list, mtime, from) <= list.len(),
        forall|j: int| from <= j < place_in(list, mtime, from) ==> list[j].mtime >= mtime,
        place_in(list, mtime, from) < list.len() ==> list[place_in(list, mtime, from)].mtime
            < mtime,
    decreases list.len() - from,
{
    if from < list.len() && list[from].mtime >= mtime {
        lemma_place_in(list, mtime, from + 1);
    }
}

/// The instances, newest first; those of one time in the order they were
/// found.
pub fn newest_first(list: Vec<Instance>) -> (r: Vec<Instance>)
    ensures
        instances_of(r@) == newest_first_of(instances_of(list@)),
{
    let ghost all = instances_of(list@);
    let mut rest: Vec<Instance> = list;
    let mut out: Vec<Instance> = Vec::new();
    let mut backward: Vec<Instance> = Vec::new();
    while rest.len() > 0
        invariant
            rest@.len() + backward@.len() == all.len(),
            forall|k: int| 0 <= k < rest@.len() ==> (#[trigger] rest@[k])@ == all[k],
            forall|k: int|
                0 <= k < backward@.len() ==> (#[trigger] backward@[k])@ == all[all.len() - 1 - k],
        decreases rest@.len(),
    {
        if let Some(instance) = rest.pop() {
            backward.push(instance);
        }
    }
    let ghost mut taken: int = 0;
    proof {
        assert(instances_of(out@) =~= Seq::empty());
        assert(all.take(0) =~= Seq::empty());
    }
    while backward.len() > 0
        invariant
            0 <= taken,
            backward@.len() + taken == all.len(),
            forall|k: int|
                0 <= k < backward@.len() ==> (#[trigger] backward@[k])@ == all[all.len() - 1 - k],
            instances_of(out@) == newest_first_of(all.take(taken)),
        decreases backward@.len(),
    {
        let ghost before = instances_of(out@);
        if let Some(instance) = backward.pop() {
            let ghost value = instance@;
            let mut i: usize = 0;
            while i < out.len() && out[i].mtime >= instance.mtime
                invariant
                    i <= out@.len(),
                    place_in(instances_of(out@), instance.mtime, 0) == place_in(
                        instances_of(out@),
                        instance.mtime,
                        i as int,
                    ),
                decreases out@.len() - i,
            {
                i += 1;
            }
            out.insert(i, instance);
            proof {
                let longer = all.take(taken + 1);
                assert(longer.drop_last() =~= all.take(taken));
                assert(longer.last() == value);
                assert(instances_of(out@) =~= before.insert(i as int, value));
                taken = taken + 1;
            }
        }
    }
    proof {
        assert(all.take(taken) =~= all);
    }
    out
}

/// Sorting keeps exactly the instances there were, and puts no older one
/// before a newer: the first is as new as any.
pub proof fn lemma_newest_first(list: Seq<InstanceValue>)
    ensures
        newest_first_of(list).to_multiset() == list.to_multiset(),
        newest_first_of(list).len() == list.len(),
        forall|i: int, j: int|
            0 <= i <= j < list.len() ==> (#[trigger] newest_first_of(list)[i]).mtime >= (
            #[trigger] newest_first_of(list)[j]).mtime,
        forall|i: int|
            0 <= i < list.len() ==> newest_first_of(list)[0].mtime >= (#[trigger] list[i]).mtime,
    decreases list.len(),
{
    broadcast use vstd::seq_lib::group_to_multiset_ensures;

    if list.len() > 0 {
        let before = list.drop_last();
        let sorted = newest_first_of(before);
        let last = list.last();
        let k = place_in(sorted, last.mtime, 0);
        lemma_newest_first(before);
        lemma_place_in(sorted, last.mtime, 0);
        let after = sorted.insert(k, last);
        assert(list =~= before.push(last));
        assert(after.to_multiset() =~= sorted.to_multiset().insert(last));
        assert forall|i: int, j: int| 0 <= i <= j < after.len() implies (
        #[trigger] after[i]).mtime >= (#[trigger] after[j]).mtime by {
            let si = if i < k {
                i
            } else {
                i - 1
            };
            let sj = if j < k {
                j
            } else {
                j - 1
            };
            if i != k {
                assert(after[i] == sorted[si]);
            }
            if j != k {
                assert(after[j] == sorted[sj]);
            }
            if i == k && j > k {
                assert(sorted[k].mtime >= sorted[sj].mtime);
            }
        }
        assert forall|i: int| 0 <= i < list.len() implies after[0].mtime >= (
        #[trigger] list[i]).mtime by {
            if i < before.len() {
                assert(list[i] == before[i]);
                assert(sorted[0].mtime >= before[i].mtime);
                assert(k > 0 ==> after[0] == sorted[0]);
            } else {
                assert(after[k] == last);
                assert(after[0].mtime >= after[k].mtime);
            }
        }
    } else {
        assert(newest_first_of(list) =~= list);
    }
}

/// How the socket to connect to is found.
#[derive(Debug)]
pub enum SocketPlan {
    /// The socket of this name, without looking for others.
    Exact(String),
    /// The newest of the sockets there are.
    Discover,
    /// Not at all, for this reason.
    Refused(String),
}

/// What a [`SocketPlan`] holds.
pub enum PlanValue {
    Exact(Seq<char>),
    Discover,
    Refused(Seq<char>),
}

impl View for SocketPlan {
    type V = PlanValue;

    open spec fn view(&self) -> PlanValue {
        match *self {
            SocketPlan::Exact(name) => PlanValue::Exact(name@),
            SocketPlan::Discover => PlanValue::Discover,
            SocketPlan::Refused(reason) => PlanValue::Refused(reason@),
        }
    }
}

pub const PID_WITHOUT_APP: &'static str = "GPUI_MCP_PID requires GPUI_MCP_APP to be set as well (socket names now include the app name).";

/// How the socket is found, given the app and the process id that were asked
/// for.
///
/// 1. an app and a process id → exactly that socket (no discovery)
/// 2. an app alone, or neither → discover, and pick the newest
/// 3. a process id alone is refused
pub open spec fn planned(app: Option<Seq<char>>, pid: Option<Seq<char>>) -> PlanValue {
    match (app, pid) {
        (Some(app), Some(pid)) => PlanValue::Exact(socket_name(app, pid)),
        (None, Some(_)) => PlanValue::Refused(PID_WITHOUT_APP@),
        _ => PlanValue::Discover,
    }
}

/// Decide how to find the socket to connect to.
pub fn plan_socket(app: Option<&str>, pid: Option<&str>) -> (r: SocketPlan)
    ensures
        r@ == planned(text::maybe(app), text::maybe(pid)),
{
    match (app, pid) {
        (Some(app), Some(pid)) => {
            let mut name: String = "gpui-mcp-".to_owned();
            name.append(app);
            name.append("-");
            name.append(pid);
            name.append(".sock");
            SocketPlan::Exact(name)
        },
        (None, Some(_)) => SocketPlan::Refused(PID_WITHOUT_APP.to_owned()),
        _ => SocketPlan::Discover,
    }
}

/// Which instance was chosen, and what to say about it.
#[derive(Debug)]
pub struct Choice {
    pub path: String,
    /// Lines for stderr: nothing where there was nothing to choose between.
    pub warnings: Vec<String>,
}

/// The lines that name the instances up to the `n`th, but for the chosen one.
pub open spec fn others(list: Seq<InstanceValue>, n: int) -> Seq<Seq<char>>
    decreases n,
{
    if n <= 1 {
        Seq::empty()
    } else {
        others(list, n - 1).push(other_line(list[n - 1]))
    }
}

/// The line that names an instance that was not chosen.
pub open spec fn other_line(instance: InstanceValue) -> Seq<char> {
    "[MCP]   - app='"@ + instance.app_name + "', pid="@ + text::decimal_of(instance.pid as nat)
        + ", path="@ + instance.path
}

/// What is said where there is more than one instance.
pub open spec fn warnings_on(list: Seq<InstanceValue>, app: Option<Seq<char>>) -> Seq<Seq<char>> {
    (seq![
        "[MCP] Found "@ + text::decimal_of(list.len()) + " instances"@ + (match app {
            Some(app) => " of '"@ + app + "'"@,
            None => ""@,
        }) + ". Connecting to newest: app='"@ + list[0].app_name + "', pid="@ + text::decimal_of(
            list[0].pid as nat,
        ) + "."@,
        "[MCP] Other instances:"@,
    ] + others(list, list.len() as int)).push(
        "[MCP] Set GPUI_MCP_APP (and optionally GPUI_MCP_PID) to target a specific one."@,
    )
}

/// What is said where there is no instance.
pub open spec fn nothing_found(app: Option<Seq<char>>, scanned: Seq<char>) -> Seq<char> {
    "No running GPUI app found"@ + (match app {
        Some(app) => " for app '"@ + app + "'"@,
        None => ""@,
    }) + ". Scanned: "@ + scanned
}

/// The path of the instance that is chosen and what is said of it, or what is
/// said where there is none.
pub open spec fn chosen(
    list: Seq<InstanceValue>,
    app: Option<Seq<char>>,
    scanned: Seq<char>,
) -> Result<(Seq<char>, Seq<Seq<char>>), Seq<char>> {
    if list.len() == 0 {
        Err(nothing_found(app, scanned))
    } else if list.len() == 1 {
        Ok((list[0].path, Seq::empty()))
    } else {
        Ok((list[0].path, warnings_on(list, app)))
    }
}

fn scope(before: &str, app: Option<&str>) -> (r: String)
    ensures
        r@ == (match app {
            Some(app) => before@ + app@ + "'"@,
            None => ""@,
        }),
{
    match app {
        Some(app) => {
            let mut out: String = before.to_owned();
            out.append(app);
            out.append("'");
            out
        },
        None => "".to_owned(),
    }
}

/// Choose the instance to connect to: the first of `instances`, which are
/// newest first. With more than one, say which was chosen and which were not;
/// with none, fail and say where was looked.
pub fn choose_instance(instances: &Vec<Instance>, app: Option<&str>, scanned: &str) -> (r: Result<
    Choice,
    String,
>)
    ensures
        match r {
            Ok(choice) => {
                &&& instances@.len() > 0
                &&& choice.path@ == instances@[0].path@
                &&& text::owned_texts(choice.warnings@) == (if instances@.len() == 1 {
                    Seq::<Seq<char>>::empty()
                } else {
                    warnings_on(instances_of(instances@), text::maybe(app))
                })
            },
            Err(message) => instances@.len() == 0 && message@ == nothing_found(
                text::maybe(app),
                scanned@,
            ),
        },
        match chosen(instances_of(instances@), text::maybe(app), scanned@) {
            Ok((path, said)) => r is Ok && r->Ok_0.path@ == path && text::owned_texts(
                r->Ok_0.warnings@,
            ) == said,
            Err(said) => r is Err && r->Err_0@ == said,
        },
{
    let n: usize = instances.len();
    if n == 0 {
        let mut out: String = "No running GPUI app found".to_owned();
        out.append(scope(" for app '", app).as_str());
        out.append(". Scanned: ");
        out.append(scanned);
        return Err(out);
    }
    let mut warnings: Vec<String> = Vec::new();
    proof {
        assert(text::owned_texts(warnings@) =~= Seq::empty());
    }
    if n > 1 {
        let mut found: String = "[MCP] Found ".to_owned();
        found.append(text::decimal(n as u64).as_str());
        found.append(" instances");
        found.append(scope(" of '", app).as_str());
        found.append(". Connecting to newest: app='");
        found.append(instances[0].app_name.as_str());
        found.append("', pid=");
        found.append(text::decimal(instances[0].pid as u64).as_str());
        found.append(".");
        let ghost list = instances_of(instances@);
        let ghost head = seq![found@, "[MCP] Other instances:"@];
        warnings.push(found);
        warnings.push("[MCP] Other instances:".to_owned());
        proof {
            assert(text::owned_texts(warnings@) =~= head);
            assert(head + others(list, 1) =~= head);
        }
        let mut i: usize = 1;
        while i < n
            invariant
                1 <= i <= n,
                n == instances@.len(),
                list == instances_of(instances@),
                text::owned_texts(warnings@) == head + others(list, i as int),
            decreases n - i,
        {
            let ghost before = text::owned_texts(warnings@);
            let mut line: String = "[MCP]   - app='".to_owned();
            line.append(instances[i].app_name.as_str());
            line.append("', pid=");
            line.append(text::decimal(instances[i].pid as u64).as_str());
            line.append(", path=");
            line.append(instances[i].path.as_str());
            let ghost said = line@;
            warnings.push(line);
            proof {
                assert(said == other_line(list[i as int]));
                assert(text::owned_texts(warnings@) =~= before.push(said));
                assert(text::owned_texts(warnings@) =~= head + others(list, i + 1));
            }
            i += 1;
        }
        let ghost before = text::owned_texts(warnings@);
        warnings.push(
            "[MCP] Set GPUI_MCP_APP (and optionally GPUI_MCP_PID) to target a specific one.".to_owned(),
        );
        proof {
            assert(text::owned_texts(warnings@) =~= before.push(
                "[MCP] Set GPUI_MCP_APP (and optionally GPUI_MCP_PID) to target a specific one."@,
            ));
        }
    }
    proof {
        assert(instances_of(instances@)[0] == instances@[0]@);
    }
    Ok(Choice { path: instances[0].path.clone(), warnings })
}

/// A socket name that is read was written: it is the prefix, the app, a dash, a
/// number that is the process id, and the suffix.
pub proof fn lemma_what_a_socket_name_is(name: Seq<char>)
    ensures
        socket_parts(name) matches Some((app, pid)) ==> app.len() > 0 && exists|digits: Seq<char>|
            #[trigger] socket_name(app, digits) == name && text::number_in(
                digits,
                u32::MAX as nat,
            ) == Some(pid as nat) && forall|i: int|
                0 <= i < digits.len() ==> #[trigger] digits[i] != '-',
{
    if let Some((app, pid)) = socket_parts(name) {
        let prefix = "gpui-mcp-"@;
        let suffix = ".sock"@;
        let rest = name.skip(prefix.len() as int);
        let middle = rest.take(rest.len() - suffix.len());
        text::lemma_behind_a_prefix(name, prefix);
        text::lemma_before_a_suffix(rest, suffix);
        text::lemma_around_the_last(middle, "-"@);
        reveal_strlit("-");
        if let Some((before, digits)) = text::split_last(middle, "-"@) {
            assert(before == app);
            assert(socket_name(app, digits) =~= name);
            assert forall|k: int| 0 <= k < digits.len() implies #[trigger] digits[k] != '-' by {
                if digits[k] == '-' {
                    let j = app.len() + 1 + k;
                    assert(middle[j] == digits[k]);
                    assert(middle.subrange(j, j + 1) =~= "-"@);
                    assert(text::occurs_at(middle, "-"@, j));
                }
            }
        }
    }
}

/// A socket is worth probing exactly where its name can be read and no other
/// app was asked for; it is then that app's and that process's.
pub proof fn lemma_which_sockets_are_probed(name: Seq<char>, app_filter: Option<Seq<char>>)
    ensures
        forall|app: Seq<char>, pid: u32|
            (#[trigger] socket_parts(name)) == Some((app, pid)) ==> (candidate(name, app_filter)
                == Some((app, pid)) <==> (app_filter is Some ==> app_filter == Some(app))),
        socket_parts(name) is None ==> candidate(name, app_filter) is None,
        candidate(name, app_filter) is Some ==> candidate(name, app_filter) == socket_parts(name),
{
}

/// The instances of one time.
pub open spec fn of_that_time(list: Seq<InstanceValue>, mtime: i128) -> Seq<InstanceValue> {
    list.filter(|x: InstanceValue| x.mtime == mtime)
}

proof fn lemma_times_of_two_lists(a: Seq<InstanceValue>, b: Seq<InstanceValue>, mtime: i128)
    ensures
        of_that_time(a + b, mtime) == of_that_time(a, mtime) + of_that_time(b, mtime),
{
    Seq::filter_distributes_over_add(a, b, |x: InstanceValue| x.mtime == mtime);
}

proof fn lemma_time_of_one(one: InstanceValue, mtime: i128)
    ensures
        one.mtime == mtime ==> of_that_time(seq![one], mtime) == seq![one],
        one.mtime != mtime ==> of_that_time(seq![one], mtime) == Seq::<InstanceValue>::empty(),
{
    reveal(Seq::filter);
    assert(seq![one].drop_last() =~= Seq::empty());
    assert(seq![one].last() == one);
    assert(of_that_time(seq![one].drop_last(), mtime) =~= Seq::empty());
}

proof fn lemma_one_more_in_its_place(
    list: Seq<InstanceValue>,
    k: int,
    one: InstanceValue,
    mtime: i128,
)
    requires
        0 <= k <= list.len(),
        forall|i: int| k <= i < list.len() ==> (#[trigger] list[i]).mtime < one.mtime,
    ensures
        of_that_time(list.insert(k, one), mtime) == of_that_time(list, mtime) + of_that_time(
            seq![one],
            mtime,
        ),
{
    let front = list.take(k);
    let back = list.skip(k);
    let none = Seq::<InstanceValue>::empty();
    assert(list =~= front + back);
    assert(list.insert(k, one) =~= front + (seq![one] + back));
    lemma_times_of_two_lists(front, back, mtime);
    lemma_times_of_two_lists(front, seq![one] + back, mtime);
    lemma_times_of_two_lists(seq![one], back, mtime);
    lemma_time_of_one(one, mtime);
    let f = of_that_time(front, mtime);
    if one.mtime == mtime {
        assert forall|i: int| 0 <= i < back.len() implies (#[trigger] back[i]).mtime != mtime by {
            assert(back[i] == list[k + i]);
        }
        lemma_none_of_that_time(back, mtime);
        assert(f + (seq![one] + none) =~= f + none + seq![one]);
    } else {
        let b = of_that_time(back, mtime);
        assert(f + (none + b) =~= f + b + none);
    }
}

/// Instances of one time stay in the order in which they were found.
pub proof fn lemma_ties_stay_in_order(list: Seq<InstanceValue>, mtime: i128)
    ensures
        of_that_time(newest_first_of(list), mtime) == of_that_time(list, mtime),
    decreases list.len(),
{
    if list.len() > 0 {
        let before = list.drop_last();
        let last = list.last();
        let sorted = newest_first_of(before);
        let k = place_in(sorted, last.mtime, 0);
        lemma_ties_stay_in_order(before, mtime);
        lemma_newest_first(before);
        lemma_place_in(sorted, last.mtime, 0);
        assert forall|i: int| k <= i < sorted.len() implies (#[trigger] sorted[i]).mtime
            < last.mtime by {
            assert(sorted[k].mtime >= sorted[i].mtime);
        }
        lemma_one_more_in_its_place(sorted, k, last, mtime);
        lemma_times_of_two_lists(before, seq![last], mtime);
        assert(list =~= before + seq![last]);
    } else {
        assert(newest_first_of(list) =~= list);
    }
}

proof fn lemma_none_of_that_time(list: Seq<InstanceValue>, mtime: i128)
    requires
        forall|i: int| 0 <= i < list.len() ==> (#[trigger] list[i]).mtime != mtime,
    ensures
        of_that_time(list, mtime) == Seq::<InstanceValue>::empty(),
    decreases list.len(),
{
    reveal(Seq::filter);
    if list.len() > 0 {
        let before = list.drop_last();
        assert(forall|i: int| 0 <= i < before.len() ==> before[i] == list[i]);
        lemma_none_of_that_time(before, mtime);
        assert(list.last() == list[list.len() - 1]);
    }
}

/// An app and a process id lead to the socket of that very instance; a process
/// id without an app is refused; everything else is discovered.
pub proof fn lemma_how_the_socket_is_found(app: Option<Seq<char>>, pid: u32)
    ensures
        app matches Some(name) ==> name.len() > 0 ==> (planned(
            app,
            Some(text::decimal_of(pid as nat)),
        ) matches PlanValue::Exact(socket) && socket_parts(socket) == Some((name, pid))),
        planned(None, Some(text::decimal_of(pid as nat))) is Refused,
        planned(app, None) is Discover,
{
    if let Some(name) = app {
        if name.len() > 0 {
            lemma_socket_name_round_trip(name, pid);
        }
    }
}

proof fn lemma_others(list: Seq<InstanceValue>, n: int)
    requires
        1 <= n <= list.len(),
    ensures
        others(list, n).len() == n - 1,
        forall|i: int| 1 <= i < n ==> #[trigger] others(list, n)[i - 1] == other_line(list[i]),
    decreases n,
{
    if n > 1 {
        lemma_others(list, n - 1);
        assert forall|i: int| 1 <= i < n implies #[trigger] others(list, n)[i - 1] == other_line(
            list[i],
        ) by {
            if i < n - 1 {
                assert(others(list, n - 1)[i - 1] == other_line(list[i]));
            }
        }
    }
}

/// Where there are several instances, the first line names the one that was
/// chosen and how many there are, and every other one has a line that names it.
pub proof fn lemma_every_instance_is_named(list: Seq<InstanceValue>, app: Option<Seq<char>>, i: int)
    requires
        1 <= i < list.len(),
    ensures
        ({
            let said = warnings_on(list, app);
            let one = list[i];
            &&& said.len() == list.len() + 2
            &&& text::has_prefix(said[0], "[MCP] Found "@ + text::decimal_of(list.len()))
            &&& text::mentions(
                said[0],
                "app='"@ + list[0].app_name + "', pid="@ + text::decimal_of(list[0].pid as nat),
            )
            &&& app matches Some(wanted) ==> text::mentions(said[0], " of '"@ + wanted + "'"@)
            &&& text::mentions(
                said[i + 1],
                "app='"@ + one.app_name + "', pid="@ + text::decimal_of(one.pid as nat),
            )
            &&& text::has_suffix(said[i + 1], ", path="@ + one.path)
        }),
{
    let said = warnings_on(list, app);
    lemma_others(list, list.len() as int);
    let count = text::decimal_of(list.len());
    let scope = match app {
        Some(app) => " of '"@ + app + "'"@,
        None => ""@,
    };
    reveal_strlit(". Connecting to newest: app='");
    reveal_strlit("app='");
    reveal_strlit("[MCP]   - app='");
    let to = ". Connecting to newest: app='"@;
    let chosen = "app='"@ + list[0].app_name + "', pid="@ + text::decimal_of(list[0].pid as nat);
    let front = "[MCP] Found "@ + count + " instances"@ + scope + to.take(24);
    assert(to =~= to.take(24) + "app='"@);
    assert(said[0] =~= front + chosen + "."@);
    text::lemma_mentions(front, chosen, "."@);
    let head = "[MCP] Found "@ + count;
    let rest = " instances"@ + scope + to + list[0].app_name + "', pid="@ + text::decimal_of(
        list[0].pid as nat,
    ) + "."@;
    assert(said[0] =~= head + rest);
    text::lemma_begins_with(head, rest);
    if app is Some {
        let a = "[MCP] Found "@ + count + " instances"@;
        let b = to + list[0].app_name + "', pid="@ + text::decimal_of(list[0].pid as nat) + "."@;
        assert(said[0] =~= a + scope + b);
        text::lemma_mentions(a, scope, b);
    }
    let one = list[i];
    assert(said[i + 1] == others(list, list.len() as int)[i - 1]);
    let line = other_line(one);
    let item = "[MCP]   - app='"@;
    let named = "app='"@ + one.app_name + "', pid="@ + text::decimal_of(one.pid as nat);
    assert(item =~= item.take(10) + "app='"@);
    assert(line =~= item.take(10) + named + (", path="@ + one.path));
    text::lemma_mentions(item.take(10), named, ", path="@ + one.path);
    assert(line =~= (item + one.app_name + "', pid="@ + text::decimal_of(one.pid as nat)) + (
    ", path="@ + one.path));
    text::lemma_ends_with(
        item + one.app_name + "', pid="@ + text::decimal_of(one.pid as nat),
        ", path="@ + one.path,
    );
}

/// Where there is none, it is said for which app none was found, and where was
/// looked.
pub proof fn lemma_what_is_said_of_nothing(app: Option<Seq<char>>, scanned: Seq<char>)
    ensures
        text::has_suffix(nothing_found(app, scanned), ". Scanned: "@ + scanned),
        app matches Some(wanted) ==> text::mentions(
            nothing_found(app, scanned),
            " for app '"@ + wanted + "'"@,
        ),
{
    let scope = match app {
        Some(app) => " for app '"@ + app + "'"@,
        None => ""@,
    };
    let head = "No running GPUI app found"@;
    let end = ". Scanned: "@ + scanned;
    assert(nothing_found(app, scanned) =~= (head + scope) + end);
    text::lemma_ends_with(head + scope, end);
    assert(nothing_found(app, scanned) =~= head + scope + end);
    text::lemma_mentions(head, scope, end);
}

/// Of the instances that were found, one of the newest is connected to, and of
/// those the one that was found first; something is said exactly where there is
/// more than one. Where there is none it is an error.
pub proof fn lemma_the_newest_is_chosen(
    list: Seq<InstanceValue>,
    app: Option<Seq<char>>,
    scanned: Seq<char>,
)
    ensures
        ({
            let r = chosen(newest_first_of(list), app, scanned);
            &&& r is Ok <==> list.len() > 0
            &&& r matches Ok((path, said)) ==> {
                &&& said.len() == 0 <==> list.len() == 1
                &&& exists|i: int|
                    {
                        &&& 0 <= i < list.len()
                        &&& (#[trigger] list[i]).path == path
                        &&& forall|j: int|
                            0 <= j < list.len() ==> (#[trigger] list[j]).mtime <= list[i].mtime
                        &&& forall|j: int| 0 <= j < i ==> (#[trigger] list[j]).mtime < list[i].mtime
                    }
            }
        }),
{
    lemma_newest_first(list);
    let sorted = newest_first_of(list);
    if list.len() > 0 {
        let newest = sorted[0].mtime;
        lemma_ties_stay_in_order(list, newest);
        lemma_first_of_that_time(sorted, newest, 0);
        let i = lemma_some_of_that_time(list, newest);
        lemma_first_of_that_time(list, newest, i);
        assert(list[i] == sorted[0]);
        assert(list[i].path == sorted[0].path);
    }
    if list.len() > 1 {
        lemma_every_instance_is_named(sorted, app, 1);
    }
}

proof fn lemma_first_of_that_time(list: Seq<InstanceValue>, mtime: i128, i: int)
    requires
        0 <= i < list.len(),
        list[i].mtime == mtime,
        forall|j: int| 0 <= j < i ==> (#[trigger] list[j]).mtime != mtime,
    ensures
        of_that_time(list, mtime).len() > 0,
        of_that_time(list, mtime)[0] == list[i],
{
    let front = list.take(i);
    let back = list.skip(i + 1);
    let one = seq![list[i]];
    assert(list =~= front + (one + back));
    lemma_times_of_two_lists(front, one + back, mtime);
    lemma_times_of_two_lists(one, back, mtime);
    lemma_time_of_one(list[i], mtime);
    assert forall|j: int| 0 <= j < front.len() implies (#[trigger] front[j]).mtime != mtime by {
        assert(front[j] == list[j]);
    }
    lemma_none_of_that_time(front, mtime);
    assert(of_that_time(list, mtime) =~= one + of_that_time(back, mtime));
}

proof fn lemma_some_of_that_time(list: Seq<InstanceValue>, mtime: i128) -> (i: int)
    requires
        of_that_time(list, mtime).len() > 0,
    ensures
        0 <= i < list.len(),
        list[i].mtime == mtime,
        forall|j: int| 0 <= j < i ==> (#[trigger] list[j]).mtime != mtime,
    decreases list.len(),
{
    if list.len() == 0 {
        lemma_none_of_that_time(list, mtime);
        0
    } else if list[0].mtime == mtime {
        0
    } else {
        let one = seq![list[0]];
        let rest = list.skip(1);
        assert(list =~= one + rest);
        lemma_times_of_two_lists(one, rest, mtime);
        lemma_time_of_one(list[0], mtime);
        assert(of_that_time(list, mtime) =~= of_that_time(rest, mtime));
        let k = lemma_some_of_that_time(rest, mtime);
        assert(list[k + 1] == rest[k]);
        assert forall|j: int| 0 <= j < k + 1 implies (#[trigger] list[j]).mtime != mtime by {
            if j > 0 {
                assert(list[j] == rest[j - 1]);
            }
        }
        k + 1
    }
}

} // verus!
