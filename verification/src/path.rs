//! Paths as lists of components, and the text that writes them.
//!
//! Folding and comparing are done on the components, so they do not depend on
//! how a platform spells a path. The text form is the one with `/` between
//! components; a platform that spells paths otherwise hands them over in it.
use vstd::prelude::*;
use vstd::string::*;

use crate::text;

verus! {

/// One component of a path.
#[derive(Debug, PartialEq)]
pub enum Component {
    /// A drive or a share, such as `C:`.
    Prefix(String),
    /// The root directory.
    RootDir,
    /// `.`
    CurDir,
    /// `..`
    ParentDir,
    /// A name.
    Normal(String),
}

/// What a [`Component`] holds.
pub enum Part {
    Prefix(Seq<char>),
    Root,
    Current,
    Parent,
    Normal(Seq<char>),
}

impl View for Component {
    type V = Part;

    open spec fn view(&self) -> Part {
        match *self {
            Component::Prefix(s) => Part::Prefix(s@),
            Component::RootDir => Part::Root,
            Component::CurDir => Part::Current,
            Component::ParentDir => Part::Parent,
            Component::Normal(s) => Part::Normal(s@),
        }
    }
}

/// What the components of a path hold.
pub open spec fn parts(path: Seq<Component>) -> Seq<Part> {
    Seq::new(path.len(), |i: int| path[i]@)
}

impl Clone for Component {
    fn clone(&self) -> (r: Self)
        ensures
            r@ == self@,
    {
        match self {
            Component::Prefix(s) => Component::Prefix(s.clone()),
            Component::RootDir => Component::RootDir,
            Component::CurDir => Component::CurDir,
            Component::ParentDir => Component::ParentDir,
            Component::Normal(s) => Component::Normal(s.clone()),
        }
    }
}

/// Whether the two components are the same.
pub fn same_component(a: &Component, b: &Component) -> (r: bool)
    ensures
        r == (a@ == b@),
{
    match (a, b) {
        (Component::Prefix(x), Component::Prefix(y)) => text::same_text(x.as_str(), y.as_str()),
        (Component::RootDir, Component::RootDir) => true,
        (Component::CurDir, Component::CurDir) => true,
        (Component::ParentDir, Component::ParentDir) => true,
        (Component::Normal(x), Component::Normal(y)) => text::same_text(x.as_str(), y.as_str()),
        _ => false,
    }
}

/// A prefix or the root: what a path is anchored to.
pub open spec fn anchor(part: Part) -> bool {
    part is Prefix || part is Root
}

/// `path` with one more component. A prefix replaces the whole path, and the
/// root everything but a prefix.
pub open spec fn pushed(path: Seq<Part>, part: Part) -> Seq<Part> {
    match part {
        Part::Prefix(_) => seq![part],
        Part::Root => if path.len() > 0 && path[0] is Prefix {
            seq![path[0], part]
        } else {
            seq![part]
        },
        _ => path.push(part),
    }
}

/// Whether the last component can be taken off.
pub open spec fn can_pop(path: Seq<Part>) -> bool {
    path.len() > 0 && !anchor(path.last())
}

/// Whether the path ends in a name, which a `..` behind it takes off.
pub open spec fn ends_in_a_name(path: Seq<Part>) -> bool {
    path.len() > 0 && path.last() is Normal
}

/// Add a component to a folded path: `.` adds nothing and `..` takes off the
/// name the path ends in; where it ends in none, the `..` stays.
pub open spec fn folded_with(path: Seq<Part>, part: Part) -> Seq<Part> {
    match part {
        Part::Current => path,
        Part::Parent => if ends_in_a_name(path) {
            path.drop_last()
        } else {
            path.push(Part::Parent)
        },
        _ => pushed(path, part),
    }
}

/// `start` with the components of `path` folded onto it.
pub open spec fn folded_onto(start: Seq<Part>, path: Seq<Part>) -> Seq<Part>
    decreases path.len(),
{
    if path.len() == 0 {
        start
    } else {
        folded_with(folded_onto(start, path.drop_last()), path.last())
    }
}

/// `path` with its `.` and `..` folded.
pub open spec fn folded(path: Seq<Part>) -> Seq<Part> {
    folded_onto(Seq::empty(), path)
}

fn push(path: &mut Vec<Component>, part: Component)
    ensures
        parts(final(path)@) == pushed(parts(old(path)@), part@),
{
    let ghost before = parts(path@);
    match part {
        Component::Prefix(_) => {
            path.clear();
            path.push(part);
        },
        Component::RootDir => {
            if path.len() > 0 {
                let first: Component = path[0].clone();
                path.clear();
                match first {
                    Component::Prefix(_) => {
                        path.push(first);
                    },
                    _ => {},
                }
            }
            path.push(part);
        },
        _ => {
            path.push(part);
        },
    }
    proof {
        assert(parts(path@) =~= pushed(before, part@));
    }
}

/// Take the last component off. Answers whether there was one to take off.
fn pop(path: &mut Vec<Component>) -> (r: bool)
    ensures
        r == can_pop(parts(old(path)@)),
        parts(final(path)@) == (if r {
            parts(old(path)@).drop_last()
        } else {
            parts(old(path)@)
        }),
{
    let ghost before = parts(path@);
    let n: usize = path.len();
    if n == 0 {
        return false;
    }
    proof {
        assert(before.last() == path@[n - 1]@);
    }
    match &path[n - 1] {
        Component::Prefix(_) => {
            return false;
        },
        Component::RootDir => {
            return false;
        },
        _ => {},
    }
    path.truncate(n - 1);
    proof {
        assert(parts(path@) =~= before.drop_last());
    }
    true
}

/// Take off the name the path ends in. Answers whether it ended in one.
fn pop_name(path: &mut Vec<Component>) -> (r: bool)
    ensures
        r == ends_in_a_name(parts(old(path)@)),
        parts(final(path)@) == (if r {
            parts(old(path)@).drop_last()
        } else {
            parts(old(path)@)
        }),
{
    let n: usize = path.len();
    if n == 0 {
        return false;
    }
    proof {
        assert(parts(path@).last() == path@[n - 1]@);
    }
    let named: bool = match &path[n - 1] {
        Component::Normal(_) => true,
        _ => false,
    };
    named && pop(path)
}

/// Fold `.` and `..` so that two spellings of one directory compare equal.
///
/// A `..` takes off a name and nothing else: one that has no name before it,
/// as at the start of `../../a`, stays.
pub fn normalise(path: &Vec<Component>) -> (r: Vec<Component>)
    ensures
        parts(r@) == folded(parts(path@)),
{
    let mut out: Vec<Component> = Vec::new();
    let mut i: usize = 0;
    proof {
        assert(parts(out@) =~= Seq::empty());
        assert(parts(path@).take(0) =~= Seq::empty());
    }
    while i < path.len()
        invariant
            i <= path@.len(),
            parts(out@) == folded(parts(path@).take(i as int)),
        decreases path@.len() - i,
    {
        let ghost longer = parts(path@).take(i + 1);
        proof {
            assert(longer.drop_last() =~= parts(path@).take(i as int));
            assert(longer.last() == path@[i as int]@);
        }
        match &path[i] {
            Component::CurDir => {},
            Component::ParentDir => {
                if !pop_name(&mut out) {
                    push(&mut out, Component::ParentDir);
                }
            },
            other => {
                push(&mut out, other.clone());
            },
        }
        i += 1;
    }
    proof {
        assert(parts(path@).take(i as int) =~= parts(path@));
    }
    out
}

/// How many components the two paths share at their start, from `i` on.
pub open spec fn shared_from(a: Seq<Part>, b: Seq<Part>, i: int) -> int
    decreases a.len() - i,
{
    if 0 <= i < a.len() && i < b.len() && a[i] == b[i] {
        shared_from(a, b, i + 1)
    } else {
        i
    }
}

/// The prefix and the root of a path.
pub open spec fn anchors(path: Seq<Part>) -> Seq<Part>
    decreases path.len(),
{
    if path.len() == 0 {
        Seq::empty()
    } else if anchor(path.last()) {
        anchors(path.drop_last()).push(path.last())
    } else {
        anchors(path.drop_last())
    }
}

/// `n` steps up.
pub open spec fn climb(n: nat) -> Seq<Part> {
    Seq::new(n, |i: int| Part::Parent)
}

/// The path from `base` to `target`: up to what they share, then down. `None`
/// where they are anchored to different places.
pub open spec fn relative_parts(base: Seq<Part>, target: Seq<Part>) -> Option<Seq<Part>> {
    let b = folded(base);
    let t = folded(target);
    if anchors(b) != anchors(t) {
        None
    } else {
        let k = shared_from(b, t, 0);
        Some(climb((b.len() - k) as nat) + t.skip(k))
    }
}

fn anchors_of(path: &Vec<Component>) -> (r: Vec<Component>)
    ensures
        parts(r@) == anchors(parts(path@)),
{
    let mut out: Vec<Component> = Vec::new();
    let mut i: usize = 0;
    proof {
        assert(parts(path@).take(0) =~= Seq::empty());
        assert(parts(out@) =~= Seq::empty());
    }
    while i < path.len()
        invariant
            i <= path@.len(),
            parts(out@) == anchors(parts(path@).take(i as int)),
        decreases path@.len() - i,
    {
        let ghost longer = parts(path@).take(i + 1);
        let ghost before = parts(out@);
        proof {
            assert(longer.drop_last() =~= parts(path@).take(i as int));
            assert(longer.last() == path@[i as int]@);
        }
        let is_anchor: bool = match &path[i] {
            Component::Prefix(_) => true,
            Component::RootDir => true,
            _ => false,
        };
        if is_anchor {
            out.push(path[i].clone());
            proof {
                assert(parts(out@) =~= before.push(path@[i as int]@));
            }
        }
        i += 1;
    }
    proof {
        assert(parts(path@).take(i as int) =~= parts(path@));
    }
    out
}

fn shared(a: &Vec<Component>, b: &Vec<Component>) -> (r: usize)
    ensures
        r == shared_from(parts(a@), parts(b@), 0),
        r <= a@.len(),
        r <= b@.len(),
{
    let mut i: usize = 0;
    while i < a.len() && i < b.len() && same_component(&a[i], &b[i])
        invariant
            i <= a@.len(),
            i <= b@.len(),
            shared_from(parts(a@), parts(b@), 0) == shared_from(parts(a@), parts(b@), i as int),
        decreases a@.len() - i,
    {
        i += 1;
    }
    i
}

fn same_path(a: &Vec<Component>, b: &Vec<Component>) -> (r: bool)
    ensures
        r == (parts(a@) == parts(b@)),
{
    if a.len() != b.len() {
        proof {
            assert(parts(a@).len() != parts(b@).len());
        }
        return false;
    }
    let mut i: usize = 0;
    while i < a.len()
        invariant
            i <= a@.len(),
            a@.len() == b@.len(),
            forall|j: int| 0 <= j < i ==> a@[j]@ == b@[j]@,
        decreases a@.len() - i,
    {
        if !same_component(&a[i], &b[i]) {
            proof {
                assert(parts(a@)[i as int] != parts(b@)[i as int]);
            }
            return false;
        }
        i += 1;
    }
    proof {
        assert(parts(a@) =~= parts(b@));
    }
    true
}

/// `target` written relative to `base`, both absolute — the way a golden path
/// is written into a script so it still resolves when the script moves.
///
/// `None` when no relative path exists (a different drive), in which case the
/// absolute path is the honest thing to write.
pub fn relative_path(base: &Vec<Component>, target: &Vec<Component>) -> (r: Option<Vec<Component>>)
    ensures
        match r {
            Some(path) => relative_parts(parts(base@), parts(target@)) == Some(parts(path@)),
            None => relative_parts(parts(base@), parts(target@)) is None,
        },
{
    let base: Vec<Component> = normalise(base);
    let target: Vec<Component> = normalise(target);
    if !same_path(&anchors_of(&base), &anchors_of(&target)) {
        return None;
    }
    let shared: usize = shared(&base, &target);
    let mut relative: Vec<Component> = Vec::new();
    let mut i: usize = shared;
    while i < base.len()
        invariant
            shared <= i <= base@.len(),
            parts(relative@) == climb((i - shared) as nat),
        decreases base@.len() - i,
    {
        let ghost before = parts(relative@);
        relative.push(Component::ParentDir);
        proof {
            assert(parts(relative@) =~= before.push(Part::Parent));
            assert(parts(relative@) =~= climb((i + 1 - shared) as nat));
        }
        i += 1;
    }
    let ghost up = parts(relative@);
    let mut j: usize = shared;
    while j < target.len()
        invariant
            shared <= j <= target@.len(),
            parts(relative@) == up + parts(target@).subrange(shared as int, j as int),
        decreases target@.len() - j,
    {
        let ghost before = parts(relative@);
        relative.push(target[j].clone());
        proof {
            assert(parts(relative@) =~= before.push(target@[j as int]@));
            assert(parts(relative@) =~= up + parts(target@).subrange(shared as int, j + 1));
        }
        j += 1;
    }
    proof {
        assert(parts(target@).subrange(shared as int, j as int) =~= parts(target@).skip(
            shared as int,
        ));
    }
    Some(relative)
}

/// A path with nothing left to fold: its anchor comes first, `..` only where
/// there is no name before it to take off, and no `.`.
pub open spec fn tidy(path: Seq<Part>) -> bool {
    &&& forall|i: int|
        0 <= i < path.len() && anchor(#[trigger] path[i]) ==> i == 0 || (i == 1 && path[0] is Prefix
            && path[1] is Root)
    &&& forall|i: int|
        0 <= i < path.len() && (#[trigger] path[i]) is Parent ==> i == 0 || anchor(path[i - 1])
            || path[i - 1] is Parent
    &&& forall|i: int| 0 <= i < path.len() ==> !((#[trigger] path[i]) is Current)
}

proof fn lemma_folded_onto_tidy(start: Seq<Part>, path: Seq<Part>)
    requires
        tidy(start),
    ensures
        tidy(folded_onto(start, path)),
    decreases path.len(),
{
    if path.len() > 0 {
        lemma_folded_onto_tidy(start, path.drop_last());
        let before = folded_onto(start, path.drop_last());
        let after = folded_with(before, path.last());
        assert forall|i: int| 0 <= i < after.len() && (#[trigger] after[i]) is Parent implies i == 0
            || anchor(after[i - 1]) || after[i - 1] is Parent by {
            if i < before.len() && after.len() >= before.len() {
                assert(before.len() == 0 || before.last() == before[before.len() - 1]);
            }
        }
    }
}

/// Folding leaves nothing to fold.
pub proof fn lemma_folded_is_tidy(path: Seq<Part>)
    ensures
        tidy(folded(path)),
{
    lemma_folded_onto_tidy(Seq::empty(), path);
}

/// A path with nothing to fold is left as it is.
pub proof fn lemma_tidy_is_folded(path: Seq<Part>)
    requires
        tidy(path),
    ensures
        folded(path) == path,
    decreases path.len(),
{
    if path.len() > 0 {
        let before = path.drop_last();
        assert(tidy(before)) by {
            assert(forall|i: int| 0 <= i < before.len() ==> before[i] == path[i]);
        }
        lemma_tidy_is_folded(before);
        let last = path[path.len() - 1];
        assert(path =~= before.push(last));
        if anchor(last) && path.len() == 2 {
            assert(path =~= seq![path[0], last]);
        }
        assert(folded_with(before, last) =~= path);
    }
}

/// Folding twice is folding once.
pub proof fn lemma_folding_is_idempotent(path: Seq<Part>)
    ensures
        folded(folded(path)) == folded(path),
{
    lemma_folded_is_tidy(path);
    lemma_tidy_is_folded(folded(path));
}

/// Folding one path after another is folding the two joined.
pub proof fn lemma_folding_joined(start: Seq<Part>, a: Seq<Part>, b: Seq<Part>)
    ensures
        folded_onto(start, a + b) == folded_onto(folded_onto(start, a), b),
    decreases b.len(),
{
    if b.len() == 0 {
        assert(a + b =~= a);
    } else {
        lemma_folding_joined(start, a, b.drop_last());
        assert((a + b).drop_last() =~= a + b.drop_last());
        assert((a + b).last() == b.last());
    }
}

proof fn lemma_climb(path: Seq<Part>, n: nat)
    requires
        n <= path.len(),
        forall|i: int| path.len() - n <= i < path.len() ==> (#[trigger] path[i]) is Normal,
    ensures
        folded_onto(path, climb(n)) == path.take(path.len() - n),
    decreases n,
{
    if n == 0 {
        assert(path.take(path.len() as int) =~= path);
    } else {
        lemma_climb(path, (n - 1) as nat);
        assert(climb(n).drop_last() =~= climb((n - 1) as nat));
        let before = path.take(path.len() - (n - 1));
        assert(before.last() == path[path.len() - n]);
        assert(before.drop_last() =~= path.take(path.len() - n));
    }
}

proof fn lemma_descend(start: Seq<Part>, rest: Seq<Part>)
    requires
        tidy(start + rest),
        forall|i: int| 0 <= i < rest.len() ==> !anchor(#[trigger] rest[i]),
    ensures
        folded_onto(start, rest) == start + rest,
    decreases rest.len(),
{
    if rest.len() == 0 {
        assert(start + rest =~= start);
    } else {
        let whole = start + rest;
        let before = start + rest.drop_last();
        assert(before =~= whole.drop_last());
        assert(tidy(before)) by {
            assert(forall|i: int| 0 <= i < before.len() ==> before[i] == whole[i]);
        }
        lemma_descend(start, rest.drop_last());
        let last = rest.last();
        assert(whole[whole.len() - 1] == last);
        assert(before.len() > 0 ==> before.last() == whole[whole.len() - 2]);
        assert(whole =~= before.push(last));
    }
}

proof fn lemma_anchors_come_first(path: Seq<Part>)
    requires
        tidy(path),
    ensures
        anchors(path).len() <= path.len(),
        anchors(path) == path.take(anchors(path).len() as int),
        forall|i: int|
            0 <= i < path.len() ==> (anchor(#[trigger] path[i]) <==> i < anchors(path).len()),
    decreases path.len(),
{
    if path.len() > 0 {
        let before = path.drop_last();
        assert(tidy(before)) by {
            assert(forall|i: int| 0 <= i < before.len() ==> before[i] == path[i]);
        }
        lemma_anchors_come_first(before);
        let n = anchors(before).len() as int;
        assert(path.last() == path[path.len() - 1]);
        assert(forall|i: int| 0 <= i < before.len() ==> before[i] == path[i]);
        if anchor(path.last()) {
            if path.len() == 2 {
                assert(anchor(before[0]));
            }
            assert(n == before.len());
            assert(anchors(path) =~= path.take(n + 1));
        } else {
            assert(anchors(path) =~= path.take(n));
        }
    } else {
        assert(anchors(path) =~= path.take(0));
    }
}

proof fn lemma_shared_from(a: Seq<Part>, b: Seq<Part>, i: int)
    requires
        0 <= i <= a.len(),
        i <= b.len(),
    ensures
        i <= shared_from(a, b, i) <= a.len(),
        shared_from(a, b, i) <= b.len(),
        forall|j: int| i <= j < shared_from(a, b, i) ==> a[j] == b[j],
        ({
            let k = shared_from(a, b, i);
            k == a.len() || k == b.len() || a[k] != b[k]
        }),
    decreases a.len() - i,
{
    if i < a.len() && i < b.len() && a[i] == b[i] {
        lemma_shared_from(a, b, i + 1);
    }
}

/// Whether one can climb from `base` to what it shares with `target`: only
/// names lie between. It is so of every absolute `base` but one that goes up
/// from the root.
pub open spec fn can_climb(base: Seq<Part>, target: Seq<Part>) -> bool {
    let b = folded(base);
    forall|i: int|
        shared_from(b, folded(target), 0) <= i < b.len() ==> !((#[trigger] b[i]) is Parent)
}

/// Going to `base` and from there along the relative path leads to `target`.
pub proof fn lemma_relative_path_leads_to_target(base: Seq<Part>, target: Seq<Part>)
    requires
        relative_parts(base, target) is Some,
        can_climb(base, target),
    ensures
        folded(base + relative_parts(base, target)->0) == folded(target),
        forall|i: int|
            0 <= i < relative_parts(base, target)->0.len() ==> !anchor(
                #[trigger] relative_parts(base, target)->0[i],
            ),
{
    let b = folded(base);
    let t = folded(target);
    let k = shared_from(b, t, 0);
    let up = climb((b.len() - k) as nat);
    let down = t.skip(k);
    lemma_folded_is_tidy(base);
    lemma_folded_is_tidy(target);
    lemma_shared_from(b, t, 0);
    lemma_anchors_come_first(b);
    lemma_anchors_come_first(t);
    let n = anchors(b).len() as int;
    assert(k >= n) by {
        if k < n {
            assert(b.take(n)[k] == t.take(n)[k]);
        }
    }
    lemma_folding_joined(Seq::empty(), base, up + down);
    lemma_folding_joined(b, up, down);
    lemma_climb(b, (b.len() - k) as nat);
    assert(b.take(k) =~= t.take(k));
    assert(t.take(k) + down =~= t);
    lemma_descend(t.take(k), down);
}

/// A path of names that text can write, with the root only at the start and no
/// prefix.
pub open spec fn plain(path: Seq<Part>) -> bool {
    forall|i: int|
        0 <= i < path.len() ==> match #[trigger] path[i] {
            Part::Prefix(_) => false,
            Part::Root => i == 0,
            Part::Normal(name) => writable_name(name),
            _ => true,
        }
}

/// Folding a path first and then going along it leads where the path leads,
/// whatever it starts from.
pub proof fn lemma_folding_keeps_the_way(base: Seq<Part>, path: Seq<Part>)
    requires
        plain(path),
    ensures
        folded(base + folded(path)) == folded(base + path),
    decreases path.len(),
{
    if path.len() == 0 {
        assert(base + folded(path) =~= base + path);
    } else {
        let before = path.drop_last();
        let last = path[path.len() - 1];
        assert forall|i: int| 0 <= i < before.len() implies #[trigger] before[i] == path[i] by {}
        lemma_folding_keeps_the_way(base, before);
        let f = folded(before);
        lemma_folded_is_tidy(before);
        assert((base + path).drop_last() =~= base + before);
        assert(folded(base + path) == folded_with(folded(base + f), last));
        if last is Parent && ends_in_a_name(f) {
            let rest = f.drop_last();
            assert(f.last() == f[f.len() - 1]);
            assert((base + f).drop_last() =~= base + rest);
            assert((base + f).last() == f.last());
            let whole = folded(base + rest);
            assert(whole.push(f.last()).drop_last() =~= whole);
        } else if last is Current {
        } else if last is Root {
            assert(before.len() == 0);
            assert(folded(path) =~= seq![last]);
            assert(base + folded(path) =~= base + path);
            assert(f =~= Seq::empty());
        } else {
            assert(folded(path) =~= f.push(last));
            assert((base + folded(path)).drop_last() =~= base + f);
            assert((base + folded(path)).last() == last);
        }
    }
}

/// A path that is not anchored, behind another, keeps it plain.
pub proof fn lemma_joined_is_plain(dir: Seq<Part>, path: Seq<Part>)
    requires
        writable(dir),
        writable(path),
        forall|i: int| 0 <= i < path.len() ==> !anchor(#[trigger] path[i]),
    ensures
        plain(dir + path),
{
    let whole = dir + path;
    assert forall|i: int| 0 <= i < whole.len() implies match #[trigger] whole[i] {
        Part::Prefix(_) => false,
        Part::Root => i == 0,
        Part::Normal(name) => writable_name(name),
        _ => true,
    } by {
        if i < dir.len() {
            assert(whole[i] == dir[i]);
        } else {
            assert(whole[i] == path[i - dir.len()]);
        }
    }
}

/// Folding a plain path leaves one that text can write.
pub proof fn lemma_folded_is_writable(path: Seq<Part>)
    requires
        plain(path),
    ensures
        writable(folded(path)),
    decreases path.len(),
{
    if path.len() > 0 {
        let before = path.drop_last();
        let last = path[path.len() - 1];
        assert forall|i: int| 0 <= i < before.len() implies #[trigger] before[i] == path[i] by {}
        lemma_folded_is_writable(before);
        let f = folded(before);
        let after = folded_with(f, last);
        if last is Root {
            assert(before.len() == 0);
            assert(after =~= seq![last]);
        } else if after.len() > f.len() {
            assert(after =~= f.push(last));
        } else {
            assert(forall|i: int| 0 <= i < after.len() ==> after[i] == f[i]);
        }
    }
}

/// How far a path has gone down from its start: its names, less its `..`s.
pub open spec fn depth(path: Seq<Part>) -> int
    decreases path.len(),
{
    if path.len() == 0 {
        0
    } else {
        depth(path.drop_last()) + (match path.last() {
            Part::Normal(_) => 1int,
            Part::Parent => -1int,
            _ => 0int,
        })
    }
}

/// Whether a path never climbs above its start: up to no component are there
/// more `..`s than names.
pub open spec fn never_climbs(path: Seq<Part>) -> bool {
    forall|n: int| 0 <= n <= path.len() ==> depth(#[trigger] path.take(n)) >= 0
}

/// Whether a prefix and the root stand only at the start of a path, in this
/// order.
pub open spec fn anchored_at_the_start(path: Seq<Part>) -> bool {
    forall|i: int|
        0 <= i < path.len() && anchor(#[trigger] path[i]) ==> i == 0 || (i == 1 && path[0] is Prefix
            && path[1] is Root)
}

/// A path that never climbs above its start folds to one without `.` and `..`:
/// the same anchor, and as many names as it has gone down.
pub proof fn lemma_a_path_that_never_climbs(path: Seq<Part>)
    requires
        anchored_at_the_start(path),
        never_climbs(path),
    ensures
        anchors(folded(path)) == anchors(path),
        folded(path).len() == anchors(path).len() + depth(path),
        forall|i: int|
            0 <= i < folded(path).len() ==> if i < anchors(path).len() {
                anchor(#[trigger] folded(path)[i])
            } else {
                folded(path)[i] is Normal
            },
    decreases path.len(),
{
    if path.len() > 0 {
        let before = path.drop_last();
        let last = path[path.len() - 1];
        assert(forall|i: int| 0 <= i < before.len() ==> before[i] == path[i]);
        assert(never_climbs(before)) by {
            assert forall|n: int| 0 <= n <= before.len() implies depth(#[trigger] before.take(n))
                >= 0 by {
                assert(before.take(n) =~= path.take(n));
            }
        }
        lemma_a_path_that_never_climbs(before);
        assert(path.take(path.len() as int) =~= path);
        let f = folded(before);
        let after = folded(path);
        lemma_folded_is_tidy(before);
        lemma_anchors_come_first(f);
        lemma_folded_is_tidy(path);
        lemma_anchors_come_first(after);
        if last is Root {
            if before.len() > 0 {
                assert(before =~= seq![path[0]]);
                assert(before.drop_last() =~= Seq::empty());
                assert(anchors(before) =~= seq![path[0]]);
                assert(f =~= seq![path[0]]);
                assert(after =~= seq![path[0], last]);
            } else {
                assert(after =~= seq![last]);
            }
            assert(after =~= anchors(path));
        } else if last is Prefix {
            assert(before.len() == 0);
            assert(after =~= seq![last]);
            assert(after =~= anchors(path));
        } else if last is Normal {
            assert(after =~= f.push(last));
        } else if last is Parent {
            assert(depth(before) >= 1);
            assert(f[f.len() - 1] is Normal);
            assert(after =~= f.drop_last());
        }
        let n = anchors(path).len() as int;
        assert(forall|i: int| 0 <= i < after.len() ==> (anchor(#[trigger] after[i]) <==> i < n));
        assert(anchors(after).len() == n) by {
            if anchors(after).len() < n {
                assert(anchor(after[anchors(after).len() as int]));
            } else if anchors(after).len() > n {
                assert(!anchor(after[n]));
            }
        }
        assert(anchors(after) =~= anchors(path));
    } else {
        assert(anchors(path) =~= Seq::empty());
    }
}

/// Spellings of one directory fold to one path: going into a directory and out
/// again, or staying with a `.`, leads where going on at once leads.
pub proof fn lemma_a_detour_folds_away(dir: Seq<Part>, name: Seq<char>, rest: Seq<Part>)
    ensures
        folded(dir + seq![Part::Normal(name), Part::Parent] + rest) == folded(dir + rest),
        folded(dir + seq![Part::Current] + rest) == folded(dir + rest),
{
    let out = seq![Part::Normal(name), Part::Parent];
    let stay = seq![Part::Current];
    let f = folded(dir);
    lemma_folding_joined(Seq::empty(), dir, rest);
    lemma_folding_joined(Seq::empty(), dir + out, rest);
    lemma_folding_joined(Seq::empty(), dir, out);
    lemma_folding_joined(Seq::empty(), dir + stay, rest);
    lemma_folding_joined(Seq::empty(), dir, stay);
    let gone = out.drop_last();
    assert(gone =~= seq![Part::Normal(name)]);
    assert(gone.drop_last() =~= Seq::empty());
    assert(stay.drop_last() =~= Seq::empty());
    assert(folded_onto(f, gone.drop_last()) == f);
    assert(folded_onto(f, gone) == f.push(Part::Normal(name)));
    assert(f.push(Part::Normal(name)).drop_last() =~= f);
    assert(folded_onto(f, out) == f);
    assert(folded_onto(f, stay.drop_last()) == f);
}

/// How far apart two paths are: up from the one to what they share, and down to
/// the other.
spec fn distance(a: Seq<Part>, b: Seq<Part>) -> int {
    a.len() + b.len() - 2 * shared_from(a, b, 0)
}

proof fn lemma_one_more_is_one_away(a: Seq<Part>, part: Part, b: Seq<Part>)
    ensures
        -1 <= distance(a.push(part), b) - distance(a, b) <= 1,
{
    let longer = a.push(part);
    let k = shared_from(a, b, 0);
    let l = shared_from(longer, b, 0);
    lemma_shared_from(a, b, 0);
    lemma_shared_from(longer, b, 0);
    assert(forall|j: int| 0 <= j < a.len() ==> longer[j] == a[j]);
    if l < k {
        assert(longer[l] == b[l]);
    }
    if l > k && k < a.len() {
        assert(a[k] == b[k]);
    }
}

proof fn lemma_each_component_goes_one_way(start: Seq<Part>, path: Seq<Part>, target: Seq<Part>)
    requires
        forall|i: int| 0 <= i < path.len() ==> !anchor(#[trigger] path[i]),
    ensures
        distance(start, target) <= distance(folded_onto(start, path), target) + path.len(),
    decreases path.len(),
{
    if path.len() > 0 {
        let before = path.drop_last();
        let last = path[path.len() - 1];
        assert(forall|i: int| 0 <= i < before.len() ==> before[i] == path[i]);
        lemma_each_component_goes_one_way(start, before, target);
        let f = folded_onto(start, before);
        let after = folded_with(f, last);
        if after.len() > f.len() {
            assert(after =~= f.push(last));
            lemma_one_more_is_one_away(f, last, target);
        } else if after.len() < f.len() {
            assert(f =~= after.push(f.last()));
            lemma_one_more_is_one_away(after, f.last(), target);
        }
    }
}

/// No way from `base` to `target` is shorter than the relative path.
pub proof fn lemma_relative_path_is_the_shortest(
    base: Seq<Part>,
    target: Seq<Part>,
    other: Seq<Part>,
)
    requires
        relative_parts(base, target) is Some,
        forall|i: int| 0 <= i < other.len() ==> !anchor(#[trigger] other[i]),
        folded(base + other) == folded(target),
    ensures
        relative_parts(base, target)->0.len() <= other.len(),
{
    let b = folded(base);
    let t = folded(target);
    lemma_folding_joined(Seq::empty(), base, other);
    lemma_each_component_goes_one_way(b, other, t);
    lemma_shared_from(b, t, 0);
    lemma_shared_from(t, t, 0);
}

/// Between two paths that never climb above their start there is a relative
/// path exactly where their anchors agree. It leads from the one to the other:
/// `..`s up to the longest start that the two share, folded, and from there
/// names alone. It is empty exactly where the two fold to the same path.
pub proof fn lemma_relative_path_climbs_and_descends(base: Seq<Part>, target: Seq<Part>)
    requires
        anchored_at_the_start(base),
        never_climbs(base),
        anchored_at_the_start(target),
        never_climbs(target),
    ensures
        relative_parts(base, target) is None <==> anchors(base) != anchors(target),
        relative_parts(base, target) matches Some(relative) ==> {
            let b = folded(base);
            let t = folded(target);
            let k = shared_from(b, t, 0);
            let up = b.len() - k;
            &&& folded(base + relative) == t
            &&& 0 <= k <= b.len() && k <= t.len() && b.take(k) == t.take(k)
            &&& k == b.len() || k == t.len() || b[k] != t[k]
            &&& relative.len() == up + t.len() - k
            &&& forall|i: int| 0 <= i < up ==> (#[trigger] relative[i]) is Parent
            &&& forall|i: int| up <= i < relative.len() ==> (#[trigger] relative[i]) is Normal
            &&& relative.len() == 0 <==> b == t
        },
{
    let b = folded(base);
    let t = folded(target);
    let k = shared_from(b, t, 0);
    lemma_a_path_that_never_climbs(base);
    lemma_a_path_that_never_climbs(target);
    lemma_shared_from(b, t, 0);
    if relative_parts(base, target) is Some {
        let relative = relative_parts(base, target)->0;
        let up = b.len() - k;
        assert(can_climb(base, target));
        lemma_relative_path_leads_to_target(base, target);
        assert(b.take(k) =~= t.take(k));
        assert forall|i: int| up <= i < relative.len() implies (#[trigger] relative[i]) is Normal by {
            let j = k + i - up;
            assert(relative[i] == t[j]);
            assert(!anchor(relative[i]));
            assert(anchor(folded(target)[j]) || folded(target)[j] is Normal);
        }
        if relative.len() == 0 {
            assert(b =~= t);
        }
        if b == t {
            assert(k == b.len());
        }
    }
}

/// A path relative to itself is the empty path.
pub proof fn lemma_relative_path_to_itself(path: Seq<Part>)
    ensures
        relative_parts(path, path) == Some(Seq::<Part>::empty()),
{
    let p = folded(path);
    lemma_shared_from(p, p, 0);
    assert(climb(0) + p.skip(p.len() as int) =~= Seq::<Part>::empty());
}

/// The position of the first `/` from `i` on, or the end.
pub open spec fn segment_end(s: Seq<char>, i: int) -> int
    decreases s.len() - i,
{
    if 0 <= i < s.len() && s[i] != '/' {
        segment_end(s, i + 1)
    } else {
        i
    }
}

/// The component that a piece of text between two `/` writes. An empty piece
/// writes none, and a `.` only where the path begins with it.
pub open spec fn segment_part(segment: Seq<char>, first: bool) -> Seq<Part> {
    if segment.len() == 0 {
        Seq::empty()
    } else if segment == seq!['.'] {
        if first {
            seq![Part::Current]
        } else {
            Seq::empty()
        }
    } else if segment == seq!['.', '.'] {
        seq![Part::Parent]
    } else {
        seq![Part::Normal(segment)]
    }
}

/// The components that the text from `i` on writes.
pub open spec fn parts_from(s: Seq<char>, i: int, first: bool) -> Seq<Part>
    decreases s.len() - i,
{
    let end = segment_end(s, i);
    if i < 0 || end < i || end > s.len() {
        Seq::empty()
    } else if end == s.len() {
        segment_part(s.subrange(i, end), first)
    } else {
        segment_part(s.subrange(i, end), first) + parts_from(s, end + 1, false)
    }
}

/// Whether the text begins at the root.
pub open spec fn rooted(s: Seq<char>) -> bool {
    s.len() > 0 && s[0] == '/'
}

/// The components that a text writes.
pub open spec fn parts_in(s: Seq<char>) -> Seq<Part> {
    if rooted(s) {
        seq![Part::Root] + parts_from(s, 1, false)
    } else {
        parts_from(s, 0, true)
    }
}

/// Whether the path that `s` writes begins at the root.
pub fn has_root(s: &str) -> (r: bool)
    ensures
        r == rooted(s@),
{
    s.unicode_len() > 0 && s.get_char(0) == '/'
}

/// Read the path that `s` writes.
pub fn parse_path(s: &str) -> (r: Vec<Component>)
    ensures
        parts(r@) == parts_in(s@),
{
    let c: Vec<char> = text::chars_of(s);
    let n: usize = c.len();
    let mut out: Vec<Component> = Vec::new();
    let mut i: usize = 0;
    let mut first: bool = true;
    if n > 0 && c[0] == '/' {
        out.push(Component::RootDir);
        i = 1;
        first = false;
    }
    proof {
        assert(parts(out@) + parts_from(s@, i as int, first) =~= parts_in(s@));
    }
    let mut done: bool = false;
    while !done
        invariant
            c@ == s@,
            n == c@.len(),
            i <= n,
            done ==> parts(out@) == parts_in(s@),
            !done ==> parts(out@) + parts_from(s@, i as int, first) == parts_in(s@),
        decreases
                n - i + (if done {
                    0int
                } else {
                    1int
                }),
    {
        let ghost before = parts(out@);
        let ghost start = i as int;
        let mut j: usize = i;
        while j < n && c[j] != '/'
            invariant
                c@ == s@,
                n == c@.len(),
                i <= j <= n,
                segment_end(s@, i as int) == segment_end(s@, j as int),
            decreases n - j,
        {
            j += 1;
        }
        let segment: &str = s.substring_char(i, j);
        if j == i {
        } else if j - i == 1 && c[i] == '.' {
            proof {
                assert(segment@ =~= seq!['.']);
            }
            if first {
                out.push(Component::CurDir);
            }
        } else if j - i == 2 && c[i] == '.' && c[i + 1] == '.' {
            proof {
                assert(segment@ =~= seq!['.', '.']);
            }
            out.push(Component::ParentDir);
        } else {
            proof {
                assert(segment@.len() == j - i);
                assert(segment@[0] == c@[i as int]);
                assert(j - i == 2 ==> segment@[1] == c@[i + 1]);
            }
            out.push(Component::Normal(segment.to_owned()));
        }
        proof {
            assert(segment_end(s@, start) == j);
            assert(segment@ == s@.subrange(start, j as int));
            assert(parts(out@) =~= before + segment_part(segment@, first));
            assert(parts_from(s@, start, first) =~= if j == n {
                segment_part(segment@, first)
            } else {
                segment_part(segment@, first) + parts_from(s@, j + 1, false)
            });
            assert(j < n ==> parts(out@) + parts_from(s@, j + 1, false) =~= before + parts_from(
                s@,
                start,
                first,
            ));
        }
        if j == n {
            done = true;
        } else {
            first = false;
            i = j + 1;
        }
    }
    out
}

/// The text of one component.
pub open spec fn part_text(part: Part) -> Seq<char> {
    match part {
        Part::Prefix(s) => s,
        Part::Root => seq!['/'],
        Part::Current => seq!['.'],
        Part::Parent => seq!['.', '.'],
        Part::Normal(s) => s,
    }
}

/// The text that writes a path: its components, with `/` between each two that
/// are not an anchor.
pub open spec fn path_text(path: Seq<Part>) -> Seq<char>
    decreases path.len(),
{
    if path.len() == 0 {
        Seq::empty()
    } else {
        let before = path.drop_last();
        if before.len() > 0 && !anchor(before.last()) && !anchor(path.last()) {
            path_text(before) + seq!['/'] + part_text(path.last())
        } else {
            path_text(before) + part_text(path.last())
        }
    }
}

fn is_anchor(part: &Component) -> (r: bool)
    ensures
        r == anchor(part@),
{
    match part {
        Component::Prefix(_) => true,
        Component::RootDir => true,
        _ => false,
    }
}

/// Write a path.
pub fn render_path(path: &Vec<Component>) -> (r: String)
    ensures
        r@ == path_text(parts(path@)),
{
    let mut out: String = String::new();
    let mut i: usize = 0;
    proof {
        reveal_strlit("/");
        reveal_strlit(".");
        reveal_strlit("..");
        assert("/"@ =~= seq!['/']);
        assert("."@ =~= seq!['.']);
        assert(".."@ =~= seq!['.', '.']);
        assert(parts(path@).take(0) =~= Seq::empty());
    }
    while i < path.len()
        invariant
            i <= path@.len(),
            out@ == path_text(parts(path@).take(i as int)),
            "/"@ == seq!['/'],
            "."@ == seq!['.'],
            ".."@ == seq!['.', '.'],
        decreases path@.len() - i,
    {
        let ghost longer = parts(path@).take(i + 1);
        proof {
            assert(longer.drop_last() =~= parts(path@).take(i as int));
            assert(longer.last() == path@[i as int]@);
            assert(i > 0 ==> longer.drop_last().last() == path@[i - 1]@);
        }
        if i > 0 && !is_anchor(&path[i - 1]) && !is_anchor(&path[i]) {
            out.append("/");
        }
        match &path[i] {
            Component::Prefix(s) => {
                out.append(s.as_str());
            },
            Component::RootDir => {
                out.append("/");
            },
            Component::CurDir => {
                out.append(".");
            },
            Component::ParentDir => {
                out.append("..");
            },
            Component::Normal(s) => {
                out.append(s.as_str());
            },
        }
        i += 1;
    }
    proof {
        assert(parts(path@).take(i as int) =~= parts(path@));
    }
    out
}

/// A name that text can write: not empty, without a `/`, and neither `.` nor
/// `..`.
pub open spec fn writable_name(name: Seq<char>) -> bool {
    &&& name.len() > 0
    &&& forall|i: int| 0 <= i < name.len() ==> name[i] != '/'
    &&& name != seq!['.']
    &&& name != seq!['.', '.']
}

/// A path that text can write: its names can be written, the root and `.`
/// stand only at the start, and there is no prefix.
pub open spec fn writable(path: Seq<Part>) -> bool {
    forall|i: int|
        0 <= i < path.len() ==> match #[trigger] path[i] {
            Part::Prefix(_) => false,
            Part::Root => i == 0,
            Part::Current => i == 0,
            Part::Parent => true,
            Part::Normal(name) => writable_name(name),
        }
}

proof fn lemma_segment_end(s: Seq<char>, i: int)
    requires
        0 <= i <= s.len(),
    ensures
        i <= segment_end(s, i) <= s.len(),
        forall|j: int| i <= j < segment_end(s, i) ==> s[j] != '/',
        segment_end(s, i) < s.len() ==> s[segment_end(s, i)] == '/',
    decreases s.len() - i,
{
    if i < s.len() && s[i] != '/' {
        lemma_segment_end(s, i + 1);
    }
}

proof fn lemma_segment_end_is(s: Seq<char>, i: int, end: int)
    requires
        0 <= i <= end <= s.len(),
        forall|j: int| i <= j < end ==> s[j] != '/',
        end < s.len() ==> s[end] == '/',
    ensures
        segment_end(s, i) == end,
    decreases end - i,
{
    if i < end {
        lemma_segment_end_is(s, i + 1, end);
    }
}

proof fn lemma_last_segment(s: Seq<char>, i: int, first: bool)
    requires
        0 <= i <= s.len(),
        forall|j: int| i <= j < s.len() ==> s[j] != '/',
    ensures
        parts_from(s, i, first) == segment_part(s.skip(i), first),
{
    lemma_segment_end_is(s, i, s.len() as int);
    assert(s.subrange(i, s.len() as int) =~= s.skip(i));
}

proof fn lemma_one_more_segment(s: Seq<char>, i: int, first: bool, name: Seq<char>)
    requires
        0 <= i <= s.len(),
        forall|j: int| 0 <= j < name.len() ==> name[j] != '/',
    ensures
        parts_from(s + seq!['/'] + name, i, first) == parts_from(s, i, first) + segment_part(
            name,
            false,
        ),
    decreases s.len() - i,
{
    let t = s + seq!['/'] + name;
    let end = segment_end(s, i);
    lemma_segment_end(s, i);
    assert(forall|j: int| 0 <= j < s.len() ==> t[j] == s[j]);
    assert(t[s.len() as int] == '/');
    lemma_segment_end_is(t, i, end);
    assert(t.subrange(i, end) =~= s.subrange(i, end));
    let head = segment_part(s.subrange(i, end), first);
    if end == s.len() {
        assert(forall|j: int| s.len() + 1 <= j < t.len() ==> t[j] == name[j - s.len() - 1]);
        lemma_last_segment(t, end + 1, false);
        assert(t.skip(end + 1) =~= name);
    } else {
        lemma_one_more_segment(s, end + 1, false, name);
        assert(head + (parts_from(s, end + 1, false) + segment_part(name, false)) =~= head
            + parts_from(s, end + 1, false) + segment_part(name, false));
    }
}

/// Reading what was written gives the path back.
pub proof fn lemma_path_round_trip(path: Seq<Part>)
    requires
        writable(path),
    ensures
        parts_in(path_text(path)) == path,
        path.len() > 0 ==> path_text(path).len() > 0,
    decreases path.len(),
{
    let t = path_text(path);
    if path.len() == 0 {
        lemma_last_segment(t, 0, true);
        assert(t.skip(0) =~= t);
    } else {
        let before = path.drop_last();
        let last = path.last();
        let name = part_text(last);
        assert(last == path[path.len() - 1]);
        assert(writable(before)) by {
            assert(forall|i: int| 0 <= i < before.len() ==> before[i] == path[i]);
        }
        lemma_path_round_trip(before);
        assert(name.len() > 0);
        if before.len() == 0 {
            assert(t =~= name);
            if last is Root {
                lemma_last_segment(t, 1, false);
                assert(t.skip(1) =~= Seq::empty());
                assert(parts_in(t) =~= path);
            } else {
                lemma_last_segment(t, 0, true);
                assert(t.skip(0) =~= t);
                assert(parts_in(t) =~= path);
            }
        } else {
            assert(before.last() == path[path.len() - 2]);
            assert(segment_part(name, false) =~= seq![last]);
            if before.last() is Root {
                assert(before =~= seq![Part::Root]);
                assert(path_text(before.drop_last()) =~= Seq::<char>::empty());
                assert(path_text(before) =~= seq!['/']);
                assert(t =~= seq!['/'] + name);
                assert(forall|j: int| 1 <= j < t.len() ==> t[j] == name[j - 1]);
                lemma_last_segment(t, 1, false);
                assert(t.skip(1) =~= name);
                assert(parts_in(t) =~= path);
            } else {
                let head = path_text(before);
                assert(t == head + seq!['/'] + name);
                assert(t[0] == head[0]);
                if rooted(head) {
                    lemma_one_more_segment(head, 1, false, name);
                } else {
                    lemma_one_more_segment(head, 0, true, name);
                }
                assert(parts_in(t) =~= before.push(last));
                assert(before.push(last) =~= path);
            }
        }
    }
}

/// What is left of a path without its last component, where it has one to take
/// off.
pub open spec fn parent_parts(path: Seq<Part>) -> Option<Seq<Part>> {
    if can_pop(path) {
        Some(path.drop_last())
    } else {
        None
    }
}

/// The directory a path lies in.
pub fn parent(path: &Vec<Component>) -> (r: Option<Vec<Component>>)
    ensures
        match r {
            Some(dir) => parent_parts(parts(path@)) == Some(parts(dir@)),
            None => parent_parts(parts(path@)) is None,
        },
{
    let mut out: Vec<Component> = join(&Vec::new(), path);
    proof {
        assert(parts(Seq::empty()) + parts(path@) =~= parts(path@));
    }
    if pop(&mut out) {
        Some(out)
    } else {
        None
    }
}

/// The components of `dir` and then those of `path`.
pub fn join(dir: &Vec<Component>, path: &Vec<Component>) -> (r: Vec<Component>)
    ensures
        parts(r@) == parts(dir@) + parts(path@),
{
    let mut out: Vec<Component> = Vec::new();
    let mut i: usize = 0;
    while i < dir.len()
        invariant
            i <= dir@.len(),
            parts(out@) == parts(dir@).take(i as int),
        decreases dir@.len() - i,
    {
        let ghost before = parts(out@);
        out.push(dir[i].clone());
        proof {
            assert(parts(out@) =~= before.push(dir@[i as int]@));
            assert(parts(out@) =~= parts(dir@).take(i + 1));
        }
        i += 1;
    }
    proof {
        assert(parts(dir@).take(i as int) =~= parts(dir@));
    }
    let mut j: usize = 0;
    proof {
        assert(parts(dir@) + parts(path@).take(0) =~= parts(dir@));
    }
    while j < path.len()
        invariant
            j <= path@.len(),
            parts(out@) == parts(dir@) + parts(path@).take(j as int),
        decreases path@.len() - j,
    {
        let ghost before = parts(out@);
        out.push(path[j].clone());
        proof {
            assert(parts(out@) =~= before.push(path@[j as int]@));
            assert(parts(out@) =~= parts(dir@) + parts(path@).take(j + 1));
        }
        j += 1;
    }
    proof {
        assert(parts(path@).take(j as int) =~= parts(path@));
    }
    out
}

/// The name a path ends in.
pub open spec fn file_name(path: Seq<Part>) -> Option<Seq<char>> {
    if path.len() == 0 {
        None
    } else {
        match path.last() {
            Part::Normal(name) => Some(name),
            _ => None,
        }
    }
}

/// A name up to its last `.`; the whole name where there is none, or none but
/// the one it begins with.
pub open spec fn stem(name: Seq<char>) -> Seq<char> {
    match text::split_last(name, "."@) {
        Some((before, _)) => if before.len() > 0 {
            before
        } else {
            name
        },
        None => name,
    }
}

/// The stem of the name a path ends in.
pub open spec fn file_stem_of(path: Seq<Part>) -> Option<Seq<char>> {
    match file_name(path) {
        Some(name) => Some(stem(name)),
        None => None,
    }
}

/// The name a path ends in, without its extension.
pub fn file_stem(path: &Vec<Component>) -> (r: Option<String>)
    ensures
        match r {
            Some(s) => file_stem_of(parts(path@)) == Some(s@),
            None => file_stem_of(parts(path@)) is None,
        },
{
    let n: usize = path.len();
    if n == 0 {
        return None;
    }
    proof {
        assert(parts(path@).last() == path@[n - 1]@);
    }
    match &path[n - 1] {
        Component::Normal(name) => {
            match text::rsplit_once(name.as_str(), ".") {
                Some((before, _)) => {
                    if before.unicode_len() > 0 {
                        Some(before.to_owned())
                    } else {
                        Some(name.clone())
                    }
                },
                None => Some(name.clone()),
            }
        },
        _ => None,
    }
}

/// Where a failing image goes: beside the golden, as `<name>.actual.png`.
pub open spec fn actual_parts(golden: Seq<Part>) -> Seq<Part> {
    match file_stem_of(golden) {
        Some(s) => golden.drop_last().push(Part::Normal(s + ".actual.png"@)),
        None => golden.push(Part::Normal(".actual.png"@)),
    }
}

/// Where a failing image goes: beside the golden, as `<name>.actual.png`.
pub fn actual_path(golden: &Vec<Component>) -> (r: Vec<Component>)
    ensures
        parts(r@) == actual_parts(parts(golden@)),
{
    let mut out: Vec<Component> = join(&Vec::new(), golden);
    proof {
        assert(parts(Seq::empty()) + parts(golden@) =~= parts(golden@));
    }
    match file_stem(golden) {
        Some(stem) => {
            pop(&mut out);
            let ghost before = parts(out@);
            let name: String = stem.concat(".actual.png");
            let ghost last = Part::Normal(name@);
            out.push(Component::Normal(name));
            proof {
                assert(parts(out@) =~= before.push(last));
            }
        },
        None => {
            let ghost before = parts(out@);
            out.push(Component::Normal(".actual.png".to_owned()));
            proof {
                assert(parts(out@) =~= before.push(Part::Normal(".actual.png"@)));
            }
        },
    }
    out
}

/// A failing image lies in the directory of its golden and never on top of it.
pub proof fn lemma_actual_sits_beside_the_golden(golden: Seq<Part>)
    requires
        file_name(golden) is Some,
    ensures
        parent_parts(actual_parts(golden)) == parent_parts(golden),
        actual_parts(golden) != golden,
{
    let name = file_name(golden)->0;
    let s = stem(name);
    let written = s + ".actual.png"@;
    reveal_strlit(".actual.png");
    reveal_strlit(".");
    let i = text::last_match(name, "."@, name.len() as int);
    text::lemma_last_match(name, "."@, name.len() as int);
    assert(actual_parts(golden).drop_last() =~= golden.drop_last());
    assert(actual_parts(golden).last() == Part::Normal(written));
    if written == name {
        assert(i > 0);
        assert(s == name.take(i));
        assert(name[i + 7] == written[i + 7]);
        assert(name.subrange(i + 7, i + 8) =~= "."@);
        assert(text::occurs_at(name, "."@, i + 7));
        assert(false);
    }
}

/// The length of the shortest prefix of `s`, of those at least `k` long, that
/// writes `parts`; the whole of `s` where none does.
pub open spec fn shortest_writing(s: Seq<char>, parts: Seq<Part>, k: int) -> int
    decreases s.len() - k,
{
    if 0 <= k < s.len() && parts_in(s.take(k)) != parts {
        shortest_writing(s, parts, k + 1)
    } else {
        k
    }
}

/// The text of a path up to its last component, as it is spelled.
pub open spec fn parent_text(s: Seq<char>) -> Seq<char> {
    s.take(shortest_writing(s, parts_in(s).drop_last(), 0))
}

/// A name in the directory that `dir` writes.
pub open spec fn text_under(dir: Seq<char>, name: Seq<char>) -> Seq<char> {
    if dir.len() == 0 || dir.last() == '/' {
        dir + name
    } else {
        dir + seq!['/'] + name
    }
}

/// The text of a path up to its last component, as it is spelled.
pub fn parent_of<'a>(s: &'a str) -> (r: &'a str)
    requires
        parts_in(s@).len() > 0,
    ensures
        r@ == parent_text(s@),
{
    let n: usize = s.unicode_len();
    let mut wanted: Vec<Component> = parse_path(s);
    let ghost all = parts(wanted@);
    wanted.pop();
    proof {
        assert(parts(wanted@) =~= all.drop_last());
    }
    let mut k: usize = 0;
    while k < n && !same_path(&parse_path(s.substring_char(0, k)), &wanted)
        invariant
            n == s@.len(),
            k <= n,
            parts(wanted@) == parts_in(s@).drop_last(),
            shortest_writing(s@, parts_in(s@).drop_last(), 0) == shortest_writing(
                s@,
                parts_in(s@).drop_last(),
                k as int,
            ),
        decreases n - k,
    {
        proof {
            assert(s@.subrange(0, k as int) =~= s@.take(k as int));
        }
        k += 1;
    }
    proof {
        assert(k < n ==> s@.subrange(0, k as int) =~= s@.take(k as int));
        assert(s@.subrange(0, k as int) =~= s@.take(k as int));
    }
    s.substring_char(0, k)
}

/// A name in the directory that `dir` writes.
pub fn name_under(dir: &str, name: &str) -> (r: String)
    ensures
        r@ == text_under(dir@, name@),
{
    let n: usize = dir.unicode_len();
    let mut out: String = dir.to_owned();
    proof {
        reveal_strlit("/");
        assert("/"@ =~= seq!['/']);
    }
    if n > 0 && dir.get_char(n - 1) != '/' {
        out.append("/");
    }
    out.append(name);
    out
}

proof fn lemma_prefix_without_last(s: Seq<char>, i: int, first: bool) -> (k: int)
    requires
        0 <= i <= s.len(),
        parts_from(s, i, first).len() > 0,
    ensures
        i <= k < s.len(),
        parts_from(s.take(k), i, first) == parts_from(s, i, first).drop_last(),
    decreases s.len() - i,
{
    let end = segment_end(s, i);
    lemma_segment_end(s, i);
    let head = segment_part(s.subrange(i, end), first);
    if end < s.len() && parts_from(s, end + 1, false).len() > 0 {
        let k = lemma_prefix_without_last(s, end + 1, false);
        let t = s.take(k);
        assert(forall|j: int| 0 <= j < k ==> t[j] == s[j]);
        lemma_segment_end_is(t, i, end);
        assert(t.subrange(i, end) =~= s.subrange(i, end));
        assert(parts_from(t, i, first) =~= parts_from(s, i, first).drop_last());
        k
    } else {
        let t = s.take(i);
        assert(parts_from(s, i, first) =~= head);
        lemma_last_segment(t, i, first);
        assert(t.skip(i) =~= Seq::empty());
        assert(parts_from(t, i, first) =~= parts_from(s, i, first).drop_last());
        i
    }
}

proof fn lemma_shortest_writing(s: Seq<char>, wanted: Seq<Part>, from: int, k: int)
    requires
        0 <= from <= k < s.len(),
        parts_in(s.take(k)) == wanted,
    ensures
        parts_in(s.take(shortest_writing(s, wanted, from))) == wanted,
    decreases k - from,
{
    if parts_in(s.take(from)) != wanted {
        lemma_shortest_writing(s, wanted, from + 1, k);
    }
}

/// The text of a path up to its last component writes the path without it.
pub proof fn lemma_parent_text(s: Seq<char>)
    requires
        parts_in(s).len() > 0,
    ensures
        parts_in(parent_text(s)) == parts_in(s).drop_last(),
{
    let wanted = parts_in(s).drop_last();
    if rooted(s) {
        if parts_from(s, 1, false).len() > 0 {
            let k = lemma_prefix_without_last(s, 1, false);
            assert(s.take(k)[0] == s[0]);
            assert(parts_in(s.take(k)) =~= wanted);
            lemma_shortest_writing(s, wanted, 0, k);
        } else {
            lemma_last_segment(s.take(0), 0, true);
            assert(s.take(0).skip(0) =~= Seq::empty());
            assert(parts_in(s.take(0)) =~= wanted);
            lemma_shortest_writing(s, wanted, 0, 0);
        }
    } else {
        let k = lemma_prefix_without_last(s, 0, true);
        if k > 0 {
            assert(s.take(k)[0] == s[0]);
        }
        assert(parts_in(s.take(k)) =~= wanted);
        lemma_shortest_writing(s, wanted, 0, k);
    }
}

/// A name put under a directory writes the directory's path and the name.
pub proof fn lemma_text_under(dir: Seq<char>, name: Seq<char>)
    requires
        writable_name(name),
    ensures
        parts_in(text_under(dir, name)) == parts_in(dir).push(Part::Normal(name)),
{
    let t = text_under(dir, name);
    let added = seq![Part::Normal(name)];
    assert(segment_part(name, false) =~= added);
    assert(segment_part(name, true) =~= added);
    if dir.len() == 0 {
        assert(t =~= name);
        lemma_last_segment(t, 0, true);
        assert(t.skip(0) =~= t);
        lemma_last_segment(dir, 0, true);
        assert(dir.skip(0) =~= Seq::empty());
        assert(parts_in(t) =~= parts_in(dir).push(Part::Normal(name)));
    } else if dir.last() == '/' {
        let before = dir.drop_last();
        let nothing = Seq::<char>::empty();
        assert(t =~= before + seq!['/'] + name);
        assert(dir =~= before + seq!['/'] + nothing);
        assert(t[0] == dir[0]);
        if before.len() == 0 {
            assert(forall|j: int| 1 <= j < t.len() ==> t[j] == name[j - 1]);
            lemma_last_segment(t, 1, false);
            assert(t.skip(1) =~= name);
            lemma_last_segment(dir, 1, false);
            assert(dir.skip(1) =~= nothing);
            assert(parts_in(t) =~= parts_in(dir).push(Part::Normal(name)));
        } else if rooted(dir) {
            lemma_one_more_segment(before, 1, false, name);
            lemma_one_more_segment(before, 1, false, nothing);
            assert(parts_in(t) =~= parts_in(dir).push(Part::Normal(name)));
        } else {
            lemma_one_more_segment(before, 0, true, name);
            lemma_one_more_segment(before, 0, true, nothing);
            assert(parts_in(t) =~= parts_in(dir).push(Part::Normal(name)));
        }
    } else {
        assert(t[0] == dir[0]);
        if rooted(dir) {
            lemma_one_more_segment(dir, 1, false, name);
        } else {
            lemma_one_more_segment(dir, 0, true, name);
        }
        assert(parts_in(t) =~= parts_in(dir).push(Part::Normal(name)));
    }
}

proof fn lemma_names_from_text(s: Seq<char>, i: int, first: bool)
    requires
        0 <= i <= s.len(),
    ensures
        forall|j: int|
            0 <= j < parts_from(s, i, first).len() ==> match #[trigger] parts_from(s, i, first)[j] {
                Part::Normal(name) => writable_name(name),
                Part::Prefix(_) => false,
                Part::Root => false,
                Part::Current => j == 0 && first,
                Part::Parent => true,
            },
    decreases s.len() - i,
{
    let end = segment_end(s, i);
    lemma_segment_end(s, i);
    let segment = s.subrange(i, end);
    assert(forall|j: int| 0 <= j < segment.len() ==> segment[j] == s[i + j]);
    if end < s.len() {
        lemma_names_from_text(s, end + 1, false);
        let rest = parts_from(s, end + 1, false);
        let head = segment_part(segment, first);
        assert(forall|j: int|
            head.len() <= j < (head + rest).len() ==> (head + rest)[j] == rest[j - head.len()]);
    }
}

/// What text writes, text can write; and it is anchored only where the text
/// begins at the root.
pub proof fn lemma_read_paths_are_writable(s: Seq<char>)
    ensures
        writable(parts_in(s)),
        !rooted(s) ==> forall|i: int|
            0 <= i < parts_in(s).len() ==> !anchor(#[trigger] parts_in(s)[i]),
{
    if rooted(s) {
        lemma_names_from_text(s, 1, false);
        let rest = parts_from(s, 1, false);
        assert(forall|j: int| 1 <= j < parts_in(s).len() ==> parts_in(s)[j] == rest[j - 1]);
    } else {
        lemma_names_from_text(s, 0, true);
    }
}

/// The stem of a name is what stands before its last dot, where anything does;
/// a name without one is its own stem.
pub proof fn lemma_stem(name: Seq<char>, extension: Seq<char>)
    requires
        name.len() > 0,
        forall|i: int| 0 <= i < extension.len() ==> extension[i] != '.',
    ensures
        stem(name + seq!['.'] + extension) == name,
        stem(seq!['.'] + extension) == seq!['.'] + extension,
        stem(extension) == extension,
{
    reveal_strlit(".");
    let dot = seq!['.'];
    assert("."@ =~= dot);
    let whole = name + dot + extension;
    assert(whole.subrange(name.len() as int, name.len() as int + 1) =~= dot);
    assert forall|j: int| name.len() < j <= whole.len() implies !#[trigger] text::occurs_at(
        whole,
        "."@,
        j,
    ) by {
        if text::occurs_at(whole, "."@, j) {
            assert(whole.subrange(j, j + 1)[0] == '.');
            assert(whole[j] == extension[j - name.len() - 1]);
        }
    }
    text::lemma_last_match_is(whole, "."@, name.len() as int, whole.len() as int);
    assert(whole.take(name.len() as int) =~= name);
    let hidden = dot + extension;
    assert(hidden.subrange(0, 1) =~= dot);
    assert forall|j: int| 0 < j <= hidden.len() implies !#[trigger] text::occurs_at(
        hidden,
        "."@,
        j,
    ) by {
        if text::occurs_at(hidden, "."@, j) {
            assert(hidden.subrange(j, j + 1)[0] == '.');
            assert(hidden[j] == extension[j - 1]);
        }
    }
    text::lemma_last_match_is(hidden, "."@, 0, hidden.len() as int);
    text::lemma_last_match(extension, "."@, extension.len() as int);
    let i = text::last_match(extension, "."@, extension.len() as int);
    if i >= 0 {
        assert(extension.subrange(i, i + 1)[0] == '.');
        assert(extension[i] == '.');
    }
}

/// The failing image of `name.extension` is `name.actual.png`, in the same
/// directory; that of a file without an extension keeps all of its name.
pub proof fn lemma_the_name_of_a_failing_image(
    dir: Seq<Part>,
    name: Seq<char>,
    extension: Seq<char>,
)
    requires
        name.len() > 0,
        forall|i: int| 0 <= i < extension.len() ==> extension[i] != '.',
    ensures
        actual_parts(dir.push(Part::Normal(name + seq!['.'] + extension))) == dir.push(
            Part::Normal(name + ".actual.png"@),
        ),
        actual_parts(dir.push(Part::Normal(extension))) == dir.push(
            Part::Normal(extension + ".actual.png"@),
        ),
{
    lemma_stem(name, extension);
    let a = dir.push(Part::Normal(name + seq!['.'] + extension));
    let b = dir.push(Part::Normal(extension));
    assert(a.drop_last() =~= dir);
    assert(b.drop_last() =~= dir);
}

/// What lies in a directory has the directory as its parent; nothing lies above
/// an anchor.
pub proof fn lemma_parent_of_what_lies_in_a_directory(dir: Seq<Part>, name: Seq<char>)
    ensures
        parent_parts(dir.push(Part::Normal(name))) == Some(dir),
        file_name(dir.push(Part::Normal(name))) == Some(name),
        parent_parts(Seq::<Part>::empty()) is None,
        parent_parts(seq![Part::Root]) is None,
{
    assert(dir.push(Part::Normal(name)).drop_last() =~= dir);
}

/// A `/` at the end of a path adds nothing, nor does a `.` behind one; a `..`
/// behind one goes up. The root is a `/` alone, and a path that begins with a
/// `.` stays where it is.
pub proof fn lemma_slashes_and_dots(s: Seq<char>)
    ensures
        s.len() > 0 ==> {
            &&& parts_in(s + seq!['/']) == parts_in(s)
            &&& parts_in(s + seq!['/', '.']) == parts_in(s)
            &&& parts_in(s + seq!['/', '.', '.']) == parts_in(s).push(Part::Parent)
        },
        parts_in(seq!['/']) == seq![Part::Root],
        parts_in(seq!['.']) == seq![Part::Current],
        parts_in(seq!['.', '.']) == seq![Part::Parent],
        parts_in(Seq::empty()) == Seq::<Part>::empty(),
{
    let none = Seq::<char>::empty();
    let dot = seq!['.'];
    let dots = seq!['.', '.'];
    assert(dot.len() != dots.len());
    let root = seq!['/'];
    lemma_last_segment(root, 1, false);
    assert(root.skip(1) =~= none);
    assert(parts_in(root) =~= seq![Part::Root]);
    lemma_last_segment(dot, 0, true);
    assert(dot.skip(0) =~= dot);
    lemma_last_segment(dots, 0, true);
    assert(dots.skip(0) =~= dots);
    lemma_last_segment(none, 0, true);
    assert(none.skip(0) =~= none);
    if s.len() > 0 {
        assert(s + seq!['/'] =~= s + seq!['/'] + none);
        assert(s + seq!['/', '.'] =~= s + seq!['/'] + dot);
        assert(s + seq!['/', '.', '.'] =~= s + seq!['/'] + dots);
        let from: int = if rooted(s) {
            1
        } else {
            0
        };
        lemma_one_more_segment(s, from, !rooted(s), none);
        lemma_one_more_segment(s, from, !rooted(s), dot);
        lemma_one_more_segment(s, from, !rooted(s), dots);
        assert((s + seq!['/'] + none)[0] == s[0]);
        assert((s + seq!['/'] + dot)[0] == s[0]);
        assert((s + seq!['/'] + dots)[0] == s[0]);
        assert(parts_in(s + seq!['/']) =~= parts_in(s));
        assert(parts_in(s + seq!['/', '.']) =~= parts_in(s));
        assert(parts_in(s + seq!['/', '.', '.']) =~= parts_in(s).push(Part::Parent));
    }
}

/// A path is written as its components with one `/` between each two, behind
/// the `/` of the root where it has one.
pub proof fn lemma_how_a_path_is_written(path: Seq<Part>)
    requires
        forall|i: int| 0 <= i < path.len() ==> !anchor(#[trigger] path[i]),
    ensures
        ({
            let written = path.map_values(
                |part: Part|
                    match part {
                        Part::Normal(name) => name,
                        Part::Parent => seq!['.', '.'],
                        _ => seq!['.'],
                    },
            );
            &&& path_text(path) == text::joined(written, seq!['/'])
            &&& path_text(seq![Part::Root] + path) == seq!['/'] + text::joined(written, seq!['/'])
        }),
    decreases path.len(),
{
    let as_text = |part: Part|
        match part {
            Part::Normal(name) => name,
            Part::Parent => seq!['.', '.'],
            _ => seq!['.'],
        };
    let written = path.map_values(as_text);
    let rooted_path = seq![Part::Root] + path;
    let root = seq![Part::Root];
    assert(root.drop_last() =~= Seq::empty());
    assert(path_text(root) =~= seq!['/']) by {
        assert(path_text(Seq::<Part>::empty()) =~= Seq::empty());
        assert(root.last() == Part::Root);
    }
    if path.len() == 0 {
        assert(rooted_path =~= root);
        assert(written =~= Seq::empty());
        assert(seq!['/'] + text::joined(written, seq!['/']) =~= seq!['/']);
    } else {
        let before = path.drop_last();
        assert(forall|i: int| 0 <= i < before.len() ==> before[i] == path[i]);
        lemma_how_a_path_is_written(before);
        assert(written.drop_last() =~= before.map_values(as_text));
        assert(rooted_path.drop_last() =~= root + before);
        assert(rooted_path.last() == path.last());
        assert(path.last() == path[path.len() - 1]);
        if before.len() > 0 {
            assert(before.last() == path[path.len() - 2]);
            assert((root + before).last() == before.last());
            assert(path_text(rooted_path) =~= seq!['/'] + text::joined(written, seq!['/']));
        } else {
            assert(root + before =~= root);
            assert(before =~= Seq::empty());
            assert(path_text(path) =~= written[0]);
            assert(path_text(rooted_path) =~= seq!['/'] + written[0]);
        }
    }
}

proof fn lemma_nothing_shorter_writes(s: Seq<char>, wanted: Seq<Part>, from: int, k: int)
    requires
        0 <= from <= k < shortest_writing(s, wanted, from),
    ensures
        parts_in(s.take(k)) != wanted,
    decreases k - from,
{
    if from < k && from < s.len() && parts_in(s.take(from)) != wanted {
        lemma_nothing_shorter_writes(s, wanted, from + 1, k);
    }
}

/// The text of a path up to its last component is the shortest start of it that
/// writes the path without that component.
pub proof fn lemma_the_text_up_to_the_last_component(s: Seq<char>, k: int)
    requires
        parts_in(s).len() > 0,
    ensures
        parent_text(s).is_prefix_of(s),
        0 <= k < parent_text(s).len() ==> parts_in(s.take(k)) != parts_in(s).drop_last(),
{
    let wanted = parts_in(s).drop_last();
    let n = shortest_writing(s, wanted, 0);
    lemma_shortest_is_within(s, wanted, 0);
    if 0 <= k < n {
        lemma_nothing_shorter_writes(s, wanted, 0, k);
    }
}

proof fn lemma_shortest_is_within(s: Seq<char>, wanted: Seq<Part>, from: int)
    requires
        0 <= from <= s.len(),
    ensures
        from <= shortest_writing(s, wanted, from) <= s.len(),
    decreases s.len() - from,
{
    if from < s.len() && parts_in(s.take(from)) != wanted {
        lemma_shortest_is_within(s, wanted, from + 1);
    }
}

} // verus!
