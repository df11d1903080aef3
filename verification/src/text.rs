//! Reading and writing text, character by character.
//!
//! A string is seen as the sequence of its characters. The specifications say
//! where a match, a word or a line begins and ends; the functions find it.
use vstd::prelude::*;
use vstd::string::*;

verus! {

/// The characters with the Unicode property `White_Space`.
pub open spec fn white(c: char) -> bool {
    ||| 0x09 <= c as int <= 0x0d
    ||| c as int == 0x20
    ||| c as int == 0x85
    ||| c as int == 0xa0
    ||| c as int == 0x1680
    ||| 0x2000 <= c as int <= 0x200a
    ||| 0x2028 <= c as int <= 0x2029
    ||| c as int == 0x202f
    ||| c as int == 0x205f
    ||| c as int == 0x3000
}

/// Whether `c` is white space.
pub fn is_white(c: char) -> (r: bool)
    ensures
        r == white(c),
{
    let n: u32 = c as u32;
    (0x09 <= n && n <= 0x0d) || n == 0x20 || n == 0x85 || n == 0xa0 || n == 0x1680 || (0x2000 <= n
        && n <= 0x200a) || (0x2028 <= n && n <= 0x2029) || n == 0x202f || n == 0x205f || n == 0x3000
}

/// `0` to `9`.
pub open spec fn digit(c: char) -> bool {
    '0' <= c <= '9'
}

/// The characters of `s`, as a vector that can be indexed.
pub fn chars_of(s: &str) -> (v: Vec<char>)
    ensures
        v@ == s@,
{
    let mut v: Vec<char> = Vec::new();
    for c in it: s.chars()
        invariant
            v@ == it.seq().take(it.index()),
            it.seq() == s@,
    {
        v.push(c);
    }
    v
}

/// Whether the two strings hold the same characters.
pub fn same_text(a: &str, b: &str) -> (r: bool)
    ensures
        r == (a@ == b@),
{
    a.to_owned() == b.to_owned()
}

/// Whether `pattern` stands in `s` at position `i`.
pub open spec fn occurs_at(s: Seq<char>, pattern: Seq<char>, i: int) -> bool {
    &&& 0 <= i
    &&& i + pattern.len() <= s.len()
    &&& s.subrange(i, i + pattern.len()) == pattern
}

/// Whether `s` begins with `prefix`.
pub open spec fn has_prefix(s: Seq<char>, prefix: Seq<char>) -> bool {
    occurs_at(s, prefix, 0)
}

/// Whether `s` ends with `suffix`.
pub open spec fn has_suffix(s: Seq<char>, suffix: Seq<char>) -> bool {
    occurs_at(s, suffix, s.len() - suffix.len())
}

/// Whether the characters of `pattern` stand in `s` at position `i`.
fn matches_at(s: &Vec<char>, pattern: &Vec<char>, i: usize) -> (r: bool)
    ensures
        r == occurs_at(s@, pattern@, i as int),
{
    let n: usize = s.len();
    let m: usize = pattern.len();
    if i > n || m > n - i {
        return false;
    }
    let mut k: usize = 0;
    while k < m
        invariant
            k <= m,
            m == pattern@.len(),
            n == s@.len(),
            i + m <= n,
            forall|j: int| 0 <= j < k ==> s@[i + j] == pattern@[j],
        decreases m - k,
    {
        if s[i + k] != pattern[k] {
            proof {
                assert(s@.subrange(i as int, i + m)[k as int] == s@[i + k]);
            }
            return false;
        }
        k += 1;
    }
    proof {
        assert(s@.subrange(i as int, i + m) =~= pattern@);
    }
    true
}

/// Whether `s` begins with `prefix`.
pub fn starts_with(s: &str, prefix: &str) -> (r: bool)
    ensures
        r == has_prefix(s@, prefix@),
{
    matches_at(&chars_of(s), &chars_of(prefix), 0)
}

/// What follows `prefix`, when `s` begins with it.
pub fn strip_prefix<'a>(s: &'a str, prefix: &str) -> (r: Option<&'a str>)
    ensures
        match r {
            Some(rest) => has_prefix(s@, prefix@) && rest@ == s@.skip(prefix@.len() as int),
            None => !has_prefix(s@, prefix@),
        },
{
    let c: Vec<char> = chars_of(s);
    let p: Vec<char> = chars_of(prefix);
    if matches_at(&c, &p, 0) {
        Some(s.substring_char(p.len(), c.len()))
    } else {
        None
    }
}

/// What precedes `suffix`, when `s` ends with it.
pub fn strip_suffix<'a>(s: &'a str, suffix: &str) -> (r: Option<&'a str>)
    ensures
        match r {
            Some(rest) => has_suffix(s@, suffix@) && rest@ == s@.take(s@.len() - suffix@.len()),
            None => !has_suffix(s@, suffix@),
        },
{
    let c: Vec<char> = chars_of(s);
    let p: Vec<char> = chars_of(suffix);
    if p.len() <= c.len() && matches_at(&c, &p, c.len() - p.len()) {
        Some(s.substring_char(0, c.len() - p.len()))
    } else {
        None
    }
}

/// The last position at or before `from` at which `pattern` stands, or -1.
pub open spec fn last_match(s: Seq<char>, pattern: Seq<char>, from: int) -> int
    decreases from + 1,
{
    if from < 0 {
        -1
    } else if occurs_at(s, pattern, from) {
        from
    } else {
        last_match(s, pattern, from - 1)
    }
}

/// Around the last `pattern` in `s`: what is before it, what is after it.
pub open spec fn split_last(s: Seq<char>, pattern: Seq<char>) -> Option<(Seq<char>, Seq<char>)> {
    let i = last_match(s, pattern, s.len() as int);
    if i < 0 {
        None
    } else {
        Some((s.take(i), s.skip(i + pattern.len())))
    }
}

/// `last_match` is where it says, and nothing stands after it.
pub proof fn lemma_last_match(s: Seq<char>, pattern: Seq<char>, from: int)
    requires
        -1 <= from,
    ensures
        -1 <= last_match(s, pattern, from) <= from,
        last_match(s, pattern, from) >= 0 ==> occurs_at(
            s,
            pattern,
            last_match(s, pattern, from),
        ),
        forall|j: int|
            last_match(s, pattern, from) < j <= from ==> !#[trigger] occurs_at(s, pattern, j),
    decreases from + 1,
{
    if from >= 0 && !occurs_at(s, pattern, from) {
        lemma_last_match(s, pattern, from - 1);
    }
}

/// A place at which `pattern` stands, with none behind it up to `from`, is the
/// one that `last_match` finds.
pub proof fn lemma_last_match_is(s: Seq<char>, pattern: Seq<char>, i: int, from: int)
    requires
        0 <= i <= from,
        occurs_at(s, pattern, i),
        forall|j: int| i < j <= from ==> !#[trigger] occurs_at(s, pattern, j),
    ensures
        last_match(s, pattern, from) == i,
    decreases from - i,
{
    if i < from {
        assert(!occurs_at(s, pattern, from));
        lemma_last_match_is(s, pattern, i, from - 1);
    }
}

/// Where a text splits does not depend on what stands in front of it.
pub proof fn lemma_split_behind(front: Seq<char>, s: Seq<char>, pattern: Seq<char>)
    requires
        split_last(s, pattern) is Some,
    ensures
        ({
            let (before, after) = split_last(s, pattern)->0;
            split_last(front + s, pattern) == Some((front + before, after))
        }),
{
    let whole = front + s;
    let n = front.len() as int;
    let i = last_match(s, pattern, s.len() as int);
    lemma_last_match(s, pattern, s.len() as int);
    assert(whole.subrange(n + i, n + i + pattern.len()) =~= s.subrange(i, i + pattern.len()));
    assert forall|j: int| n + i < j <= whole.len() implies !#[trigger] occurs_at(
        whole,
        pattern,
        j,
    ) by {
        if occurs_at(whole, pattern, j) {
            assert(whole.subrange(j, j + pattern.len()) =~= s.subrange(
                j - n,
                j - n + pattern.len(),
            ));
            assert(occurs_at(s, pattern, j - n));
        }
    }
    lemma_last_match_is(whole, pattern, n + i, whole.len() as int);
    assert(whole.take(n + i) =~= front + s.take(i));
    assert(whole.skip(n + i + pattern.len()) =~= s.skip(i + pattern.len()));
}

/// Nor on what stands behind it, where the pattern is not found there.
pub proof fn lemma_split_before(s: Seq<char>, more: Seq<char>, pattern: Seq<char>)
    requires
        split_last(s, pattern) is Some,
        forall|j: int| s.len() - pattern.len() < j ==> !#[trigger] occurs_at(s + more, pattern, j),
    ensures
        ({
            let (before, after) = split_last(s, pattern)->0;
            split_last(s + more, pattern) == Some((before, after + more))
        }),
{
    let whole = s + more;
    let i = last_match(s, pattern, s.len() as int);
    lemma_last_match(s, pattern, s.len() as int);
    assert(whole.subrange(i, i + pattern.len()) =~= s.subrange(i, i + pattern.len()));
    assert forall|j: int| i < j <= whole.len() implies !#[trigger] occurs_at(whole, pattern, j) by {
        if occurs_at(whole, pattern, j) {
            assert(j + pattern.len() <= s.len());
            assert(whole.subrange(j, j + pattern.len()) =~= s.subrange(j, j + pattern.len()));
            assert(occurs_at(s, pattern, j));
        }
    }
    lemma_last_match_is(whole, pattern, i, whole.len() as int);
    assert(whole.take(i) =~= s.take(i));
    assert(whole.skip(i + pattern.len()) =~= s.skip(i + pattern.len()) + more);
}

/// Split `s` around the last `pattern` in it.
pub fn rsplit_once<'a>(s: &'a str, pattern: &str) -> (r: Option<(&'a str, &'a str)>)
    ensures
        match r {
            Some(parts) => split_last(s@, pattern@) == Some((parts.0@, parts.1@)),
            None => split_last(s@, pattern@) is None,
        },
{
    let c: Vec<char> = chars_of(s);
    let p: Vec<char> = chars_of(pattern);
    let n: usize = c.len();
    let mut i: usize = n;
    loop
        invariant
            c@ == s@,
            p@ == pattern@,
            n == c@.len(),
            i <= n,
            last_match(s@, pattern@, n as int) == last_match(s@, pattern@, i as int),
        decreases i,
    {
        if matches_at(&c, &p, i) {
            return Some((s.substring_char(0, i), s.substring_char(i + p.len(), n)));
        }
        if i == 0 {
            proof {
                assert(last_match(s@, pattern@, -1) == -1);
            }
            return None;
        }
        i -= 1;
    }
}

/// The first position from `i` on that is not white space, or the end.
pub open spec fn skip_white(s: Seq<char>, i: int) -> int
    decreases s.len() - i,
{
    if 0 <= i < s.len() && white(s[i]) {
        skip_white(s, i + 1)
    } else {
        i
    }
}

/// The first position from `i` on that is white space, or the end.
pub open spec fn word_end(s: Seq<char>, i: int) -> int
    decreases s.len() - i,
{
    if 0 <= i < s.len() && !white(s[i]) {
        word_end(s, i + 1)
    } else {
        i
    }
}

/// The first of the words that white space separates.
pub open spec fn first_word_of(s: Seq<char>) -> Option<Seq<char>> {
    let start = skip_white(s, 0);
    if start < s.len() {
        Some(s.subrange(start, word_end(s, start)))
    } else {
        None
    }
}

proof fn lemma_skip_white(s: Seq<char>, more: Seq<char>, i: int)
    requires
        0 <= i <= s.len(),
    ensures
        i <= skip_white(s, i) <= s.len(),
        skip_white(s, i) < s.len() ==> !white(s[skip_white(s, i)]) && skip_white(s + more, i)
            == skip_white(s, i),
    decreases s.len() - i,
{
    if i < s.len() {
        assert((s + more)[i] == s[i]);
        if white(s[i]) {
            lemma_skip_white(s, more, i + 1);
        }
    }
}

proof fn lemma_word_end(s: Seq<char>, more: Seq<char>, i: int)
    requires
        0 <= i <= s.len(),
    ensures
        i <= word_end(s, i) <= s.len(),
        i < s.len() && !white(s[i]) ==> i < word_end(s, i),
        more.len() > 0 && white(more[0]) ==> word_end(s + more, i) == word_end(s, i),
    decreases s.len() - i,
{
    if i < s.len() {
        assert((s + more)[i] == s[i]);
        if !white(s[i]) {
            lemma_word_end(s, more, i + 1);
        }
    } else if more.len() > 0 {
        assert((s + more)[i] == more[0]);
    }
}

/// The first word stands in the text, and is not empty; white space behind the
/// text, and what follows it, leave it as it is.
pub proof fn lemma_first_word(s: Seq<char>, more: Seq<char>) -> (start: int)
    requires
        first_word_of(s) is Some,
    ensures
        occurs_at(s, first_word_of(s)->0, start),
        first_word_of(s)->0.len() > 0,
        more.len() > 0 && white(more[0]) ==> first_word_of(s + more) == first_word_of(s),
{
    lemma_skip_white(s, more, 0);
    let start = skip_white(s, 0);
    lemma_word_end(s, more, start);
    let end = word_end(s, start);
    assert(s.subrange(start, end) =~= s.subrange(start, start + (end - start)));
    assert((s + more).subrange(start, end) =~= s.subrange(start, end));
    start
}

/// The first word of `s`; `None` when `s` is nothing but white space.
pub fn first_word<'a>(s: &'a str) -> (r: Option<&'a str>)
    ensures
        match r {
            Some(word) => first_word_of(s@) == Some(word@),
            None => first_word_of(s@) is None,
        },
{
    let c: Vec<char> = chars_of(s);
    let n: usize = c.len();
    let mut i: usize = 0;
    while i < n && is_white(c[i])
        invariant
            c@ == s@,
            n == c@.len(),
            i <= n,
            skip_white(s@, 0) == skip_white(s@, i as int),
        decreases n - i,
    {
        i += 1;
    }
    if i == n {
        return None;
    }
    let mut j: usize = i;
    while j < n && !is_white(c[j])
        invariant
            c@ == s@,
            n == c@.len(),
            i <= j <= n,
            word_end(s@, i as int) == word_end(s@, j as int),
        decreases n - j,
    {
        j += 1;
    }
    Some(s.substring_char(i, j))
}

/// The end of `s` without the white space before `end`.
pub open spec fn white_before(s: Seq<char>, start: int, end: int) -> int
    decreases end - start,
{
    if start < end <= s.len() && 0 <= start && white(s[end - 1]) {
        white_before(s, start, end - 1)
    } else {
        end
    }
}

/// `s` without the white space at its two ends.
pub open spec fn trimmed(s: Seq<char>) -> Seq<char> {
    let start = skip_white(s, 0);
    s.subrange(start, white_before(s, start, s.len() as int))
}

/// `s` without the white space at its two ends.
pub fn trim<'a>(s: &'a str) -> (r: &'a str)
    ensures
        r@ == trimmed(s@),
{
    let c: Vec<char> = chars_of(s);
    let n: usize = c.len();
    let mut i: usize = 0;
    while i < n && is_white(c[i])
        invariant
            c@ == s@,
            n == c@.len(),
            i <= n,
            skip_white(s@, 0) == skip_white(s@, i as int),
        decreases n - i,
    {
        i += 1;
    }
    let mut j: usize = n;
    while j > i && is_white(c[j - 1])
        invariant
            c@ == s@,
            n == c@.len(),
            i <= j <= n,
            white_before(s@, i as int, n as int) == white_before(s@, i as int, j as int),
        decreases j - i,
    {
        j -= 1;
    }
    s.substring_char(i, j)
}

/// The position of the first line feed from `i` on, or the end.
pub open spec fn line_end(s: Seq<char>, i: int) -> int
    decreases s.len() - i,
{
    if 0 <= i < s.len() && s[i] != '\n' {
        line_end(s, i + 1)
    } else {
        i
    }
}

/// A line without the carriage return that ends it.
pub open spec fn without_return(line: Seq<char>) -> Seq<char> {
    if line.len() > 0 && line.last() == '\r' {
        line.drop_last()
    } else {
        line
    }
}

/// The lines of `s` from `i` on. A line ends at a line feed, with or without a
/// carriage return before it; the last one may end with the text.
pub open spec fn lines_from(s: Seq<char>, i: int) -> Seq<Seq<char>>
    decreases s.len() - i,
{
    if i < 0 || i >= s.len() {
        Seq::empty()
    } else {
        let end = line_end(s, i);
        if end <= i - 1 {
            Seq::empty()
        } else if end >= s.len() {
            seq![s.subrange(i, s.len() as int)]
        } else {
            seq![without_return(s.subrange(i, end))] + lines_from(s, end + 1)
        }
    }
}

/// The lines of `s`.
pub open spec fn lines_of(s: Seq<char>) -> Seq<Seq<char>> {
    lines_from(s, 0)
}

/// What the strings of a vector hold.
pub open spec fn texts(v: Seq<&str>) -> Seq<Seq<char>> {
    Seq::new(v.len(), |i: int| v[i]@)
}

/// What an optional string slice holds.
pub open spec fn maybe(s: Option<&str>) -> Option<Seq<char>> {
    match s {
        Some(s) => Some(s@),
        None => None,
    }
}

/// What an optional string holds.
pub open spec fn maybe_owned(s: Option<String>) -> Option<Seq<char>> {
    match s {
        Some(s) => Some(s@),
        None => None,
    }
}

/// The lines of `s`.
pub fn lines<'a>(s: &'a str) -> (r: Vec<&'a str>)
    ensures
        texts(r@) == lines_of(s@),
{
    let c: Vec<char> = chars_of(s);
    let n: usize = c.len();
    let mut out: Vec<&'a str> = Vec::new();
    let mut i: usize = 0;
    while i < n
        invariant
            c@ == s@,
            n == c@.len(),
            i <= n,
            lines_of(s@) == texts(out@) + lines_from(s@, i as int),
        decreases n - i,
    {
        let mut j: usize = i;
        while j < n && c[j] != '\n'
            invariant
                c@ == s@,
                n == c@.len(),
                i <= j <= n,
                line_end(s@, i as int) == line_end(s@, j as int),
            decreases n - j,
        {
            j += 1;
        }
        let ghost before = out@;
        let ghost start = i as int;
        if j == n {
            out.push(s.substring_char(i, n));
            i = n;
        } else {
            let end: usize = if j > i && c[j - 1] == '\r' {
                j - 1
            } else {
                j
            };
            out.push(s.substring_char(i, end));
            i = j + 1;
        }
        proof {
            assert(line_end(s@, start) == j);
            assert(out@.last()@ == lines_from(s@, start)[0]);
            assert(lines_from(s@, start) =~= seq![out@.last()@] + lines_from(s@, i as int));
            assert(texts(out@) =~= texts(before).push(out@.last()@));
            assert(lines_of(s@) =~= texts(out@) + lines_from(s@, i as int));
        }
    }
    proof {
        assert(texts(out@) + lines_from(s@, i as int) =~= texts(out@));
    }
    out
}

/// The value of a run of digits, read in base ten.
pub open spec fn digits_value(s: Seq<char>) -> nat
    decreases s.len(),
{
    if s.len() == 0 {
        0
    } else {
        digits_value(s.drop_last()) * 10 + (s.last() as nat - '0' as nat) as nat
    }
}

/// Whether every character is a digit.
pub open spec fn all_digits(s: Seq<char>) -> bool {
    forall|i: int| 0 <= i < s.len() ==> digit(#[trigger] s[i])
}

/// The number that `s` writes: digits, with an optional `+` before them, up to
/// `max`. `None` for anything else.
pub open spec fn number_in(s: Seq<char>, max: nat) -> Option<nat> {
    let body = if s.len() > 0 && s[0] == '+' {
        s.skip(1)
    } else {
        s
    };
    if body.len() > 0 && all_digits(body) && digits_value(body) <= max {
        Some(digits_value(body))
    } else {
        None
    }
}

proof fn lemma_digits_value_prefix(s: Seq<char>, i: int)
    requires
        0 <= i <= s.len(),
    ensures
        digits_value(s.take(i)) <= digits_value(s),
    decreases s.len() - i,
{
    if i == s.len() {
        assert(s.take(i) =~= s);
    } else {
        lemma_digits_value_prefix(s, i + 1);
        assert(s.take(i + 1).drop_last() =~= s.take(i));
    }
}

/// The number that `s` writes, when it is at most `max`.
pub fn parse_number(s: &str, max: u64) -> (r: Option<u64>)
    ensures
        match r {
            Some(n) => number_in(s@, max as nat) == Some(n as nat),
            None => number_in(s@, max as nat) is None,
        },
{
    let c: Vec<char> = chars_of(s);
    let n: usize = c.len();
    let start: usize = if n > 0 && c[0] == '+' {
        1
    } else {
        0
    };
    let ghost body = if s@.len() > 0 && s@[0] == '+' {
        s@.skip(1)
    } else {
        s@
    };
    if start == n {
        return None;
    }
    let mut value: u64 = 0;
    let mut i: usize = start;
    while i < n
        invariant
            c@ == s@,
            n == c@.len(),
            start <= i <= n,
            body == s@.skip(start as int),
            body == (if s@.len() > 0 && s@[0] == '+' {
                s@.skip(1)
            } else {
                s@
            }),
            value == digits_value(body.take(i - start)),
            value <= max,
            forall|k: int| 0 <= k < i - start ==> digit(#[trigger] body[k]),
        decreases n - i,
    {
        let d: char = c[i];
        proof {
            assert(body[i - start] == d);
            assert(body.take(i + 1 - start).drop_last() =~= body.take(i - start));
            lemma_digits_value_prefix(body, i + 1 - start);
        }
        if d < '0' || d > '9' {
            return None;
        }
        let digit_value: u64 = d as u64 - '0' as u64;
        if digit_value > max || value > (max - digit_value) / 10 {
            proof {
                assert(digits_value(body.take(i + 1 - start)) == value * 10 + digit_value);
                assert(value * 10 + digit_value > max);
            }
            return None;
        }
        value = value * 10 + digit_value;
        i += 1;
    }
    proof {
        assert(body.take(n - start) =~= body);
    }
    Some(value)
}

/// The digit that writes `n`.
pub open spec fn digit_for(n: nat) -> char {
    (('0' as nat) + n) as char
}

/// `n` in base ten, without leading zeros.
pub open spec fn decimal_of(n: nat) -> Seq<char>
    decreases n,
{
    if n < 10 {
        seq![digit_for(n)]
    } else {
        decimal_of(n / 10).push(digit_for(n % 10))
    }
}

/// Writing a number and reading it back gives the number.
pub proof fn lemma_decimal_round_trip(n: nat)
    ensures
        all_digits(decimal_of(n)),
        decimal_of(n).len() > 0,
        digits_value(decimal_of(n)) == n,
    decreases n,
{
    let s = decimal_of(n);
    if n >= 10 {
        lemma_decimal_round_trip(n / 10);
        assert(s.drop_last() =~= decimal_of(n / 10));
    } else {
        assert(s.drop_last() =~= Seq::<char>::empty());
        assert(digits_value(s.drop_last()) == 0);
    }
}

fn digit_text(n: u64) -> (r: &'static str)
    requires
        n < 10,
    ensures
        r@ == seq![digit_for(n as nat)],
{
    proof {
        reveal_strlit("0");
        reveal_strlit("1");
        reveal_strlit("2");
        reveal_strlit("3");
        reveal_strlit("4");
        reveal_strlit("5");
        reveal_strlit("6");
        reveal_strlit("7");
        reveal_strlit("8");
        reveal_strlit("9");
    }
    if n == 0 {
        "0"
    } else if n == 1 {
        "1"
    } else if n == 2 {
        "2"
    } else if n == 3 {
        "3"
    } else if n == 4 {
        "4"
    } else if n == 5 {
        "5"
    } else if n == 6 {
        "6"
    } else if n == 7 {
        "7"
    } else if n == 8 {
        "8"
    } else {
        "9"
    }
}

/// Write `n` in base ten.
pub fn decimal(n: u64) -> (r: String)
    ensures
        r@ == decimal_of(n as nat),
    decreases n,
{
    if n < 10 {
        digit_text(n).to_owned()
    } else {
        let mut out: String = decimal(n / 10);
        out.append(digit_text(n % 10));
        proof {
            assert(out@ =~= decimal_of(n as nat));
        }
        out
    }
}

/// The strings of `parts`, with `between` between each two of them.
pub open spec fn joined(parts: Seq<Seq<char>>, between: Seq<char>) -> Seq<char>
    decreases parts.len(),
{
    if parts.len() == 0 {
        Seq::empty()
    } else if parts.len() == 1 {
        parts[0]
    } else {
        joined(parts.drop_last(), between) + between + parts.last()
    }
}

/// What the strings of a vector hold.
pub open spec fn owned_texts(v: Seq<String>) -> Seq<Seq<char>> {
    Seq::new(v.len(), |i: int| v[i]@)
}

/// The strings of `parts`, with `between` between each two of them.
pub fn join(parts: &Vec<String>, between: &str) -> (r: String)
    ensures
        r@ == joined(owned_texts(parts@), between@),
{
    let mut out: String = String::new();
    let mut i: usize = 0;
    while i < parts.len()
        invariant
            i <= parts@.len(),
            out@ == joined(owned_texts(parts@.take(i as int)), between@),
        decreases parts@.len() - i,
    {
        let ghost shorter = owned_texts(parts@.take(i as int));
        let ghost longer = owned_texts(parts@.take(i + 1));
        proof {
            assert(longer.drop_last() =~= shorter);
        }
        if i > 0 {
            out.append(between);
        }
        out.append(parts[i].as_str());
        proof {
            assert(i == 0 ==> out@ =~= longer[0]);
        }
        i += 1;
    }
    proof {
        assert(parts@.take(parts@.len() as int) =~= parts@);
    }
    out
}

/// `n` copies of a space.
pub open spec fn spaces(n: nat) -> Seq<char> {
    Seq::new(n, |i: int| ' ')
}

/// `s` with spaces before it, up to `width` characters.
pub open spec fn right_aligned(s: Seq<char>, width: nat) -> Seq<char> {
    if s.len() < width {
        spaces((width - s.len()) as nat) + s
    } else {
        s
    }
}

/// `s` with spaces after it, up to `width` characters.
pub open spec fn left_aligned(s: Seq<char>, width: nat) -> Seq<char> {
    if s.len() < width {
        s + spaces((width - s.len()) as nat)
    } else {
        s
    }
}

fn blank(n: usize) -> (r: String)
    ensures
        r@ == spaces(n as nat),
{
    let mut out: String = String::new();
    let mut i: usize = 0;
    proof {
        reveal_strlit(" ");
    }
    while i < n
        invariant
            i <= n,
            out@ == spaces(i as nat),
            " "@ == seq![' '],
        decreases n - i,
    {
        out.append(" ");
        proof {
            assert(out@ =~= spaces((i + 1) as nat));
        }
        i += 1;
    }
    out
}

/// `s` at the right of a column of `width` characters.
pub fn align_right(s: &str, width: usize) -> (r: String)
    ensures
        r@ == right_aligned(s@, width as nat),
{
    let n: usize = s.unicode_len();
    if n < width {
        let mut out: String = blank(width - n);
        out.append(s);
        out
    } else {
        s.to_owned()
    }
}

/// `s` at the left of a column of `width` characters.
pub fn align_left(s: &str, width: usize) -> (r: String)
    ensures
        r@ == left_aligned(s@, width as nat),
{
    let mut out: String = s.to_owned();
    let n: usize = s.unicode_len();
    if n < width {
        out.append(blank(width - n).as_str());
    }
    out
}

/// A character, in lower case where it is an ASCII letter.
pub open spec fn lower(c: char) -> char {
    if 'A' <= c <= 'Z' {
        ((c as int) + 32) as char
    } else {
        c
    }
}

/// `s` with its ASCII letters in lower case.
pub open spec fn lowered(s: Seq<char>) -> Seq<char> {
    Seq::new(s.len(), |i: int| lower(s[i]))
}

/// Whether `s`, with its ASCII letters in lower case, is `other`.
pub fn same_lowered(s: &str, other: &str) -> (r: bool)
    ensures
        r == (lowered(s@) == other@),
{
    let a: Vec<char> = chars_of(s);
    let b: Vec<char> = chars_of(other);
    if a.len() != b.len() {
        proof {
            assert(lowered(s@).len() != other@.len());
        }
        return false;
    }
    let mut i: usize = 0;
    while i < a.len()
        invariant
            i <= a@.len(),
            a@ == s@,
            b@ == other@,
            a@.len() == b@.len(),
            forall|j: int| 0 <= j < i ==> lower(a@[j]) == b@[j],
        decreases a@.len() - i,
    {
        let c: char = a[i];
        let low: char = if 'A' <= c && c <= 'Z' {
            (c as u8 + 32) as char
        } else {
            c
        };
        if low != b[i] {
            proof {
                assert(lowered(s@)[i as int] != other@[i as int]);
            }
            return false;
        }
        i += 1;
    }
    proof {
        assert(lowered(s@) =~= other@);
    }
    true
}

/// A text ends with what was put behind it.
pub proof fn lemma_ends_with(front: Seq<char>, back: Seq<char>)
    ensures
        has_suffix(front + back, back),
{
    let whole = front + back;
    assert(whole.subrange(whole.len() - back.len(), whole.len() as int) =~= back);
}

/// A text begins with what was put in front of it.
pub proof fn lemma_begins_with(front: Seq<char>, back: Seq<char>)
    ensures
        has_prefix(front + back, front),
{
    assert((front + back).subrange(0, front.len() as int) =~= front);
}

/// Whether `part` stands somewhere in `s`.
pub open spec fn mentions(s: Seq<char>, part: Seq<char>) -> bool {
    exists|i: int| #[trigger] occurs_at(s, part, i)
}

/// A text mentions what stands between any two parts of it.
pub proof fn lemma_mentions(front: Seq<char>, part: Seq<char>, back: Seq<char>)
    ensures
        mentions(front + part + back, part),
{
    let s = front + part + back;
    let n = front.len() as int;
    assert(s.subrange(n, n + part.len()) =~= part);
    assert(occurs_at(s, part, n));
}

/// What a part mentions, the whole mentions.
pub proof fn lemma_mentions_within(front: Seq<char>, part: Seq<char>, back: Seq<char>, s: Seq<char>)
    requires
        mentions(part, s),
    ensures
        mentions(front + part + back, s),
{
    let i = choose|i: int| #[trigger] occurs_at(part, s, i);
    let whole = front + part + back;
    let n = front.len() as int;
    assert(whole.subrange(n + i, n + i + s.len()) =~= part.subrange(i, i + s.len()));
    assert(occurs_at(whole, s, n + i));
}

/// Whether every character is white space.
pub open spec fn all_white(s: Seq<char>) -> bool {
    forall|i: int| 0 <= i < s.len() ==> white(#[trigger] s[i])
}

/// Whether no character is white space.
pub open spec fn none_white(s: Seq<char>) -> bool {
    forall|i: int| 0 <= i < s.len() ==> !white(#[trigger] s[i])
}

proof fn lemma_skip_white_is(s: Seq<char>, i: int, end: int)
    requires
        0 <= i <= end <= s.len(),
        forall|j: int| i <= j < end ==> white(#[trigger] s[j]),
        end < s.len() ==> !white(s[end]),
    ensures
        skip_white(s, i) == end,
    decreases end - i,
{
    if i < end {
        assert(white(s[i]));
        lemma_skip_white_is(s, i + 1, end);
    }
}

proof fn lemma_word_end_is(s: Seq<char>, i: int, end: int)
    requires
        0 <= i <= end <= s.len(),
        forall|j: int| i <= j < end ==> !white(#[trigger] s[j]),
        end < s.len() ==> white(s[end]),
    ensures
        word_end(s, i) == end,
    decreases end - i,
{
    if i < end {
        assert(!white(s[i]));
        lemma_word_end_is(s, i + 1, end);
    }
}

proof fn lemma_white_before_is(s: Seq<char>, start: int, end: int, from: int)
    requires
        0 <= start <= end <= from <= s.len(),
        forall|j: int| end <= j < from ==> white(#[trigger] s[j]),
        start < end ==> !white(s[end - 1]),
    ensures
        white_before(s, start, from) == end,
    decreases from - end,
{
    if end < from {
        assert(white(s[from - 1]));
        lemma_white_before_is(s, start, end, from - 1);
    }
}

/// The first word of a text is what stands behind its leading white space, up
/// to the next.
pub proof fn lemma_first_word_is(before: Seq<char>, word: Seq<char>, behind: Seq<char>)
    requires
        all_white(before),
        word.len() > 0,
        none_white(word),
        behind.len() > 0 ==> white(behind[0]),
    ensures
        first_word_of(before + word + behind) == Some(word),
        first_word_of(before) is None,
{
    let s = before + word + behind;
    let start = before.len() as int;
    let end = start + word.len();
    assert forall|j: int| 0 <= j < start implies white(#[trigger] s[j]) by {
        assert(s[j] == before[j]);
    }
    assert(s[start] == word[0]);
    lemma_skip_white_is(s, 0, start);
    assert forall|j: int| start <= j < end implies !white(#[trigger] s[j]) by {
        assert(s[j] == word[j - start]);
    }
    if end < s.len() {
        assert(s[end] == behind[0]);
    }
    lemma_word_end_is(s, start, end);
    assert(s.subrange(start, end) =~= word);
    lemma_skip_white_is(before, 0, start);
}

/// Trimming takes off the white space at the two ends, all of it and nothing
/// else.
pub proof fn lemma_trimmed_is(before: Seq<char>, core: Seq<char>, behind: Seq<char>)
    requires
        all_white(before),
        all_white(behind),
        core.len() > 0 ==> !white(core[0]) && !white(core[core.len() - 1]),
    ensures
        trimmed(before + core + behind) == core,
{
    let s = before + core + behind;
    let start = before.len() as int;
    let end = start + core.len();
    assert forall|j: int| 0 <= j < start implies white(#[trigger] s[j]) by {
        assert(s[j] == before[j]);
    }
    assert forall|j: int| end <= j < s.len() implies white(#[trigger] s[j]) by {
        assert(s[j] == behind[j - end]);
    }
    if core.len() > 0 {
        assert(s[start] == core[0]);
        assert(s[end - 1] == core[core.len() - 1]);
        lemma_skip_white_is(s, 0, start);
        lemma_white_before_is(s, start, end, s.len() as int);
        assert(s.subrange(start, end) =~= core);
    } else {
        lemma_skip_white_is(s, 0, s.len() as int);
        lemma_white_before_is(s, s.len() as int, s.len() as int, s.len() as int);
        assert(s.subrange(s.len() as int, s.len() as int) =~= core);
    }
}

proof fn lemma_line_end_is(s: Seq<char>, i: int, end: int)
    requires
        0 <= i <= end <= s.len(),
        forall|j: int| i <= j < end ==> s[j] != '\n',
        end < s.len() ==> s[end] == '\n',
    ensures
        line_end(s, i) == end,
    decreases end - i,
{
    if i < end {
        lemma_line_end_is(s, i + 1, end);
    }
}

proof fn lemma_line_end(s: Seq<char>, i: int)
    requires
        0 <= i <= s.len(),
    ensures
        i <= line_end(s, i) <= s.len(),
        forall|j: int| i <= j < line_end(s, i) ==> s[j] != '\n',
        line_end(s, i) < s.len() ==> s[line_end(s, i)] == '\n',
    decreases s.len() - i,
{
    if i < s.len() && s[i] != '\n' {
        lemma_line_end(s, i + 1);
    }
}

proof fn lemma_lines_behind(front: Seq<char>, s: Seq<char>, i: int)
    requires
        0 <= i <= s.len(),
    ensures
        lines_from(front + s, front.len() + i) == lines_from(s, i),
    decreases s.len() - i,
{
    let whole = front + s;
    let n = front.len() as int;
    if i < s.len() {
        let end = line_end(s, i);
        lemma_line_end(s, i);
        assert(forall|j: int| 0 <= j < s.len() ==> whole[n + j] == s[j]);
        assert forall|j: int| n + i <= j < n + end implies whole[j] != '\n' by {
            assert(whole[j] == s[j - n]);
        }
        lemma_line_end_is(whole, n + i, n + end);
        assert(whole.subrange(n + i, n + end) =~= s.subrange(i, end));
        if end < s.len() {
            lemma_lines_behind(front, s, end + 1);
        } else {
            assert(whole.subrange(n + i, whole.len() as int) =~= s.subrange(i, s.len() as int));
        }
    }
}

/// A text is read line by line: the first line ends at the first line feed, and
/// a carriage return before that does not belong to it; the rest is read as a
/// text of its own. What follows the last line feed is a line too, where it is
/// not empty.
pub proof fn lemma_lines(line: Seq<char>, rest: Seq<char>)
    requires
        forall|i: int| 0 <= i < line.len() ==> line[i] != '\n',
    ensures
        line.len() == 0 || line.last() != '\r' ==> lines_of(line + seq!['\n'] + rest) == seq![line]
            + lines_of(rest),
        lines_of(line + seq!['\r', '\n'] + rest) == seq![line] + lines_of(rest),
        line.len() > 0 ==> lines_of(line) == seq![line],
        lines_of(Seq::empty()) == Seq::<Seq<char>>::empty(),
{
    let front = line + seq!['\n'];
    let s = front + rest;
    let n = line.len() as int;
    assert(forall|j: int| 0 <= j < n ==> s[j] == line[j]);
    assert(s[n] == '\n');
    lemma_line_end_is(s, 0, n);
    assert(s.subrange(0, n) =~= line);
    lemma_lines_behind(front, rest, 0);
    assert(line + seq!['\n'] + rest =~= s);
    let front2 = line + seq!['\r', '\n'];
    let s2 = front2 + rest;
    assert(forall|j: int| 0 <= j < n ==> s2[j] == line[j]);
    assert(s2[n] == '\r' && s2[n + 1] == '\n');
    lemma_line_end_is(s2, 0, n + 1);
    assert(s2.subrange(0, n + 1) =~= line.push('\r'));
    assert(line.push('\r').drop_last() =~= line);
    lemma_lines_behind(front2, rest, 0);
    if n > 0 {
        lemma_line_end_is(line, 0, n);
        assert(line.subrange(0, n) =~= line);
    }
}

/// A number is read from its digits, with or without a `+` before them, where
/// it is not too large; nothing else is read as one.
pub proof fn lemma_number_in(n: nat, max: nat, s: Seq<char>)
    ensures
        number_in(decimal_of(n), max) == (if n <= max {
            Some(n)
        } else {
            None
        }),
        number_in(seq!['+'] + decimal_of(n), max) == number_in(decimal_of(n), max),
        number_in(s, max) is Some ==> s.len() > 0 && number_in(s, max)->0 <= max && forall|i: int|
            0 <= i < s.len() ==> '0' <= #[trigger] s[i] <= '9' || (i == 0 && s.len() > 1 && s[i]
                == '+'),
{
    lemma_decimal_round_trip(n);
    let d = decimal_of(n);
    assert(digit(d[0]));
    assert((seq!['+'] + d).skip(1) =~= d);
    if number_in(s, max) is Some {
        let body = if s[0] == '+' {
            s.skip(1)
        } else {
            s
        };
        assert forall|i: int| 0 <= i < s.len() implies '0' <= #[trigger] s[i] <= '9' || (i == 0
            && s.len() > 1 && s[i] == '+') by {
            if s[0] == '+' {
                if i > 0 {
                    assert(digit(body[i - 1]));
                }
            } else {
                assert(digit(body[i]));
            }
        }
    }
}

/// A number is written without a leading zero, but for zero itself.
pub proof fn lemma_no_leading_zero(n: nat)
    ensures
        n > 0 ==> decimal_of(n)[0] != '0',
        decimal_of(0) == seq!['0'],
    decreases n,
{
    if n >= 10 {
        lemma_no_leading_zero(n / 10);
        lemma_decimal_round_trip(n / 10);
    }
}

/// Joining two lists is joining each, with the separator once between them; one
/// text alone has none.
pub proof fn lemma_joined(a: Seq<Seq<char>>, b: Seq<Seq<char>>, between: Seq<char>)
    requires
        a.len() > 0,
        b.len() > 0,
    ensures
        joined(a + b, between) == joined(a, between) + between + joined(b, between),
        a.len() == 1 ==> joined(a, between) == a[0],
        joined(Seq::empty(), between) == Seq::<char>::empty(),
    decreases b.len(),
{
    let whole = a + b;
    assert(whole.drop_last() =~= a + b.drop_last());
    assert(whole.last() == b.last());
    if b.len() == 1 {
        assert(a + b.drop_last() =~= a);
    } else {
        lemma_joined(a, b.drop_last(), between);
        assert(joined(whole, between) =~= joined(a, between) + between + joined(b, between));
    }
}

/// A list that was joined mentions each of its texts.
pub proof fn lemma_joined_mentions(parts: Seq<Seq<char>>, between: Seq<char>, i: int)
    requires
        0 <= i < parts.len(),
    ensures
        mentions(joined(parts, between), parts[i]),
    decreases parts.len(),
{
    let none = Seq::<char>::empty();
    let last = parts.last();
    if parts.len() == 1 {
        lemma_mentions(none, last, none);
        assert(none + last + none =~= last);
    } else {
        let before = joined(parts.drop_last(), between);
        if i == parts.len() - 1 {
            lemma_mentions(before + between, last, none);
            assert(before + between + last + none =~= joined(parts, between));
        } else {
            lemma_joined_mentions(parts.drop_last(), between, i);
            lemma_mentions_within(none, before, between + last, parts[i]);
            assert(none + before + (between + last) =~= joined(parts, between));
        }
    }
}

/// A text in a column fills it with spaces, on the left or on the right, and
/// goes beyond it only where it is too long.
pub proof fn lemma_aligned(s: Seq<char>, width: nat)
    ensures
        ({
            let n = if s.len() < width {
                width
            } else {
                s.len()
            };
            let right = right_aligned(s, width);
            let left = left_aligned(s, width);
            &&& right.len() == n && left.len() == n
            &&& right.skip(n - s.len()) == s && left.take(s.len() as int) == s
            &&& forall|i: int| 0 <= i < n - s.len() ==> #[trigger] right[i] == ' '
            &&& forall|i: int| s.len() <= i < n ==> #[trigger] left[i] == ' '
        }),
{
    let n = if s.len() < width {
        width
    } else {
        s.len()
    };
    assert(right_aligned(s, width).skip(n - s.len()) =~= s);
    assert(left_aligned(s, width).take(s.len() as int) =~= s);
}

/// Lower case changes the ASCII letters from `A` to `Z` and nothing else.
pub proof fn lemma_lowered(s: Seq<char>, i: int)
    requires
        0 <= i < s.len(),
    ensures
        lowered(s).len() == s.len(),
        !('A' <= s[i] <= 'Z') ==> lowered(s)[i] == s[i],
        'A' <= s[i] <= 'Z' ==> 'a' <= lowered(s)[i] <= 'z' && (lowered(s)[i] as int - 'a' as int)
            == (s[i] as int - 'A' as int),
{
}

/// White space is the space, the tab and what ends a line or a page, in ASCII
/// and beyond it.
pub proof fn lemma_what_is_white(c: char)
    ensures
        white(c) <==> {
            ||| c == ' ' || c == '\t' || c == '\n' || c == '\r' || c == '\u{b}' || c == '\u{c}'
            ||| c == '\u{85}' || c == '\u{a0}' || c == '\u{1680}' || '\u{2000}' <= c <= '\u{200a}'
            ||| c == '\u{2028}' || c == '\u{2029}' || c == '\u{202f}' || c == '\u{205f}'
            ||| c == '\u{3000}'
        },
{
}

proof fn lemma_leading_zero_value(s: Seq<char>)
    ensures
        digits_value(seq!['0'] + s) == digits_value(s),
    decreases s.len(),
{
    let t = seq!['0'] + s;
    if s.len() == 0 {
        assert(t.drop_last() =~= Seq::empty());
        assert(t.last() == '0');
        assert(digits_value(t.drop_last()) == 0);
        assert(digits_value(t) == 0);
    } else {
        assert(t.drop_last() =~= seq!['0'] + s.drop_last());
        assert(t.last() == s.last());
        lemma_leading_zero_value(s.drop_last());
    }
}

/// A zero in front of a number changes nothing.
pub proof fn lemma_leading_zeros_do_not_matter(s: Seq<char>, max: nat)
    requires
        s.len() > 0,
        all_digits(s),
    ensures
        number_in(seq!['0'] + s, max) == number_in(s, max),
{
    let t = seq!['0'] + s;
    lemma_leading_zero_value(s);
    assert(t[0] == '0');
    assert(digit(s[0]));
    assert forall|i: int| 0 <= i < t.len() implies digit(#[trigger] t[i]) by {
        if i > 0 {
            assert(t[i] == s[i - 1]);
        }
    }
}

/// A text that begins with a prefix is the prefix and the rest.
pub proof fn lemma_behind_a_prefix(s: Seq<char>, prefix: Seq<char>)
    requires
        has_prefix(s, prefix),
    ensures
        s == prefix + s.skip(prefix.len() as int),
{
    let n = prefix.len() as int;
    assert(s.subrange(0, n) == prefix);
    assert(s =~= s.subrange(0, n) + s.skip(n));
}

/// A text that ends with a suffix is what stands before it and the suffix.
pub proof fn lemma_before_a_suffix(s: Seq<char>, suffix: Seq<char>)
    requires
        has_suffix(s, suffix),
    ensures
        s == s.take(s.len() - suffix.len()) + suffix,
{
    let n = s.len() - suffix.len();
    assert(s.subrange(n, n + suffix.len()) == suffix);
    assert(s =~= s.take(n) + s.subrange(n, n + suffix.len()));
}

/// A text that splits is what is before the pattern, the pattern, and what is
/// after it; and the pattern does not begin behind that.
pub proof fn lemma_around_the_last(s: Seq<char>, pattern: Seq<char>)
    requires
        split_last(s, pattern) is Some,
    ensures
        split_last(s, pattern) matches Some((before, after)) && s == before + pattern + after
            && forall|j: int| before.len() < j <= s.len() ==> !#[trigger] occurs_at(s, pattern, j),
{
    let i = last_match(s, pattern, s.len() as int);
    lemma_last_match(s, pattern, s.len() as int);
    assert(s.subrange(i, i + pattern.len()) == pattern);
    assert(s =~= s.take(i) + s.subrange(i, i + pattern.len()) + s.skip(i + pattern.len()));
}

} // verus!
