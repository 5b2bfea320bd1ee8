//! Text, character by character.
//!
//! Every routine says what it returns in terms of the characters of its
//! arguments, so that callers can reason about the text they get without
//! looking at a body.

use vstd::prelude::*;
use vstd::string::*;

verus! {

/// `s` ends with `suffix`.
pub open spec fn ends_with(s: Seq<char>, suffix: Seq<char>) -> bool {
    s.len() >= suffix.len() && s.subrange(s.len() - suffix.len(), s.len() as int) == suffix
}

/// `s` carries `pattern` at offset `at`.
pub open spec fn occurs_at(s: Seq<char>, pattern: Seq<char>, at: int) -> bool {
    0 <= at && at + pattern.len() <= s.len() && s.subrange(at, at + pattern.len()) == pattern
}

/// `s` without its longest run of trailing `c`.
pub open spec fn trim_end(s: Seq<char>, c: char) -> Seq<char>
    decreases s.len(),
{
    if s.len() > 0 && s.last() == c {
        trim_end(s.drop_last(), c)
    } else {
        s
    }
}

/// `s` without its longest run of leading `c`.
pub open spec fn trim_start(s: Seq<char>, c: char) -> Seq<char>
    decreases s.len(),
{
    if s.len() > 0 && s[0] == c {
        trim_start(s.drop_first(), c)
    } else {
        s
    }
}

/// `s` without its leading and trailing runs of `c`.
pub open spec fn trim_both(s: Seq<char>, c: char) -> Seq<char> {
    trim_start(trim_end(s, c), c)
}

/// The length of the run of `c` that `s` begins with.
pub open spec fn leading_run(s: Seq<char>, c: char) -> int
    decreases s.len(),
{
    if s.len() > 0 && s[0] == c {
        1 + leading_run(s.drop_first(), c)
    } else {
        0
    }
}

/// What is left of a text without its trailing run of `c` is the
/// beginning of the text, does not end in `c`, and has nothing more to
/// lose.
pub proof fn lemma_trim_end_is_prefix(s: Seq<char>, c: char)
    ensures
        trim_end(s, c).len() <= s.len(),
        trim_end(s, c) == s.subrange(0, trim_end(s, c).len() as int),
        trim_end(s, c).len() == 0 || trim_end(s, c).last() != c,
        trim_end(trim_end(s, c), c) == trim_end(s, c),
    decreases s.len(),
{
    if s.len() > 0 && s.last() == c {
        lemma_trim_end_is_prefix(s.drop_last(), c);
    } else {
    }
}

/// What is left of a text without its leading run of `c` is the rest of
/// the text after that run, and does not begin with `c`.
pub proof fn lemma_trim_start_is_suffix(s: Seq<char>, c: char)
    ensures
        0 <= leading_run(s, c) <= s.len(),
        trim_start(s, c) == s.subrange(leading_run(s, c), s.len() as int),
        forall|i: int| 0 <= i < leading_run(s, c) ==> s[i] == c,
        leading_run(s, c) < s.len() ==> s[leading_run(s, c)] != c,
    decreases s.len(),
{
    if s.len() > 0 && s[0] == c {
        let rest = s.drop_first();
        lemma_trim_start_is_suffix(rest, c);
        let k = leading_run(rest, c);
        assert forall|i: int| 0 <= i < k + 1 implies s[i] == c by {
            if i > 0 {
                assert(s[i] == rest[i - 1]);
            }
        }
    } else {
    }
}

/// A text ends with a suffix exactly if the text without a leading run of
/// some other character than the suffix begins with does.
pub proof fn lemma_ends_with_after_run(s: Seq<char>, k: int, c: char, suffix: Seq<char>)
    requires
        0 <= k <= s.len(),
        forall|i: int| 0 <= i < k ==> s[i] == c,
        suffix.len() > 0,
        suffix[0] != c,
    ensures
        ends_with(s.subrange(k, s.len() as int), suffix) == ends_with(s, suffix),
{
    let rest = s.subrange(k, s.len() as int);
    let m = suffix.len() as int;
    if ends_with(rest, suffix) {
        assert(s.subrange(s.len() - m, s.len() as int) =~= rest.subrange(
            rest.len() - m,
            rest.len() as int,
        ));
    }
    if ends_with(s, suffix) {
        assert(s.subrange(s.len() - m, s.len() as int) =~= rest.subrange(
            rest.len() - m,
            rest.len() as int,
        ));
    }
}

/// The first `h` of a text lies as far behind a leading run of another
/// character as it lies in the rest behind that run.
pub proof fn lemma_first_index_after_run(s: Seq<char>, k: int, c: char, h: char)
    requires
        0 <= k <= s.len(),
        forall|i: int| 0 <= i < k ==> s[i] == c,
        c != h,
    ensures
        first_index_of(s, h) == k + first_index_of(s.subrange(k, s.len() as int), h),
    decreases k,
{
    if k == 0 {
        assert(s.subrange(0, s.len() as int) =~= s);
    } else {
        let rest = s.drop_first();
        assert forall|i: int| 0 <= i < k - 1 implies rest[i] == c by {
        }
        lemma_first_index_after_run(rest, k - 1, c, h);
        assert(rest.subrange(k - 1, rest.len() as int) =~= s.subrange(k, s.len() as int));
    }
}

/// `s` without its longest run of leading whitespace.
pub open spec fn trim_start_spaces(s: Seq<char>) -> Seq<char>
    decreases s.len(),
{
    if s.len() > 0 && is_space(s[0]) {
        trim_start_spaces(s.drop_first())
    } else {
        s
    }
}

/// `s` without its longest run of trailing whitespace.
pub open spec fn trim_end_spaces(s: Seq<char>) -> Seq<char>
    decreases s.len(),
{
    if s.len() > 0 && is_space(s.last()) {
        trim_end_spaces(s.drop_last())
    } else {
        s
    }
}

/// The characters with the Unicode property `White_Space`, which is what
/// `char::is_whitespace` tests.
pub open spec fn is_space(c: char) -> bool {
    let u = c as u32;
    (0x09 <= u <= 0x0D) || u == 0x20 || u == 0x85 || u == 0xA0 || u == 0x1680 || (0x2000 <= u
        <= 0x200A) || u == 0x2028 || u == 0x2029 || u == 0x202F || u == 0x205F || u == 0x3000
}

/// `s` without its leading and trailing whitespace.
pub open spec fn trim_spaces(s: Seq<char>) -> Seq<char> {
    trim_end_spaces(trim_start_spaces(s))
}

/// Position of the first `c` in `s`, or `s.len()` where there is none.
pub open spec fn first_index_of(s: Seq<char>, c: char) -> int
    decreases s.len(),
{
    if s.len() == 0 {
        0
    } else if s[0] == c {
        0
    } else {
        1 + first_index_of(s.drop_first(), c)
    }
}

/// The position of the first `c` lies within `s` or at its end.
pub proof fn lemma_first_index_bounds(s: Seq<char>, c: char)
    ensures
        0 <= first_index_of(s, c) <= s.len(),
    decreases s.len(),
{
    if s.len() > 0 && s[0] != c {
        lemma_first_index_bounds(s.drop_first(), c);
    }
}

/// `s` with every occurrence of `from` replaced by `to`, scanning from the
/// left and never looking again at text that was already replaced. An empty
/// `from` matches before every character and at the end.
pub open spec fn replace_all(s: Seq<char>, from: Seq<char>, to: Seq<char>) -> Seq<char>
    decreases s.len(),
{
    if from.len() == 0 {
        if s.len() == 0 {
            to
        } else {
            to + seq![s[0]] + replace_all(s.drop_first(), from, to)
        }
    } else if s.len() < from.len() {
        s
    } else if s.subrange(0, from.len() as int) == from {
        to + replace_all(s.subrange(from.len() as int, s.len() as int), from, to)
    } else {
        seq![s[0]] + replace_all(s.drop_first(), from, to)
    }
}

/// Replacing `from` by `to` cannot bring `from` about again: `to` is not
/// empty, holds neither the first nor the last character of `from`, and
/// does not occur within `from`.
pub open spec fn replaces_cleanly(from: Seq<char>, to: Seq<char>) -> bool {
    &&& from.len() > 0
    &&& to.len() > 0
    &&& !to.contains(from[0])
    &&& !to.contains(from.last())
    &&& forall|j: int| !occurs_at(from, to, j)
}

/// Where a text after replacing begins with the tail of `from`, the text
/// before replacing began with it too: nothing that was put in can be
/// part of it.
proof fn lemma_tail_was_there(s: Seq<char>, from: Seq<char>, to: Seq<char>, k: int)
    requires
        replaces_cleanly(from, to),
        1 <= k <= from.len(),
        occurs_at(replace_all(s, from, to), from.subrange(k, from.len() as int), 0),
    ensures
        occurs_at(s, from.subrange(k, from.len() as int), 0),
    decreases from.len() - k,
{
    let m = from.len() as int;
    let tail = from.subrange(k, m);
    let out = replace_all(s, from, to);
    if k == m {
        assert(s.subrange(0, 0) =~= tail);
    } else if s.len() < m {
    } else if s.subrange(0, m) == from {
        let rest = replace_all(s.subrange(m, s.len() as int), from, to);
        assert(out == to + rest);
        if to.len() <= tail.len() {
            assert(from.subrange(k, k + to.len()) =~= out.subrange(0, tail.len() as int).subrange(
                0,
                to.len() as int,
            ));
            assert(out.subrange(0, tail.len() as int).subrange(0, to.len() as int) =~= to);
            assert(occurs_at(from, to, k));
        } else {
            assert(out.subrange(0, tail.len() as int)[tail.len() - 1] == to[tail.len() - 1]);
            assert(tail[tail.len() - 1] == from.last());
            assert(to.contains(from.last()));
        }
    } else {
        let rest = replace_all(s.drop_first(), from, to);
        assert(out == seq![s[0]] + rest);
        assert(out.subrange(0, tail.len() as int)[0] == s[0]);
        assert(tail[0] == from[k]);
        assert(rest.subrange(0, tail.len() - 1) =~= out.subrange(0, tail.len() as int).drop_first());
        assert(from.subrange(k + 1, m) =~= tail.drop_first());
        lemma_tail_was_there(s.drop_first(), from, to, k + 1);
        assert(s.subrange(0, tail.len() as int) =~= seq![s[0]] + s.drop_first().subrange(
            0,
            tail.len() - 1,
        ));
        assert(tail =~= seq![tail[0]] + tail.drop_first());
    }
}

/// Every occurrence is replaced: where `to` cannot bring `from` about
/// again, the text after replacing holds `from` nowhere.
pub proof fn lemma_replace_all_leaves_none(s: Seq<char>, from: Seq<char>, to: Seq<char>, at: int)
    requires
        replaces_cleanly(from, to),
    ensures
        !occurs_at(replace_all(s, from, to), from, at),
    decreases s.len(),
{
    let m = from.len() as int;
    let out = replace_all(s, from, to);
    if occurs_at(out, from, at) {
        if s.len() < m {
        } else if s.subrange(0, m) == from {
            let rest = replace_all(s.subrange(m, s.len() as int), from, to);
            if at < to.len() {
            } else {
                assert(rest.subrange(at - to.len(), at - to.len() + m) =~= out.subrange(
                    at,
                    at + m,
                ));
                lemma_replace_all_leaves_none(
                    s.subrange(m, s.len() as int),
                    from,
                    to,
                    at - to.len(),
                );
            }
        } else {
            let rest = replace_all(s.drop_first(), from, to);
            if at >= 1 {
                assert(rest.subrange(at - 1, at - 1 + m) =~= out.subrange(at, at + m));
                lemma_replace_all_leaves_none(s.drop_first(), from, to, at - 1);
            } else {
                assert(rest.subrange(0, m - 1) =~= out.subrange(0, m).drop_first());
                lemma_tail_was_there(s.drop_first(), from, to, 1);
                assert(s.subrange(0, m) =~= seq![s[0]] + s.drop_first().subrange(0, m - 1));
                assert(from =~= seq![from[0]] + from.drop_first());
            }
        }
    }
}

/// A text that holds `from` nowhere stays as it is.
pub proof fn lemma_replace_all_without_occurrence(s: Seq<char>, from: Seq<char>, to: Seq<char>)
    requires
        from.len() > 0,
        forall|at: int| !occurs_at(s, from, at),
    ensures
        replace_all(s, from, to) == s,
    decreases s.len(),
{
    let m = from.len() as int;
    if s.len() >= m {
        assert(!occurs_at(s, from, 0));
        assert forall|at: int| !occurs_at(s.drop_first(), from, at) by {
            if occurs_at(s.drop_first(), from, at) {
                assert(s.subrange(at + 1, at + 1 + m) =~= s.drop_first().subrange(at, at + m));
                assert(occurs_at(s, from, at + 1));
            }
        }
        lemma_replace_all_without_occurrence(s.drop_first(), from, to);
    }
}

/// The letter in lower case, for the 26 capital letters of the English
/// alphabet; any other character as it is.
pub open spec fn ascii_lower(c: char) -> char {
    if 'A' <= c <= 'Z' {
        "abcdefghijklmnopqrstuvwxyz"@[c as int - 65]
    } else {
        c
    }
}

/// The text with its capital letters of the English alphabet in lower
/// case.
pub open spec fn lower_case(s: Seq<char>) -> Seq<char> {
    s.map_values(|c: char| ascii_lower(c))
}

/// A text without capital letters of the English alphabet is its own
/// lower case.
pub proof fn lemma_lower_case_of_lower(s: Seq<char>)
    requires
        forall|i: int| 0 <= i < s.len() ==> !('A' <= #[trigger] s[i] <= 'Z'),
    ensures
        lower_case(s) == s,
{
    assert(lower_case(s) =~= s);
}

/// The character of a decimal digit.
pub open spec fn digit_char(d: int) -> char {
    if d == 0 {
        '0'
    } else if d == 1 {
        '1'
    } else if d == 2 {
        '2'
    } else if d == 3 {
        '3'
    } else if d == 4 {
        '4'
    } else if d == 5 {
        '5'
    } else if d == 6 {
        '6'
    } else if d == 7 {
        '7'
    } else if d == 8 {
        '8'
    } else {
        '9'
    }
}

/// Decimal digits of `n`, most significant first, without leading zeros.
pub open spec fn decimal(n: nat) -> Seq<char>
    decreases n,
{
    if n < 10 {
        seq![digit_char(n as int)]
    } else {
        decimal(n / 10).push(digit_char((n % 10) as int))
    }
}

/// Decimal rendering of a signed number: a minus sign where it is negative,
/// then the digits of its magnitude.
pub open spec fn signed_decimal(i: int) -> Seq<char> {
    if i < 0 {
        seq!['-'] + decimal((-i) as nat)
    } else {
        decimal(i as nat)
    }
}

/// The texts of a list of strings.
pub open spec fn texts(list: Seq<String>) -> Seq<Seq<char>> {
    list.map_values(|s: String| s@)
}

/// Appending one string to a list appends its text to the list's texts.
pub proof fn lemma_texts_push(list: Seq<String>, s: String)
    ensures
        texts(list.push(s)) == texts(list).push(s@),
{
}

/// Tells whether two strings hold the same text.
pub fn same_text(a: &str, b: &str) -> (r: bool)
    ensures
        r == (a@ == b@),
{
    let x = String::from_str(a);
    let y = String::from_str(b);
    x == y
}

/// Tells whether `list` holds a string with the text of `s`.
pub fn contains_text(list: &Vec<String>, s: &str) -> (r: bool)
    ensures
        r == texts(list@).contains(s@),
{
    let n = list.len();
    let mut i: usize = 0;
    while i < n
        invariant
            i <= n,
            n == list.len(),
            forall|j: int| 0 <= j < i ==> list[j]@ != s@,
        decreases n - i,
    {
        if same_text(list[i].as_str(), s) {
            assert(texts(list@)[i as int] == s@);
            return true;
        }
        i += 1;
    }
    assert forall|j: int| 0 <= j < texts(list@).len() implies texts(list@)[j] != s@ by {
    }
    false
}

/// The decimal digits of a number are digits.
pub proof fn lemma_decimal_is_digits(n: nat, i: int)
    requires
        0 <= i < decimal(n).len(),
    ensures
        '0' <= decimal(n)[i] <= '9',
    decreases n,
{
    if n >= 10 {
        if i < decimal(n / 10).len() {
            lemma_decimal_is_digits(n / 10, i);
        }
    }
}

/// The characters of `s`, in order.
pub fn chars_of(s: &str) -> (v: Vec<char>)
    ensures
        v@ == s@,
{
    let mut v: Vec<char> = Vec::new();
    for c in it: s.chars()
        invariant
            v@ == s@.subrange(0, it.index() as int),
            it.seq() == s@,
    {
        v.push(c);
    }
    v
}

/// Tells whether the first `end` characters of `text` end with `suffix`.
/// A text that has no `end` characters does not.
pub fn prefix_ends_with(text: &Vec<char>, end: usize, suffix: &Vec<char>) -> (r: bool)
    ensures
        r == (end <= text.len() && ends_with(text@.subrange(0, end as int), suffix@)),
{
    let m = suffix.len();
    if end > text.len() || m > end {
        return false;
    }
    let start = end - m;
    let mut i: usize = 0;
    while i < m
        invariant
            i <= m,
            m == suffix.len(),
            start + m == end,
            end <= text.len(),
            forall|j: int| 0 <= j < i ==> text[start + j] == suffix[j],
        decreases m - i,
    {
        if text[start + i] != suffix[i] {
            proof {
                let tail = text@.subrange(0, end as int).subrange(end - m, end as int);
                assert(tail[i as int] == text[start + i]);
            }
            return false;
        }
        i += 1;
    }
    proof {
        let tail = text@.subrange(0, end as int).subrange(end - m, end as int);
        assert(tail =~= suffix@);
    }
    true
}

/// Tells whether `text` carries `pattern` at offset `at`.
pub fn matches_at(text: &Vec<char>, pattern: &Vec<char>, at: usize) -> (r: bool)
    ensures
        r == occurs_at(text@, pattern@, at as int),
{
    let m = pattern.len();
    let n = text.len();
    if at > n || m > n - at {
        return false;
    }
    let mut i: usize = 0;
    while i < m
        invariant
            i <= m,
            m == pattern.len(),
            at + m <= text.len(),
            forall|j: int| 0 <= j < i ==> text[at + j] == pattern[j],
        decreases m - i,
    {
        if text[at + i] != pattern[i] {
            return false;
        }
        i += 1;
    }
    proof {
        assert(text@.subrange(at as int, at + m) =~= pattern@);
    }
    true
}

/// Length of `text` once its trailing run of `c` is cut off.
pub fn trimmed_end(text: &Vec<char>, c: char) -> (end: usize)
    ensures
        end <= text.len(),
        text@.subrange(0, end as int) == trim_end(text@, c),
{
    let mut end = text.len();
    proof {
        assert(text@.subrange(0, end as int) =~= text@);
    }
    while end > 0 && text[end - 1] == c
        invariant
            end <= text.len(),
            trim_end(text@.subrange(0, end as int), c) == trim_end(text@, c),
        decreases end,
    {
        proof {
            let cur = text@.subrange(0, end as int);
            assert(cur.drop_last() =~= text@.subrange(0, end - 1));
        }
        end -= 1;
    }
    end
}

/// Position of the first `c` in `text`, or its length where there is none.
pub fn index_of(text: &Vec<char>, c: char) -> (at: usize)
    ensures
        at == first_index_of(text@, c),
        at <= text.len(),
        at < text.len() ==> text[at as int] == c,
        forall|j: int| 0 <= j < at ==> text[j] != c,
{
    let n = text.len();
    let mut i: usize = 0;
    proof {
        assert(text@.subrange(0, n as int) =~= text@);
    }
    while i < n && text[i] != c
        invariant
            i <= n,
            n == text.len(),
            first_index_of(text@, c) == i + first_index_of(text@.subrange(i as int, n as int), c),
            forall|j: int| 0 <= j < i ==> text[j] != c,
        decreases n - i,
    {
        proof {
            let rest = text@.subrange(i as int, n as int);
            assert(rest.drop_first() =~= text@.subrange(i + 1, n as int));
        }
        i += 1;
    }
    i
}

/// Tells whether `c` is whitespace.
pub fn is_whitespace(c: char) -> (r: bool)
    ensures
        r == is_space(c),
{
    let u = c as u32;
    (0x09 <= u && u <= 0x0D) || u == 0x20 || u == 0x85 || u == 0xA0 || u == 0x1680 || (0x2000 <= u
        && u <= 0x200A) || u == 0x2028 || u == 0x2029 || u == 0x202F || u == 0x205F || u == 0x3000
}

/// `text` without its leading and trailing whitespace.
pub fn trim(text: &str) -> (out: &str)
    ensures
        out@ == trim_spaces(text@),
{
    let chars = chars_of(text);
    let n = chars.len();
    let mut start: usize = 0;
    proof {
        assert(text@.subrange(0, n as int) =~= text@);
    }
    while start < n && is_whitespace(chars[start])
        invariant
            start <= n,
            n == chars.len(),
            chars@ == text@,
            trim_start_spaces(text@.subrange(start as int, n as int)) == trim_start_spaces(text@),
        decreases n - start,
    {
        proof {
            let rest = text@.subrange(start as int, n as int);
            assert(rest.drop_first() =~= text@.subrange(start + 1, n as int));
        }
        start += 1;
    }
    let mut end: usize = n;
    while end > start && is_whitespace(chars[end - 1])
        invariant
            start <= end <= n,
            n == chars.len(),
            chars@ == text@,
            trim_end_spaces(text@.subrange(start as int, end as int)) == trim_spaces(text@),
        decreases end,
    {
        proof {
            let cur = text@.subrange(start as int, end as int);
            assert(cur.drop_last() =~= text@.subrange(start as int, end - 1));
        }
        end -= 1;
    }
    text.substring_char(start, end)
}

/// `text` without its trailing run of `c`.
pub fn trim_end_matches(text: &str, c: char) -> (out: &str)
    ensures
        out@ == trim_end(text@, c),
{
    let chars = chars_of(text);
    let end = trimmed_end(&chars, c);
    text.substring_char(0, end)
}

/// `text` without its leading and trailing runs of `c`.
pub fn trim_matches(text: &str, c: char) -> (out: &str)
    ensures
        out@ == trim_both(text@, c),
{
    let chars = chars_of(text);
    let end = trimmed_end(&chars, c);
    let mut start: usize = 0;
    while start < end && chars[start] == c
        invariant
            start <= end <= chars.len(),
            chars@ == text@,
            trim_start(text@.subrange(start as int, end as int), c) == trim_both(text@, c),
        decreases end - start,
    {
        proof {
            let cur = text@.subrange(start as int, end as int);
            assert(cur.drop_first() =~= text@.subrange(start + 1, end as int));
        }
        start += 1;
    }
    text.substring_char(start, end)
}

/// `text` with every occurrence of `from` replaced by `to`.
pub fn replace(text: &str, from: &str, to: &str) -> (out: String)
    ensures
        out@ == replace_all(text@, from@, to@),
{
    let chars = chars_of(text);
    let pattern = chars_of(from);
    let n = chars.len();
    let m = pattern.len();
    let mut out = String::new();
    proof {
        assert(text@.subrange(0, n as int) =~= text@);
    }
    if m == 0 {
        let mut i: usize = 0;
        while i < n
            invariant
                i <= n,
                n == chars.len(),
                chars@ == text@,
                from@.len() == 0,
                out@ + replace_all(text@.subrange(i as int, n as int), from@, to@) == replace_all(
                    text@,
                    from@,
                    to@,
                ),
            decreases n - i,
        {
            let ghost rest = text@.subrange(i as int, n as int);
            out.append(to);
            out.append(text.substring_char(i, i + 1));
            proof {
                assert(rest.drop_first() =~= text@.subrange(i + 1, n as int));
            }
            i += 1;
        }
        out.append(to);
        return out;
    }
    let mut run: usize = 0;
    let mut i: usize = 0;
    while i < n
        invariant
            run <= i <= n,
            n == chars.len(),
            m == pattern.len(),
            m > 0,
            chars@ == text@,
            pattern@ == from@,
            out@ + text@.subrange(run as int, i as int) + replace_all(
                text@.subrange(i as int, n as int),
                from@,
                to@,
            ) == replace_all(text@, from@, to@),
        decreases n - i,
    {
        let ghost rest = text@.subrange(i as int, n as int);
        if matches_at(&chars, &pattern, i) {
            out.append(text.substring_char(run, i));
            out.append(to);
            proof {
                assert(rest.subrange(0, m as int) =~= text@.subrange(i as int, i + m));
                assert(rest.subrange(m as int, rest.len() as int) =~= text@.subrange(
                    i + m,
                    n as int,
                ));
            }
            i = i + m;
            run = i;
        } else {
            proof {
                if rest.len() >= m {
                    assert(rest.subrange(0, m as int) =~= text@.subrange(i as int, i + m));
                }
                assert(rest.drop_first() =~= text@.subrange(i + 1, n as int));
            }
            i += 1;
        }
    }
    out.append(text.substring_char(run, n));
    out
}

/// The text with its capital letters of the English alphabet in lower
/// case.
pub fn to_ascii_lowercase(text: &str) -> (out: String)
    ensures
        out@ == lower_case(text@),
{
    let chars = chars_of(text);
    let n = chars.len();
    let mut out = String::new();
    let mut i: usize = 0;
    proof {
        reveal_strlit("abcdefghijklmnopqrstuvwxyz");
    }
    while i < n
        invariant
            i <= n,
            n == chars.len(),
            chars@ == text@,
            "abcdefghijklmnopqrstuvwxyz"@.len() == 26,
            out@ == lower_case(text@).subrange(0, i as int),
        decreases n - i,
    {
        let code = chars[i] as u32;
        let ghost before = out@;
        if 65 <= code && code <= 90 {
            let place = (code - 65) as usize;
            out.append("abcdefghijklmnopqrstuvwxyz".substring_char(place, place + 1));
        } else {
            out.append(text.substring_char(i, i + 1));
        }
        proof {
            assert(out@ =~= before.push(ascii_lower(text@[i as int])));
            assert(lower_case(text@).subrange(0, i + 1) =~= before.push(
                lower_case(text@)[i as int],
            ));
        }
        i += 1;
    }
    proof {
        assert(lower_case(text@).subrange(0, n as int) =~= lower_case(text@));
    }
    out
}

/// The one-character text of a decimal digit.
fn digit_text(d: u64) -> (out: &'static str)
    requires
        d < 10,
    ensures
        out@ == seq![digit_char(d as int)],
{
    proof {
        reveal_strlit("0");
        reveal_strlit("1");
        reveal_strlit("2");
        reveal_strlit("3");
        reveal_strlit("4");
        reveal_strlit("5");
        reveal_strlit("6");
        reveal_strlit("7");
        reveal_strlit("8");
        reveal_strlit("9");
    }
    let out = if d == 0 {
        "0"
    } else if d == 1 {
        "1"
    } else if d == 2 {
        "2"
    } else if d == 3 {
        "3"
    } else if d == 4 {
        "4"
    } else if d == 5 {
        "5"
    } else if d == 6 {
        "6"
    } else if d == 7 {
        "7"
    } else if d == 8 {
        "8"
    } else {
        "9"
    };
    out
}

/// Decimal rendering of `n`.
pub fn u64_to_text(n: u64) -> (out: String)
    ensures
        out@ == decimal(n as nat),
{
    let mut out = String::from_str(digit_text(n % 10));
    let mut rest: u64 = n / 10;
    while rest > 0
        invariant
            rest > 0 ==> decimal(rest as nat) + out@ == decimal(n as nat),
            rest == 0 ==> out@ == decimal(n as nat),
        decreases rest,
    {
        let d = rest % 10;
        let ghost prev = rest;
        let mut next = String::from_str(digit_text(d));
        next.append(out.as_str());
        out = next;
        rest = rest / 10;
        proof {
            if prev < 10 {
            } else {
            }
        }
    }
    out
}

/// Decimal rendering of `i`, with a minus sign where it is negative.
pub fn i64_to_text(i: i64) -> (out: String)
    ensures
        out@ == signed_decimal(i as int),
{
    if i < 0 {
        let magnitude: u64 = ((-(i + 1)) as u64) + 1;
        let digits = u64_to_text(magnitude);
        let mut out = String::from_str("-");
        proof {
            reveal_strlit("-");
        }
        out.append(digits.as_str());
        out
    } else {
        u64_to_text(i as u64)
    }
}

} // verus!
