//! Character-level helpers shared by the rest of the crate.
//!
//! Strings are modelled by their view, a `Seq<char>`; every contract below is
//! stated over that view, and positions count characters.

use vstd::prelude::*;
use vstd::string::StrSliceExecFns;
use vstd::string::StringExecFns;

verus! {

/// `pat` stands in `text` at position `i`.
pub open spec fn occurs_at(text: Seq<char>, pat: Seq<char>, i: int) -> bool {
    &&& 0 <= i
    &&& i + pat.len() <= text.len()
    &&& text.subrange(i, i + pat.len()) == pat
}

/// No occurrence of `pat` in `text` starts in `from..to`.
pub open spec fn no_occurrence_in(text: Seq<char>, pat: Seq<char>, from: int, to: int) -> bool {
    forall|j: int| from <= j < to ==> !occurs_at(text, pat, j)
}

/// The position of the first occurrence of `pat` in `text` at or behind `from`.
pub open spec fn first_occurrence(text: Seq<char>, pat: Seq<char>, from: int) -> Option<int>
    decreases text.len() + 1 - from,
{
    if from < 0 || from + pat.len() > text.len() {
        None
    } else if occurs_at(text, pat, from) {
        Some(from)
    } else {
        first_occurrence(text, pat, from + 1)
    }
}

/// `pat` occurs somewhere in `text`.
pub open spec fn contains_seq(text: Seq<char>, pat: Seq<char>) -> bool {
    exists|i: int| occurs_at(text, pat, i)
}

/// The views of a sequence of string slices.
pub open spec fn str_views(v: Seq<&str>) -> Seq<Seq<char>> {
    Seq::new(v.len(), |i: int| v[i]@)
}

/// The views of a sequence of strings.
pub open spec fn string_views(v: Seq<String>) -> Seq<Seq<char>> {
    Seq::new(v.len(), |i: int| v[i]@)
}

/// The views of a list of pairs of strings.
pub open spec fn pair_views(pairs: Seq<(String, String)>) -> Seq<(Seq<char>, Seq<char>)> {
    Seq::new(pairs.len(), |i: int| (pairs[i].0@, pairs[i].1@))
}

/// What `first_occurrence` finds is an occurrence, and nothing occurs before it.
pub proof fn lemma_first_occurrence(text: Seq<char>, pat: Seq<char>, from: int)
    requires
        0 <= from,
    ensures
        match first_occurrence(text, pat, from) {
            Some(i) => from <= i && occurs_at(text, pat, i) && no_occurrence_in(text, pat, from, i),
            None => forall|j: int| from <= j ==> !occurs_at(text, pat, j),
        },
    decreases text.len() + 1 - from,
{
    if from + pat.len() > text.len() {
    } else if occurs_at(text, pat, from) {
    } else {
        lemma_first_occurrence(text, pat, from + 1);
    }
}

/// `s` without what it repeats: of equal items the first one stays.
pub open spec fn distinct(s: Seq<Seq<char>>) -> Seq<Seq<char>>
    decreases s.len(),
{
    if s.len() == 0 {
        Seq::empty()
    } else if distinct(s.drop_last()).contains(s.last()) {
        distinct(s.drop_last())
    } else {
        distinct(s.drop_last()).push(s.last())
    }
}

/// `distinct` repeats nothing, holds what its argument holds, and is no
/// longer than it.
pub proof fn lemma_distinct(s: Seq<Seq<char>>)
    ensures
        distinct(s).no_duplicates(),
        distinct(s).len() <= s.len(),
        forall|x: Seq<char>| distinct(s).contains(x) <==> s.contains(x),
    decreases s.len(),
{
    if s.len() > 0 {
        let init = s.drop_last();
        lemma_distinct(init);
        let d = distinct(init);
        assert forall|x: Seq<char>| distinct(s).contains(x) <==> s.contains(x) by {
            if s.contains(x) {
                let i = choose|i: int| 0 <= i < s.len() && s[i] == x;
                if i < s.len() - 1 {
                    assert(init[i] == x);
                    assert(init.contains(x));
                    assert(d.contains(x));
                }
                if !d.contains(s.last()) {
                    assert(d.push(s.last())[d.len() as int] == s.last());
                    if d.contains(x) {
                        let k = choose|k: int| 0 <= k < d.len() && d[k] == x;
                        assert(d.push(s.last())[k] == x);
                    }
                }
            }
            if distinct(s).contains(x) {
                let k = choose|k: int| 0 <= k < distinct(s).len() && distinct(s)[k] == x;
                if k < d.len() {
                    assert(d[k] == x);
                    assert(init.contains(x));
                    let i = choose|i: int| 0 <= i < init.len() && init[i] == x;
                    assert(s[i] == x);
                } else {
                    assert(x == s.last());
                    assert(s[s.len() - 1] == x);
                }
            }
        }
    }
}

/// What repeats nothing is left as it is.
pub proof fn lemma_distinct_fixed(s: Seq<Seq<char>>)
    requires
        s.no_duplicates(),
    ensures
        distinct(s) == s,
    decreases s.len(),
{
    if s.len() > 0 {
        let init = s.drop_last();
        lemma_distinct_fixed(init);
        lemma_distinct(init);
        if init.contains(s.last()) {
            let i = choose|i: int| 0 <= i < init.len() && init[i] == s.last();
            assert(s[i] == s[s.len() - 1]);
        }
        assert(init.push(s.last()) =~= s);
    } else {
        assert(s =~= Seq::empty());
    }
}

/// `parts` with `separator` between each two of them.
pub open spec fn joined(parts: Seq<Seq<char>>, separator: Seq<char>) -> Seq<char>
    decreases parts.len(),
{
    if parts.len() == 0 {
        Seq::empty()
    } else if parts.len() == 1 {
        parts[0]
    } else {
        joined(parts.drop_last(), separator) + separator + parts.last()
    }
}

/// What is joined is at least as long as each of its parts.
pub proof fn lemma_joined_covers(parts: Seq<Seq<char>>, separator: Seq<char>, k: int)
    requires
        0 <= k < parts.len(),
    ensures
        joined(parts, separator).len() >= parts[k].len(),
    decreases parts.len(),
{
    if parts.len() > 1 {
        let init = parts.drop_last();
        if k < parts.len() - 1 {
            assert(init[k] == parts[k]);
            lemma_joined_covers(init, separator, k);
        }
    }
}

/// `c` is white space: one of the characters that Unicode gives the property
/// `White_Space`. These are the characters from U+0009 to U+000D, U+0020,
/// U+0085, U+00A0, U+1680, those from U+2000 to U+200A, U+2028, U+2029,
/// U+202F, U+205F and U+3000.
pub open spec fn is_white_space(c: char) -> bool {
    let n = c as u32;
    (0x09 <= n && n <= 0x0D) || n == 0x20 || n == 0x85 || n == 0xA0 || n == 0x1680 || (0x2000
        <= n && n <= 0x200A) || n == 0x2028 || n == 0x2029 || n == 0x202F || n == 0x205F || n
        == 0x3000
}

/// Whether `c` is white space.
pub fn is_white_space_char(c: char) -> (white: bool)
    ensures
        white == is_white_space(c),
{
    let n: u32 = c as u32;
    (0x09 <= n && n <= 0x0D) || n == 0x20 || n == 0x85 || n == 0xA0 || n == 0x1680 || (0x2000
        <= n && n <= 0x200A) || n == 0x2028 || n == 0x2029 || n == 0x202F || n == 0x205F || n
        == 0x3000
}

/// Where the run of characters that starts at `from` ends, the run being of
/// white space if `white` is set and free of white space if it is not.
pub open spec fn span_end(s: Seq<char>, from: int, white: bool) -> int
    decreases s.len() - from,
{
    if 0 <= from < s.len() && is_white_space(s[from]) == white {
        span_end(s, from + 1, white)
    } else {
        from
    }
}

/// Where `s` ends when the white space at its end is left off.
pub open spec fn trimmed_end(s: Seq<char>) -> int
    decreases s.len(),
{
    if s.len() > 0 && is_white_space(s.last()) {
        trimmed_end(s.drop_last())
    } else {
        s.len() as int
    }
}

/// `s` without the white space at its two ends.
pub open spec fn trimmed(s: Seq<char>) -> Seq<char> {
    let start = span_end(s, 0, true);
    if start >= s.len() {
        Seq::empty()
    } else {
        s.subrange(start, trimmed_end(s))
    }
}

/// A run ends within the text and not before it starts.
pub proof fn lemma_span_end_bounds(s: Seq<char>, from: int, white: bool)
    requires
        0 <= from <= s.len(),
    ensures
        from <= span_end(s, from, white) <= s.len(),
        span_end(s, from, white) < s.len() ==> is_white_space(s[span_end(s, from, white)]) != white,
        forall|j: int| from <= j < span_end(s, from, white) ==> is_white_space(#[trigger] s[j]) == white,
    decreases s.len() - from,
{
    if from < s.len() && is_white_space(s[from]) == white {
        lemma_span_end_bounds(s, from + 1, white);
    }
}

/// A run ends where its kind of character ends: where all of `from..to` is
/// of the run's kind, and the text ends at `to` or goes on with a character
/// of the other kind, the run that starts at `from` ends at `to`.
pub proof fn lemma_span_end_is(s: Seq<char>, from: int, to: int, white: bool)
    requires
        0 <= from <= to <= s.len(),
        forall|j: int| from <= j < to ==> is_white_space(#[trigger] s[j]) == white,
        to == s.len() || is_white_space(s[to]) != white,
    ensures
        span_end(s, from, white) == to,
    decreases to - from,
{
    if from < to {
        assert(is_white_space(s[from]) == white);
        lemma_span_end_is(s, from + 1, to, white);
    }
}

/// Leaving off the white space at the end never reaches back over a character
/// that is not white space.
pub proof fn lemma_trimmed_end_bounds(s: Seq<char>, i: int)
    requires
        0 <= i < s.len(),
        !is_white_space(s[i]),
    ensures
        i < trimmed_end(s) <= s.len(),
    decreases s.len(),
{
    if is_white_space(s.last()) {
        lemma_trimmed_end_bounds(s.drop_last(), i);
    }
}

/// What is left when the white space at the end is left off does not end in
/// white space.
pub proof fn lemma_trimmed_end_last(s: Seq<char>)
    ensures
        0 <= trimmed_end(s) <= s.len(),
        trimmed_end(s) > 0 ==> !is_white_space(s[trimmed_end(s) - 1]),
    decreases s.len(),
{
    if s.len() > 0 && is_white_space(s.last()) {
        lemma_trimmed_end_last(s.drop_last());
    }
}

/// A text that does not end in white space ends where it ends.
pub proof fn lemma_trimmed_end_fixed(s: Seq<char>)
    requires
        s.len() == 0 || !is_white_space(s.last()),
    ensures
        trimmed_end(s) == s.len(),
{
}

/// Trimming a second time changes nothing.
pub proof fn lemma_trimmed_idempotent(s: Seq<char>)
    ensures
        trimmed(trimmed(s)) == trimmed(s),
{
    let start = span_end(s, 0, true);
    lemma_span_end_bounds(s, 0, true);
    lemma_trimmed_end_last(s);
    if start >= s.len() {
        assert(span_end(Seq::<char>::empty(), 0, true) == 0);
    } else {
        lemma_trimmed_end_bounds(s, start);
        let end = trimmed_end(s);
        let t = s.subrange(start, end);
        assert(t[0] == s[start]);
        assert(t.last() == s[end - 1]);
        assert(span_end(t, 0, true) == 0);
        lemma_trimmed_end_fixed(t);
        assert(t.subrange(0, t.len() as int) =~= t);
    }
}

/// Whether `pat` occurs somewhere in `text`.
pub fn contains_chars(text: &Vec<char>, pat: &Vec<char>) -> (found: bool)
    ensures
        found == contains_seq(text@, pat@),
{
    proof {
        lemma_first_occurrence(text@, pat@, 0);
    }
    find_from(text, pat, 0).is_some()
}

/// Copies the characters of `s` into a vector, so that they can be indexed in
/// constant time.
pub fn to_chars(s: &str) -> (v: Vec<char>)
    ensures
        v@ == s@,
{
    let mut v: Vec<char> = Vec::new();
    for c in it: s.chars()
        invariant
            v@ == it.seq().take(it.index() as int),
    {
        v.push(c);
    }
    v
}

/// Whether `pat` stands in `text` at position `i`.
pub fn matches_at(text: &Vec<char>, pat: &Vec<char>, i: usize) -> (found: bool)
    ensures
        found == occurs_at(text@, pat@, i as int),
{
    let n: usize = text.len();
    let m: usize = pat.len();
    if m > n || i > n - m {
        return false;
    }
    let mut k: usize = 0;
    while k < m
        invariant
            n == text@.len(),
            m == pat@.len(),
            i + m <= n,
            k <= m,
            forall|j: int| 0 <= j < k ==> text@[i + j] == pat@[j],
        decreases m - k,
    {
        if text[i + k] != pat[k] {
            proof {
                assert(text@.subrange(i as int, i + m)[k as int] == text@[i + k]);
            }
            return false;
        }
        k += 1;
    }
    proof {
        assert(text@.subrange(i as int, i + m) =~= pat@);
    }
    true
}

/// The position of the first occurrence of `pat` in `text` at or behind `from`.
pub fn find_from(text: &Vec<char>, pat: &Vec<char>, from: usize) -> (found: Option<usize>)
    ensures
        match found {
            Some(i) => first_occurrence(text@, pat@, from as int) == Some(i as int),
            None => first_occurrence(text@, pat@, from as int) is None,
        },
{
    let n: usize = text.len();
    let m: usize = pat.len();
    if m > n || from > n - m {
        return None;
    }
    let last: usize = n - m;
    let mut pos: usize = from;
    loop
        invariant
            n == text@.len(),
            m == pat@.len(),
            last == n - m,
            from <= pos <= last,
            first_occurrence(text@, pat@, from as int) == first_occurrence(text@, pat@, pos as int),
        decreases last - pos,
    {
        if matches_at(text, pat, pos) {
            return Some(pos);
        }
        if pos == last {
            proof {
                assert(first_occurrence(text@, pat@, pos + 1) is None);
            }
            return None;
        }
        pos += 1;
    }
}

/// Whether two texts are the same.
pub fn str_eq(a: &str, b: &str) -> (same: bool)
    ensures
        same == (a@ == b@),
{
    let x = to_chars(a);
    let y = to_chars(b);
    if x.len() != y.len() {
        return false;
    }
    let n: usize = x.len();
    let mut i: usize = 0;
    while i < n
        invariant
            x@ == a@,
            y@ == b@,
            n == x@.len(),
            n == y@.len(),
            i <= n,
            forall|j: int| 0 <= j < i ==> x@[j] == y@[j],
        decreases n - i,
    {
        if x[i] != y[i] {
            return false;
        }
        i += 1;
    }
    proof {
        assert(x@ =~= y@);
    }
    true
}

/// Whether `name` is among `list`.
pub fn contains_str(list: &Vec<String>, name: &str) -> (found: bool)
    ensures
        found == string_views(list@).contains(name@),
{
    let mut i: usize = 0;
    while i < list.len()
        invariant
            i <= list@.len(),
            forall|j: int| 0 <= j < i ==> list@[j]@ != name@,
        decreases list@.len() - i,
    {
        if str_eq(list[i].as_str(), name) {
            proof {
                assert(string_views(list@)[i as int] == name@);
            }
            return true;
        }
        i += 1;
    }
    proof {
        assert forall|j: int| 0 <= j < string_views(list@).len() implies string_views(list@)[j]
            != name@ by {
            assert(string_views(list@)[j] == list@[j]@);
        }
    }
    false
}

/// `parts` with `separator` between each two of them.
pub fn join(parts: &Vec<String>, separator: &str) -> (whole: String)
    ensures
        whole@ == joined(string_views(parts@), separator@),
{
    let mut whole = String::new();
    let mut i: usize = 0;
    proof {
        assert(string_views(parts@).subrange(0, 0) =~= Seq::empty());
    }
    while i < parts.len()
        invariant
            i <= parts@.len(),
            whole@ == joined(string_views(parts@).subrange(0, i as int), separator@),
        decreases parts@.len() - i,
    {
        proof {
            let views = string_views(parts@);
            let next = views.subrange(0, i + 1);
            assert(next.drop_last() =~= views.subrange(0, i as int));
            assert(next.last() == parts@[i as int]@);
            if i == 0 {
                assert(Seq::<char>::empty() + parts@[i as int]@ =~= parts@[i as int]@);
            }
        }
        if i > 0 {
            whole.append(separator);
        }
        whole.append(parts[i].as_str());
        i += 1;
    }
    proof {
        assert(string_views(parts@).subrange(0, i as int) =~= string_views(parts@));
    }
    whole
}

/// The end of the run of characters that starts at `from`.
pub fn span_end_at(text: &Vec<char>, from: usize, white: bool) -> (end: usize)
    requires
        from <= text@.len(),
    ensures
        end == span_end(text@, from as int, white),
        from <= end <= text@.len(),
{
    let n: usize = text.len();
    let mut pos: usize = from;
    while pos < n && is_white_space_char(text[pos]) == white
        invariant
            n == text@.len(),
            from <= pos <= n,
            span_end(text@, from as int, white) == span_end(text@, pos as int, white),
        decreases n - pos,
    {
        pos += 1;
    }
    pos
}

/// Where `text` ends when the white space at its end is left off.
pub fn trimmed_end_of(text: &Vec<char>) -> (end: usize)
    ensures
        end == trimmed_end(text@),
        end <= text@.len(),
{
    let mut end: usize = text.len();
    proof {
        assert(text@.subrange(0, end as int) =~= text@);
    }
    while end > 0 && is_white_space_char(text[end - 1])
        invariant
            end <= text@.len(),
            trimmed_end(text@) == trimmed_end(text@.subrange(0, end as int)),
        decreases end,
    {
        proof {
            let cur = text@.subrange(0, end as int);
            assert(cur.last() == text@[end - 1]);
            assert(cur.drop_last() =~= text@.subrange(0, end - 1));
        }
        end -= 1;
    }
    proof {
        assert(text@.subrange(0, text@.len() as int) =~= text@);
        let cur = text@.subrange(0, end as int);
        if end > 0 {
            assert(cur.last() == text@[end - 1]);
        }
    }
    end
}

/// `s` without the white space at its two ends.
pub fn trim<'a>(s: &'a str) -> (t: &'a str)
    ensures
        t@ == trimmed(s@),
{
    let chars = to_chars(s);
    let n: usize = chars.len();
    let start = span_end_at(&chars, 0, true);
    if start >= n {
        s.substring_char(0, 0)
    } else {
        let end = trimmed_end_of(&chars);
        proof {
            lemma_span_end_bounds(chars@, 0, true);
            lemma_trimmed_end_bounds(chars@, start as int);
        }
        s.substring_char(start, end)
    }
}

} // verus!
