//! The lines of a text, and a text without the lines that it repeats.
//!
//! A text is read as a text file is: a line ends at a line feed, which may
//! have a carriage return before it, or at the end of the text, and nothing
//! behind the last line feed is no line. Lines are put together again with a
//! line feed between each two of them.

use vstd::prelude::*;
use vstd::string::StrSliceExecFns;
use crate::text::{contains_str, distinct, join, joined, lemma_distinct, lemma_distinct_fixed, lemma_joined_covers, string_views, to_chars};

verus! {

/// The parts of `s` that its line feeds part: one more than it has line
/// feeds.
pub open spec fn split_lines(s: Seq<char>) -> Seq<Seq<char>>
    decreases s.len(),
{
    if s.len() == 0 {
        seq![Seq::empty()]
    } else if s.last() == '\n' {
        split_lines(s.drop_last()).push(Seq::empty())
    } else {
        let before = split_lines(s.drop_last());
        before.drop_last().push(before.last().push(s.last()))
    }
}

/// `parts` with a line feed between each two of them.
pub open spec fn join_lines(parts: Seq<Seq<char>>) -> Seq<char> {
    joined(parts, seq!['\n'])
}

/// `s` holds no line feed.
pub open spec fn one_line(s: Seq<char>) -> bool {
    forall|i: int| 0 <= i < s.len() ==> s[i] != '\n'
}

/// Every one of `parts` holds no line feed.
pub open spec fn all_one_line(parts: Seq<Seq<char>>) -> bool {
    forall|i: int| 0 <= i < parts.len() ==> one_line(#[trigger] parts[i])
}

/// `line` without a carriage return at its end.
pub open spec fn without_carriage_return(line: Seq<char>) -> Seq<char> {
    if line.len() > 0 && line.last() == '\r' {
        line.drop_last()
    } else {
        line
    }
}

/// The lines of `s` as a reader of text files sees them: a line ends at a
/// line feed, which may have a carriage return before it, or at the end of
/// the text; nothing behind the last line feed is no line.
pub open spec fn text_lines(s: Seq<char>) -> Seq<Seq<char>> {
    let parts = split_lines(s);
    let ended = parts.drop_last().map_values(|line: Seq<char>| without_carriage_return(line));
    if parts.last().len() > 0 {
        ended.push(parts.last())
    } else {
        ended
    }
}

/// `message` without the lines that repeat a line above them: of equal lines
/// the first one stays, wherever the others stand.
pub open spec fn unique_lines_spec(message: Seq<char>) -> Seq<char> {
    join_lines(distinct(text_lines(message)))
}

/// `line` ends in a carriage return.
pub open spec fn ends_in_carriage_return(line: Seq<char>) -> bool {
    line.len() > 0 && line.last() == '\r'
}

/// `lines`, joined, are read as the same lines again: no line but the last
/// ends in a carriage return, which would be read as part of the line's
/// end, and the last of several lines is not empty, which would be read as
/// no line.
pub open spec fn settled(lines: Seq<Seq<char>>) -> bool {
    &&& lines.len() >= 2 ==> lines.last().len() > 0
    &&& forall|i: int| 0 <= i < lines.len() - 1 ==> !ends_in_carriage_return(#[trigger] lines[i])
}

/// A text has at least one line, and no line holds a line feed.
pub proof fn lemma_split_lines(s: Seq<char>)
    ensures
        split_lines(s).len() >= 1,
        all_one_line(split_lines(s)),
    decreases s.len(),
{
    if s.len() > 0 {
        lemma_split_lines(s.drop_last());
        let before = split_lines(s.drop_last());
        if s.last() != '\n' {
            let after = split_lines(s);
            assert forall|i: int| 0 <= i < after.len() implies one_line(#[trigger] after[i]) by {
                if i < after.len() - 1 {
                    assert(after[i] == before[i]);
                } else {
                    assert(one_line(before[before.len() - 1]));
                }
            }
        } else {
            let after = split_lines(s);
            assert forall|i: int| 0 <= i < after.len() implies one_line(#[trigger] after[i]) by {
                if i < after.len() - 1 {
                    assert(after[i] == before[i]);
                }
            }
        }
    }
}

/// Text without a line feed, put behind a text, lengthens its last line.
pub proof fn lemma_split_lines_append(a: Seq<char>, b: Seq<char>)
    requires
        one_line(b),
    ensures
        split_lines(a + b) == split_lines(a).drop_last().push(split_lines(a).last() + b),
    decreases b.len(),
{
    lemma_split_lines(a);
    let lines = split_lines(a);
    if b.len() == 0 {
        assert(a + b =~= a);
        assert(lines.last() + b =~= lines.last());
        assert(lines.drop_last().push(lines.last()) =~= lines);
    } else {
        let init = b.drop_last();
        lemma_split_lines_append(a, init);
        assert((a + b).drop_last() =~= a + init);
        assert((a + b).last() == b.last());
        let before = split_lines(a + init);
        assert(before.drop_last() =~= lines.drop_last());
        assert(before.last() == lines.last() + init);
        assert((lines.last() + init).push(b.last()) =~= lines.last() + b);
    }
}

/// A line feed and a text without one, put behind a text, add a line.
pub proof fn lemma_split_lines_push_line(a: Seq<char>, b: Seq<char>)
    requires
        one_line(b),
    ensures
        split_lines(a + seq!['\n'] + b) == split_lines(a).push(b),
{
    let fed = a + seq!['\n'];
    assert(fed.drop_last() =~= a);
    assert(fed.last() == '\n');
    lemma_split_lines_append(fed, b);
    let lines = split_lines(a).push(Seq::<char>::empty());
    assert(lines.drop_last() =~= split_lines(a));
    assert(Seq::<char>::empty() + b =~= b);
}

/// Lines joined and split again are the lines.
pub proof fn lemma_split_join(parts: Seq<Seq<char>>)
    requires
        parts.len() >= 1,
        all_one_line(parts),
    ensures
        split_lines(join_lines(parts)) == parts,
    decreases parts.len(),
{
    if parts.len() == 1 {
        lemma_split_lines_append(Seq::empty(), parts[0]);
        assert(Seq::<char>::empty() + parts[0] =~= parts[0]);
        assert(seq![Seq::<char>::empty()].drop_last().push(parts[0]) =~= parts);
    } else {
        let init = parts.drop_last();
        assert(all_one_line(init)) by {
            assert forall|i: int| 0 <= i < init.len() implies one_line(#[trigger] init[i]) by {
                assert(init[i] == parts[i]);
            }
        }
        lemma_split_join(init);
        assert(one_line(parts[parts.len() - 1]));
        lemma_split_lines_push_line(join_lines(init), parts.last());
        assert(init.push(parts.last()) =~= parts);
    }
}

/// No line of a text holds a line feed.
pub proof fn lemma_text_lines(s: Seq<char>)
    ensures
        all_one_line(text_lines(s)),
{
    lemma_split_lines(s);
    let parts = split_lines(s);
    let lines = text_lines(s);
    assert forall|i: int| 0 <= i < lines.len() implies one_line(#[trigger] lines[i]) by {
        if i < parts.len() - 1 {
            assert(lines[i] == without_carriage_return(parts[i]));
            assert(one_line(parts[i]));
        } else {
            assert(lines[i] == parts[parts.len() - 1]);
            assert(one_line(parts[parts.len() - 1]));
        }
    }
}

/// Lines that are settled, joined and read again, are the same lines.
pub proof fn lemma_text_lines_of_joined(lines: Seq<Seq<char>>)
    requires
        lines.len() >= 1,
        lines.last().len() > 0,
        all_one_line(lines),
        settled(lines),
    ensures
        text_lines(join_lines(lines)) == lines,
{
    lemma_split_join(lines);
    let ended = lines.drop_last().map_values(|line: Seq<char>| without_carriage_return(line));
    assert(ended =~= lines.drop_last()) by {
        assert forall|i: int| 0 <= i < ended.len() implies ended[i] == lines.drop_last()[i] by {
            assert(!ends_in_carriage_return(lines[i]));
        }
    }
    assert(lines.drop_last().push(lines.last()) =~= lines);
}

/// What is left repeats no line: between its line feeds no text stands
/// twice. Where anything is left, these texts are the lines of the message
/// without those that repeat a line above them.
pub proof fn lemma_unique_lines_repeat_nothing(message: Seq<char>)
    ensures
        split_lines(unique_lines_spec(message)).no_duplicates(),
        distinct(text_lines(message)).len() > 0 ==> split_lines(unique_lines_spec(message))
            == distinct(text_lines(message)),
{
    let lines = text_lines(message);
    let kept = distinct(lines);
    lemma_text_lines(message);
    lemma_distinct(lines);
    if kept.len() > 0 {
        assert(all_one_line(kept)) by {
            assert forall|i: int| 0 <= i < kept.len() implies one_line(#[trigger] kept[i]) by {
                assert(kept.contains(kept[i]));
                assert(lines.contains(kept[i]));
                let j = choose|j: int| 0 <= j < lines.len() && lines[j] == kept[i];
                assert(one_line(lines[j]));
            }
        }
        lemma_split_join(kept);
    } else {
        assert(unique_lines_spec(message) =~= Seq::<char>::empty());
        assert(split_lines(Seq::<char>::empty()) =~= seq![Seq::<char>::empty()]);
    }
}

/// `s` holds a character that is neither a line feed nor a carriage return.
pub open spec fn has_text(s: Seq<char>) -> bool {
    exists|i: int| 0 <= i < s.len() && #[trigger] s[i] != '\n' && s[i] != '\r'
}

/// Of a text that holds more than line ends, one of the parts between its
/// line feeds holds more than line ends.
pub proof fn lemma_split_has_text(s: Seq<char>)
    requires
        has_text(s),
    ensures
        exists|j: int| 0 <= j < split_lines(s).len() && has_text(#[trigger] split_lines(s)[j]),
    decreases s.len(),
{
    let i = choose|i: int| 0 <= i < s.len() && #[trigger] s[i] != '\n' && s[i] != '\r';
    let init = s.drop_last();
    let before = split_lines(init);
    let after = split_lines(s);
    lemma_split_lines(init);
    if i < s.len() - 1 {
        assert(init[i] == s[i]);
        assert(has_text(init));
        lemma_split_has_text(init);
        let j = choose|j: int| 0 <= j < before.len() && has_text(#[trigger] before[j]);
        let k = choose|k: int|
            0 <= k < before[j].len() && #[trigger] before[j][k] != '\n' && before[j][k] != '\r';
        if s.last() == '\n' || j < before.len() - 1 {
            assert(after[j] == before[j]);
        } else {
            assert(after[j][k] == before[j][k]);
            assert(has_text(after[j]));
        }
    } else {
        let j = after.len() - 1;
        let k = after[j].len() - 1;
        assert(after[j][k] == s[i]);
        assert(has_text(after[j]));
    }
}

/// A text that holds more than line ends has a line that is not empty.
pub proof fn lemma_text_has_line(s: Seq<char>)
    requires
        has_text(s),
    ensures
        exists|j: int| 0 <= j < text_lines(s).len() && (#[trigger] text_lines(s)[j]).len() > 0,
{
    lemma_split_has_text(s);
    let parts = split_lines(s);
    let lines = text_lines(s);
    let j = choose|j: int| 0 <= j < parts.len() && has_text(#[trigger] parts[j]);
    let k = choose|k: int|
        0 <= k < parts[j].len() && #[trigger] parts[j][k] != '\n' && parts[j][k] != '\r';
    if j < parts.len() - 1 {
        assert(lines[j] == without_carriage_return(parts[j]));
        assert(lines[j].len() > 0);
    } else {
        assert(lines[j] == parts[j]);
        assert(lines[j].len() > 0);
    }
}

/// Something is left of a message if and only if it has a line that is not
/// empty.
pub proof fn lemma_unique_lines_not_empty(message: Seq<char>)
    ensures
        unique_lines_spec(message).len() > 0 <==> exists|j: int|
            0 <= j < text_lines(message).len() && (#[trigger] text_lines(message)[j]).len() > 0,
{
    let lines = text_lines(message);
    let kept = distinct(lines);
    lemma_distinct(lines);
    if exists|j: int| 0 <= j < lines.len() && (#[trigger] lines[j]).len() > 0 {
        let j = choose|j: int| 0 <= j < lines.len() && (#[trigger] lines[j]).len() > 0;
        assert(lines.contains(lines[j]));
        assert(kept.contains(lines[j]));
        let k = choose|k: int| 0 <= k < kept.len() && kept[k] == lines[j];
        lemma_joined_covers(kept, seq!['\n'], k);
    } else {
        assert forall|k: int| 0 <= k < kept.len() implies (#[trigger] kept[k]).len() == 0 by {
            assert(kept.contains(kept[k]));
            assert(lines.contains(kept[k]));
            let j = choose|j: int| 0 <= j < lines.len() && lines[j] == kept[k];
            assert(lines[j].len() == 0);
        }
        if kept.len() >= 2 {
            assert(kept[0] =~= kept[1]);
        }
    }
}

/// Leaving out the repeated lines a second time changes nothing, where what
/// is left the first time is read as the same lines again. It is not, where
/// an empty line is the last of several lines left, as for a message of one
/// line and an empty line, or where a line left ends in a carriage return.
pub proof fn lemma_unique_lines_idempotent(message: Seq<char>)
    requires
        settled(distinct(text_lines(message))),
    ensures
        unique_lines_spec(unique_lines_spec(message)) == unique_lines_spec(message),
{
    let lines = text_lines(message);
    let kept = distinct(lines);
    lemma_text_lines(message);
    lemma_distinct(lines);
    if kept.len() == 0 || (kept.len() == 1 && kept[0].len() == 0) {
        assert(unique_lines_spec(message) =~= Seq::<char>::empty());
        assert(split_lines(Seq::<char>::empty()) =~= seq![Seq::<char>::empty()]);
        assert(text_lines(Seq::<char>::empty()) =~= Seq::<Seq<char>>::empty());
        assert(distinct(Seq::<Seq<char>>::empty()) =~= Seq::<Seq<char>>::empty());
    } else {
        assert(all_one_line(kept)) by {
            assert forall|i: int| 0 <= i < kept.len() implies one_line(#[trigger] kept[i]) by {
                assert(kept.contains(kept[i]));
                assert(lines.contains(kept[i]));
                let j = choose|j: int| 0 <= j < lines.len() && lines[j] == kept[i];
                assert(one_line(lines[j]));
            }
        }
        lemma_text_lines_of_joined(kept);
        lemma_distinct_fixed(kept);
    }
}

/// `parts` with a line feed between each two of them.
pub fn join_with_line_feeds(parts: &Vec<String>) -> (whole: String)
    ensures
        whole@ == join_lines(string_views(parts@)),
{
    proof {
        reveal_strlit("\n");
        assert("\n"@ =~= seq!['\n']);
    }
    join(parts, "\n")
}

/// The lines of `text` as a reader of text files sees them.
pub fn lines_of(text: &str) -> (lines: Vec<String>)
    ensures
        string_views(lines@) == text_lines(text@),
{
    let chars = to_chars(text);
    let n: usize = chars.len();
    let mut lines: Vec<String> = Vec::new();
    let mut start: usize = 0;
    let mut i: usize = 0;
    let ghost strip = |line: Seq<char>| without_carriage_return(line);
    let ghost mut done: Seq<Seq<char>> = Seq::empty();
    proof {
        assert(text@.subrange(0, 0) =~= Seq::<char>::empty());
        assert(done.push(text@.subrange(0, 0)) =~= seq![Seq::<char>::empty()]);
        assert(string_views(lines@) =~= done.map_values(strip));
    }
    while i < n
        invariant
            chars@ == text@,
            n == text@.len(),
            start <= i <= n,
            strip == (|line: Seq<char>| without_carriage_return(line)),
            split_lines(text@.subrange(0, i as int)) == done.push(
                text@.subrange(start as int, i as int),
            ),
            string_views(lines@) == done.map_values(strip),
        decreases n - i,
    {
        proof {
            let next = text@.subrange(0, i + 1);
            assert(next.drop_last() =~= text@.subrange(0, i as int));
            assert(next.last() == text@[i as int]);
            let before = done.push(text@.subrange(start as int, i as int));
            assert(before.drop_last() =~= done);
            assert(before.last().push(text@[i as int]) =~= text@.subrange(start as int, i + 1));
            assert(text@.subrange(i + 1, i + 1) =~= Seq::<char>::empty());
        }
        if chars[i] == '\n' {
            let ghost whole = text@.subrange(start as int, i as int);
            let end: usize = if i > start && chars[i - 1] == '\r' {
                i - 1
            } else {
                i
            };
            let line = text.substring_char(start, end);
            let owned = line.to_owned();
            proof {
                if i > start {
                    assert(whole.last() == text@[i - 1]);
                }
                assert(line@ =~= without_carriage_return(whole));
                assert(string_views(lines@.push(owned)) =~= string_views(lines@).push(line@));
                assert(done.push(whole).map_values(strip) =~= done.map_values(strip).push(
                    strip(whole),
                ));
                done = done.push(whole);
            }
            lines.push(owned);
            start = i + 1;
        }
        i += 1;
    }
    proof {
        assert(text@.subrange(0, n as int) =~= text@);
        let parts = split_lines(text@);
        assert(parts.drop_last() =~= done);
        assert(parts.last() == text@.subrange(start as int, n as int));
    }
    if start < n {
        let line = text.substring_char(start, n);
        let owned = line.to_owned();
        proof {
            assert(string_views(lines@.push(owned)) =~= string_views(lines@).push(line@));
        }
        lines.push(owned);
    }
    lines
}

/// `lines` without those that repeat a line before them: of equal lines the
/// first one stays.
pub fn without_repeats(lines: &Vec<String>) -> (kept: Vec<String>)
    ensures
        string_views(kept@) == distinct(string_views(lines@)),
{
    let ghost views = string_views(lines@);
    let mut kept: Vec<String> = Vec::new();
    let mut i: usize = 0;
    proof {
        assert(views.subrange(0, 0) =~= Seq::<Seq<char>>::empty());
        assert(string_views(kept@) =~= distinct(views.subrange(0, 0)));
    }
    while i < lines.len()
        invariant
            views == string_views(lines@),
            i <= lines@.len(),
            string_views(kept@) == distinct(views.subrange(0, i as int)),
        decreases lines@.len() - i,
    {
        proof {
            let upto = views.subrange(0, i + 1);
            assert(upto.drop_last() =~= views.subrange(0, i as int));
            assert(upto.last() == lines@[i as int]@);
        }
        if !contains_str(&kept, lines[i].as_str()) {
            let line = lines[i].clone();
            proof {
                assert(string_views(kept@.push(line)) =~= string_views(kept@).push(line@));
            }
            kept.push(line);
        }
        i += 1;
    }
    proof {
        assert(views.subrange(0, i as int) =~= views);
    }
    kept
}

/// The lines of `message` without those that repeat a line above them, in
/// their order: of equal lines the first one stays.
pub fn distinct_lines(message: &str) -> (kept: Vec<String>)
    ensures
        string_views(kept@) == distinct(text_lines(message@)),
{
    let lines = lines_of(message);
    without_repeats(&lines)
}

/// `message` without the lines that repeat a line above them. What is left
/// repeats no line.
pub fn unique_lines(message: &str) -> (unique: String)
    ensures
        unique@ == unique_lines_spec(message@),
        split_lines(unique@).no_duplicates(),
{
    let kept = distinct_lines(message);
    proof {
        lemma_unique_lines_repeat_nothing(message@);
    }
    join_with_line_feeds(&kept)
}

} // verus!
