//! Cutting a diff into per-file chunks and reading a chunk's file name.

use vstd::prelude::*;
use vstd::string::StrSliceExecFns;
use crate::text::{find_from, first_occurrence, is_white_space, lemma_first_occurrence, lemma_span_end_is, matches_at, occurs_at, span_end, span_end_at, str_views, to_chars};

verus! {

/// How far a search moves on behind an occurrence of `pat`: past the whole
/// occurrence, and by one character where `pat` is empty.
pub open spec fn match_step(pat: Seq<char>) -> int {
    if pat.len() == 0 {
        1
    } else {
        pat.len() as int
    }
}

/// The positions at which a left-to-right search from `from` finds `pat` in
/// `text`, each search resuming behind the occurrence found before it, so that
/// no two of the occurrences overlap.
pub open spec fn match_positions(text: Seq<char>, pat: Seq<char>, from: int) -> Seq<int>
    decreases text.len() + 1 - from,
{
    if from < 0 || from + pat.len() > text.len() {
        Seq::empty()
    } else if occurs_at(text, pat, from) {
        seq![from] + match_positions(text, pat, from + match_step(pat))
    } else {
        match_positions(text, pat, from + 1)
    }
}

/// The pieces into which `text`, from `start` on, falls when it is cut at each
/// of `cuts`; a cut at `start` itself cuts nothing off.
pub open spec fn pieces(text: Seq<char>, start: int, cuts: Seq<int>) -> Seq<Seq<char>>
    decreases cuts.len(),
{
    if cuts.len() == 0 {
        seq![text.subrange(start, text.len() as int)]
    } else if cuts[0] == start {
        pieces(text, start, cuts.drop_first())
    } else {
        seq![text.subrange(start, cuts[0])] + pieces(text, cuts[0], cuts.drop_first())
    }
}

/// Cutting at a list of positions, written out for its first position.
pub proof fn lemma_pieces_cons(text: Seq<char>, start: int, p: int, rest: Seq<int>)
    ensures
        pieces(text, start, seq![p] + rest) == if p == start {
            pieces(text, start, rest)
        } else {
            seq![text.subrange(start, p)] + pieces(text, p, rest)
        },
{
    assert((seq![p] + rest).drop_first() =~= rest);
}

/// `text` cut in front of every occurrence of `prefix` that a left-to-right
/// search finds: each chunk but the first begins with `prefix`.
pub open spec fn split_spec(text: Seq<char>, prefix: Seq<char>) -> Seq<Seq<char>> {
    pieces(text, 0, match_positions(text, prefix, 0))
}

/// Every position of `pat` in `text`, overlapping occurrences included.
pub open spec fn occurrences(text: Seq<char>, pat: Seq<char>) -> Set<int> {
    Set::new(|i: int| occurs_at(text, pat, i))
}

/// No two occurrences of `pat` can overlap: `pat` is not empty, and none of
/// its proper endings is one of its beginnings.
pub open spec fn self_disjoint(pat: Seq<char>) -> bool {
    &&& pat.len() > 0
    &&& forall|d: int|
        0 < d < pat.len() ==> #[trigger] pat.subrange(d, pat.len() as int) != pat.subrange(
            0,
            pat.len() - d,
        )
}

/// The positions in `found` are occurrences of `pat` in `text`, lie at or
/// behind `from`, and grow strictly.
pub open spec fn ordered_matches(text: Seq<char>, pat: Seq<char>, from: int, found: Seq<int>) -> bool {
    &&& forall|i: int|
        0 <= i < found.len() ==> from <= #[trigger] found[i] && occurs_at(text, pat, found[i])
    &&& forall|i: int, j: int| 0 <= i < j < found.len() ==> found[i] < found[j]
}

/// The positions that a search finds are occurrences, lie at or behind the
/// start of the search, and grow strictly.
pub proof fn lemma_match_positions_sorted(text: Seq<char>, pat: Seq<char>, from: int)
    requires
        0 <= from,
    ensures
        ordered_matches(text, pat, from, match_positions(text, pat, from)),
    decreases text.len() + 1 - from,
{
    let found = match_positions(text, pat, from);
    if from + pat.len() > text.len() {
    } else if occurs_at(text, pat, from) {
        let next = from + match_step(pat);
        let rest = match_positions(text, pat, next);
        lemma_match_positions_sorted(text, pat, next);
        assert(found == seq![from] + rest);
        assert forall|i: int| 0 <= i < found.len() implies from <= #[trigger] found[i]
            && occurs_at(text, pat, found[i]) by {
            if i > 0 {
                assert(found[i] == rest[i - 1]);
            }
        }
        assert forall|i: int, j: int| 0 <= i < j < found.len() implies found[i] < found[j] by {
            assert(found[j] == rest[j - 1]);
            if i > 0 {
                assert(found[i] == rest[i - 1]);
            }
        }
    } else {
        lemma_match_positions_sorted(text, pat, from + 1);
    }
}

/// Each of the positions in `found` lies at least `width` behind the one
/// before it.
pub open spec fn apart(found: Seq<int>, width: int) -> bool {
    forall|i: int, j: int|
        0 <= i < j < found.len() ==> (#[trigger] found[i]) + width <= (#[trigger] found[j])
}

/// The occurrences that a search finds do not overlap.
pub proof fn lemma_match_positions_apart(text: Seq<char>, pat: Seq<char>, from: int)
    requires
        0 <= from,
    ensures
        apart(match_positions(text, pat, from), pat.len() as int),
    decreases text.len() + 1 - from,
{
    let found = match_positions(text, pat, from);
    if from + pat.len() > text.len() {
    } else if occurs_at(text, pat, from) {
        let next = from + match_step(pat);
        let rest = match_positions(text, pat, next);
        lemma_match_positions_apart(text, pat, next);
        lemma_match_positions_sorted(text, pat, next);
        assert(found == seq![from] + rest);
        assert forall|i: int, j: int| 0 <= i < j < found.len() implies found[i] + pat.len()
            <= found[j] by {
            assert(found[j] == rest[j - 1]);
            if i > 0 {
                assert(found[i] == rest[i - 1]);
            }
        }
    } else {
        lemma_match_positions_apart(text, pat, from + 1);
    }
}

/// Every chunk but the first begins with an occurrence of the prefix, where
/// the cuts are occurrences that do not overlap.
pub proof fn lemma_pieces_begin(text: Seq<char>, pat: Seq<char>, start: int, cuts: Seq<int>)
    requires
        0 <= start,
        ordered_matches(text, pat, start, cuts),
        apart(cuts, pat.len() as int),
    ensures
        pieces(text, start, cuts).len() >= 1,
        pieces(text, start, cuts)[0] == text.subrange(
            start,
            if cuts.len() == 0 {
                text.len() as int
            } else if cuts[0] > start {
                cuts[0]
            } else if cuts.len() == 1 {
                text.len() as int
            } else {
                cuts[1]
            },
        ),
        forall|i: int|
            1 <= i < pieces(text, start, cuts).len() ==> occurs_at(
                #[trigger] pieces(text, start, cuts)[i],
                pat,
                0,
            ),
    decreases cuts.len(),
{
    if cuts.len() > 0 {
        let rest = cuts.drop_first();
        let first = cuts[0];
        assert(occurs_at(text, pat, first));
        assert(ordered_matches(text, pat, first, rest)) by {
            assert forall|i: int| 0 <= i < rest.len() implies first <= #[trigger] rest[i]
                && occurs_at(text, pat, rest[i]) by {
                assert(rest[i] == cuts[i + 1]);
            }
            assert forall|i: int, j: int| 0 <= i < j < rest.len() implies rest[i] < rest[j] by {
                assert(rest[i] == cuts[i + 1] && rest[j] == cuts[j + 1]);
            }
        }
        assert(apart(rest, pat.len() as int)) by {
            assert forall|i: int, j: int| 0 <= i < j < rest.len() implies (#[trigger] rest[i])
                + pat.len() <= (#[trigger] rest[j]) by {
                assert(rest[i] == cuts[i + 1] && rest[j] == cuts[j + 1]);
            }
        }
        if rest.len() > 0 {
            assert(rest[0] == cuts[1]);
            assert(cuts[0] < cuts[1]);
        }
        if first == start {
            assert(ordered_matches(text, pat, start, rest));
            lemma_pieces_begin(text, pat, start, rest);
        } else {
            lemma_pieces_begin(text, pat, first, rest);
            let tail = pieces(text, first, rest);
            let all = seq![text.subrange(start, first)] + tail;
            let end = if rest.len() == 0 {
                text.len() as int
            } else {
                rest[0]
            };
            assert(tail[0] == text.subrange(first, end));
            assert(first + pat.len() <= end);
            assert(tail[0].subrange(0, pat.len() as int) =~= text.subrange(
                first,
                first + pat.len(),
            ));
            assert forall|i: int| 1 <= i < all.len() implies occurs_at(#[trigger] all[i], pat, 0) by {
                assert(all[i] == tail[i - 1]);
            }
        }
    }
}

/// Every chunk but the first begins with the prefix.
pub proof fn lemma_chunks_begin_with_prefix(text: Seq<char>, prefix: Seq<char>)
    ensures
        forall|i: int|
            1 <= i < split_spec(text, prefix).len() ==> occurs_at(
                #[trigger] split_spec(text, prefix)[i],
                prefix,
                0,
            ),
{
    lemma_match_positions_sorted(text, prefix, 0);
    lemma_match_positions_apart(text, prefix, 0);
    lemma_pieces_begin(text, prefix, 0, match_positions(text, prefix, 0));
}

/// Chunks cut at growing positions, put together again, give back the text
/// from the first chunk's start on.
pub proof fn lemma_pieces_flatten(text: Seq<char>, start: int, cuts: Seq<int>)
    requires
        0 <= start <= text.len(),
        forall|i: int| 0 <= i < cuts.len() ==> start <= #[trigger] cuts[i] <= text.len(),
        forall|i: int, j: int| 0 <= i < j < cuts.len() ==> cuts[i] <= cuts[j],
    ensures
        pieces(text, start, cuts).flatten() == text.subrange(start, text.len() as int),
    decreases cuts.len(),
{
    let whole = text.subrange(start, text.len() as int);
    if cuts.len() == 0 {
        seq![whole].lemma_flatten_one_element();
    } else {
        let rest = cuts.drop_first();
        assert forall|i: int| 0 <= i < rest.len() implies cuts[0] <= #[trigger] rest[i]
            <= text.len() by {
            assert(rest[i] == cuts[i + 1]);
        }
        assert forall|i: int, j: int| 0 <= i < j < rest.len() implies rest[i] <= rest[j] by {
            assert(rest[i] == cuts[i + 1] && rest[j] == cuts[j + 1]);
        }
        if cuts[0] == start {
            lemma_pieces_flatten(text, start, rest);
        } else {
            lemma_pieces_flatten(text, cuts[0], rest);
            let head = text.subrange(start, cuts[0]);
            let tail = pieces(text, cuts[0], rest);
            let all = seq![head] + tail;
            assert(all.first() == head);
            assert(all.drop_first() =~= tail);
            assert(head + text.subrange(cuts[0], text.len() as int) =~= whole);
        }
    }
}

/// Splitting loses nothing and keeps the order: the chunks of a text, put
/// together again, are the text.
pub proof fn lemma_split_concat(text: Seq<char>, prefix: Seq<char>)
    ensures
        split_spec(text, prefix).flatten() == text,
{
    lemma_match_positions_sorted(text, prefix, 0);
    lemma_pieces_flatten(text, 0, match_positions(text, prefix, 0));
    assert(text.subrange(0, text.len() as int) =~= text);
}

/// Cutting at strictly growing positions gives one chunk more than there are
/// cuts, but for a cut at the very start, which cuts nothing off.
pub proof fn lemma_pieces_len(text: Seq<char>, start: int, cuts: Seq<int>)
    requires
        forall|i: int| 0 <= i < cuts.len() ==> start <= #[trigger] cuts[i],
        forall|i: int, j: int| 0 <= i < j < cuts.len() ==> cuts[i] < cuts[j],
    ensures
        pieces(text, start, cuts).len() == if cuts.len() > 0 && cuts[0] == start {
            cuts.len() as int
        } else {
            cuts.len() as int + 1
        },
    decreases cuts.len(),
{
    if cuts.len() > 0 {
        let rest = cuts.drop_first();
        assert forall|i: int| 0 <= i < rest.len() implies cuts[0] < #[trigger] rest[i] by {
            assert(rest[i] == cuts[i + 1]);
        }
        assert forall|i: int, j: int| 0 <= i < j < rest.len() implies rest[i] < rest[j] by {
            assert(rest[i] == cuts[i + 1] && rest[j] == cuts[j + 1]);
        }
        if cuts[0] == start {
            lemma_pieces_len(text, start, rest);
        } else {
            lemma_pieces_len(text, cuts[0], rest);
        }
    }
}

/// A text falls into as many chunks as the search finds occurrences of the
/// prefix, and into one more where the text does not itself begin with it.
pub proof fn lemma_split_len(text: Seq<char>, prefix: Seq<char>)
    ensures
        split_spec(text, prefix).len() == match_positions(text, prefix, 0).len() + if occurs_at(
            text,
            prefix,
            0,
        ) {
            0int
        } else {
            1int
        },
{
    lemma_match_positions_sorted(text, prefix, 0);
    lemma_pieces_len(text, 0, match_positions(text, prefix, 0));
    let found = match_positions(text, prefix, 0);
    if found.len() > 0 && found[0] == 0 {
        assert(occurs_at(text, prefix, found[0]));
    }
}

/// Of a prefix whose occurrences cannot overlap the search misses none.
pub proof fn lemma_match_positions_complete(text: Seq<char>, pat: Seq<char>, from: int)
    requires
        0 <= from,
        self_disjoint(pat),
    ensures
        forall|j: int|
            from <= j && occurs_at(text, pat, j) ==> match_positions(text, pat, from).contains(j),
    decreases text.len() + 1 - from,
{
    let found = match_positions(text, pat, from);
    if from + pat.len() > text.len() {
    } else if occurs_at(text, pat, from) {
        let m = pat.len() as int;
        let rest = match_positions(text, pat, from + m);
        lemma_match_positions_complete(text, pat, from + m);
        assert forall|j: int| from <= j && occurs_at(text, pat, j) implies found.contains(j) by {
            if j == from {
                assert(found[0] == j);
            } else if j < from + m {
                let d = j - from;
                assert(pat.subrange(d, m) =~= text.subrange(from + d, from + m));
                assert(pat.subrange(0, m - d) =~= text.subrange(j, j + m - d));
                assert(false);
            } else {
                assert(rest.contains(j));
                let k = choose|k: int| 0 <= k < rest.len() && rest[k] == j;
                assert(found[k + 1] == j);
            }
        }
    } else {
        lemma_match_positions_complete(text, pat, from + 1);
    }
}

/// Where the occurrences of the prefix cannot overlap, the number of chunks
/// is the number of occurrences, and one more where the text does not itself
/// begin with the prefix.
pub proof fn lemma_chunk_count(text: Seq<char>, prefix: Seq<char>)
    requires
        self_disjoint(prefix),
    ensures
        occurrences(text, prefix).finite(),
        split_spec(text, prefix).len() == occurrences(text, prefix).len() + if occurs_at(
            text,
            prefix,
            0,
        ) {
            0int
        } else {
            1int
        },
{
    let found = match_positions(text, prefix, 0);
    lemma_match_positions_sorted(text, prefix, 0);
    lemma_match_positions_complete(text, prefix, 0);
    lemma_split_len(text, prefix);
    assert(found.no_duplicates());
    assert(found.to_set() =~= occurrences(text, prefix)) by {
        assert forall|j: int| occurrences(text, prefix).contains(j) implies found.to_set().contains(
            j,
        ) by {
            assert(found.contains(j));
        }
    }
    found.unique_seq_to_set();
    vstd::seq_lib::seq_to_set_is_finite(found);
}

/// Splits `text` in front of every occurrence of `prefix`, keeping the prefix
/// at the head of the chunk it starts. What stands before the first occurrence
/// is a chunk of its own; a text without any occurrence is one chunk.
pub fn split_prefix_inclusive<'a>(text: &'a str, prefix: &str) -> (chunks: Vec<&'a str>)
    ensures
        str_views(chunks@) == split_spec(text@, prefix@),
        str_views(chunks@).flatten() == text@,
        chunks@.len() >= 1,
        forall|i: int| 1 <= i < chunks@.len() ==> occurs_at((#[trigger] chunks@[i])@, prefix@, 0),
{
    let chars = to_chars(text);
    let pat = to_chars(prefix);
    let n: usize = chars.len();
    let m: usize = pat.len();
    let step: usize = if m == 0 { 1 } else { m };
    let mut chunks: Vec<&'a str> = Vec::new();
    let mut start: usize = 0;
    let mut pos: usize = 0;
    let mut scanning: bool = m <= n;
    while scanning
        invariant
            chars@ == text@,
            pat@ == prefix@,
            n == text@.len(),
            m == prefix@.len(),
            step == match_step(prefix@),
            start <= pos <= n,
            scanning ==> pos + m <= n,
            split_spec(text@, prefix@) == str_views(chunks@) + pieces(
                text@,
                start as int,
                if scanning {
                    match_positions(text@, prefix@, pos as int)
                } else {
                    Seq::empty()
                },
            ),
        decreases n - pos + (if scanning { 1int } else { 0int }),
    {
        let ghost before = match_positions(text@, prefix@, pos as int);
        if matches_at(&chars, &pat, pos) {
            let ghost rest = match_positions(text@, prefix@, pos + step);
            proof {
                assert(before == seq![pos as int] + rest);
                lemma_pieces_cons(text@, start as int, pos as int, rest);
            }
            if pos != start {
                let chunk = text.substring_char(start, pos);
                proof {
                    assert(str_views(chunks@.push(chunk)) =~= str_views(chunks@) + seq![chunk@]);
                    assert(str_views(chunks@) + (seq![chunk@] + pieces(text@, pos as int, rest))
                        =~= (str_views(chunks@) + seq![chunk@]) + pieces(text@, pos as int, rest));
                }
                chunks.push(chunk);
                start = pos;
            }
            assert(split_spec(text@, prefix@) == str_views(chunks@) + pieces(
                text@,
                start as int,
                rest,
            ));
            if step > n - m - pos {
                assert(rest =~= Seq::<int>::empty());
                scanning = false;
            } else {
                pos += step;
            }
        } else {
            if pos == n - m {
                proof {
                    assert(match_positions(text@, prefix@, pos + 1) =~= Seq::<int>::empty());
                }
                scanning = false;
            } else {
                pos += 1;
            }
        }
    }
    let last = text.substring_char(start, n);
    proof {
        assert(str_views(chunks@.push(last)) =~= str_views(chunks@) + seq![last@]);
    }
    chunks.push(last);
    proof {
        lemma_split_concat(text@, prefix@);
        lemma_chunks_begin_with_prefix(text@, prefix@);
        assert forall|i: int| 1 <= i < chunks@.len() implies occurs_at(
            (#[trigger] chunks@[i])@,
            prefix@,
            0,
        ) by {
            assert(str_views(chunks@)[i] == chunks@[i]@);
        }
    }
    chunks
}

/// The text in front of which a diff is cut into per-file chunks.
pub open spec fn diff_marker() -> Seq<char> {
    "\ndiff --git "@
}

/// The header that names a chunk's file.
pub open spec fn diff_header() -> Seq<char> {
    "diff --git "@
}

/// Two occurrences of the marker cannot overlap: it begins with a line feed
/// and holds no other.
pub proof fn lemma_diff_marker_self_disjoint()
    ensures
        self_disjoint(diff_marker()),
{
    reveal_strlit("\ndiff --git ");
    let pat = diff_marker();
    assert(pat.len() == 12);
    assert forall|d: int| 0 < d < pat.len() implies #[trigger] pat.subrange(d, pat.len() as int)
        != pat.subrange(0, pat.len() - d) by {
        assert(pat.subrange(d, pat.len() as int)[0] == pat[d]);
        assert(pat.subrange(0, pat.len() - d)[0] == pat[0]);
        assert(pat[d] != pat[0]);
    }
}

/// A diff falls into as many chunks as it holds markers, and into one more
/// where it does not itself begin with a marker.
pub proof fn lemma_diff_chunk_count(raw: Seq<char>)
    ensures
        occurrences(raw, diff_marker()).finite(),
        split_spec(raw, diff_marker()).len() == occurrences(raw, diff_marker()).len() + if occurs_at(
            raw,
            diff_marker(),
            0,
        ) {
            0int
        } else {
            1int
        },
{
    lemma_diff_marker_self_disjoint();
    lemma_chunk_count(raw, diff_marker());
}

/// Cuts a diff into its per-file chunks, in the order in which they stand in
/// it. Every marker starts a chunk; what stands before the first marker is the
/// first chunk, so a diff without any marker is a single chunk. Put together
/// again, the chunks are the diff.
pub fn split_diff<'a>(raw: &'a str) -> (chunks: Vec<&'a str>)
    ensures
        str_views(chunks@) == split_spec(raw@, diff_marker()),
        str_views(chunks@).flatten() == raw@,
        forall|i: int|
            1 <= i < chunks@.len() ==> occurs_at((#[trigger] chunks@[i])@, diff_marker(), 0),
        occurrences(raw@, diff_marker()).finite(),
        chunks@.len() == occurrences(raw@, diff_marker()).len() + if occurs_at(
            raw@,
            diff_marker(),
            0,
        ) {
            0int
        } else {
            1int
        },
{
    let chunks = split_prefix_inclusive(raw, "\ndiff --git ");
    proof {
        lemma_diff_chunk_count(raw@);
    }
    chunks
}

/// The next run of characters free of white space in `s` at or behind `from`,
/// as its start and its end, if there is one.
pub open spec fn next_token(s: Seq<char>, from: int) -> Option<(int, int)> {
    let start = span_end(s, from, true);
    if start >= s.len() {
        None
    } else {
        Some((start, span_end(s, start, false)))
    }
}

/// `s` without `prefix` at its head, if it begins with it.
pub open spec fn strip_prefix_spec(s: Seq<char>, prefix: Seq<char>) -> Option<Seq<char>> {
    if occurs_at(s, prefix, 0) {
        Some(s.subrange(prefix.len() as int, s.len() as int))
    } else {
        None
    }
}

/// The file that a chunk is about: behind the first `diff --git ` in the
/// chunk stand two names parted by white space, the old one and the new one;
/// the file is the new one without the `b/` that it must begin with.
pub open spec fn file_name_spec(chunk: Seq<char>) -> Option<Seq<char>> {
    match first_occurrence(chunk, diff_header(), 0) {
        None => None,
        Some(at) => match next_token(chunk, at + diff_header().len()) {
            None => None,
            Some(old_name) => match next_token(chunk, old_name.1) {
                None => None,
                Some(new_name) => strip_prefix_spec(
                    chunk.subrange(new_name.0, new_name.1),
                    "b/"@,
                ),
            },
        },
    }
}

/// No character of `name` is white space.
pub open spec fn unbroken(name: Seq<char>) -> bool {
    forall|i: int| 0 <= i < name.len() ==> !is_white_space(#[trigger] name[i])
}

/// The chunk that begins with the header for a file that went from
/// `old_name` to `new_name`, and goes on with `rest` on the next line.
pub open spec fn headed_chunk(old_name: Seq<char>, new_name: Seq<char>, rest: Seq<char>) -> Seq<
    char,
> {
    diff_header() + "a/"@ + old_name + " "@ + "b/"@ + new_name + "\n"@ + rest
}

/// The file of a chunk for a renamed file is the new name, never the old
/// one: a chunk that begins `diff --git a/old b/new` and goes on on the next
/// line is about `new`, whatever the two names are, as long as they hold no
/// white space.
pub proof fn lemma_renamed_file_has_new_name(
    old_name: Seq<char>,
    new_name: Seq<char>,
    rest: Seq<char>,
)
    requires
        unbroken(old_name),
        unbroken(new_name),
    ensures
        file_name_spec(headed_chunk(old_name, new_name, rest)) == Some(new_name),
{
    reveal_strlit("diff --git ");
    reveal_strlit("a/");
    reveal_strlit(" ");
    reveal_strlit("b/");
    reveal_strlit("\n");
    let header = diff_header();
    let chunk = headed_chunk(old_name, new_name, rest);
    let old_start = header.len() as int;
    let old_end = old_start + 2 + old_name.len();
    let new_start = old_end + 1;
    let new_end = new_start + 2 + new_name.len();
    assert(header.len() == 11);
    assert(chunk.len() == new_end + 1 + rest.len());
    assert(chunk.subrange(0, old_start) =~= header);
    assert(first_occurrence(chunk, header, 0) == Some(0int));
    assert(chunk[old_start] == 'a' && chunk[old_start + 1] == '/');
    assert forall|j: int| old_start <= j < old_end implies !is_white_space(#[trigger] chunk[j]) by {
        if j >= old_start + 2 {
            assert(chunk[j] == old_name[j - old_start - 2]);
        }
    }
    assert(chunk[old_end] == ' ');
    assert(chunk[new_start] == 'b' && chunk[new_start + 1] == '/');
    assert forall|j: int| new_start <= j < new_end implies !is_white_space(#[trigger] chunk[j]) by {
        if j >= new_start + 2 {
            assert(chunk[j] == new_name[j - new_start - 2]);
        }
    }
    assert(chunk[new_end] == '\n');
    lemma_span_end_is(chunk, old_start, old_start, true);
    lemma_span_end_is(chunk, old_start, old_end, false);
    lemma_span_end_is(chunk, old_end, new_start, true);
    lemma_span_end_is(chunk, new_start, new_end, false);
    assert(next_token(chunk, old_start) == Some((old_start, old_end)));
    assert(next_token(chunk, old_end) == Some((new_start, new_end)));
    let token = chunk.subrange(new_start, new_end);
    assert(token.subrange(0, 2) =~= "b/"@);
    assert(token.subrange(2, token.len() as int) =~= new_name);
}

/// Finds the file name in a chunk of the form `diff --git a/name b/name`.
/// For a renamed file this is the new name. A chunk without the header,
/// without two names behind it, or whose second name does not begin with
/// `b/`, has no file name.
///
/// The names are taken to end at white space, and quotes are not undone: for
/// a path that holds white space, which git writes in quotes, the second
/// name is cut short, and mostly no file name is found.
pub fn get_file_name_from_diff<'a>(file_diff: &'a str) -> (name: Option<&'a str>)
    ensures
        match name {
            Some(found) => file_name_spec(file_diff@) == Some(found@),
            None => file_name_spec(file_diff@) is None,
        },
{
    let chars = to_chars(file_diff);
    let header = to_chars("diff --git ");
    let marker = to_chars("b/");
    let n: usize = chars.len();
    let at = match find_from(&chars, &header, 0) {
        Some(at) => at,
        None => {
            return None;
        },
    };
    proof {
        lemma_first_occurrence(chars@, header@, 0);
    }
    let old_start = span_end_at(&chars, at + header.len(), true);
    if old_start >= n {
        return None;
    }
    let old_end = span_end_at(&chars, old_start, false);
    let new_start = span_end_at(&chars, old_end, true);
    if new_start >= n {
        return None;
    }
    let new_end = span_end_at(&chars, new_start, false);
    let ghost token = chars@.subrange(new_start as int, new_end as int);
    if marker.len() > new_end - new_start || !matches_at(&chars, &marker, new_start) {
        proof {
            if occurs_at(token, marker@, 0) {
                assert(chars@.subrange(new_start as int, new_start + marker@.len())
                    =~= token.subrange(0, marker@.len() as int));
            }
        }
        return None;
    }
    proof {
        assert(token.subrange(0, marker@.len() as int) =~= chars@.subrange(
            new_start as int,
            new_start + marker@.len(),
        ));
        assert(token.subrange(marker@.len() as int, token.len() as int) =~= chars@.subrange(
            new_start + marker@.len(),
            new_end as int,
        ));
    }
    Some(file_diff.substring_char(new_start + marker.len(), new_end))
}

} // verus!
